//! A bounded two-dimensional grid with reward and effect overrides.

use vstd::prelude::*;

use crate::environment::{Environment, Reward, MDP};

verus! {

/// A cell `(x, y)` of the grid.
pub type GridIndex = (i32, i32);

/// A rectangle of cells, given by its bottom-left corner and its size, that
/// carries an override value.
pub struct Region<V> {
    pub corner: GridIndex,
    pub size: GridIndex,
    pub value: V,
}

/// Whether the rectangle at `corner` of `size` holds the cell `p`.
pub open spec fn covers(corner: GridIndex, size: GridIndex, p: GridIndex) -> bool {
    &&& corner.0 <= p.0 < corner.0 + size.0
    &&& corner.1 <= p.1 < corner.1 + size.1
}

/// The override that `regions` give to `p`: the value of the last region
/// holding `p`, so that later regions win over earlier ones.
pub open spec fn mask_at<V>(regions: Seq<Region<V>>, p: GridIndex) -> Option<V>
    decreases regions.len(),
{
    if regions.len() == 0 {
        None
    } else {
        let last = regions.last();
        if covers(last.corner, last.size, p) {
            Some(last.value)
        } else {
            mask_at(regions.drop_last(), p)
        }
    }
}

/// Adds the rectangle at `corner` of `size` with `value` on top of `to`.
fn rect_insert<V: Copy>(corner: GridIndex, size: GridIndex, value: V, to: &mut Vec<Region<V>>)
    ensures
        final(to)@ == old(to)@.push(Region { corner, size, value }),
        forall|p: GridIndex|
            #[trigger] mask_at(final(to)@, p) == if covers(corner, size, p) {
                Some(value)
            } else {
                mask_at(old(to)@, p)
            },
{
    to.push(Region { corner, size, value });
    assert forall|p: GridIndex| #[trigger] mask_at(to@, p) == if covers(corner, size, p) {
        Some(value)
    } else {
        mask_at(old(to)@, p)
    } by {
        assert(to@.drop_last() == old(to)@);
    }
}

/// Looks `p` up in `regions`, the last region holding it winning.
fn mask_lookup<V: Copy>(regions: &Vec<Region<V>>, p: GridIndex) -> (r: Option<V>)
    ensures
        r == mask_at(regions@, p),
{
    let mut i: usize = regions.len();
    assert(regions@.subrange(0, i as int) =~= regions@);
    while i > 0
        invariant
            i <= regions@.len(),
            mask_at(regions@, p) == mask_at(regions@.subrange(0, i as int), p),
        decreases i,
    {
        let region = &regions[i - 1];
        proof {
            let prefix = regions@.subrange(0, i as int);
            assert(prefix.last() == regions@[i - 1]);
            assert(prefix.drop_last() == regions@.subrange(0, i - 1));
        }
        if region.corner.0 as i64 <= p.0 as i64 && (p.0 as i64) < region.corner.0 as i64
            + region.size.0 as i64 && region.corner.1 as i64 <= p.1 as i64 && (p.1 as i64)
            < region.corner.1 as i64 + region.size.1 as i64 {
            return Some(region.value);
        }
        i = i - 1;
    }
    assert(regions@.subrange(0, 0) =~= Seq::<Region<V>>::empty());
    None
}

/// What happens to the agent on entering a cell.
#[derive(Clone, Copy, Debug, PartialEq, Eq)]
pub enum StateEffect {
    /// The agent is sent back to the start cell.
    BackToStart,
    /// The agent is moved on by a further displacement (clamped to the grid).
    MoveBy(GridIndex),
}

/// `v` clamped to `[0, hi]`.
pub open spec fn clamp(v: int, hi: int) -> int {
    if v > hi {
        if hi < 0 { 0 } else { hi }
    } else if v < 0 {
        0
    } else {
        v
    }
}

/// The cell reached from `p` by displacement `d` in a grid of `dims`, each
/// coordinate clamped to the grid.
pub open spec fn displaced(d: GridIndex, dims: GridIndex, p: GridIndex) -> GridIndex {
    (clamp(p.0 + d.0, dims.0 - 1) as i32, clamp(p.1 + d.1, dims.1 - 1) as i32)
}

/// Whether `p` lies in a grid of `dims`.
pub open spec fn in_grid(dims: GridIndex, p: GridIndex) -> bool {
    0 <= p.0 < dims.0 && 0 <= p.1 < dims.1
}

/// Applies a move in the bounds of the grid space ((0, 0) to (w - 1, h - 1)).
fn apply_displacement(d: GridIndex, dims: GridIndex, p: GridIndex) -> (r: GridIndex)
    requires
        dims.0 >= 1,
        dims.1 >= 1,
    ensures
        r == displaced(d, dims, p),
        in_grid(dims, r),
{
    let x: i64 = p.0 as i64 + d.0 as i64;
    let y: i64 = p.1 as i64 + d.1 as i64;
    let hx: i64 = dims.0 as i64 - 1;
    let hy: i64 = dims.1 as i64 - 1;
    let x: i64 = if x > hx { hx } else if x < 0 { 0 } else { x };
    let y: i64 = if y > hy { hy } else if y < 0 { 0 } else { y };
    (x as i32, y as i32)
}

#[derive(Clone, Copy, Debug, PartialEq, Eq, Hash, Structural)]
pub enum GridWorldAction {
    Left,
    Right,
    Up,
    Down,
}

impl GridWorldAction {
    pub open spec fn spec_displacement(self) -> GridIndex {
        match self {
            GridWorldAction::Left => (-1i32, 0i32),
            GridWorldAction::Right => (1i32, 0i32),
            GridWorldAction::Up => (0i32, 1i32),
            GridWorldAction::Down => (0i32, -1i32),
        }
    }

    /// The unit move of the action: Up increases `y`, Right increases `x`.
    pub fn displacement(self) -> (r: GridIndex)
        ensures
            r == self.spec_displacement(),
    {
        match self {
            GridWorldAction::Left => (-1, 0),
            GridWorldAction::Right => (1, 0),
            GridWorldAction::Up => (0, 1),
            GridWorldAction::Down => (0, -1),
        }
    }
}

/// The layout of a grid world: its size, start and end cells, the reward of
/// an ordinary transition, and the reward and effect overrides.
pub struct GridWorldDefinition {
    dimensions: GridIndex,
    start_state: GridIndex,
    end_state: GridIndex,
    default_reward: Reward,
    reward_mask: Vec<Region<Reward>>,
    effect_mask: Vec<Region<StateEffect>>,
}

impl GridWorldDefinition {
    pub closed spec fn dimensions(&self) -> GridIndex {
        self.dimensions
    }

    pub closed spec fn start(&self) -> GridIndex {
        self.start_state
    }

    pub closed spec fn end(&self) -> GridIndex {
        self.end_state
    }

    pub closed spec fn default_reward(&self) -> Reward {
        self.default_reward
    }

    /// The reward overrides, oldest first.
    pub closed spec fn rewards(&self) -> Seq<Region<Reward>> {
        self.reward_mask@
    }

    /// The effect overrides, oldest first.
    pub closed spec fn effects(&self) -> Seq<Region<StateEffect>> {
        self.effect_mask@
    }

    /// A definition is usable when the grid has at least one cell and the
    /// start cell lies in it.
    pub open spec fn wf(&self) -> bool {
        &&& self.dimensions().0 >= 1
        &&& self.dimensions().1 >= 1
        &&& in_grid(self.dimensions(), self.start())
    }

    /// The reward for entering `p`, before the terminal override.
    pub open spec fn reward_at(&self, p: GridIndex) -> Reward {
        match mask_at(self.rewards(), p) {
            Some(r) => r,
            None => self.default_reward(),
        }
    }

    /// Where the agent ends up after entering `p`.
    pub open spec fn settle(&self, p: GridIndex) -> GridIndex {
        match mask_at(self.effects(), p) {
            None => p,
            Some(StateEffect::BackToStart) => self.start(),
            Some(StateEffect::MoveBy(d)) => displaced(d, self.dimensions(), p),
        }
    }

    /// The destination and reward of taking `action` at `p`: the move is
    /// clamped to the grid, the reward is that of the entered cell, the
    /// entered cell's effect then applies, and arriving at the end cell pays 0.
    pub open spec fn step(&self, p: GridIndex, action: GridWorldAction) -> (GridIndex, Reward) {
        let next = displaced(action.spec_displacement(), self.dimensions(), p);
        let dest = self.settle(next);
        (dest, if dest == self.end() { 0 } else { self.reward_at(next) })
    }

    pub fn new(
        dimensions: GridIndex,
        start_state: GridIndex,
        end_state: GridIndex,
        default_reward: Reward,
    ) -> (r: GridWorldDefinition)
        requires
            dimensions.0 >= 1,
            dimensions.1 >= 1,
            in_grid(dimensions, start_state),
        ensures
            r.wf(),
            r.dimensions() == dimensions,
            r.start() == start_state,
            r.end() == end_state,
            r.default_reward() == default_reward,
            r.rewards() == Seq::<Region<Reward>>::empty(),
            r.effects() == Seq::<Region<StateEffect>>::empty(),
    {
        GridWorldDefinition {
            dimensions,
            start_state,
            end_state,
            default_reward,
            reward_mask: Vec::new(),
            effect_mask: Vec::new(),
        }
    }

    /// Applies a uniform reward to a rectangle (bottom-left corner, then
    /// width and height); it wins over earlier overrides of the same cells.
    pub fn apply_reward(&mut self, corner: GridIndex, size: GridIndex, reward: Reward)
        ensures
            final(self).rewards() == old(self).rewards().push(
                Region { corner, size, value: reward },
            ),
            forall|p: GridIndex|
                #[trigger] final(self).reward_at(p) == if covers(corner, size, p) {
                    reward
                } else {
                    old(self).reward_at(p)
                },
            final(self).effects() == old(self).effects(),
            final(self).dimensions() == old(self).dimensions(),
            final(self).start() == old(self).start(),
            final(self).end() == old(self).end(),
            final(self).default_reward() == old(self).default_reward(),
    {
        rect_insert(corner, size, reward, &mut self.reward_mask);
    }

    /// Applies a uniform effect to a rectangle (bottom-left corner, then
    /// width and height); it wins over earlier overrides of the same cells.
    pub fn apply_effect(&mut self, corner: GridIndex, size: GridIndex, effect: StateEffect)
        ensures
            final(self).effects() == old(self).effects().push(
                Region { corner, size, value: effect },
            ),
            forall|p: GridIndex|
                #[trigger] mask_at(final(self).effects(), p) == if covers(corner, size, p) {
                    Some(effect)
                } else {
                    mask_at(old(self).effects(), p)
                },
            final(self).rewards() == old(self).rewards(),
            final(self).dimensions() == old(self).dimensions(),
            final(self).start() == old(self).start(),
            final(self).end() == old(self).end(),
            final(self).default_reward() == old(self).default_reward(),
    {
        rect_insert(corner, size, effect, &mut self.effect_mask);
    }

    /// The world laid out by this definition, with the agent at the start.
    pub fn world(self) -> (r: GridWorld)
        requires
            self.wf(),
        ensures
            r.definition() == self,
            r.state() == self.start(),
            r.wf(),
    {
        GridWorld::new(self)
    }
}

/// The cell reached from `p` by taking `actions` in turn; once at the end
/// cell, further actions are refused and the agent stays there.
pub open spec fn walk(
    definition: GridWorldDefinition,
    p: GridIndex,
    actions: Seq<GridWorldAction>,
) -> GridIndex
    decreases actions.len(),
{
    if actions.len() == 0 {
        p
    } else {
        let q = walk(definition, p, actions.drop_last());
        if q == definition.end() {
            q
        } else {
            definition.step(q, actions.last()).0
        }
    }
}

proof fn lemma_step_in_grid(definition: GridWorldDefinition, p: GridIndex, action: GridWorldAction)
    requires
        definition.wf(),
    ensures
        in_grid(definition.dimensions(), definition.step(p, action).0),
{
}

/// From any cell of the grid, every sequence of actions keeps the agent
/// inside the grid.
pub proof fn lemma_walk_in_grid(
    definition: GridWorldDefinition,
    p: GridIndex,
    actions: Seq<GridWorldAction>,
)
    requires
        definition.wf(),
        in_grid(definition.dimensions(), p),
    ensures
        in_grid(definition.dimensions(), walk(definition, p, actions)),
    decreases actions.len(),
{
    if actions.len() > 0 {
        lemma_walk_in_grid(definition, p, actions.drop_last());
        lemma_step_in_grid(definition, walk(definition, p, actions.drop_last()), actions.last());
    }
}

/// A grid world with the agent at some cell.
pub struct GridWorld {
    definition: GridWorldDefinition,
    current_state: GridIndex,
}

impl GridWorld {
    pub closed spec fn definition(&self) -> GridWorldDefinition {
        self.definition
    }

    pub fn new(definition: GridWorldDefinition) -> (r: GridWorld)
        requires
            definition.wf(),
        ensures
            r.definition() == definition,
            r.state() == definition.start(),
            r.wf(),
    {
        GridWorld { current_state: definition.start_state, definition }
    }
}

impl MDP for GridWorld {

}

impl Environment for GridWorld {
    type Action = GridWorldAction;

    type State = GridIndex;

    /// The definition is usable and the agent stands inside the grid.
    closed spec fn wf(&self) -> bool {
        self.definition.wf() && in_grid(self.definition.dimensions, self.current_state)
    }

    closed spec fn state(&self) -> GridIndex {
        self.current_state
    }

    open spec fn terminal(&self) -> GridIndex {
        self.definition().end()
    }

    open spec fn valid_state(&self, s: GridIndex) -> bool {
        true
    }

    /// The step is the definition's `step` from the current cell, unless the
    /// agent is at the end cell, where nothing changes.
    open spec fn steps_to(
        &self,
        action: GridWorldAction,
        after: GridWorld,
        outcome: Option<(GridIndex, Reward)>,
    ) -> bool {
        if self.state() == self.definition().end() {
            outcome is None && after == *self
        } else {
            let (dest, reward) = self.definition().step(self.state(), action);
            &&& outcome == Some((dest, reward))
            &&& after.definition() == self.definition()
            &&& after.state() == dest
        }
    }

    open spec fn actions(&self, s: GridIndex) -> Seq<GridWorldAction> {
        seq![
            GridWorldAction::Left,
            GridWorldAction::Right,
            GridWorldAction::Up,
            GridWorldAction::Down,
        ]
    }

    fn take_action(&mut self, action: GridWorldAction) -> (r: Option<(GridIndex, Reward)>)
        ensures
            final(self).definition() == old(self).definition(),
            r == if old(self).state() == old(self).definition().end() {
                None
            } else {
                Some(old(self).definition().step(old(self).state(), action))
            },
            in_grid(final(self).definition().dimensions(), final(self).state()),
            r matches Some((s, rw)) ==> (s == final(self).definition().end() ==> rw == 0),
    {
        if self.current_state.0 == self.definition.end_state.0 && self.current_state.1
            == self.definition.end_state.1 {
            return None;
        }
        let dims = self.definition.dimensions;
        let next_state = apply_displacement(action.displacement(), dims, self.current_state);
        let reward = match mask_lookup(&self.definition.reward_mask, next_state) {
            Some(r) => r,
            None => self.definition.default_reward,
        };
        let effect_state = match mask_lookup(&self.definition.effect_mask, next_state) {
            None => next_state,
            Some(effect) => match effect {
                StateEffect::BackToStart => self.definition.start_state,
                StateEffect::MoveBy(displacement) => apply_displacement(
                    displacement,
                    dims,
                    next_state,
                ),
            },
        };
        let reward = if effect_state.0 == self.definition.end_state.0 && effect_state.1
            == self.definition.end_state.1 {
            0
        } else {
            reward
        };
        self.current_state = effect_state;
        Some((effect_state, reward))
    }

    fn available_actions(&self, state: GridIndex) -> (r: Vec<GridWorldAction>) {
        let r = vec![
            GridWorldAction::Left,
            GridWorldAction::Right,
            GridWorldAction::Up,
            GridWorldAction::Down,
        ];
        assert(r@ =~= self.actions(state));
        r
    }

    fn current_state(&self) -> (r: GridIndex) {
        self.current_state
    }

    fn terminated(&self) -> (r: bool) {
        self.current_state.0 == self.definition.end_state.0 && self.current_state.1
            == self.definition.end_state.1
    }

    fn is_terminal(&self, state: GridIndex) -> (r: bool) {
        state.0 == self.definition.end_state.0 && state.1 == self.definition.end_state.1
    }

    fn get_terminal(&self) -> (r: GridIndex) {
        self.definition.end_state
    }

    fn same_state(a: &GridIndex, b: &GridIndex) -> (r: bool) {
        a.0 == b.0 && a.1 == b.1
    }

    fn same_action(a: &GridWorldAction, b: &GridWorldAction) -> (r: bool) {
        *a == *b
    }
}

} // verus!
