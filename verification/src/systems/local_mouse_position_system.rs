//! The mouse position relative to an entity: relative to the window the
//! entity lies in, and to the entity's own position.

use vstd::prelude::*;

use crate::primitive_types::Vector2I;

verus! {

/// What the mouse position system reads of an entity: its parent (by index
/// among the entities), whether it is a window, and its position.
#[derive(Debug, Copy, Clone, PartialEq, Eq, Structural)]
pub struct EntityNode {
    pub parent: Option<usize>,
    pub is_window: bool,
    pub position: Option<Vector2I>,
}

/// The position of the window above entity `e`, walking up its parents at
/// most `fuel` more times: the first ancestor that is a window gives its
/// position (`None` when it has none); reaching an entity without a parent
/// gives the origin. The walk gives nothing when it does not end in time.
pub open spec fn window_walk(nodes: Seq<EntityNode>, e: int, fuel: nat) -> Option<Option<Vector2I>>
    decreases fuel,
{
    let parent = if 0 <= e < nodes.len() {
        nodes[e].parent
    } else {
        None
    };
    match parent {
        None => Some(Some(Vector2I(0, 0))),
        Some(p) => if p < nodes.len() && nodes[p as int].is_window {
            Some(nodes[p as int].position)
        } else if fuel == 0 {
            None
        } else {
            window_walk(nodes, p as int, (fuel - 1) as nat)
        },
    }
}

/// The mouse position relative to an entity at `position` in a window at
/// `window_position`.
pub open spec fn local_position(mouse: Vector2I, window_position: Vector2I, position: Vector2I) -> Vector2I {
    Vector2I(
        (mouse.0 - (window_position.0 + position.0)) as i64,
        (mouse.1 - (window_position.1 + position.1)) as i64,
    )
}

/// The local mouse position undoes the offsets: adding the window position
/// and the entity's position back gives the mouse position.
pub proof fn lemma_local_position_inverse(mouse: Vector2I, window_position: Vector2I, position: Vector2I)
    requires
        i64::MIN <= mouse.0 - (window_position.0 + position.0) <= i64::MAX,
        i64::MIN <= mouse.1 - (window_position.1 + position.1) <= i64::MAX,
    ensures
        local_position(mouse, window_position, position).0 + window_position.0 + position.0 == mouse.0,
        local_position(mouse, window_position, position).1 + window_position.1 + position.1 == mouse.1,
{
}

/// Keeps the local mouse position of entities up to date.
#[derive(Debug, Copy, Clone)]
pub struct LocalMousePositionSystem;

impl Default for LocalMousePositionSystem {
    fn default() -> (system: Self) {
        LocalMousePositionSystem
    }
}

impl LocalMousePositionSystem {
    pub fn new() -> (system: Self) {
        LocalMousePositionSystem::default()
    }

    /// The position of the window that entity `entity` lies in: the first
    /// of its ancestors that is a window, or the origin when there is none.
    /// `None` when that window has no position, which stops the system.
    /// Parent chains that loop without reaching a window never end, so they
    /// are not callable.
    pub fn window_position(&self, nodes: &Vec<EntityNode>, entity: usize) -> (position: Option<Vector2I>)
        requires
            window_walk(nodes@, entity as int, nodes@.len() as nat) is Some,
        ensures
            Some(position) == window_walk(nodes@, entity as int, nodes@.len() as nat),
    {
        let mut candidate: usize = entity;
        let mut fuel: usize = nodes.len();
        loop
            invariant
                window_walk(nodes@, candidate as int, fuel as nat) == window_walk(
                    nodes@,
                    entity as int,
                    nodes@.len() as nat,
                ),
                window_walk(nodes@, candidate as int, fuel as nat) is Some,
            decreases fuel,
        {
            let parent = if candidate < nodes.len() {
                nodes[candidate].parent
            } else {
                None
            };
            match parent {
                None => {
                    return Some(Vector2I(0, 0));
                },
                Some(p) => {
                    if p < nodes.len() && nodes[p].is_window {
                        return nodes[p].position;
                    }
                    candidate = p;
                    fuel = fuel - 1;
                },
            }
        }
    }

    /// The mouse position relative to an entity: the mouse position minus
    /// the window position and minus the entity's global position (its
    /// position when it has no global one). Overflow panics, so it is not
    /// callable.
    pub fn local_mouse_position(
        &self,
        mouse: Vector2I,
        window_position: Vector2I,
        global_position: Option<Vector2I>,
        position: Vector2I,
    ) -> (local: Vector2I)
        requires
            ({
                let p = match global_position {
                    Some(g) => g,
                    None => position,
                };
                &&& i64::MIN <= window_position.0 + p.0 <= i64::MAX
                &&& i64::MIN <= window_position.1 + p.1 <= i64::MAX
                &&& i64::MIN <= mouse.0 - (window_position.0 + p.0) <= i64::MAX
                &&& i64::MIN <= mouse.1 - (window_position.1 + p.1) <= i64::MAX
            }),
        ensures
            local == local_position(
                mouse,
                window_position,
                match global_position {
                    Some(g) => g,
                    None => position,
                },
            ),
    {
        let p = match global_position {
            Some(g) => g,
            None => position,
        };
        mouse.minus(window_position.plus(p))
    }
}

} // verus!
