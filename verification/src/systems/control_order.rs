//! The order in which the renderer draws controls: the controls of the
//! window's entity tree, each with the depth it inherits, sorted.

use vstd::prelude::*;
use vstd::relations::{sorted_by, total_ordering};

verus! {

/// An entity of the scene tree as the renderer reads it: its identifier,
/// whether it is a control, its own depth if it has one, and its children
/// (by index among the entities).
#[derive(Debug, Clone)]
pub struct SceneNode {
    pub id: u64,
    pub is_control: bool,
    pub z_index: Option<i64>,
    pub children: Vec<usize>,
}

/// The depth an entity draws at and hands to its children: a control with a
/// depth of its own takes it; every other entity keeps the inherited one.
pub open spec fn depth_of(node: SceneNode, inherited: i64) -> i64 {
    if node.is_control {
        match node.z_index {
            Some(z) => z,
            None => inherited,
        }
    } else {
        inherited
    }
}

/// The controls under entity `e` (itself first, then those under each child
/// in order), each with its depth, descending at most `fuel` more levels.
/// Indices outside the entities stand for entities without components.
/// Nothing comes back when the tree is deeper than the fuel allows.
pub open spec fn controls_under(nodes: Seq<SceneNode>, e: int, inherited: i64, fuel: nat) -> Option<Seq<(u64, i64)>>
    decreases fuel, 0int,
{
    if e < 0 || e >= nodes.len() {
        Some(Seq::empty())
    } else {
        let node = nodes[e];
        let z = depth_of(node, inherited);
        let own: Seq<(u64, i64)> = if node.is_control {
            seq![(node.id, z)]
        } else {
            Seq::empty()
        };
        if node.children@.len() == 0 {
            Some(own)
        } else if fuel == 0 {
            None
        } else {
            match controls_under_list(nodes, node.children@, z, (fuel - 1) as nat) {
                Some(rest) => Some(own + rest),
                None => None,
            }
        }
    }
}

/// The controls under each of the entities `kids`, one after the other.
pub open spec fn controls_under_list(nodes: Seq<SceneNode>, kids: Seq<usize>, inherited: i64, fuel: nat) -> Option<
    Seq<(u64, i64)>,
>
    decreases fuel, kids.len() + 1,
{
    if kids.len() == 0 {
        Some(Seq::empty())
    } else {
        match (
            controls_under(nodes, kids[0] as int, inherited, fuel),
            controls_under_list(nodes, kids.drop_first(), inherited, fuel),
        ) {
            (Some(first), Some(rest)) => Some(first + rest),
            _ => None,
        }
    }
}

/// Controls ordered by identifier, then by depth.
pub open spec fn control_leq(a: (u64, i64), b: (u64, i64)) -> bool {
    a.0 < b.0 || (a.0 == b.0 && a.1 <= b.1)
}

/// `control_leq` as a relation.
pub open spec fn control_order_relation() -> spec_fn((u64, i64), (u64, i64)) -> bool {
    |a: (u64, i64), b: (u64, i64)| control_leq(a, b)
}

/// Ordering by identifier, then by depth, is a total order.
pub proof fn lemma_control_order_total()
    ensures
        total_ordering(control_order_relation()),
{
    let leq = control_order_relation();
    assert forall|x: (u64, i64), y: (u64, i64)| #[trigger] leq(x, y) && #[trigger] leq(y, x) implies x == y by {
    }
    assert forall|x: (u64, i64), y: (u64, i64), z: (u64, i64)| #[trigger] leq(x, y) && #[trigger] leq(y, z) implies leq(
        x,
        z,
    ) by {
    }
}

fn collect_controls(nodes: &Vec<SceneNode>, e: usize, inherited: i64, fuel: usize, out: &mut Vec<(u64, i64)>)
    requires
        controls_under(nodes@, e as int, inherited, fuel as nat) is Some,
    ensures
        final(out)@ == old(out)@ + controls_under(nodes@, e as int, inherited, fuel as nat)->0,
    decreases fuel,
{
    if e >= nodes.len() {
        assert(old(out)@ + Seq::<(u64, i64)>::empty() =~= old(out)@);
        return;
    }
    let node = &nodes[e];
    let z = if node.is_control {
        match node.z_index {
            Some(z) => z,
            None => inherited,
        }
    } else {
        inherited
    };
    let ghost start = out@;
    let ghost own: Seq<(u64, i64)> = if node.is_control { seq![(node.id, z)] } else { Seq::empty() };
    if node.is_control {
        out.push((node.id, z));
    }
    assert(out@ =~= start + own);
    if node.children.len() == 0 {
        return;
    }
    let ghost kids = node.children@;
    let ghost all = controls_under_list(nodes@, kids, z, (fuel - 1) as nat)->0;
    let mut k: usize = 0;
    assert(kids.subrange(0, kids.len() as int) =~= kids);
    while k < node.children.len()
        invariant
            0 <= k <= kids.len(),
            kids == node.children@,
            fuel > 0,
            node == nodes@[e as int],
            controls_under_list(nodes@, kids.subrange(k as int, kids.len() as int), z, (fuel - 1) as nat) is Some,
            out@ + controls_under_list(nodes@, kids.subrange(k as int, kids.len() as int), z, (fuel - 1) as nat)->0
                == start + own + all,
        decreases kids.len() - k,
    {
        let ghost rest = kids.subrange(k as int, kids.len() as int);
        assert(rest.drop_first() =~= kids.subrange(k + 1, kids.len() as int));
        assert(rest[0] == kids[k as int]);
        collect_controls(nodes, node.children[k], z, fuel - 1, out);
        k = k + 1;
    }
    assert(kids.subrange(kids.len() as int, kids.len() as int) =~= Seq::<usize>::empty());
    assert(start + own + all =~= start + (own + all));
}

/// Sorts the controls by identifier, then by depth.
fn sort_controls(items: &Vec<(u64, i64)>) -> (sorted: Vec<(u64, i64)>)
    ensures
        sorted@ == items@.sort_by(control_order_relation()),
{
    broadcast use vstd::seq_lib::group_to_multiset_ensures;
    broadcast use vstd::multiset::group_multiset_axioms;
    let ghost leq = control_order_relation();
    let mut out: Vec<(u64, i64)> = Vec::new();
    let mut i: usize = 0;
    while i < items.len()
        invariant
            0 <= i <= items@.len(),
            leq == control_order_relation(),
            sorted_by(out@, leq),
            out@.to_multiset() == items@.subrange(0, i as int).to_multiset(),
        decreases items@.len() - i,
    {
        let x = items[i];
        let mut p: usize = 0;
        while p < out.len() && (out[p].0 < x.0 || (out[p].0 == x.0 && out[p].1 <= x.1))
            invariant
                0 <= p <= out@.len(),
                forall|j: int| 0 <= j < p ==> control_leq(#[trigger] out@[j], x),
            decreases out@.len() - p,
        {
            p = p + 1;
        }
        let ghost before = out@;
        out.insert(p, x);
        proof {
            assert(out@.remove(p as int) =~= before);
            assert(out@[p as int] == x);
            out@.to_multiset_ensures();
            assert(out@.contains(x));
            assert(out@.to_multiset().count(x) > 0);
            vstd::seq_lib::to_multiset_remove(out@, p as int);
            assert(before.to_multiset() == out@.to_multiset().remove(x));
            assert(out@.to_multiset() =~= before.to_multiset().insert(x));
            assert(items@.subrange(0, i + 1) =~= items@.subrange(0, i as int).push(x));
            vstd::seq_lib::to_multiset_build(items@.subrange(0, i as int), x);
            assert(out@.to_multiset() == items@.subrange(0, i + 1).to_multiset());
            assert forall|a: int, b: int| 0 <= a < b < out@.len() implies #[trigger] leq(out@[a], out@[b]) by {
                if b < p {
                    assert(out@[a] == before[a] && out@[b] == before[b]);
                } else if b == p {
                    assert(out@[a] == before[a]);
                } else if a < p {
                    assert(out@[a] == before[a] && out@[b] == before[b - 1]);
                    assert(!control_leq(before[p as int], x));
                    assert(leq(before[a], before[b - 1]));
                    if b - 1 > p {
                        assert(leq(before[p as int], before[b - 1]));
                    }
                } else if a == p {
                    assert(out@[b] == before[b - 1]);
                    assert(!control_leq(before[p as int], x));
                    if b - 1 > p {
                        assert(leq(before[p as int], before[b - 1]));
                    }
                } else {
                    assert(out@[a] == before[a - 1] && out@[b] == before[b - 1]);
                }
            }
        }
        i = i + 1;
    }
    proof {
        assert(items@.subrange(0, items@.len() as int) =~= items@);
        lemma_control_order_total();
        items@.lemma_sort_by_ensures(leq);
        vstd::seq_lib::lemma_sorted_unique(out@, items@.sort_by(leq), leq);
    }
    out
}

/// The controls of the entity tree under `root`, each with the depth it
/// draws at (its own, or the one inherited from its closest ancestor
/// control that has one, 0 at the root), sorted by identifier and then by
/// depth. Trees that loop never end being walked, so they are not callable.
pub fn control_order(nodes: &Vec<SceneNode>, root: usize) -> (order: Vec<(u64, i64)>)
    requires
        controls_under(nodes@, root as int, 0, nodes@.len() as nat) is Some,
    ensures
        order@ == controls_under(nodes@, root as int, 0, nodes@.len() as nat)->0.sort_by(control_order_relation()),
{
    let mut found: Vec<(u64, i64)> = Vec::new();
    collect_controls(nodes, root, 0, nodes.len(), &mut found);
    assert(found@ =~= controls_under(nodes@, root as int, 0, nodes@.len() as nat)->0);
    sort_controls(&found)
}

} // verus!
