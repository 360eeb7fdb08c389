//! Bar layout order: which items go in which placement group, and in what
//! order they are stacked.
use vstd::prelude::*;
use crate::status_bar::components::BarPosition;

verus! {

/// Placement group of a bar item.
#[derive(Clone, Copy, Debug, PartialEq, Eq, Structural)]
pub enum LayoutPosition {
    Left,
    Center,
    Right,
    /// Left of notch.
    Q,
    /// Right of notch.
    E,
}

/// The placement group of a bar position.
pub fn layout_position(pos: &BarPosition) -> (r: LayoutPosition)
    ensures
        r == (match *pos {
            BarPosition::Left => LayoutPosition::Left,
            BarPosition::Right => LayoutPosition::Right,
            BarPosition::Center => LayoutPosition::Center,
            BarPosition::Q => LayoutPosition::Q,
            BarPosition::E => LayoutPosition::E,
        }),
{
    match pos {
        BarPosition::Left => LayoutPosition::Left,
        BarPosition::Right => LayoutPosition::Right,
        BarPosition::Center => LayoutPosition::Center,
        BarPosition::Q => LayoutPosition::Q,
        BarPosition::E => LayoutPosition::E,
    }
}

/// What the layout reads of a bar item: its group and its sort order.
#[derive(Clone, Copy, Debug, PartialEq, Eq, Structural)]
pub struct BarItemKey {
    pub position: LayoutPosition,
    pub order: u32,
}

/// Item `a` comes before item `b`: lower order first, ties by index.
pub open spec fn before(items: Seq<BarItemKey>, a: usize, b: usize) -> bool {
    items[a as int].order < items[b as int].order || (items[a as int].order == items[b as int].order && a < b)
}

/// `v` lists exactly the items of group `g` among the first `n` items, each
/// once, in stacking order.
pub open spec fn is_group_order(items: Seq<BarItemKey>, g: LayoutPosition, n: int, v: Seq<usize>) -> bool {
    &&& forall|k: int| 0 <= k < v.len() ==> #[trigger] v[k] < n && items[v[k] as int].position == g
    &&& forall|j: int| 0 <= j < n && items[j].position == g ==> v.contains(j as usize)
    &&& forall|a: int, b: int| 0 <= a < b < v.len() ==> before(items, #[trigger] v[a], #[trigger] v[b])
}

/// The indices of the items in group `g`, sorted by order (stable: equal
/// orders keep their input order).
pub fn group_order(items: &[BarItemKey], g: LayoutPosition) -> (r: Vec<usize>)
    ensures
        is_group_order(items@, g, items@.len() as int, r@),
{
    let mut v: Vec<usize> = Vec::new();
    let mut i: usize = 0;
    while i < items.len()
        invariant
            i <= items@.len(),
            is_group_order(items@, g, i as int, v@),
        decreases items@.len() - i,
    {
        if items[i].position == g {
            let ord = items[i].order;
            let mut p: usize = 0;
            while p < v.len() && items[v[p]].order <= ord
                invariant
                    p <= v@.len(),
                    is_group_order(items@, g, i as int, v@),
                    i < items@.len(),
                    ord == items@[i as int].order,
                    forall|k: int| 0 <= k < p ==> items@[#[trigger] v@[k] as int].order <= ord,
                decreases v@.len() - p,
            {
                p = p + 1;
            }
            proof {
                lemma_insert_keeps_order(items@, g, i as int, v@, p as int);
            }
            v.insert(p, i);
        }
        i = i + 1;
    }
    v
}

/// Inserting item `i` after every member of order at most its own keeps
/// the group order.
proof fn lemma_insert_keeps_order(items: Seq<BarItemKey>, g: LayoutPosition, i: int, old_v: Seq<usize>, p: int)
    requires
        is_group_order(items, g, i, old_v),
        0 <= i < items.len(),
        i < usize::MAX,
        items[i].position == g,
        0 <= p <= old_v.len(),
        forall|k: int| 0 <= k < p ==> items[#[trigger] old_v[k] as int].order <= items[i].order,
        p < old_v.len() ==> items[old_v[p] as int].order > items[i].order,
    ensures
        is_group_order(items, g, i + 1, old_v.insert(p, i as usize)),
{
    let v = old_v.insert(p, i as usize);
    let ord = items[i].order;
    assert forall|k: int| 0 <= k < v.len() implies #[trigger] v[k] < i + 1 && items[v[k] as int].position == g by {
        if k < p {
            assert(v[k] == old_v[k]);
        } else if k > p {
            assert(v[k] == old_v[k - 1]);
        }
    }
    assert forall|j: int| 0 <= j < i + 1 && items[j].position == g implies v.contains(j as usize) by {
        if j == i {
            assert(v[p] == i as usize);
        } else {
            assert(old_v.contains(j as usize));
            let k = choose|k: int| 0 <= k < old_v.len() && old_v[k] == j as usize;
            if k < p {
                assert(v[k] == j as usize);
            } else {
                assert(v[k + 1] == j as usize);
            }
        }
    }
    assert forall|a: int, b: int| 0 <= a < b < v.len() implies before(items, #[trigger] v[a], #[trigger] v[b]) by {
        if b < p {
            assert(v[a] == old_v[a] && v[b] == old_v[b]);
        } else if a > p {
            assert(v[a] == old_v[a - 1] && v[b] == old_v[b - 1]);
        } else if a < p && b > p {
            assert(v[a] == old_v[a] && v[b] == old_v[b - 1]);
        } else if a == p {
            assert(v[b] == old_v[b - 1]);
            assert(old_v[b - 1] < i);
            if b - 1 > p {
                assert(before(items, old_v[p], old_v[b - 1]));
            }
        } else {
            assert(v[a] == old_v[a]);
            assert(old_v[a] < i);
        }
    }
}

/// The stacking order of every placement group.
pub struct LayoutGroups {
    pub left: Vec<usize>,
    pub center: Vec<usize>,
    pub right: Vec<usize>,
    pub q: Vec<usize>,
    pub e: Vec<usize>,
}

/// Groups the items of a bar and orders each group for stacking.
pub fn layout_groups(items: &[BarItemKey]) -> (r: LayoutGroups)
    ensures
        is_group_order(items@, LayoutPosition::Left, items@.len() as int, r.left@),
        is_group_order(items@, LayoutPosition::Center, items@.len() as int, r.center@),
        is_group_order(items@, LayoutPosition::Right, items@.len() as int, r.right@),
        is_group_order(items@, LayoutPosition::Q, items@.len() as int, r.q@),
        is_group_order(items@, LayoutPosition::E, items@.len() as int, r.e@),
{
    LayoutGroups {
        left: group_order(items, LayoutPosition::Left),
        center: group_order(items, LayoutPosition::Center),
        right: group_order(items, LayoutPosition::Right),
        q: group_order(items, LayoutPosition::Q),
        e: group_order(items, LayoutPosition::E),
    }
}

/// Law: the group order is unique — two sequences that both list a group
/// in stacking order are equal.
pub proof fn lemma_group_order_unique(items: Seq<BarItemKey>, g: LayoutPosition, n: int, v: Seq<usize>, w: Seq<usize>)
    requires
        is_group_order(items, g, n, v),
        is_group_order(items, g, n, w),
        n <= items.len(),
    ensures
        v == w,
{
    lemma_unique_excluding(items, g, n, v, w, Set::empty());
}

/// Two stacking orders of the group members outside `ex` are equal.
proof fn lemma_unique_excluding(
    items: Seq<BarItemKey>,
    g: LayoutPosition,
    n: int,
    v: Seq<usize>,
    w: Seq<usize>,
    ex: Set<usize>,
)
    requires
        n <= items.len(),
        forall|k: int| 0 <= k < v.len() ==> #[trigger] v[k] < n && items[v[k] as int].position == g && !ex.contains(v[k]),
        forall|k: int| 0 <= k < w.len() ==> #[trigger] w[k] < n && items[w[k] as int].position == g && !ex.contains(w[k]),
        forall|j: int| 0 <= j < n && items[j].position == g && !ex.contains(j as usize) ==> v.contains(j as usize),
        forall|j: int| 0 <= j < n && items[j].position == g && !ex.contains(j as usize) ==> w.contains(j as usize),
        forall|a: int, b: int| 0 <= a < b < v.len() ==> before(items, #[trigger] v[a], #[trigger] v[b]),
        forall|a: int, b: int| 0 <= a < b < w.len() ==> before(items, #[trigger] w[a], #[trigger] w[b]),
    ensures
        v == w,
    decreases v.len() + w.len(),
{
    if v.len() == 0 || w.len() == 0 {
        if v.len() > 0 {
            assert(w.contains(v[0]));
        }
        if w.len() > 0 {
            assert(v.contains(w[0]));
        }
        assert(v =~= w);
    } else {
        let a = v[0];
        let b = w[0];
        assert(w.contains(a));
        assert(v.contains(b));
        let ka = choose|k: int| 0 <= k < w.len() && w[k] == a;
        let kb = choose|k: int| 0 <= k < v.len() && v[k] == b;
        if a != b {
            assert(ka > 0 && kb > 0);
            assert(before(items, w[0], w[ka]));
            assert(before(items, v[0], v[kb]));
        }
        assert(a == b);
        let v2 = v.drop_first();
        let w2 = w.drop_first();
        let ex2 = ex.insert(a);
        assert forall|k: int| 0 <= k < v2.len() implies #[trigger] v2[k] < n && items[v2[k] as int].position == g && !ex2.contains(v2[k]) by {
            assert(v2[k] == v[k + 1]);
            assert(before(items, v[0], v[k + 1]));
        }
        assert forall|k: int| 0 <= k < w2.len() implies #[trigger] w2[k] < n && items[w2[k] as int].position == g && !ex2.contains(w2[k]) by {
            assert(w2[k] == w[k + 1]);
            assert(before(items, w[0], w[k + 1]));
        }
        assert forall|j: int| 0 <= j < n && items[j].position == g && !ex2.contains(j as usize) implies v2.contains(j as usize) by {
            assert(v.contains(j as usize));
            let k = choose|k: int| 0 <= k < v.len() && v[k] == j as usize;
            assert(k > 0);
            assert(v2[k - 1] == j as usize);
        }
        assert forall|j: int| 0 <= j < n && items[j].position == g && !ex2.contains(j as usize) implies w2.contains(j as usize) by {
            assert(w.contains(j as usize));
            let k = choose|k: int| 0 <= k < w.len() && w[k] == j as usize;
            assert(k > 0);
            assert(w2[k - 1] == j as usize);
        }
        assert forall|p: int, q: int| 0 <= p < q < v2.len() implies before(items, #[trigger] v2[p], #[trigger] v2[q]) by {
            assert(v2[p] == v[p + 1] && v2[q] == v[q + 1]);
        }
        assert forall|p: int, q: int| 0 <= p < q < w2.len() implies before(items, #[trigger] w2[p], #[trigger] w2[q]) by {
            assert(w2[p] == w[p + 1] && w2[q] == w[q + 1]);
        }
        lemma_unique_excluding(items, g, n, v2, w2, ex2);
        assert(v =~= seq![a] + v2);
        assert(w =~= seq![a] + w2);
    }
}

} // verus!
