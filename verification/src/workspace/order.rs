//! Reordering lists by dragging: what a move does to a list, and how it is
//! previewed before it is made.

use vstd::prelude::*;

verus! {

/// A list with one item moved to sit where another is. A move from or to
/// outside the list changes nothing.
pub open spec fn moved<T>(s: Seq<T>, from: int, to: int) -> Seq<T> {
    if from == to || from < 0 || to < 0 || from >= s.len() || to >= s.len() {
        s
    } else {
        s.remove(from).insert(to, s[from])
    }
}

/// Move `from` to sit where `to` currently is, the usual list-drag behaviour.
/// Returns the moved element's new index: where nothing moves, the one it had.
pub fn reorder<T>(items: &mut Vec<T>, from: usize, to: usize) -> (r: usize)
    ensures
        final(items)@ == moved(old(items)@, from as int, to as int),
        r == (if from < old(items)@.len() && to < old(items)@.len() {
            to
        } else {
            from
        }),
        from < old(items)@.len() ==> r < final(items)@.len(),
        from < old(items)@.len() ==> final(items)@[r as int] == old(items)@[from as int],
{
    if from == to || from >= items.len() || to >= items.len() {
        return from;
    }
    let item: T = items.remove(from);
    items.insert(to, item);
    to
}

/// Moving items moves what is said of them.
pub proof fn lemma_moved_map<T, U>(s: Seq<T>, f: spec_fn(T) -> U, from: int, to: int)
    ensures
        moved(s, from, to).map_values(f) == moved(s.map_values(f), from, to),
{
    assert(moved(s, from, to).map_values(f) =~= moved(s.map_values(f), from, to));
}

/// A move loses and invents nothing.
pub proof fn a_move_keeps_the_items<T>(s: Seq<T>, from: int, to: int)
    ensures
        moved(s, from, to).len() == s.len(),
        moved(s, from, to).to_multiset() == s.to_multiset(),
{
    if from != to && 0 <= from < s.len() && 0 <= to < s.len() {
        broadcast use vstd::seq_lib::group_to_multiset_ensures;

        let rest = s.remove(from);
        assert(rest.insert(to, s[from]).to_multiset() == rest.to_multiset().insert(s[from]));
        assert(rest.insert(from, s[from]) =~= s);
        assert(s.to_multiset() == rest.to_multiset().insert(s[from]));
    }
}

/// A move puts the item where it was sent.
pub proof fn a_move_arrives<T>(s: Seq<T>, from: int, to: int)
    requires
        0 <= from < s.len(),
        0 <= to < s.len(),
    ensures
        moved(s, from, to)[to] == s[from],
{
}

/// Moving an item and moving it back leaves the list as it was.
pub proof fn a_move_can_be_undone<T>(s: Seq<T>, from: int, to: int)
    ensures
        moved(moved(s, from, to), to, from) == s,
{
    if from != to && 0 <= from < s.len() && 0 <= to < s.len() {
        let there = moved(s, from, to);
        assert(there.remove(to) =~= s.remove(from));
        assert(there[to] == s[from]);
        assert(s.remove(from).insert(from, s[from]) =~= s);
    }
}

/// The numbers below `n`, in order.
pub open spec fn counting(n: nat) -> Seq<usize> {
    Seq::new(n, |i: int| i as usize)
}

/// The order in which a list is shown while a move is pending, as indices into
/// the list.
pub open spec fn shown_order(len: nat, pending: Option<(usize, usize)>) -> Seq<usize> {
    match pending {
        Some((from, to)) => moved(counting(len), from as int, to as int),
        None => counting(len),
    }
}

/// Display order for a list of `len` items with the pending move applied, as
/// indices into the real list.
pub fn preview_order(len: usize, pending: Option<(usize, usize)>) -> (r: Vec<usize>)
    ensures
        r@ == shown_order(len as nat, pending),
{
    let mut order: Vec<usize> = Vec::new();
    let mut i: usize = 0;
    while i < len
        invariant
            i <= len,
            order@ == counting(i as nat),
        decreases len - i,
    {
        order.push(i);
        assert(order@ =~= counting((i + 1) as nat));
        i += 1;
    }
    if let Some((from, to)) = pending {
        reorder(&mut order, from, to);
    }
    order
}

/// What is shown stands in the list.
pub proof fn lemma_order_within(len: nat, pending: Option<(usize, usize)>)
    requires
        len <= usize::MAX,
    ensures
        shown_order(len, pending).len() == len,
        forall|k: int| 0 <= k < len ==> #[trigger] shown_order(len, pending)[k] < len,
{
    let all = counting(len);
    if let Some((from, to)) = pending {
        if from != to && from < len && to < len {
            let rest = all.remove(from as int);
            assert forall|k: int| 0 <= k < len implies #[trigger] shown_order(len, pending)[k]
                < len by {
                if k < to {
                    assert(shown_order(len, pending)[k] == rest[k]);
                } else if k > to {
                    assert(shown_order(len, pending)[k] == rest[k - 1]);
                }
            }
        }
    }
}

/// A list in a given order of its indices.
pub open spec fn arranged<T>(s: Seq<T>, order: Seq<usize>) -> Seq<T> {
    Seq::new(order.len(), |i: int| s[order[i] as int])
}

/// The preview is what the drop will do: the list shown while a move is
/// pending is the list after the move.
pub proof fn the_preview_is_the_move<T>(s: Seq<T>, from: usize, to: usize)
    requires
        s.len() <= usize::MAX,
    ensures
        arranged(s, shown_order(s.len(), Some((from, to)))) == moved(s, from as int, to as int),
        arranged(s, shown_order(s.len(), None)) == s,
{
    let all = counting(s.len());
    assert(arranged(s, all) =~= s);
    if from != to && from < s.len() && to < s.len() {
        let order = moved(all, from as int, to as int);
        assert(arranged(s, order) =~= moved(s, from as int, to as int));
    }
}

/// Where an index stands in an order, looking from `i` on.
pub open spec fn place_from(order: Seq<usize>, i: int, item: usize) -> Option<int>
    decreases order.len() - i,
{
    if i < 0 || i >= order.len() {
        None
    } else if order[i] == item {
        Some(i)
    } else {
        place_from(order, i + 1, item)
    }
}

/// Where an index stands in an order; one that is not in it stands for itself.
pub open spec fn place_in(order: Seq<usize>, item: usize) -> int {
    match place_from(order, 0, item) {
        Some(i) => i,
        None => item as int,
    }
}

fn place(order: &Vec<usize>, item: usize) -> (r: usize)
    ensures
        r == place_in(order@, item),
{
    let mut i: usize = 0;
    while i < order.len()
        invariant
            i <= order@.len(),
            place_from(order@, i as int, item) == place_from(order@, 0, item),
        decreases order@.len() - i,
    {
        if order[i] == item {
            return i;
        }
        i += 1;
    }
    item
}

/// Whether `hovered` currently renders before `dragged`: which half of the
/// hovered row counts depends on the direction of travel, and the preview, not
/// the stored order, is what the user sees.
pub fn shown_before(
    len: usize,
    pending: Option<(usize, usize)>,
    hovered: usize,
    dragged: usize,
) -> (r: bool)
    ensures
        r == (place_in(shown_order(len as nat, pending), hovered) < place_in(
            shown_order(len as nat, pending),
            dragged,
        )),
{
    let order: Vec<usize> = preview_order(len, pending);
    place(&order, hovered) < place(&order, dragged)
}

/// Where the pointer is relative to the middle of a row.
#[derive(Clone, Copy, PartialEq, Eq, Structural, Debug)]
pub enum Relative {
    Before,
    At,
    Behind,
}

/// Whether the pointer is past the middle of a row, on its way towards it.
pub open spec fn beyond(shown_before: bool, pointer: Relative) -> bool {
    if shown_before {
        pointer != Relative::Behind
    } else {
        pointer != Relative::Before
    }
}

/// A row claims the drag once the pointer is past its middle, rather than
/// clear of it: half a row of travel is enough to land in the slot, and the
/// remaining half is the hysteresis that stops it oscillating.
pub fn past_middle(shown_before: bool, pointer: Relative) -> (r: bool)
    ensures
        r == beyond(shown_before, pointer),
{
    if shown_before {
        pointer != Relative::Behind
    } else {
        pointer != Relative::Before
    }
}

/// Whether a row claims an item that is dragged over it.
pub open spec fn claims(
    len: nat,
    pending: Option<(usize, usize)>,
    hovered: usize,
    dragged: usize,
    pointer: Relative,
) -> bool {
    let shown = shown_order(len, pending);
    beyond(place_in(shown, hovered) < place_in(shown, dragged), pointer)
}

} // verus!
