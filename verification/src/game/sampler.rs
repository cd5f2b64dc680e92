use vstd::prelude::*;

use super::board::{Location, CATEGORY_HEIGHT};

verus! {

/// Whether, of two squares given by their flat indices, the first is drawn
/// before the second: the one with the larger key first and, of two with the
/// same key, the one with the smaller index.
pub open spec fn precedes(keys: Seq<u64>, first: int, second: int) -> bool {
    keys[first] > keys[second] || (keys[first] == keys[second] && first < second)
}

/// Whether `picks` are the flat indices of the `n` squares that are drawn
/// first, in the order in which they are drawn.
pub open spec fn is_selection(keys: Seq<u64>, n: nat, picks: Seq<int>) -> bool {
    &&& picks.len() == n
    &&& forall|p: int| 0 <= p < n ==> 0 <= #[trigger] picks[p] < keys.len()
    &&& forall|p: int, q: int| 0 <= p < q < n ==> precedes(keys, picks[p], picks[q])
    &&& forall|p: int, i: int|
        0 <= p < n && 0 <= i < keys.len() && !picks.contains(i) ==> precedes(keys, picks[p], i)
}

/// The flat indices of a sequence of locations.
pub open spec fn flat_indices(locations: Seq<Location>) -> Seq<int> {
    locations.map_values(|location: Location| location.flat_index())
}

/// The squares of a board are drawn in one order only: two selections of
/// the same number of squares under the same keys are equal.
pub proof fn lemma_selection_unique(keys: Seq<u64>, n: nat, first: Seq<int>, second: Seq<int>)
    requires
        is_selection(keys, n, first),
        is_selection(keys, n, second),
    ensures
        first == second,
{
    assert forall|p: int| 0 <= p < n implies first[p] == second[p] by {
        lemma_selection_agrees(keys, n, first, second, p);
    }
    assert(first =~= second);
}

/// Drawing is fixed by the keys: two drawings of the same number of squares
/// under the same keys give the same locations in the same order.
pub proof fn lemma_drawing_is_fixed_by_keys(
    keys: Seq<u64>,
    n: nat,
    first: Seq<Location>,
    second: Seq<Location>,
)
    requires
        is_selection(keys, n, flat_indices(first)),
        is_selection(keys, n, flat_indices(second)),
        forall|p: int| 0 <= p < n ==> (#[trigger] first[p]).row < CATEGORY_HEIGHT,
        forall|p: int| 0 <= p < n ==> (#[trigger] second[p]).row < CATEGORY_HEIGHT,
    ensures
        first == second,
{
    lemma_selection_unique(keys, n, flat_indices(first), flat_indices(second));
    assert forall|p: int| 0 <= p < n implies first[p] == second[p] by {
        assert(flat_indices(first)[p] == first[p].flat_index());
        assert(flat_indices(second)[p] == second[p].flat_index());
    }
    assert(first =~= second);
}

proof fn lemma_selection_agrees(keys: Seq<u64>, n: nat, first: Seq<int>, second: Seq<int>, p: int)
    requires
        is_selection(keys, n, first),
        is_selection(keys, n, second),
        0 <= p < n,
    ensures
        first[p] == second[p],
    decreases p,
{
    assert forall|q: int| 0 <= q < p implies first[q] == second[q] by {
        lemma_selection_agrees(keys, n, first, second, q);
    }
    let a = first[p];
    let b = second[p];
    if a != b {
        // Each of the two comes before whatever the other selection has not
        // placed before position `p`.
        lemma_before_rest(keys, n, first, p, b);
        lemma_before_rest(keys, n, second, p, a);
        if exists|q: int| 0 <= q < p && first[q] == b {
            let q = choose|q: int| 0 <= q < p && first[q] == b;
            assert(precedes(keys, second[q], second[p]));
        }
        if exists|q: int| 0 <= q < p && second[q] == a {
            let q = choose|q: int| 0 <= q < p && second[q] == a;
            assert(precedes(keys, first[q], first[p]));
        }
    }
}

/// The pick at position `p` comes before every index that is not among the
/// picks at earlier positions, itself apart.
proof fn lemma_before_rest(keys: Seq<u64>, n: nat, picks: Seq<int>, p: int, other: int)
    requires
        is_selection(keys, n, picks),
        0 <= p < n,
        0 <= other < keys.len(),
        other != picks[p],
    ensures
        (exists|q: int| 0 <= q < p && picks[q] == other) || precedes(keys, picks[p], other),
{
    if picks.contains(other) {
        let q = choose|q: int| 0 <= q < picks.len() && picks[q] == other;
        if q > p {
            assert(precedes(keys, picks[p], picks[q]));
        }
    }
}

/// The indices `0 .. keys.len()` in the order in which the squares are
/// drawn.
fn draw_order(keys: &Vec<u64>) -> (order: Vec<usize>)
    ensures
        order@.len() == keys@.len(),
        forall|p: int| 0 <= p < order@.len() ==> #[trigger] order@[p] < keys@.len(),
        forall|p: int, q: int|
            0 <= p < q < order@.len() ==> precedes(keys@, order@[p] as int, order@[q] as int),
        forall|i: usize| i < keys@.len() ==> order@.contains(i),
{
    let mut order: Vec<usize> = Vec::new();
    let mut next: usize = 0;
    while next < keys.len()
        invariant
            next <= keys@.len(),
            order@.len() == next,
            forall|p: int| 0 <= p < order@.len() ==> #[trigger] order@[p] < next,
            forall|p: int, q: int|
                0 <= p < q < order@.len() ==> precedes(keys@, order@[p] as int, order@[q] as int),
            forall|i: usize| i < next ==> order@.contains(i),
        decreases keys@.len() - next,
    {
        let key = keys[next];
        let mut position: usize = 0;
        while position < order.len() && keys[order[position]] >= key
            invariant
                position <= order@.len(),
                order@.len() == next,
                next < keys@.len(),
                key == keys@[next as int],
                forall|p: int| 0 <= p < order@.len() ==> #[trigger] order@[p] < next,
                forall|p: int| 0 <= p < position ==> keys@[order@[p] as int] >= key,
            decreases order@.len() - position,
        {
            position += 1;
        }
        let ghost before = order@;
        order.insert(position, next);
        proof {
            assert forall|p: int, q: int| 0 <= p < q < order@.len() implies precedes(
                keys@,
                order@[p] as int,
                order@[q] as int,
            ) by {
                if q < position {
                    assert(order@[p] == before[p] && order@[q] == before[q]);
                } else if q == position {
                    assert(order@[p] == before[p]);
                } else if p < position {
                    assert(order@[p] == before[p] && order@[q] == before[q - 1]);
                } else if p == position {
                    assert(order@[q] == before[q - 1]);
                    assert(position < q - 1 ==> precedes(
                        keys@,
                        before[position as int] as int,
                        before[q - 1] as int,
                    ));
                } else {
                    assert(order@[p] == before[p - 1] && order@[q] == before[q - 1]);
                }
            }
            assert forall|i: usize| i < next + 1 implies order@.contains(i) by {
                if i < next {
                    assert(before.contains(i));
                    let p = choose|p: int| 0 <= p < before.len() && before[p] == i;
                    if p < position {
                        assert(order@[p] == i);
                    } else {
                        assert(order@[p + 1] == i);
                    }
                } else {
                    assert(order@[position as int] == i);
                }
            }
            assert forall|p: int| 0 <= p < order@.len() implies #[trigger] order@[p] < next + 1 by {
                if p < position {
                    assert(order@[p] == before[p]);
                } else if p > position {
                    assert(order@[p] == before[p - 1]);
                }
            }
        }
        next += 1;
    }
    order
}

impl Location {
    /// The location of the square with the flat index `index`.
    pub open spec fn from_flat(index: int) -> Location {
        Location {
            category: (index / CATEGORY_HEIGHT as int) as usize,
            row: (index % CATEGORY_HEIGHT as int) as usize,
        }
    }

    /// Draws `n` squares of a board with `categories` categories without
    /// drawing any square twice. `keys` holds one sort key for each square,
    /// by flat index; the squares with the largest keys are drawn, the
    /// largest first. Fails where the board has fewer than `n` squares.
    pub fn gen_random_locations(keys: &Vec<u64>, n: usize, categories: usize) -> (locations: Option<
        Vec<Location>,
    >)
        requires
            keys@.len() == categories * CATEGORY_HEIGHT,
        ensures
            n > categories * CATEGORY_HEIGHT ==> locations is None,
            n <= categories * CATEGORY_HEIGHT ==> {
                &&& locations matches Some(drawn)
                &&& is_selection(keys@, n as nat, flat_indices(drawn@))
                &&& drawn@.no_duplicates()
                &&& forall|p: int|
                    0 <= p < n ==> (#[trigger] drawn@[p]).row < CATEGORY_HEIGHT && drawn@[p].category
                        < categories
            },
    {
        if n > keys.len() {
            return None;
        }
        let order = draw_order(keys);
        let mut drawn: Vec<Location> = Vec::new();
        let mut position: usize = 0;
        while position < n
            invariant
                position <= n <= order@.len(),
                order@.len() == keys@.len(),
                keys@.len() == categories * CATEGORY_HEIGHT,
                drawn@.len() == position,
                forall|p: int| 0 <= p < order@.len() ==> #[trigger] order@[p] < keys@.len(),
                forall|p: int|
                    0 <= p < position ==> #[trigger] drawn@[p] == Location::from_flat(
                        order@[p] as int,
                    ),
            decreases n - position,
        {
            let index = order[position];
            drawn.push(Location { category: index / CATEGORY_HEIGHT, row: index % CATEGORY_HEIGHT });
            position += 1;
        }
        proof {
            let picks = flat_indices(drawn@);
            assert forall|p: int| 0 <= p < n implies #[trigger] picks[p] == order@[p] as int
                && drawn@[p].row < CATEGORY_HEIGHT && drawn@[p].category < categories by {
                assert(drawn@[p] == Location::from_flat(order@[p] as int));
            }
            assert forall|p: int, i: int|
                0 <= p < n && 0 <= i < keys@.len() && !picks.contains(i) implies precedes(
                keys@,
                picks[p],
                i,
            ) by {
                assert(order@.contains(i as usize));
                let q = choose|q: int| 0 <= q < order@.len() && order@[q] == i as usize;
                if q < n {
                    assert(picks[q] == i);
                }
            }
            assert forall|p: int, q: int| 0 <= p < q < n implies precedes(
                keys@,
                picks[p],
                picks[q],
            ) by {
                assert(precedes(keys@, order@[p] as int, order@[q] as int));
            }
            assert forall|p: int, q: int|
                0 <= p < drawn@.len() && 0 <= q < drawn@.len() && p != q implies drawn@[p]
                != drawn@[q] by {
                assert(picks[p] == order@[p] as int && picks[q] == order@[q] as int);
                if p < q {
                    assert(precedes(keys@, order@[p] as int, order@[q] as int));
                } else {
                    assert(precedes(keys@, order@[q] as int, order@[p] as int));
                }
            }
        }
        Some(drawn)
    }
}

} // verus!
