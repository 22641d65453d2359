//! Places in order: a stable order by time and name, the latest first.

use vstd::prelude::*;
use crate::text::{less, precedes, same};

verus! {

/// The views of sort keys.
pub open spec fn key_views(keys: Seq<(u64, String)>) -> Seq<(u64, Seq<char>)> {
    Seq::new(keys.len(), |i: int| (keys[i].0, keys[i].1@))
}

/// Whether one key is later than another: by its time, and then by its name.
pub open spec fn later(a: (u64, Seq<char>), b: (u64, Seq<char>)) -> bool {
    a.0 > b.0 || (a.0 == b.0 && precedes(b.1, a.1))
}

/// Whether one place comes before another: the later key first, and of equal keys the one
/// that stood first.
pub open spec fn comes_before(keys: Seq<(u64, Seq<char>)>, x: int, y: int) -> bool {
    later(keys[x], keys[y]) || (keys[x] == keys[y] && x < y)
}

/// Whether places stand in order.
pub open spec fn in_order(keys: Seq<(u64, Seq<char>)>, places: Seq<usize>) -> bool {
    forall|i: int, j: int|
        0 <= i < j < places.len() ==> comes_before(
            keys,
            #[trigger] places[i] as int,
            #[trigger] places[j] as int,
        )
}

/// Whether places lie in a range.
pub open spec fn within(places: Seq<usize>, from: int, to: int) -> bool {
    forall|i: int| 0 <= i < places.len() ==> from <= #[trigger] places[i] < to
}

/// Whether places are those of all keys, in order.
pub open spec fn arranges(keys: Seq<(u64, Seq<char>)>, places: Seq<usize>) -> bool {
    &&& places.len() == keys.len()
    &&& within(places, 0, keys.len() as int)
    &&& in_order(keys, places)
}

// ---- the order of names --------------------------------------------------------------------------

pub(crate) proof fn precedes_irreflexive(a: Seq<char>)
    ensures
        !precedes(a, a),
{
}

pub(crate) proof fn precedes_transitive(a: Seq<char>, b: Seq<char>, c: Seq<char>)
    requires
        precedes(a, b),
        precedes(b, c),
    ensures
        precedes(a, c),
{
    let i = choose|i: int|
        0 <= i <= a.len() && i < b.len() && a.subrange(0, i) == #[trigger] b.subrange(0, i) && (i
            == a.len() || a[i] < b[i]);
    let j = choose|j: int|
        0 <= j <= b.len() && j < c.len() && b.subrange(0, j) == #[trigger] c.subrange(0, j) && (j
            == b.len() || b[j] < c[j]);
    let k = if i <= j {
        i
    } else {
        j
    };
    assert(a.subrange(0, k) =~= c.subrange(0, k)) by {
        assert forall|n: int| 0 <= n < k implies a[n] == c[n] by {
            assert(a.subrange(0, i)[n] == b.subrange(0, i)[n]);
            assert(b.subrange(0, j)[n] == c.subrange(0, j)[n]);
        }
    }
    if i < j {
        assert(b.subrange(0, j)[i] == c.subrange(0, j)[i]);
    } else if j < i {
        assert(a.subrange(0, i)[j] == b.subrange(0, i)[j]);
    }
}

proof fn precedes_from(a: Seq<char>, b: Seq<char>, from: int)
    requires
        a != b,
        0 <= from <= a.len(),
        from <= b.len(),
        a.subrange(0, from) == b.subrange(0, from),
    ensures
        precedes(a, b) || precedes(b, a),
    decreases a.len() - from,
{
    if from < a.len() && from < b.len() {
        if a[from] == b[from] {
            assert(a.subrange(0, from + 1) =~= a.subrange(0, from).push(a[from]));
            assert(b.subrange(0, from + 1) =~= b.subrange(0, from).push(b[from]));
            precedes_from(a, b, from + 1);
        } else if a[from] < b[from] {
            assert(precedes(a, b));
        } else {
            assert(b.subrange(0, from) == a.subrange(0, from));
            assert(precedes(b, a));
        }
    } else if from < b.len() {
        assert(precedes(a, b));
    } else if from < a.len() {
        assert(b.subrange(0, from) == a.subrange(0, from));
        assert(precedes(b, a));
    } else {
        assert(a =~= a.subrange(0, from));
        assert(b =~= b.subrange(0, from));
    }
}

/// Of two different names one precedes the other.
pub proof fn precedes_is_total(a: Seq<char>, b: Seq<char>)
    ensures
        a == b || precedes(a, b) || precedes(b, a),
{
    if a != b {
        assert(a.subrange(0, 0) =~= b.subrange(0, 0));
        precedes_from(a, b, 0);
    }
}

proof fn before_is_transitive(keys: Seq<(u64, Seq<char>)>, x: int, y: int, z: int)
    requires
        comes_before(keys, x, y),
        comes_before(keys, y, z),
    ensures
        comes_before(keys, x, z),
{
    if keys[x].0 == keys[y].0 && keys[y].0 == keys[z].0 && precedes(keys[y].1, keys[x].1) && precedes(
        keys[z].1,
        keys[y].1,
    ) {
        precedes_transitive(keys[z].1, keys[y].1, keys[x].1);
    }
}

proof fn before_is_total(keys: Seq<(u64, Seq<char>)>, x: int, y: int)
    requires
        x != y,
    ensures
        comes_before(keys, x, y) || comes_before(keys, y, x),
{
    precedes_is_total(keys[x].1, keys[y].1);
}

// ---- sorting ---------------------------------------------------------------------------------------

fn is_before(keys: &Vec<(u64, String)>, x: usize, y: usize) -> (r: bool)
    requires
        x < keys.len(),
        y < keys.len(),
    ensures
        r == comes_before(key_views(keys@), x as int, y as int),
{
    let a = &keys[x];
    let b = &keys[y];
    if a.0 != b.0 {
        a.0 > b.0
    } else if same(a.1.as_str(), b.1.as_str()) {
        proof {
            precedes_irreflexive(a.1@);
        }
        x < y
    } else {
        less(b.1.as_str(), a.1.as_str())
    }
}

fn merge(keys: &Vec<(u64, String)>, left: Vec<usize>, right: Vec<usize>, Ghost(from): Ghost<int>, Ghost(middle): Ghost<
    int,
>, Ghost(to): Ghost<int>) -> (r: Vec<usize>)
    requires
        0 <= from <= middle <= to <= keys.len(),
        within(left@, from, middle),
        within(right@, middle, to),
        in_order(key_views(keys@), left@),
        in_order(key_views(keys@), right@),
        left@.len() == middle - from,
        right@.len() == to - middle,
    ensures
        r@.len() == to - from,
        within(r@, from, to),
        in_order(key_views(keys@), r@),
{
    let ghost shown = key_views(keys@);
    let mut out: Vec<usize> = Vec::new();
    let mut i: usize = 0;
    let mut j: usize = 0;
    while i < left.len() || j < right.len()
        invariant
            0 <= from <= middle <= to <= keys.len(),
            shown == key_views(keys@),
            i <= left.len(),
            j <= right.len(),
            out.len() == i + j,
            left@.len() == middle - from,
            right@.len() == to - middle,
            within(left@, from, middle),
            within(right@, middle, to),
            within(out@, from, to),
            in_order(shown, left@),
            in_order(shown, right@),
            in_order(shown, out@),
            forall|k: int, n: int|
                0 <= k < out.len() && i <= n < left.len() ==> comes_before(
                    shown,
                    #[trigger] out@[k] as int,
                    #[trigger] left@[n] as int,
                ),
            forall|k: int, n: int|
                0 <= k < out.len() && j <= n < right.len() ==> comes_before(
                    shown,
                    #[trigger] out@[k] as int,
                    #[trigger] right@[n] as int,
                ),
        decreases left.len() - i + right.len() - j,
    {
        let from_left = if i < left.len() && j < right.len() {
            is_before(keys, left[i], right[j])
        } else {
            i < left.len()
        };
        let ghost before = out@;
        if from_left {
            let place = left[i];
            out.push(place);
            proof {
                assert forall|n: int| j <= n < right.len() implies comes_before(
                    shown,
                    place as int,
                    #[trigger] right@[n] as int,
                ) by {
                    if n > j {
                        before_is_transitive(
                            shown,
                            place as int,
                            right@[j as int] as int,
                            right@[n] as int,
                        );
                    }
                }
                assert(in_order(shown, out@)) by {
                    assert forall|a: int, b: int| 0 <= a < b < out.len() implies comes_before(
                        shown,
                        #[trigger] out@[a] as int,
                        #[trigger] out@[b] as int,
                    ) by {
                        assert(out@[a] == before[a]);
                    }
                }
            }
            i += 1;
        } else {
            let place = right[j];
            out.push(place);
            proof {
                assert forall|n: int| i <= n < left.len() implies comes_before(
                    shown,
                    place as int,
                    #[trigger] left@[n] as int,
                ) by {
                    before_is_total(shown, left@[i as int] as int, place as int);
                    if n > i {
                        before_is_transitive(
                            shown,
                            place as int,
                            left@[i as int] as int,
                            left@[n] as int,
                        );
                    }
                }
                assert(in_order(shown, out@)) by {
                    assert forall|a: int, b: int| 0 <= a < b < out.len() implies comes_before(
                        shown,
                        #[trigger] out@[a] as int,
                        #[trigger] out@[b] as int,
                    ) by {
                        assert(out@[a] == before[a]);
                    }
                }
            }
            j += 1;
        }
    }
    out
}

fn sort_range(keys: &Vec<(u64, String)>, from: usize, to: usize) -> (r: Vec<usize>)
    requires
        from <= to <= keys.len(),
    ensures
        r@.len() == to - from,
        within(r@, from as int, to as int),
        in_order(key_views(keys@), r@),
    decreases to - from,
{
    let mut out: Vec<usize> = Vec::new();
    if from == to {
        return out;
    }
    if to - from == 1 {
        out.push(from);
        return out;
    }
    let middle: usize = from + (to - from) / 2;
    let left = sort_range(keys, from, middle);
    let right = sort_range(keys, middle, to);
    merge(keys, left, right, Ghost(from as int), Ghost(middle as int), Ghost(to as int))
}

/// The places of keys, the latest first; equal keys keep their order.
pub fn sort_places(keys: &Vec<(u64, String)>) -> (r: Vec<usize>)
    ensures
        arranges(key_views(keys@), r@),
{
    sort_range(keys, 0, keys.len())
}

// ---- laws ------------------------------------------------------------------------------------------

/// No place comes before itself, nor two before each other.
pub proof fn order_is_strict(keys: Seq<(u64, Seq<char>)>, x: int, y: int)
    ensures
        !(comes_before(keys, x, y) && comes_before(keys, y, x)),
{
    precedes_irreflexive(keys[x].1);
    if precedes(keys[x].1, keys[y].1) && precedes(keys[y].1, keys[x].1) {
        precedes_transitive(keys[x].1, keys[y].1, keys[x].1);
    }
}

proof fn rank_is_forced(keys: Seq<(u64, Seq<char>)>, one: Seq<usize>, two: Seq<usize>, i: int)
    requires
        arranges(keys, one),
        arranges(keys, two),
        0 <= i < one.len(),
        forall|k: int| 0 <= k < i ==> one[k] == two[k],
        one[i] != two[i],
    ensures
        !comes_before(keys, one[i] as int, two[i] as int),
{
    if comes_before(keys, one[i] as int, two[i] as int) {
        // The place at `i` of the first stands nowhere in the second: not before `i`, where the
        // two agree, and not from `i` on, where everything comes after it.
        assert forall|k: int| 0 <= k < two.len() implies #[trigger] two[k] != one[i] by {
            if k < i {
                assert(one[k] == two[k]);
                order_is_strict(keys, one[k] as int, one[i] as int);
                if two[k] == one[i] {
                    assert(comes_before(keys, one[k] as int, one[i] as int));
                }
            } else if k > i {
                if two[k] == one[i] {
                    assert(comes_before(keys, two[i] as int, two[k] as int));
                    order_is_strict(keys, two[i] as int, one[i] as int);
                }
            }
        }
        let missing = one[i] as int;
        let set = vstd::set_lib::set_int_range(0, keys.len() as int).remove(missing);
        let seen = two.map_values(|p: usize| p as int);
        vstd::set_lib::lemma_int_range(0, keys.len() as int);
        assert(seen.no_duplicates()) by {
            assert forall|a: int, b: int| 0 <= a < b < seen.len() implies seen[a] != seen[b] by {
                assert(comes_before(keys, two[a] as int, two[b] as int));
                order_is_strict(keys, two[a] as int, two[b] as int);
            }
        }
        seen.unique_seq_to_set();
        assert(seen.to_set().subset_of(set)) by {
            assert forall|p: int| seen.to_set().contains(p) implies set.contains(p) by {
                let k = choose|k: int| 0 <= k < seen.len() && seen[k] == p;
                assert(two[k] != one[i]);
            }
        }
        vstd::set_lib::lemma_len_subset(seen.to_set(), set);
    }
}

/// The order is the only one: two arrangements of the same keys are equal.
pub proof fn arrangement_is_unique(keys: Seq<(u64, Seq<char>)>, one: Seq<usize>, two: Seq<usize>)
    requires
        arranges(keys, one),
        arranges(keys, two),
    ensures
        one == two,
{
    arrangements_agree(keys, one, two, one.len() as int);
    assert(one =~= two);
}

proof fn arrangements_agree(keys: Seq<(u64, Seq<char>)>, one: Seq<usize>, two: Seq<usize>, count: int)
    requires
        arranges(keys, one),
        arranges(keys, two),
        0 <= count <= one.len(),
    ensures
        forall|k: int| 0 <= k < count ==> one[k] == two[k],
    decreases count,
{
    if count > 0 {
        arrangements_agree(keys, one, two, count - 1);
        let i = count - 1;
        if one[i] != two[i] {
            before_is_total(keys, one[i] as int, two[i] as int);
            rank_is_forced(keys, one, two, i);
            rank_is_forced(keys, two, one, i);
        }
    }
}

} // verus!
