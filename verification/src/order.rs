//! Ordering by name: the order of strings by their bytes, and the stable
//! arrangement of a list by its keys.
use vstd::prelude::*;
use vstd::string::*;
use vstd::utf8::encode_utf8;

verus! {

/// Whether `a` comes before `b` or equals it, byte by byte, a prefix
/// before what it is a prefix of.
pub open spec fn lex_le(a: Seq<u8>, b: Seq<u8>) -> bool
    decreases a.len(),
{
    if a.len() == 0 {
        true
    } else if b.len() == 0 {
        false
    } else if a[0] != b[0] {
        a[0] < b[0]
    } else {
        lex_le(a.drop_first(), b.drop_first())
    }
}

/// The bytes of a list of strings, in order.
pub open spec fn key_bytes(keys: Seq<String>) -> Seq<Seq<u8>> {
    Seq::new(keys.len(), |i: int| encode_utf8(keys[i]@))
}

/// Whether one string comes before another or equals it, by their bytes.
pub fn bytes_le(a: &str, b: &str) -> (le: bool)
    ensures
        le == lex_le(encode_utf8(a@), encode_utf8(b@)),
{
    let x = a.as_bytes();
    let y = b.as_bytes();
    let mut i: usize = 0;
    proof {
        assert(x@.subrange(0, x@.len() as int) =~= x@);
        assert(y@.subrange(0, y@.len() as int) =~= y@);
    }
    while i < x.len() && i < y.len()
        invariant
            i <= x.len(),
            i <= y.len(),
            x@ == encode_utf8(a@),
            y@ == encode_utf8(b@),
            lex_le(x@, y@) == lex_le(
                x@.subrange(i as int, x@.len() as int),
                y@.subrange(i as int, y@.len() as int),
            ),
        decreases x.len() - i,
    {
        let ghost xs = x@.subrange(i as int, x@.len() as int);
        let ghost ys = y@.subrange(i as int, y@.len() as int);
        proof {
            assert(xs[0] == x@[i as int]);
            assert(ys[0] == y@[i as int]);
            assert(xs.drop_first() =~= x@.subrange(i as int + 1, x@.len() as int));
            assert(ys.drop_first() =~= y@.subrange(i as int + 1, y@.len() as int));
        }
        if x[i] != y[i] {
            return x[i] < y[i];
        }
        i += 1;
    }
    i == x.len()
}

/// Where a key goes into an arrangement of keys: behind the last key that
/// does not come after it.
pub open spec fn insertion_point(keys: Seq<Seq<u8>>, order: Seq<int>, key: Seq<u8>) -> int
    decreases order.len(),
{
    if order.len() == 0 {
        0
    } else if lex_le(keys[order.last()], key) {
        order.len() as int
    } else {
        insertion_point(keys, order.drop_last(), key)
    }
}

/// The stable arrangement of the first `n` keys: the positions of the
/// keys, each put behind the last earlier key that does not come after it.
pub open spec fn stable_order(keys: Seq<Seq<u8>>, n: nat) -> Seq<int>
    decreases n,
{
    if n == 0 {
        Seq::empty()
    } else {
        let before = stable_order(keys, (n - 1) as nat);
        before.insert(insertion_point(keys, before, keys[n - 1]), n - 1)
    }
}

/// The positions of an arrangement as numbers.
pub open spec fn positions(order: Seq<usize>) -> Seq<int> {
    Seq::new(order.len(), |i: int| order[i] as int)
}

/// The insertion point lies within the arrangement.
pub proof fn insertion_point_in_range(keys: Seq<Seq<u8>>, order: Seq<int>, key: Seq<u8>)
    ensures
        0 <= insertion_point(keys, order, key) <= order.len(),
    decreases order.len(),
{
    if order.len() > 0 && !lex_le(keys[order.last()], key) {
        insertion_point_in_range(keys, order.drop_last(), key);
    }
}

/// An arrangement of `n` keys has `n` positions, all below `n`.
pub proof fn stable_order_in_range(keys: Seq<Seq<u8>>, n: nat)
    ensures
        stable_order(keys, n).len() == n,
        forall|k: int| 0 <= k < n ==> 0 <= #[trigger] stable_order(keys, n)[k] < n,
    decreases n,
{
    if n > 0 {
        let before = stable_order(keys, (n - 1) as nat);
        stable_order_in_range(keys, (n - 1) as nat);
        insertion_point_in_range(keys, before, keys[n - 1]);
    }
}

/// Arranges keys in their order by bytes; keys that are equal stay in the
/// order in which they came.
pub fn sorted_order(keys: &Vec<String>) -> (order: Vec<usize>)
    ensures
        positions(order@) == stable_order(key_bytes(keys@), keys@.len()),
        order@.len() == keys@.len(),
        forall|k: int| 0 <= k < order@.len() ==> (#[trigger] order@[k]) < keys@.len(),
{
    let ghost all = key_bytes(keys@);
    let mut order: Vec<usize> = Vec::new();
    let mut n: usize = 0;
    proof {
        assert(positions(order@) =~= stable_order(all, 0));
    }
    while n < keys.len()
        invariant
            n <= keys.len(),
            all == key_bytes(keys@),
            order@.len() == n,
            positions(order@) == stable_order(all, n as nat),
            forall|k: int| 0 <= k < order@.len() ==> (#[trigger] order@[k]) < n,
        decreases keys.len() - n,
    {
        let ghost before = positions(order@);
        let mut at: usize = order.len();
        proof {
            assert(before.take(at as int) =~= before);
        }
        while at > 0 && !bytes_le(keys[order[at - 1]].as_str(), keys[n].as_str())
            invariant
                at <= order@.len(),
                n < keys.len(),
                all == key_bytes(keys@),
                before == positions(order@),
                forall|k: int| 0 <= k < order@.len() ==> (#[trigger] order@[k]) < n,
                insertion_point(all, before, all[n as int]) == insertion_point(
                    all,
                    before.take(at as int),
                    all[n as int],
                ),
            decreases at,
        {
            proof {
                assert(before.take(at as int).last() == order@[at as int - 1]);
                assert(before.take(at as int).drop_last() =~= before.take(at as int - 1));
            }
            at -= 1;
        }
        proof {
            if at > 0 {
                assert(before.take(at as int).last() == order@[at as int - 1]);
            }
        }
        order.insert(at, n);
        proof {
            assert(positions(order@) =~= before.insert(at as int, n as int));
        }
        n += 1;
    }
    order
}

/// Coming before or being equal holds of every pair one way or the other.
pub proof fn lex_le_total(a: Seq<u8>, b: Seq<u8>)
    ensures
        lex_le(a, b) || lex_le(b, a),
    decreases a.len(),
{
    if a.len() > 0 && b.len() > 0 && a[0] == b[0] {
        lex_le_total(a.drop_first(), b.drop_first());
    }
}

/// What comes before something that comes before a third comes before the
/// third.
pub proof fn lex_le_transitive(a: Seq<u8>, b: Seq<u8>, c: Seq<u8>)
    requires
        lex_le(a, b),
        lex_le(b, c),
    ensures
        lex_le(a, c),
    decreases a.len(),
{
    if a.len() > 0 && b.len() > 0 && c.len() > 0 && a[0] == b[0] && b[0] == c[0] {
        lex_le_transitive(a.drop_first(), b.drop_first(), c.drop_first());
    }
}

/// Whether an arrangement puts its keys in order.
pub open spec fn in_order(keys: Seq<Seq<u8>>, order: Seq<int>) -> bool {
    forall|a: int, b: int|
        0 <= a <= b < order.len() ==> lex_le(keys[#[trigger] order[a]], keys[#[trigger] order[b]])
}

/// Behind the insertion point every key comes after the new key, and up to
/// it none does, where the arrangement is in order.
proof fn insertion_point_divides(keys: Seq<Seq<u8>>, order: Seq<int>, key: Seq<u8>)
    requires
        in_order(keys, order),
    ensures
        forall|k: int|
            insertion_point(keys, order, key) <= k < order.len() ==> !lex_le(
                keys[#[trigger] order[k]],
                key,
            ),
        forall|k: int|
            0 <= k < insertion_point(keys, order, key) ==> lex_le(keys[#[trigger] order[k]], key),
    decreases order.len(),
{
    if order.len() > 0 {
        let front = order.drop_last();
        assert forall|a: int, b: int| 0 <= a <= b < front.len() implies lex_le(
            keys[#[trigger] front[a]],
            keys[#[trigger] front[b]],
        ) by {
            assert(front[a] == order[a]);
            assert(front[b] == order[b]);
        }
        if lex_le(keys[order.last()], key) {
            assert forall|k: int| 0 <= k < order.len() implies lex_le(
                keys[#[trigger] order[k]],
                key,
            ) by {
                assert(lex_le(keys[order[k]], keys[order[order.len() - 1]]));
                lex_le_transitive(keys[order[k]], keys[order.last()], key);
            }
        } else {
            insertion_point_divides(keys, front, key);
            insertion_point_in_range(keys, front, key);
            assert forall|k: int|
                insertion_point(keys, order, key) <= k < order.len() implies !lex_le(
                keys[#[trigger] order[k]],
                key,
            ) by {
                if k < front.len() {
                    assert(front[k] == order[k]);
                }
            }
            assert forall|k: int| 0 <= k < insertion_point(keys, order, key) implies lex_le(
                keys[#[trigger] order[k]],
                key,
            ) by {
                assert(front[k] == order[k]);
            }
        }
    }
}

/// The stable arrangement puts its keys in order.
pub proof fn stable_order_is_in_order(keys: Seq<Seq<u8>>, n: nat)
    requires
        n <= keys.len(),
    ensures
        in_order(keys, stable_order(keys, n)),
    decreases n,
{
    if n > 0 {
        let before = stable_order(keys, (n - 1) as nat);
        let key = keys[n - 1];
        let at = insertion_point(keys, before, key);
        let after = stable_order(keys, n);
        stable_order_is_in_order(keys, (n - 1) as nat);
        insertion_point_divides(keys, before, key);
        insertion_point_in_range(keys, before, key);
        assert forall|a: int, b: int| 0 <= a <= b < after.len() implies lex_le(
            keys[#[trigger] after[a]],
            keys[#[trigger] after[b]],
        ) by {
            if a == b {
                lex_le_total(keys[after[a]], keys[after[a]]);
            } else if b < at {
                assert(after[a] == before[a] && after[b] == before[b]);
            } else if b == at {
                assert(after[a] == before[a]);
            } else if a < at {
                assert(after[a] == before[a] && after[b] == before[b - 1]);
            } else if a == at {
                assert(after[b] == before[b - 1]);
                lex_le_total(keys[before[b - 1]], key);
            } else {
                assert(after[a] == before[a - 1] && after[b] == before[b - 1]);
            }
        }
    }
}

/// The stable arrangement holds every position once: each position below
/// `n` stands in it, and it is as long as there are positions.
pub proof fn stable_order_holds_all(keys: Seq<Seq<u8>>, n: nat)
    requires
        n <= keys.len(),
    ensures
        stable_order(keys, n).len() == n,
        forall|p: int| 0 <= p < n ==> stable_order(keys, n).contains(p),
    decreases n,
{
    stable_order_in_range(keys, n);
    if n > 0 {
        let before = stable_order(keys, (n - 1) as nat);
        let at = insertion_point(keys, before, keys[n - 1]);
        let after = stable_order(keys, n);
        stable_order_holds_all(keys, (n - 1) as nat);
        insertion_point_in_range(keys, before, keys[n - 1]);
        assert forall|p: int| 0 <= p < n implies after.contains(p) by {
            if p == n - 1 {
                assert(after[at] == p);
            } else {
                assert(before.contains(p));
                let k = before.index_of(p);
                assert(0 <= k < before.len() && before[k] == p);
                if k < at {
                    assert(after[k] == p);
                } else {
                    assert(after[k + 1] == p);
                }
            }
        }
    }
}

/// The stable arrangement keeps equal keys in the order in which they
/// came: of two positions whose keys do not come after one another, the
/// earlier stands first.
pub proof fn stable_order_is_stable(keys: Seq<Seq<u8>>, n: nat)
    requires
        n <= keys.len(),
    ensures
        forall|a: int, b: int|
            0 <= a < b < stable_order(keys, n).len() && lex_le(
                keys[#[trigger] stable_order(keys, n)[b]],
                keys[#[trigger] stable_order(keys, n)[a]],
            ) ==> stable_order(keys, n)[a] < stable_order(keys, n)[b],
    decreases n,
{
    if n > 0 {
        let before = stable_order(keys, (n - 1) as nat);
        let key = keys[n - 1];
        let at = insertion_point(keys, before, key);
        let after = stable_order(keys, n);
        stable_order_is_stable(keys, (n - 1) as nat);
        stable_order_is_in_order(keys, (n - 1) as nat);
        stable_order_in_range(keys, (n - 1) as nat);
        insertion_point_divides(keys, before, key);
        insertion_point_in_range(keys, before, key);
        assert forall|a: int, b: int|
            0 <= a < b < after.len() && lex_le(
                keys[#[trigger] after[b]],
                keys[#[trigger] after[a]],
            ) implies after[a] < after[b] by {
            if b < at {
                assert(after[a] == before[a] && after[b] == before[b]);
            } else if b == at {
                assert(after[a] == before[a]);
            } else if a < at {
                assert(after[a] == before[a] && after[b] == before[b - 1]);
            } else if a == at {
                assert(after[b] == before[b - 1]);
                assert(!lex_le(keys[before[b - 1]], key));
            } else {
                assert(after[a] == before[a - 1] && after[b] == before[b - 1]);
            }
        }
    }
}

} // verus!
