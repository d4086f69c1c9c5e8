//! Circuits, over a series of connections: which connections share one, for how
//! long, and what the display says of it.
use crate::isolation::{self, Arrival, Slot};
use crate::text;
use vstd::prelude::*;

verus! {

/// Whether connection `i` is the first that was given its circuit.
pub open spec fn first_given(arrivals: Seq<Arrival>, i: int) -> bool {
    forall|j: int|
        0 <= j < i ==> #[trigger] isolation::token_of(arrivals, j) != isolation::token_of(
            arrivals,
            i,
        )
}

/// How many of the first `n` connections were given a circuit.
pub open spec fn uses_of(arrivals: Seq<Arrival>, token: u64, n: int) -> nat
    decreases n,
{
    if n <= 0 {
        0
    } else {
        uses_of(arrivals, token, n - 1) + if isolation::token_of(arrivals, n - 1) == token {
            1nat
        } else {
            0
        }
    }
}

/// How many connections from `from` on and before `to` are of an identity.
pub open spec fn arrivals_of(
    arrivals: Seq<Arrival>,
    identity: Seq<u8>,
    from: int,
    to: int,
) -> nat
    decreases to - from,
{
    if to <= from {
        0
    } else {
        arrivals_of(arrivals, identity, from, to - 1) + if arrivals[to - 1].identity == identity {
            1nat
        } else {
            0
        }
    }
}

proof fn earlier_tokens(arrivals: Seq<Arrival>, m: int, i: int)
    requires
        0 <= i < m <= arrivals.len(),
    ensures
        isolation::token_of(arrivals.take(m), i) == isolation::token_of(arrivals, i),
{
    assert(arrivals.take(m).take(i) == arrivals.take(i));
    assert(arrivals.take(m)[i] == arrivals[i]);
}

proof fn earlier_uses(arrivals: Seq<Arrival>, m: int, token: u64, n: int)
    requires
        0 <= n <= m <= arrivals.len(),
    ensures
        uses_of(arrivals.take(m), token, n) == uses_of(arrivals, token, n),
    decreases n,
{
    if n > 0 {
        earlier_uses(arrivals, m, token, n - 1);
        earlier_tokens(arrivals, m, n - 1);
    }
}

proof fn unused_before(arrivals: Seq<Arrival>, token: u64, n: int)
    requires
        0 <= n <= arrivals.len(),
        forall|j: int| 0 <= j < n ==> #[trigger] isolation::token_of(arrivals, j) != token,
    ensures
        uses_of(arrivals, token, n) == 0,
    decreases n,
{
    if n > 0 {
        unused_before(arrivals, token, n - 1);
        assert(isolation::token_of(arrivals, n - 1) != token);
    }
}

proof fn slot_is_found(slots: Seq<Slot>, k: int)
    requires
        0 <= k < slots.len(),
        forall|i: int, j: int|
            0 <= i < j < slots.len() ==> (#[trigger] slots[i]).identity != (
            #[trigger] slots[j]).identity,
    ensures
        isolation::find_slot(slots, slots[k].identity) == k,
{
    let x = slots[k].identity;
    isolation::find_slot_bounds(slots, x);
    let at = isolation::find_slot(slots, x) as int;
    if at < k {
        assert(slots[at].identity != slots[k].identity);
    }
    if at > k {
        assert(slots[k].identity != x);
    }
}

/// Every circuit that a bucket holds was given to a connection before, and is
/// counted from the first that it was given to.
proof fn slot_began(arrivals: Seq<Arrival>, k: int) -> (i: int)
    requires
        arrivals.len() < u64::MAX,
        0 <= k < isolation::after_arrivals(arrivals).slots.len(),
    ensures
        0 <= i < arrivals.len(),
        isolation::token_of(arrivals, i) == isolation::after_arrivals(arrivals).slots[k].token,
        first_given(arrivals, i),
    decreases arrivals.len(),
{
    let n = arrivals.len() as int;
    assert(n > 0);
    let before = arrivals.drop_last();
    assert(before == arrivals.take(n - 1));
    let b = isolation::after_arrivals(before);
    let last = arrivals.last();
    let after = isolation::after_arrivals(arrivals);
    isolation::find_slot_bounds(b.slots, last.identity);
    isolation::arrivals_keep_valid(before);
    let at = isolation::find_slot(b.slots, last.identity) as int;
    if k < b.slots.len() && b.slots[k].token == after.slots[k].token {
        let i = slot_began(before, k);
        earlier_tokens(arrivals, n - 1, i);
        assert forall|j: int| 0 <= j < i implies #[trigger] isolation::token_of(arrivals, j)
            != isolation::token_of(arrivals, i) by {
            earlier_tokens(arrivals, n - 1, j);
        }
        i
    } else {
        assert(k == at);
        assert(isolation::token_of(arrivals, n - 1) == b.next_token);
        assert forall|j: int| 0 <= j < n - 1 implies #[trigger] isolation::token_of(arrivals, j)
            != isolation::token_of(arrivals, n - 1) by {
            isolation::tokens_stay_with_their_identity(before, j);
            earlier_tokens(arrivals, n - 1, j);
        }
        n - 1
    }
}

/// A bucket that holds the circuit that connection `i` was the first to be given
/// counts from that connection: its age from the connection's time, its uses
/// from the connections that were given the circuit.
pub proof fn buckets_tell_their_history(arrivals: Seq<Arrival>, i: int, k: int)
    requires
        0 <= i < arrivals.len() < u64::MAX,
        first_given(arrivals, i),
        0 <= k < isolation::after_arrivals(arrivals).slots.len(),
        isolation::after_arrivals(arrivals).slots[k].token == isolation::token_of(arrivals, i),
    ensures
        isolation::after_arrivals(arrivals).slots[k].identity == arrivals[i].identity,
        isolation::after_arrivals(arrivals).slots[k].since_ms == arrivals[i].at_ms,
        isolation::after_arrivals(arrivals).slots[k].uses == uses_of(
            arrivals,
            isolation::token_of(arrivals, i),
            arrivals.len() as int,
        ),
    decreases arrivals.len(),
{
    let n = arrivals.len() as int;
    let before = arrivals.drop_last();
    assert(before == arrivals.take(n - 1));
    let b = isolation::after_arrivals(before);
    let last = arrivals.last();
    let after = isolation::after_arrivals(arrivals);
    let token = isolation::token_of(arrivals, i);
    isolation::find_slot_bounds(b.slots, last.identity);
    isolation::arrivals_keep_valid(before);
    isolation::arrivals_keep_valid(arrivals);
    isolation::tokens_stay_with_their_identity(arrivals, i);
    let at = isolation::find_slot(b.slots, last.identity) as int;
    assert(after.slots[at].token == isolation::token_of(arrivals, n - 1));
    earlier_uses(arrivals, n - 1, token, n - 1);
    if i == n - 1 {
        if isolation::has_usable(b, last.identity, last.at_ms) {
            let j = slot_began(before, at);
            earlier_tokens(arrivals, n - 1, j);
            assert(isolation::token_of(arrivals, j) == token);
        }
        unused_before(arrivals, token, n - 1);
        if k < at {
            assert(after.slots[k].token != after.slots[at].token);
        }
        if at < k {
            assert(after.slots[at].token != after.slots[k].token);
        }
    } else {
        earlier_tokens(arrivals, n - 1, i);
        assert forall|j: int| 0 <= j < i implies #[trigger] isolation::token_of(before, j)
            != isolation::token_of(before, i) by {
            earlier_tokens(arrivals, n - 1, j);
            assert(isolation::token_of(arrivals, j) != isolation::token_of(arrivals, i));
        }
        isolation::tokens_stay_with_their_identity(before, i);
        assert(k < b.slots.len());
        assert(b.slots[k].token == token);
        buckets_tell_their_history(before, i, k);
        if k < at && at < after.slots.len() {
            assert(after.slots[k].token != after.slots[at].token);
        }
        if at < k {
            assert(after.slots[at].token != after.slots[k].token);
        }
    }
}

/// A circuit is given to connections for less than ten minutes from the first
/// one on, and to none once two hundred were given it.
pub proof fn circuits_grow_old(arrivals: Seq<Arrival>, i: int, k: int)
    requires
        0 <= i < k < arrivals.len() < u64::MAX,
        first_given(arrivals, i),
        isolation::token_of(arrivals, k) == isolation::token_of(arrivals, i),
    ensures
        arrivals[k].at_ms < arrivals[i].at_ms + 600_000,
        uses_of(arrivals, isolation::token_of(arrivals, i), k) < 200,
{
    let before = arrivals.take(k);
    let b = isolation::after_arrivals(before);
    let x = arrivals[k].identity;
    isolation::arrivals_keep_valid(before);
    isolation::find_slot_bounds(b.slots, x);
    isolation::tokens_stay_with_their_identity(before, i);
    earlier_tokens(arrivals, k, i);
    earlier_uses(arrivals, k, isolation::token_of(arrivals, i), k);
    assert forall|j: int| 0 <= j < i implies #[trigger] isolation::token_of(before, j)
        != isolation::token_of(before, i) by {
        earlier_tokens(arrivals, k, j);
        assert(isolation::token_of(arrivals, j) != isolation::token_of(arrivals, i));
    }
    let at = isolation::find_slot(b.slots, x) as int;
    assert(isolation::has_usable(b, x, arrivals[k].at_ms));
    buckets_tell_their_history(before, i, at);
}

/// A circuit is given to at most two hundred connections.
pub proof fn circuits_wear_out(arrivals: Seq<Arrival>, token: u64, n: int)
    requires
        0 <= n <= arrivals.len() < u64::MAX,
    ensures
        uses_of(arrivals, token, n) <= 200,
    decreases n,
{
    if n > 0 {
        circuits_wear_out(arrivals, token, n - 1);
        let k = n - 1;
        if isolation::token_of(arrivals, k) == token {
            if first_given(arrivals, k) {
                unused_before(arrivals, token, k);
            } else {
                let i = first_of(arrivals, k);
                circuits_grow_old(arrivals, i, k);
            }
        }
    }
}

proof fn first_of(arrivals: Seq<Arrival>, k: int) -> (i: int)
    requires
        0 <= k < arrivals.len(),
    ensures
        0 <= i <= k,
        first_given(arrivals, i),
        isolation::token_of(arrivals, i) == isolation::token_of(arrivals, k),
    decreases k,
{
    if first_given(arrivals, k) {
        k
    } else {
        let j = choose|j: int|
            0 <= j < k && #[trigger] isolation::token_of(arrivals, j) == isolation::token_of(
                arrivals,
                k,
            );
        first_of(arrivals, j)
    }
}

/// While its circuit is young and little used, an identity's bucket holds it.
proof fn bucket_holds(arrivals: Seq<Arrival>, i: int, m: int) -> (k: int)
    requires
        0 <= i < m <= arrivals.len() < u64::MAX,
        first_given(arrivals, i),
        forall|j: int|
            i < j < m && (#[trigger] arrivals[j]).identity == arrivals[i].identity
                ==> arrivals[j].at_ms < arrivals[i].at_ms + 600_000,
        arrivals_of(arrivals, arrivals[i].identity, i + 1, m) <= 199,
    ensures
        ({
            let b = isolation::after_arrivals(arrivals.take(m));
            &&& 0 <= k < b.slots.len()
            &&& b.slots[k].identity == arrivals[i].identity
            &&& b.slots[k].token == isolation::token_of(arrivals, i)
            &&& b.slots[k].since_ms == arrivals[i].at_ms
            &&& b.slots[k].uses == 1 + arrivals_of(
                arrivals,
                arrivals[i].identity,
                i + 1,
                m,
            )
        }),
    decreases m,
{
    let upto = arrivals.take(m);
    let before = arrivals.take(m - 1);
    assert(upto.drop_last() == before);
    let b = isolation::after_arrivals(before);
    let last = arrivals[m - 1];
    let x = arrivals[i].identity;
    isolation::arrivals_keep_valid(before);
    isolation::find_slot_bounds(b.slots, last.identity);
    let at = isolation::find_slot(b.slots, last.identity) as int;
    if m == i + 1 {
        if isolation::has_usable(b, last.identity, last.at_ms) {
            let j = slot_began(before, at);
            earlier_tokens(arrivals, m - 1, j);
            assert(isolation::token_of(arrivals, j) == isolation::token_of(arrivals, i));
        }
        at
    } else {
        let k = bucket_holds(arrivals, i, m - 1);
        assert(b.slots[k].identity == x);
        slot_is_found(b.slots, k);
        if last.identity == x {
            assert(arrivals[m - 1].at_ms < arrivals[i].at_ms + 600_000);
            assert(isolation::has_usable(b, x, last.at_ms));
        }
        k
    }
}

/// A circuit's age counts from the connection that was first given it: when a
/// connection is the first to be given a circuit, the connections of the same
/// identity within the next ten minutes, up to a hundred and ninety-nine of them,
/// are given that circuit too.
pub proof fn circuits_are_shared(arrivals: Seq<Arrival>, i: int, k: int)
    requires
        0 <= i < k < arrivals.len() < u64::MAX,
        first_given(arrivals, i),
        arrivals[k].identity == arrivals[i].identity,
        forall|j: int|
            i < j <= k && (#[trigger] arrivals[j]).identity == arrivals[i].identity
                ==> arrivals[j].at_ms < arrivals[i].at_ms + 600_000,
        arrivals_of(arrivals, arrivals[i].identity, i + 1, k + 1) <= 199,
    ensures
        isolation::token_of(arrivals, k) == isolation::token_of(arrivals, i),
{
    let at = bucket_holds(arrivals, i, k);
    let b = isolation::after_arrivals(arrivals.take(k));
    isolation::arrivals_keep_valid(arrivals.take(k));
    slot_is_found(b.slots, at);
}

/// A connection that comes ten minutes or later after the first one on a circuit,
/// or when two hundred were given it, is given another.
pub proof fn circuits_are_replaced(arrivals: Seq<Arrival>, i: int, k: int)
    requires
        0 <= i < k < arrivals.len() < u64::MAX,
        first_given(arrivals, i),
        arrivals[k].at_ms >= arrivals[i].at_ms + 600_000 || uses_of(
            arrivals,
            isolation::token_of(arrivals, i),
            k,
        ) >= 200,
    ensures
        isolation::token_of(arrivals, k) != isolation::token_of(arrivals, i),
{
    if isolation::token_of(arrivals, k) == isolation::token_of(arrivals, i) {
        circuits_grow_old(arrivals, i, k);
    }
}

/// An identity that has connected is displayed with the circuit that it was
/// given last.
pub proof fn identities_are_listed(arrivals: Seq<Arrival>, i: int) -> (k: int)
    requires
        0 <= i < arrivals.len() < u64::MAX,
        forall|j: int|
            i < j < arrivals.len() ==> (#[trigger] arrivals[j]).identity != arrivals[i].identity,
    ensures
        0 <= k < isolation::after_arrivals(arrivals).slots.len(),
        isolation::after_arrivals(arrivals).slots[k].identity == arrivals[i].identity,
        isolation::after_arrivals(arrivals).slots[k].token == isolation::token_of(arrivals, i),
    decreases arrivals.len(),
{
    let n = arrivals.len() as int;
    let before = arrivals.drop_last();
    assert(before == arrivals.take(n - 1));
    let b = isolation::after_arrivals(before);
    let last = arrivals.last();
    isolation::find_slot_bounds(b.slots, last.identity);
    if i == n - 1 {
        isolation::find_slot(b.slots, last.identity) as int
    } else {
        assert forall|j: int| i < j < before.len() implies (#[trigger] before[j]).identity
            != before[i].identity by {
            assert(before[j] == arrivals[j]);
        }
        earlier_tokens(arrivals, n - 1, i);
        assert(arrivals[n - 1].identity != arrivals[i].identity);
        identities_are_listed(before, i)
    }
}

/// What is displayed of a bucket: its identity, how many connections were given
/// its circuit, and how many whole seconds ago the first of them was.
pub proof fn rows_tell_their_history(arrivals: Seq<Arrival>, now_ms: u64, k: int) -> (i: int)
    requires
        arrivals.len() < u64::MAX,
        0 <= k < isolation::after_arrivals(arrivals).slots.len(),
    ensures
        ({
            let slots = isolation::after_arrivals(arrivals).slots;
            let rows = isolation::unsorted_rows(slots, now_ms);
            let row = rows[k];
            let passed = if now_ms >= arrivals[i].at_ms {
                now_ms - arrivals[i].at_ms
            } else {
                0
            };
            &&& 0 <= i < arrivals.len()
            &&& first_given(arrivals, i)
            &&& rows.len() == slots.len()
            &&& row.identity == text::lossy_text(arrivals[i].identity)
            &&& row.uses == uses_of(
                arrivals,
                isolation::token_of(arrivals, i),
                arrivals.len() as int,
            )
            &&& 1000 * row.age_secs <= passed < 1000 * (row.age_secs + 1)
        }),
{
    let i = slot_began(arrivals, k);
    buckets_tell_their_history(arrivals, i, k);
    i
}

/// A text sorts before another exactly if, behind what both begin with, its
/// character comes first or it ends.
pub proof fn sorting_goes_by_first_difference(front: Seq<char>, a: Seq<char>, b: Seq<char>)
    requires
        a.len() > 0 && b.len() > 0 ==> a[0] != b[0],
    ensures
        isolation::sorts_before(front + a, front + b) == (b.len() > 0 && (a.len() == 0 || a[0]
            < b[0])),
    decreases front.len(),
{
    if front.len() == 0 {
        assert(front + a == a);
        assert(front + b == b);
    } else {
        sorting_goes_by_first_difference(front.drop_first(), a, b);
        assert((front + a).drop_first() == front.drop_first() + a);
        assert((front + b).drop_first() == front.drop_first() + b);
        assert((front + a)[0] == (front + b)[0]);
    }
}

} // verus!
