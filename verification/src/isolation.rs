//! Stream isolation: every connection belongs to a bucket that its identity
//! names. Connections of one bucket may share a circuit; connections of
//! different identities never do. A bucket moves to a fresh circuit after ten
//! minutes or two hundred uses.
//!
//! A circuit is named by a token: connections with the same token may share
//! one.
use crate::text;
use vstd::prelude::*;

verus! {

/// How often a circuit is used.
pub const MAX_USES: u32 = 200;

/// How old a circuit gets, in milliseconds.
pub const MAX_AGE_MS: u64 = 600_000;

/// A bucket.
#[derive(Debug)]
pub struct Bucket {
    /// The identity that names it.
    pub identity: Vec<u8>,
    /// The circuit.
    pub token: u64,
    /// How often the circuit was used.
    pub uses: u32,
    /// When the circuit was first used, in milliseconds.
    pub since_ms: u64,
}

/// A [`Bucket`] as a mathematical value.
pub struct Slot {
    /// The identity that names it.
    pub identity: Seq<u8>,
    /// The circuit.
    pub token: u64,
    /// How often the circuit was used.
    pub uses: u32,
    /// When the circuit was first used, in milliseconds.
    pub since_ms: u64,
}

impl View for Bucket {
    type V = Slot;

    open spec fn view(&self) -> Slot {
        Slot {
            identity: self.identity@,
            token: self.token,
            uses: self.uses,
            since_ms: self.since_ms,
        }
    }
}

/// The mathematical values of buckets.
pub open spec fn slots_of(list: Seq<Bucket>) -> Seq<Slot> {
    list.map_values(|b: Bucket| b@)
}

/// The age of a circuit at `now_ms`.
pub open spec fn age_ms(s: Slot, now_ms: u64) -> int {
    if now_ms >= s.since_ms {
        now_ms - s.since_ms
    } else {
        0
    }
}

/// Whether a circuit may be used once more.
pub open spec fn usable(s: Slot, now_ms: u64) -> bool {
    s.uses < MAX_USES && age_ms(s, now_ms) < MAX_AGE_MS
}

/// The first bucket of an identity, or the number of buckets.
pub open spec fn find_slot(slots: Seq<Slot>, identity: Seq<u8>) -> nat
    decreases slots.len(),
{
    if slots.len() == 0 || slots[0].identity == identity {
        0
    } else {
        1 + find_slot(slots.drop_first(), identity)
    }
}

/// The buckets, and the first token that was never given out.
pub struct Buckets {
    /// The buckets.
    pub slots: Seq<Slot>,
    /// The first token that was never given out.
    pub next_token: nat,
}

/// The buckets once a connection of an identity was given a circuit, and that
/// circuit: the bucket's own while it is usable, else a fresh one.
pub open spec fn joined(b: Buckets, identity: Seq<u8>, now_ms: u64) -> (Buckets, u64) {
    let at = find_slot(b.slots, identity) as int;
    let fresh = Slot { identity, token: b.next_token as u64, uses: 1, since_ms: now_ms };
    if at < b.slots.len() && usable(b.slots[at], now_ms) {
        let s = b.slots[at];
        (
            Buckets {
                slots: b.slots.update(at, Slot { uses: (s.uses + 1) as u32, ..s }),
                next_token: b.next_token,
            },
            s.token,
        )
    } else if at < b.slots.len() {
        (
            Buckets { slots: b.slots.update(at, fresh), next_token: b.next_token + 1 },
            b.next_token as u64,
        )
    } else {
        (
            Buckets { slots: b.slots.push(fresh), next_token: b.next_token + 1 },
            b.next_token as u64,
        )
    }
}

/// Whether an identity has a circuit that may be used once more.
pub open spec fn has_usable(b: Buckets, identity: Seq<u8>, now_ms: u64) -> bool {
    let at = find_slot(b.slots, identity) as int;
    at < b.slots.len() && usable(b.slots[at], now_ms)
}

impl Buckets {
    /// What always holds: identities and tokens occur once, tokens were given
    /// out before, and no circuit was used too often.
    pub open spec fn valid(self) -> bool {
        &&& self.next_token <= u64::MAX
        &&& forall|i: int, j: int|
            0 <= i < j < self.slots.len() ==> self.slots[i].identity != self.slots[j].identity
                && self.slots[i].token != self.slots[j].token
        &&& forall|i: int|
            0 <= i < self.slots.len() ==> (#[trigger] self.slots[i]).token < self.next_token && 1
                <= self.slots[i].uses <= MAX_USES
    }
}

/// The first bucket of an identity, if there is one, is of that identity, and none
/// before it is.
pub proof fn find_slot_bounds(slots: Seq<Slot>, identity: Seq<u8>)
    ensures
        find_slot(slots, identity) <= slots.len(),
        find_slot(slots, identity) < slots.len() ==> slots[find_slot(
            slots,
            identity,
        ) as int].identity == identity,
        forall|i: int| 0 <= i < find_slot(slots, identity) ==> slots[i].identity != identity,
    decreases slots.len(),
{
    if slots.len() > 0 && slots[0].identity != identity {
        find_slot_bounds(slots.drop_first(), identity);
        let n = find_slot(slots.drop_first(), identity);
        assert forall|i: int| 0 <= i < n + 1 implies slots[i].identity != identity by {
            if i > 0 {
                assert(slots.drop_first()[i - 1] == slots[i]);
            }
        }
    }
}

/// The isolation buckets.
#[derive(Debug)]
pub struct IsolationTable {
    buckets: Vec<Bucket>,
    next_token: u64,
}

impl View for IsolationTable {
    type V = Buckets;

    closed spec fn view(&self) -> Buckets {
        Buckets { slots: slots_of(self.buckets@), next_token: self.next_token as nat }
    }
}

impl IsolationTable {
    #[verifier::type_invariant]
    spec fn well_formed(self) -> bool {
        self@.valid()
    }

    /// No buckets yet.
    pub fn new() -> (t: Self)
        ensures
            t@ == (Buckets { slots: seq![], next_token: 0 }),
            t@.valid(),
    {
        let buckets: Vec<Bucket> = Vec::new();
        assert(slots_of(buckets@) == Seq::<Slot>::empty());
        IsolationTable { buckets, next_token: 0 }
    }

    fn position(&self, identity: &Vec<u8>) -> (at: usize)
        ensures
            at == find_slot(self@.slots, identity@),
    {
        let ghost slots = self@.slots;
        proof {
            find_slot_bounds(slots, identity@);
            assert(slots.skip(0) == slots);
        }
        let mut i: usize = 0;
        while i < self.buckets.len()
            invariant
                i <= self.buckets@.len(),
                slots == slots_of(self.buckets@),
                slots == self@.slots,
                find_slot(slots, identity@) == i + find_slot(slots.skip(i as int), identity@),
            decreases self.buckets@.len() - i,
        {
            let ghost rest = slots.skip(i as int);
            assert(rest[0] == self.buckets@[i as int]@);
            if same_bytes(&self.buckets[i].identity, identity) {
                return i;
            }
            assert(rest.drop_first() == slots.skip(i + 1));
            i = i + 1;
        }
        i
    }

    /// Gives a connection of an identity its circuit; none only if a fresh one
    /// is called for and there are no more tokens.
    pub fn acquire(&mut self, identity: Vec<u8>, now_ms: u64) -> (token: Option<u64>)
        ensures
            final(self)@.valid(),
            match token {
                Some(t) => (final(self)@, t) == joined(old(self)@, identity@, now_ms),
                None => old(self)@.next_token == u64::MAX && !has_usable(
                    old(self)@,
                    identity@,
                    now_ms,
                ) && final(self)@ == old(self)@,
            },
            has_usable(old(self)@, identity@, now_ms) || old(self)@.next_token < u64::MAX
                ==> token is Some,
    {
        let ghost before = self@;
        proof {
            use_type_invariant(&*self);
            find_slot_bounds(before.slots, identity@);
            if before.next_token < u64::MAX || has_usable(before, identity@, now_ms) {
                joining_keeps_valid(before, identity@, now_ms);
            }
        }
        let at = self.position(&identity);
        let mut usable_now = false;
        if at < self.buckets.len() {
            assert(before.slots[at as int] == self.buckets@[at as int]@);
            let since_ms: u64 = self.buckets[at].since_ms;
            let age: u64 = if now_ms >= since_ms {
                now_ms - since_ms
            } else {
                0
            };
            usable_now = self.buckets[at].uses < MAX_USES && age < MAX_AGE_MS;
        }
        if !usable_now && self.next_token == u64::MAX {
            return None;
        }
        let mut buckets: Vec<Bucket> = Vec::new();
        assert(slots_of(buckets@) == Seq::<Slot>::empty());
        std::mem::swap(&mut self.buckets, &mut buckets);
        assert(slots_of(buckets@) == before.slots);
        if usable_now {
            assert(before.slots[at as int] == buckets@[at as int]@);
            let token: u64 = buckets[at].token;
            let uses: u32 = buckets[at].uses;
            let since_ms: u64 = buckets[at].since_ms;
            let bucket = Bucket { identity, token, uses: uses + 1, since_ms };
            buckets.set(at, bucket);
            assert(slots_of(buckets@) == before.slots.update(at as int, bucket@));
            self.buckets = buckets;
            return Some(token);
        }
        let token: u64 = self.next_token;
        self.next_token = token + 1;
        let bucket = Bucket { identity, token, uses: 1, since_ms: now_ms };
        if at < buckets.len() {
            buckets.set(at, bucket);
            assert(slots_of(buckets@) == before.slots.update(at as int, bucket@));
        } else {
            buckets.push(bucket);
            assert(slots_of(buckets@) == before.slots.push(bucket@));
        }
        self.buckets = buckets;
        Some(token)
    }

    /// The buckets for display: identity, uses, and age in whole seconds,
    /// sorted by identity.
    pub fn snapshot(&self, now_ms: u64) -> (rows: Vec<IsolationRow>)
        ensures
            row_views(rows@) == sorted(unsorted_rows(self@.slots, now_ms)),
    {
        let ghost slots = self@.slots;
        let mut rows: Vec<IsolationRow> = Vec::new();
        let mut i: usize = 0;
        while i < self.buckets.len()
            invariant
                i <= self.buckets@.len(),
                slots == slots_of(self.buckets@),
                row_views(rows@) == unsorted_rows(slots.take(i as int), now_ms),
            decreases self.buckets@.len() - i,
        {
            let since_ms: u64 = self.buckets[i].since_ms;
            let age: u64 = if now_ms >= since_ms {
                now_ms - since_ms
            } else {
                0
            };
            let row = IsolationRow {
                identity: text::lossy(self.buckets[i].identity.as_slice()),
                uses: self.buckets[i].uses,
                age_secs: age / 1000,
            };
            let ghost before = row_views(rows@);
            rows.push(row);
            proof {
                assert(slots[i as int] == self.buckets@[i as int]@);
                assert(row_views(rows@) == before.push(row@));
                assert(unsorted_rows(slots.take(i + 1), now_ms) == before.push(row@));
            }
            i = i + 1;
        }
        assert(slots.take(i as int) == slots);
        sort_rows(rows)
    }
}

fn same_bytes(a: &Vec<u8>, b: &Vec<u8>) -> (r: bool)
    ensures
        r == (a@ == b@),
{
    if a.len() != b.len() {
        return false;
    }
    let mut i: usize = 0;
    while i < a.len()
        invariant
            i <= a@.len(),
            a@.len() == b@.len(),
            forall|j: int| 0 <= j < i ==> a@[j] == b@[j],
        decreases a@.len() - i,
    {
        if a[i] != b[i] {
            return false;
        }
        i = i + 1;
    }
    assert(a@ =~= b@);
    true
}

// ---------------------------------------------------------------------------
// The display.
// ---------------------------------------------------------------------------
/// A bucket as it is displayed.
#[derive(Debug)]
pub struct IsolationRow {
    /// The identity.
    pub identity: String,
    /// How often the circuit was used.
    pub uses: u32,
    /// The circuit's age in whole seconds.
    pub age_secs: u64,
}

/// An [`IsolationRow`] as a mathematical value.
pub struct RowView {
    /// The identity.
    pub identity: Seq<char>,
    /// How often the circuit was used.
    pub uses: u32,
    /// The circuit's age in whole seconds.
    pub age_secs: u64,
}

impl View for IsolationRow {
    type V = RowView;

    open spec fn view(&self) -> RowView {
        RowView { identity: self.identity@, uses: self.uses, age_secs: self.age_secs }
    }
}

/// The mathematical values of rows.
pub open spec fn row_views(list: Seq<IsolationRow>) -> Seq<RowView> {
    list.map_values(|r: IsolationRow| r@)
}

/// The rows of the buckets, in their own order.
pub open spec fn unsorted_rows(slots: Seq<Slot>, now_ms: u64) -> Seq<RowView> {
    slots.map_values(
        |s: Slot|
            RowView {
                identity: text::lossy_text(s.identity),
                uses: s.uses,
                age_secs: (age_ms(s, now_ms) / 1000) as u64,
            },
    )
}

/// Whether a text sorts before another: at the first difference its character
/// is less, or it ends there.
pub open spec fn sorts_before(a: Seq<char>, b: Seq<char>) -> bool
    decreases a.len(),
{
    if b.len() == 0 {
        false
    } else if a.len() == 0 {
        true
    } else if a[0] != b[0] {
        a[0] < b[0]
    } else {
        sorts_before(a.drop_first(), b.drop_first())
    }
}

/// Where a row goes among sorted rows: behind every row that does not sort
/// after it.
pub open spec fn place_of(rows: Seq<RowView>, row: RowView) -> int
    decreases rows.len(),
{
    if rows.len() == 0 || !sorts_before(row.identity, rows.last().identity) {
        rows.len() as int
    } else {
        place_of(rows.drop_last(), row)
    }
}

/// The rows sorted by identity; rows of the same identity keep their order.
pub open spec fn sorted(rows: Seq<RowView>) -> Seq<RowView>
    decreases rows.len(),
{
    if rows.len() == 0 {
        rows
    } else {
        let before = sorted(rows.drop_last());
        before.insert(place_of(before, rows.last()), rows.last())
    }
}

fn before(a: &str, b: &str) -> (r: bool)
    ensures
        r == sorts_before(a@, b@),
{
    let x = text::chars_of(a);
    let y = text::chars_of(b);
    let mut i: usize = 0;
    assert(x@.skip(0) == x@);
    assert(y@.skip(0) == y@);
    while i < x.len() && i < y.len()
        invariant
            i <= x@.len(),
            i <= y@.len(),
            x@ == a@,
            y@ == b@,
            sorts_before(x@, y@) == sorts_before(x@.skip(i as int), y@.skip(i as int)),
        decreases x@.len() - i,
    {
        let ghost p = x@.skip(i as int);
        let ghost q = y@.skip(i as int);
        assert(p[0] == x@[i as int] && q[0] == y@[i as int]);
        if x[i] != y[i] {
            return x[i] < y[i];
        }
        assert(p.drop_first() == x@.skip(i + 1));
        assert(q.drop_first() == y@.skip(i + 1));
        i = i + 1;
    }
    i < y.len()
}

proof fn place_is_inside(rows: Seq<RowView>, row: RowView)
    ensures
        0 <= place_of(rows, row) <= rows.len(),
    decreases rows.len(),
{
    if rows.len() > 0 {
        place_is_inside(rows.drop_last(), row);
    }
}

fn insert_row(rows: &mut Vec<IsolationRow>, row: IsolationRow)
    ensures
        row_views(final(rows)@) == row_views(old(rows)@).insert(
            place_of(row_views(old(rows)@), row@),
            row@,
        ),
{
    let ghost all = row_views(rows@);
    proof {
        place_is_inside(all, row@);
    }
    let mut i: usize = rows.len();
    assert(all.take(i as int) == all);
    while i > 0 && before(row.identity.as_str(), rows[i - 1].identity.as_str())
        invariant
            i <= rows@.len(),
            all == row_views(rows@),
            place_of(all, row@) == place_of(all.take(i as int), row@),
        decreases i,
    {
        assert(all.take(i as int).last() == rows@[i - 1]@);
        assert(all.take(i as int).drop_last() == all.take(i - 1));
        i = i - 1;
    }
    proof {
        if i > 0 {
            assert(all.take(i as int).last() == rows@[i - 1]@);
        }
        assert(place_of(all.take(i as int), row@) == i);
    }
    rows.insert(i, row);
    assert(row_views(rows@) == all.insert(i as int, row@));
}

/// Sorts rows by identity; rows of the same identity keep their order.
pub fn sort_rows(rows: Vec<IsolationRow>) -> (out: Vec<IsolationRow>)
    ensures
        row_views(out@) == sorted(row_views(rows@)),
{
    let ghost all = row_views(rows@);
    let mut out: Vec<IsolationRow> = Vec::new();
    let mut i: usize = 0;
    assert(row_views(out@) == Seq::<RowView>::empty());
    while i < rows.len()
        invariant
            i <= rows@.len(),
            all == row_views(rows@),
            row_views(out@) == sorted(all.take(i as int)),
        decreases rows@.len() - i,
    {
        let row = IsolationRow {
            identity: rows[i].identity.clone(),
            uses: rows[i].uses,
            age_secs: rows[i].age_secs,
        };
        insert_row(&mut out, row);
        proof {
            assert(all.take(i + 1).drop_last() == all.take(i as int));
            assert(all.take(i + 1).last() == row@);
        }
        i = i + 1;
    }
    assert(all.take(i as int) == all);
    out
}

// ---------------------------------------------------------------------------
// Laws.
// ---------------------------------------------------------------------------
/// What always holds of the buckets holds after a connection was given its
/// circuit.
pub proof fn joining_keeps_valid(b: Buckets, identity: Seq<u8>, now_ms: u64)
    requires
        b.valid(),
        b.next_token < u64::MAX || has_usable(b, identity, now_ms),
    ensures
        joined(b, identity, now_ms).0.valid(),
{
    find_slot_bounds(b.slots, identity);
    let at = find_slot(b.slots, identity) as int;
    let after = joined(b, identity, now_ms).0;
    assert forall|i: int, j: int| 0 <= i < j < after.slots.len() implies after.slots[i].identity
        != after.slots[j].identity && after.slots[i].token != after.slots[j].token by {
        if i != at && j != at {
            assert(after.slots[i] == b.slots[i] && after.slots[j] == b.slots[j]);
        } else if i == at {
            assert(after.slots[j] == b.slots[j]);
            assert(b.slots[j].identity != identity);
        } else {
            assert(after.slots[i] == b.slots[i]);
            assert(b.slots[i].identity != identity);
        }
    }
}

/// A connection: an identity and a time.
pub struct Arrival {
    /// The identity.
    pub identity: Seq<u8>,
    /// When, in milliseconds.
    pub at_ms: u64,
}

/// The buckets after a series of connections.
pub open spec fn after_arrivals(arrivals: Seq<Arrival>) -> Buckets
    decreases arrivals.len(),
{
    if arrivals.len() == 0 {
        Buckets { slots: seq![], next_token: 0 }
    } else {
        let last = arrivals.last();
        joined(after_arrivals(arrivals.drop_last()), last.identity, last.at_ms).0
    }
}

/// The circuit that connection `i` of a series was given.
pub open spec fn token_of(arrivals: Seq<Arrival>, i: int) -> u64 {
    joined(after_arrivals(arrivals.take(i)), arrivals[i].identity, arrivals[i].at_ms).1
}

/// What always holds of the buckets holds after any series of connections.
pub proof fn arrivals_keep_valid(arrivals: Seq<Arrival>)
    requires
        arrivals.len() < u64::MAX,
    ensures
        after_arrivals(arrivals).valid(),
        after_arrivals(arrivals).next_token <= arrivals.len(),
    decreases arrivals.len(),
{
    if arrivals.len() > 0 {
        let before = arrivals.drop_last();
        arrivals_keep_valid(before);
        joining_keeps_valid(
            after_arrivals(before),
            arrivals.last().identity,
            arrivals.last().at_ms,
        );
    }
}

/// After a series, the token of an earlier connection is below the first
/// unused one, and a bucket that holds it is of that connection's identity.
pub proof fn tokens_stay_with_their_identity(arrivals: Seq<Arrival>, i: int)
    requires
        0 <= i < arrivals.len() < u64::MAX,
    ensures
        token_of(arrivals, i) < after_arrivals(arrivals).next_token,
        forall|k: int|
            0 <= k < after_arrivals(arrivals).slots.len() && (
            #[trigger] after_arrivals(arrivals).slots[k]).token == token_of(arrivals, i)
                ==> after_arrivals(arrivals).slots[k].identity == arrivals[i].identity,
    decreases arrivals.len(),
{
    let before = arrivals.drop_last();
    let b = after_arrivals(before);
    let last = arrivals.last();
    arrivals_keep_valid(before);
    arrivals_keep_valid(arrivals);
    find_slot_bounds(b.slots, last.identity);
    let at = find_slot(b.slots, last.identity) as int;
    let after = after_arrivals(arrivals);
    if i == arrivals.len() - 1 {
        assert(arrivals.take(i) == before);
        assert(after.slots[at].token == token_of(arrivals, i));
        assert(after.slots[at].identity == last.identity);
        assert forall|k: int|
            0 <= k < after.slots.len() && (#[trigger] after.slots[k]).token == token_of(
                arrivals,
                i,
            ) implies after.slots[k].identity == arrivals[i].identity by {
            if k < at {
                assert(after.slots[k].token != after.slots[at].token);
            }
            if at < k {
                assert(after.slots[at].token != after.slots[k].token);
            }
        }
    } else {
        tokens_stay_with_their_identity(before, i);
        assert(before.take(i) == arrivals.take(i));
        assert(before[i] == arrivals[i]);
        assert(token_of(before, i) == token_of(arrivals, i));
        assert forall|k: int|
            0 <= k < after.slots.len() && (#[trigger] after.slots[k]).token == token_of(
                arrivals,
                i,
            ) implies after.slots[k].identity == arrivals[i].identity by {
            if k < b.slots.len() {
                assert(b.slots[k].token < b.next_token);
                assert(b.slots[k].token == after.slots[k].token);
            }
        }
    }
}

/// Different identities never share a circuit: in any series of connections,
/// two that were given the same circuit have the same identity.
pub proof fn different_identities_never_share(arrivals: Seq<Arrival>, i: int, j: int)
    requires
        0 <= i < j < arrivals.len() < u64::MAX,
        token_of(arrivals, i) == token_of(arrivals, j),
    ensures
        arrivals[i].identity == arrivals[j].identity,
{
    let upto = arrivals.take(j + 1);
    assert(upto.take(i) == arrivals.take(i));
    assert(upto.take(j) == arrivals.take(j));
    assert(upto[i] == arrivals[i] && upto[j] == arrivals[j]);
    assert(token_of(upto, i) == token_of(arrivals, i));
    assert(token_of(upto, j) == token_of(arrivals, j));
    tokens_stay_with_their_identity(upto, i);
    tokens_stay_with_their_identity(upto, j);
    let before = upto.drop_last();
    assert(before == upto.take(j));
    let b = after_arrivals(before);
    find_slot_bounds(b.slots, upto[j].identity);
    let at = find_slot(b.slots, upto[j].identity) as int;
    let after = after_arrivals(upto);
    assert(after.slots[at].token == token_of(upto, j));
    assert(after.slots[at].identity == upto[j].identity);
}

/// A connection of an identity that has a usable circuit is given that
/// circuit; else it is given one that no connection was given before.
pub proof fn circuits_rotate(b: Buckets, identity: Seq<u8>, now_ms: u64)
    requires
        b.valid(),
        b.next_token < u64::MAX,
    ensures
        ({
            let at = find_slot(b.slots, identity) as int;
            let token = joined(b, identity, now_ms).1;
            if at < b.slots.len() && b.slots[at].uses < 200 && age_ms(b.slots[at], now_ms)
                < 600_000 {
                token == b.slots[at].token
            } else {
                token == b.next_token && forall|i: int|
                    0 <= i < b.slots.len() ==> (#[trigger] b.slots[i]).token != token
            }
        }),
{
}

/// The displayed rows are sorted: none sorts before an earlier one.
pub proof fn rows_are_sorted(rows: Seq<RowView>)
    ensures
        sorted(rows).len() == rows.len(),
        sorted(rows).to_multiset() == rows.to_multiset(),
        forall|i: int, j: int|
            0 <= i < j < sorted(rows).len() ==> !sorts_before(
                (#[trigger] sorted(rows)[j]).identity,
                (#[trigger] sorted(rows)[i]).identity,
            ),
    decreases rows.len(),
{
    if rows.len() > 0 {
        let rest = rows.drop_last();
        let row = rows.last();
        let before = sorted(rest);
        rows_are_sorted(rest);
        place_is_inside(before, row);
        place_splits(before, row);
        let at = place_of(before, row);
        let all = sorted(rows);
        assert forall|i: int, j: int| 0 <= i < j < all.len() implies !sorts_before(
            (#[trigger] all[j]).identity,
            (#[trigger] all[i]).identity,
        ) by {
            if j == at {
                assert(all[i] == before[i]);
            } else if i == at {
                assert(all[j] == before[j - 1]);
                sorts_before_is_asymmetric(row.identity, before[j - 1].identity);
            } else {
                let x = if i < at {
                    i
                } else {
                    i - 1
                };
                let y = if j < at {
                    j
                } else {
                    j - 1
                };
                assert(all[i] == before[x] && all[j] == before[y]);
            }
        }
        vstd::seq_lib::to_multiset_insert(before, at, row);
        assert(rows == rest.push(row));
        vstd::seq_lib::to_multiset_build(rest, row);
    }
}

/// Among sorted rows, a row's place parts those that sort after it from those
/// that do not.
proof fn place_splits(rows: Seq<RowView>, row: RowView)
    requires
        forall|i: int, j: int|
            0 <= i < j < rows.len() ==> !sorts_before(
                (#[trigger] rows[j]).identity,
                (#[trigger] rows[i]).identity,
            ),
    ensures
        forall|i: int|
            0 <= i < place_of(rows, row) ==> !sorts_before(
                row.identity,
                (#[trigger] rows[i]).identity,
            ),
        forall|j: int|
            place_of(rows, row) <= j < rows.len() ==> sorts_before(
                row.identity,
                (#[trigger] rows[j]).identity,
            ),
    decreases rows.len(),
{
    if rows.len() > 0 {
        let n = rows.len() - 1;
        if sorts_before(row.identity, rows[n].identity) {
            let less = rows.drop_last();
            assert forall|i: int, j: int| 0 <= i < j < less.len() implies !sorts_before(
                (#[trigger] less[j]).identity,
                (#[trigger] less[i]).identity,
            ) by {
                assert(less[i] == rows[i] && less[j] == rows[j]);
            }
            place_splits(less, row);
            place_is_inside(less, row);
            assert forall|i: int| 0 <= i < place_of(rows, row) implies !sorts_before(
                row.identity,
                (#[trigger] rows[i]).identity,
            ) by {
                assert(less[i] == rows[i]);
            }
            assert forall|j: int| place_of(rows, row) <= j < rows.len() implies sorts_before(
                row.identity,
                (#[trigger] rows[j]).identity,
            ) by {
                if j < n {
                    assert(less[j] == rows[j]);
                }
            }
        } else {
            assert forall|i: int| 0 <= i < rows.len() implies !sorts_before(
                row.identity,
                (#[trigger] rows[i]).identity,
            ) by {
                if i < n && sorts_before(row.identity, rows[i].identity) {
                    assert(!sorts_before(rows[n].identity, rows[i].identity));
                    sorts_before_carries_over(
                        row.identity,
                        rows[i].identity,
                        rows[n].identity,
                    );
                }
            }
        }
    }
}

proof fn sorts_before_carries_over(a: Seq<char>, b: Seq<char>, c: Seq<char>)
    requires
        sorts_before(a, b),
        !sorts_before(c, b),
    ensures
        sorts_before(a, c),
    decreases a.len(),
{
    if a.len() > 0 && c.len() > 0 && a[0] == b[0] && b[0] == c[0] {
        sorts_before_carries_over(a.drop_first(), b.drop_first(), c.drop_first());
    }
}

proof fn sorts_before_is_asymmetric(a: Seq<char>, b: Seq<char>)
    requires
        sorts_before(a, b),
    ensures
        !sorts_before(b, a),
    decreases a.len(),
{
    if a.len() > 0 && b.len() > 0 && a[0] == b[0] {
        sorts_before_is_asymmetric(a.drop_first(), b.drop_first());
    }
}

} // verus!
