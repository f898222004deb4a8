use crate::assoc::{
    lemma_matching_all, lemma_matching_none, lemma_matching_step, lemma_table_at,
    lemma_table_empty, lemma_table_finite, lemma_table_key, lemma_table_push, lemma_table_update,
    matching, table,
};
use crate::text::{
    before_first, first_field, hex_lower, lemma_hex_lower_digits, opt_str, to_hex_lower, trim,
    trimmed,
};
use sha2::{Digest, Sha256};
use vstd::prelude::*;
use vstd::string::StringExecFns;

verus! {

/// The text appended to a caller's identity before it is hashed.
///
/// It is one constant for all records. It keeps raw addresses out of the
/// store but is no secret and no security boundary: whoever knows it can
/// hash a guessed address and compare.
pub const IDENTITY_SALT: &'static str = "OISKO_SALT_v1";

/// Seconds east of UTC of the zone in which a visitor's day is counted,
/// where no other offset is configured.
pub const DEFAULT_UTC_OFFSET_SECONDS: i32 = 7200;

/// The SHA-256 digest of `data`.
pub uninterp spec fn sha256_digest(data: Seq<u8>) -> Seq<u8>;

/// `sha2::Sha256::digest`: the SHA-256 digest of `data`, which has 32 bytes.
#[verifier::external_body]
fn sha256(data: &[u8]) -> (digest: Vec<u8>)
    ensures
        digest@ == sha256_digest(data@),
        digest@.len() == 32,
{
    Sha256::digest(data).to_vec()
}

/// The identity of a caller: the first comma-separated entry of the
/// forwarded-for header without surrounding white space where the request
/// carried that header, else the address of the peer.
pub open spec fn identity_of(forwarded_for: Option<Seq<char>>, peer: Seq<char>) -> Seq<char> {
    match forwarded_for {
        Some(header) => trimmed(before_first(header, ',')),
        None => peer,
    }
}

/// The identity of a caller: the first comma-separated entry of the
/// forwarded-for header without surrounding white space where the request
/// carried that header, else the address of the peer.
pub fn client_identity(forwarded_for: Option<&str>, peer: &str) -> (identity: String)
    ensures
        identity@ == identity_of(opt_str(forwarded_for), peer@),
{
    match forwarded_for {
        Some(header) => {
            let first = first_field(header, ',');
            trim(first.as_str())
        },
        None => String::from_str(peer),
    }
}

/// The key under which a caller with this identity is recorded: the
/// SHA-256 digest of the identity followed by the salt, both as UTF-8,
/// in lower-case hexadecimal.
pub open spec fn identity_hash_of(identity: Seq<char>) -> Seq<char> {
    hex_lower(sha256_digest(vstd::utf8::encode_utf8(identity + IDENTITY_SALT@)))
}

/// The key under which a caller with this identity is recorded.
pub fn identity_hash(identity: &str) -> (key: String)
    ensures
        key@ == identity_hash_of(identity@),
        key@.len() == 64,
{
    let mut salted = String::from_str(identity);
    salted.append(IDENTITY_SALT);
    let digest = sha256(salted.as_str().as_bytes());
    proof {
        lemma_hex_lower_digits(digest@);
    }
    to_hex_lower(digest.as_slice())
}

/// The seconds in one day.
pub const SECONDS_PER_DAY: i64 = 86_400;

/// The number of the day on which the instant `at`, in seconds since the
/// epoch, falls for a clock that is `offset_seconds` east of UTC. Day 0
/// begins at the epoch of that clock.
pub open spec fn local_day(at: int, offset_seconds: int) -> int {
    (at + offset_seconds) / (SECONDS_PER_DAY as int)
}

/// The number of the day on which `at` falls for a clock that is
/// `offset_seconds` east of UTC.
pub fn local_day_of(at: i64, offset_seconds: i32) -> (day: i64)
    ensures
        day == local_day(at as int, offset_seconds as int),
{
    let shifted: i128 = at as i128 + offset_seconds as i128;
    let day: i128 = SECONDS_PER_DAY as i128;
    if shifted >= 0 {
        (shifted / day) as i64
    } else {
        let below: i128 = (-shifted - 1) / day;
        (-below - 1) as i64
    }
}

/// Whether the instants `a` and `b` fall on the same day of a clock that
/// is `offset_seconds` east of UTC.
pub fn is_same_local_day(a: i64, b: i64, offset_seconds: i32) -> (same: bool)
    ensures
        same == (local_day(a as int, offset_seconds as int) == local_day(
            b as int,
            offset_seconds as int,
        )),
{
    local_day_of(a, offset_seconds) == local_day_of(b, offset_seconds)
}

/// One visitor as a mathematical value.
pub struct VisitorModel {
    pub visit_count: int,
    pub first_seen_at: int,
    pub last_seen_at: int,
}

/// The visitor records by their key.
pub type Visitors = Map<Seq<char>, VisitorModel>;

/// What holds of every set of records that this module builds: they are
/// finitely many, and each was counted at least once and no more often
/// than its counter can hold.
pub open spec fn visitors_wf(visitors: Visitors) -> bool {
    &&& visitors.dom().finite()
    &&& forall|key: Seq<char>| #[trigger]
        visitors.contains_key(key) ==> 1 <= visitors[key].visit_count <= i32::MAX
}

/// Whether the record on `visitor` was last seen on the day of `now`.
pub open spec fn seen_on_day(visitor: VisitorModel, now: int, offset_seconds: int) -> bool {
    local_day(visitor.last_seen_at, offset_seconds) == local_day(now, offset_seconds)
}

/// Whether any visitor was last seen on the day of `now`.
pub open spec fn anyone_seen_on_day(visitors: Visitors, now: int, offset_seconds: int) -> bool {
    exists|key: Seq<char>| #[trigger]
        visitors.contains_key(key) && seen_on_day(visitors[key], now, offset_seconds)
}

/// The keys of the visitors last seen on the day of `now`.
pub open spec fn seen_today(visitors: Visitors, now: int, offset_seconds: int) -> Set<Seq<char>> {
    visitors.dom().filter(|key: Seq<char>| seen_on_day(visitors[key], now, offset_seconds))
}

/// Whether the visitor under `key` can be counted once more.
pub open spec fn can_count(visitors: Visitors, key: Seq<char>) -> bool {
    visitors.contains_key(key) ==> visitors[key].visit_count < i32::MAX
}

/// The records after a visit under `key` at `now` was written: a new
/// record counted once, or the old one counted once more and seen at `now`.
pub open spec fn upserted(visitors: Visitors, key: Seq<char>, now: int) -> Visitors {
    if visitors.contains_key(key) {
        visitors.insert(
            key,
            VisitorModel {
                visit_count: visitors[key].visit_count + 1,
                last_seen_at: now,
                ..visitors[key]
            },
        )
    } else {
        visitors.insert(
            key,
            VisitorModel { visit_count: 1, first_seen_at: now, last_seen_at: now },
        )
    }
}

/// A count as it is reported: itself while it fits, else the largest value.
pub open spec fn reported(count: nat) -> i64 {
    if count <= i64::MAX {
        count as i64
    } else {
        i64::MAX
    }
}

/// One stored visitor: the hashed identity, how often it came, and when
/// it was first and last seen, in seconds since the epoch.
#[derive(Debug, PartialEq, Eq)]
pub struct Visitor {
    pub ip_hash: String,
    pub visit_count: i32,
    pub first_seen_at: i64,
    pub last_seen_at: i64,
}

impl View for Visitor {
    type V = VisitorModel;

    open spec fn view(&self) -> VisitorModel {
        VisitorModel {
            visit_count: self.visit_count as int,
            first_seen_at: self.first_seen_at as int,
            last_seen_at: self.last_seen_at as int,
        }
    }
}

impl Clone for Visitor {
    fn clone(&self) -> (copy: Self)
        ensures
            copy@ == self@,
            copy.ip_hash@ == self.ip_hash@,
    {
        Visitor {
            ip_hash: self.ip_hash.clone(),
            visit_count: self.visit_count,
            first_seen_at: self.first_seen_at,
            last_seen_at: self.last_seen_at,
        }
    }
}

impl Visitor {
    fn count_again(&mut self, now: i64)
        requires
            old(self).visit_count < i32::MAX,
        ensures
            final(self).ip_hash == old(self).ip_hash,
            final(self)@ == (VisitorModel {
                visit_count: old(self)@.visit_count + 1,
                last_seen_at: now as int,
                ..old(self)@
            }),
    {
        self.visit_count = self.visit_count + 1;
        self.last_seen_at = now;
    }
}

/// What a visit is answered with.
#[derive(Debug, Clone, Copy, PartialEq, Eq)]
pub struct VisitResponse {
    /// Whether this was the caller's first visit ever.
    pub is_first_visit: bool,
    /// Whether nobody had been seen yet on this day when the caller came.
    pub is_first_of_day: bool,
    /// How many distinct visitors are recorded.
    pub total_unique_visitors: i64,
    /// How many visitors were last seen on this day.
    pub today_visitors: i64,
}

/// Why a visit could not be recorded.
#[derive(Debug, Clone, Copy, PartialEq, Eq)]
pub enum VisitError {
    /// The visitor was already counted as often as the counter can hold.
    CounterExhausted,
}

/// What a visit under `key` at `now` is answered with, given the records
/// before it: whether anyone was seen today is asked before the visit is
/// written, the counts after.
pub open spec fn response_to(
    before: Visitors,
    key: Seq<char>,
    now: int,
    offset_seconds: int,
) -> VisitResponse {
    let after = upserted(before, key, now);
    VisitResponse {
        is_first_visit: after[key].visit_count == 1,
        is_first_of_day: !anyone_seen_on_day(before, now, offset_seconds),
        total_unique_visitors: reported(after.dom().len()),
        today_visitors: reported(seen_today(after, now, offset_seconds).len()),
    }
}

spec fn keys(records: Seq<Visitor>) -> Seq<Seq<char>> {
    records.map_values(|r: Visitor| r.ip_hash@)
}

spec fn rows(records: Seq<Visitor>) -> Seq<VisitorModel> {
    records.map_values(|r: Visitor| r@)
}

fn report(count: usize) -> (n: i64)
    ensures
        n == reported(count as nat),
{
    if count as u64 > i64::MAX as u64 {
        i64::MAX
    } else {
        count as i64
    }
}

/// The visitor records, one for each hashed identity.
pub struct VisitorLog {
    records: Vec<Visitor>,
}

impl View for VisitorLog {
    type V = Visitors;

    closed spec fn view(&self) -> Visitors {
        table(keys(self.records@), rows(self.records@))
    }
}

/// Whether `records` can be loaded into a log: no two of them have one
/// key, and each was counted at least once.
pub open spec fn loadable(records: Seq<Visitor>) -> bool {
    &&& forall|a: int, b: int|
        0 <= a < b < records.len() ==> (#[trigger] records[a]).ip_hash@
            != (#[trigger] records[b]).ip_hash@
    &&& forall|a: int| 0 <= a < records.len() ==> (#[trigger] records[a]).visit_count >= 1
}

/// Whether `records` can be the records of a log: no identity is recorded
/// twice, and each record was counted at least once.
spec fn sound(records: Seq<Visitor>) -> bool {
    &&& keys(records).no_duplicates()
    &&& forall|i: int| 0 <= i < records.len() ==> (#[trigger] records[i]).visit_count >= 1
}

proof fn lemma_sound(records: Seq<Visitor>)
    requires
        sound(records),
    ensures
        visitors_wf(table(keys(records), rows(records))),
{
    lemma_table_finite(keys(records), rows(records));
    assert forall|key: Seq<char>| #[trigger]
        table(keys(records), rows(records)).contains_key(key) implies 1 <= table(
        keys(records),
        rows(records),
    )[key].visit_count <= i32::MAX by {
        lemma_table_key(keys(records), rows(records), key);
        let k = keys(records).index_of(key);
        assert(rows(records)[k] == records[k]@);
    }
}

fn find(records: &Vec<Visitor>, key: &String) -> (at: Option<usize>)
    ensures
        at is Some == table(keys(records@), rows(records@)).contains_key(key@),
        at matches Some(i) ==> i < records@.len() && records@[i as int].ip_hash@ == key@,
{
    let mut i: usize = 0;
    while i < records.len()
        invariant
            i <= records@.len(),
            forall|j: int| 0 <= j < i ==> (#[trigger] records@[j]).ip_hash@ != key@,
        decreases records@.len() - i,
    {
        if records[i].ip_hash == *key {
            proof {
                assert(keys(records@)[i as int] == key@);
            }
            return Some(i);
        }
        i += 1;
    }
    proof {
        if keys(records@).contains(key@) {
            let k = keys(records@).index_of(key@);
            assert(records@[k].ip_hash@ == key@);
        }
    }
    None
}

impl VisitorLog {
    /// What holds of every log at all times.
    #[verifier::type_invariant]
    spec fn well_formed(&self) -> bool {
        sound(self.records@)
    }

    /// A log without records.
    pub fn new() -> (log: VisitorLog)
        ensures
            log@ == Map::<Seq<char>, VisitorModel>::empty(),
            visitors_wf(log@),
    {
        let log = VisitorLog { records: Vec::new() };
        proof {
            lemma_table_empty(keys(log.records@), rows(log.records@));
            lemma_sound(log.records@);
        }
        log
    }

    /// A log that holds `records`, as when they are read back from where
    /// they were kept. There is none where two records have one key or a
    /// record was never counted.
    pub fn from_records(records: Vec<Visitor>) -> (log: Option<VisitorLog>)
        ensures
            log is Some == loadable(records@),
            log matches Some(l) ==> {
                &&& visitors_wf(l@)
                &&& l@.dom().len() == records@.len()
                &&& forall|i: int|
                    0 <= i < records@.len() ==> l@.contains_key(
                        (#[trigger] records@[i]).ip_hash@,
                    ) && l@[records@[i].ip_hash@] == records@[i]@
            },
    {
        let mut i: usize = 0;
        while i < records.len()
            invariant
                i <= records@.len(),
                forall|a: int| 0 <= a < i ==> (#[trigger] records@[a]).visit_count >= 1,
                forall|a: int, b: int|
                    0 <= a < b < i ==> (#[trigger] records@[a]).ip_hash@
                        != (#[trigger] records@[b]).ip_hash@,
            decreases records@.len() - i,
        {
            if records[i].visit_count < 1 {
                return None;
            }
            let mut j: usize = 0;
            while j < i
                invariant
                    j <= i,
                    i < records@.len(),
                    forall|a: int|
                        0 <= a < j ==> (#[trigger] records@[a]).ip_hash@ != records@[i as int].ip_hash@,
                decreases i - j,
            {
                if records[j].ip_hash == records[i].ip_hash {
                    return None;
                }
                j += 1;
            }
            i += 1;
        }
        proof {
            assert(keys(records@).no_duplicates()) by {
                assert forall|a: int, b: int|
                    0 <= a < keys(records@).len() && 0 <= b < keys(records@).len() && a
                        != b implies keys(records@)[a] != keys(records@)[b] by {
                    if a < b {
                        assert(records@[a].ip_hash@ != records@[b].ip_hash@);
                    } else {
                        assert(records@[b].ip_hash@ != records@[a].ip_hash@);
                    }
                }
            }
            lemma_sound(records@);
            lemma_table_finite(keys(records@), rows(records@));
            assert forall|i: int| 0 <= i < records@.len() implies table(
                keys(records@),
                rows(records@),
            ).contains_key((#[trigger] records@[i]).ip_hash@) && table(
                keys(records@),
                rows(records@),
            )[records@[i].ip_hash@] == records@[i]@ by {
                lemma_table_at(keys(records@), rows(records@), i);
            }
        }
        Some(VisitorLog { records })
    }

    /// The record under `key`, if there is one.
    pub fn get(&self, key: &String) -> (found: Option<&Visitor>)
        ensures
            found is Some == self@.contains_key(key@),
            found matches Some(v) ==> v@ == self@[key@] && v.ip_hash@ == key@,
    {
        proof {
            use_type_invariant(self);
        }
        match find(&self.records, key) {
            Some(i) => {
                proof {
                    lemma_table_at(keys(self.records@), rows(self.records@), i as int);
                }
                Some(&self.records[i])
            },
            None => None,
        }
    }

    /// How many distinct visitors are recorded.
    pub fn total(&self) -> (n: i64)
        ensures
            n == reported(self@.dom().len()),
            visitors_wf(self@),
    {
        proof {
            use_type_invariant(self);
            lemma_sound(self.records@);
            lemma_table_finite(keys(self.records@), rows(self.records@));
        }
        report(self.records.len())
    }

    /// Whether any visitor was last seen on the day of `now`.
    pub fn anyone_seen_on(&self, now: i64, offset_seconds: i32) -> (seen: bool)
        ensures
            seen == anyone_seen_on_day(self@, now as int, offset_seconds as int),
    {
        proof {
            use_type_invariant(self);
        }
        let ghost records = self.records@;
        let mut i: usize = 0;
        while i < self.records.len()
            invariant
                i <= self.records@.len(),
                records == self.records@,
                sound(records),
                forall|j: int|
                    0 <= j < i ==> !seen_on_day(
                        (#[trigger] self.records@[j])@,
                        now as int,
                        offset_seconds as int,
                    ),
            decreases self.records@.len() - i,
        {
            if is_same_local_day(self.records[i].last_seen_at, now, offset_seconds) {
                proof {
                    lemma_table_at(keys(records), rows(records), i as int);
                }
                return true;
            }
            i += 1;
        }
        proof {
            if anyone_seen_on_day(self@, now as int, offset_seconds as int) {
                let key = choose|key: Seq<char>| #[trigger]
                    self@.contains_key(key) && seen_on_day(
                        self@[key],
                        now as int,
                        offset_seconds as int,
                    );
                lemma_table_key(keys(records), rows(records), key);
                let k = keys(records).index_of(key);
                assert(rows(records)[k] == records[k]@);
            }
        }
        false
    }

    /// How many visitors were last seen on the day of `now`.
    pub fn seen_on(&self, now: i64, offset_seconds: i32) -> (n: i64)
        ensures
            n == reported(seen_today(self@, now as int, offset_seconds as int).len()),
    {
        proof {
            use_type_invariant(self);
        }
        let ghost records = self.records@;
        let ghost pred = |v: VisitorModel| seen_on_day(v, now as int, offset_seconds as int);
        let mut count: usize = 0;
        let mut i: usize = 0;
        proof {
            lemma_matching_none(keys(records), rows(records), pred);
        }
        while i < self.records.len()
            invariant
                i <= self.records@.len(),
                records == self.records@,
                sound(records),
                pred == |v: VisitorModel| seen_on_day(v, now as int, offset_seconds as int),
                matching(keys(records), rows(records), pred, i as int).finite(),
                count == matching(keys(records), rows(records), pred, i as int).len(),
                count <= i,
            decreases self.records@.len() - i,
        {
            proof {
                lemma_matching_step(keys(records), rows(records), pred, i as int);
                assert(rows(records)[i as int] == records[i as int]@);
            }
            if is_same_local_day(self.records[i].last_seen_at, now, offset_seconds) {
                count += 1;
            }
            i += 1;
        }
        proof {
            lemma_matching_all(keys(records), rows(records), pred);
            assert(seen_today(self@, now as int, offset_seconds as int) =~= self@.dom().filter(
                |k: Seq<char>| pred(self@[k]),
            ));
        }
        report(count)
    }

    /// Writes a visit under `key` at `now`: a new record counted once, or
    /// the old one counted once more and seen at `now`. Returns the new
    /// count. A record that was counted `i32::MAX` times stays as it is.
    pub fn upsert(&mut self, key: String, now: i64) -> (counted: Result<i32, VisitError>)
        ensures
            visitors_wf(final(self)@),
            can_count(old(self)@, key@) ==> {
                &&& counted == Ok::<i32, VisitError>(
                    upserted(old(self)@, key@, now as int)[key@].visit_count as i32,
                )
                &&& final(self)@ == upserted(old(self)@, key@, now as int)
            },
            !can_count(old(self)@, key@) ==> {
                &&& counted == Err::<i32, VisitError>(VisitError::CounterExhausted)
                &&& final(self)@ == old(self)@
            },
    {
        proof {
            use_type_invariant(&*self);
            lemma_sound(self.records@);
        }
        let ghost before = self.records@;
        let at = find(&self.records, &key);
        match at {
            Some(i) => {
                proof {
                    lemma_table_at(keys(before), rows(before), i as int);
                }
                if self.records[i].visit_count == i32::MAX {
                    return Err(VisitError::CounterExhausted);
                }
                let mut records: Vec<Visitor> = Vec::new();
                core::mem::swap(&mut self.records, &mut records);
                records[i].count_again(now);
                let counted = records[i].visit_count;
                proof {
                    let after = records@;
                    assert(keys(after) =~= keys(before));
                    assert(rows(after) =~= rows(before).update(i as int, after[i as int]@));
                    lemma_table_update(keys(before), rows(before), i as int, after[i as int]@);
                    lemma_sound(after);
                }
                self.records = records;
                Ok(counted)
            },
            None => {
                let fresh = Visitor {
                    ip_hash: key,
                    visit_count: 1,
                    first_seen_at: now,
                    last_seen_at: now,
                };
                let mut records: Vec<Visitor> = Vec::new();
                core::mem::swap(&mut self.records, &mut records);
                proof {
                    lemma_table_push(keys(before), rows(before), key@, fresh@);
                }
                records.push(fresh);
                proof {
                    let after = records@;
                    assert(keys(after) =~= keys(before).push(key@));
                    assert(rows(after) =~= rows(before).push(fresh@));
                    lemma_sound(after);
                }
                self.records = records;
                Ok(1)
            },
        }
    }
}

impl VisitResponse {
    /// The answer to a visit from what a store reported: the visitor's
    /// count after the visit was written, whether anyone had been seen
    /// today before it, and the two totals after it. A figure that the
    /// store could not give counts as nobody seen, or as zero: the visit
    /// is still answered.
    pub fn assemble(
        visit_count: i32,
        anyone_seen_today: Option<bool>,
        total: Option<i64>,
        today: Option<i64>,
    ) -> (response: VisitResponse)
        ensures
            response == (VisitResponse {
                is_first_visit: visit_count == 1,
                is_first_of_day: !(anyone_seen_today matches Some(seen) && seen),
                total_unique_visitors: match total {
                    Some(n) => n,
                    None => 0,
                },
                today_visitors: match today {
                    Some(n) => n,
                    None => 0,
                },
            }),
    {
        let seen = match anyone_seen_today {
            Some(seen) => seen,
            None => false,
        };
        VisitResponse {
            is_first_visit: visit_count == 1,
            is_first_of_day: !seen,
            total_unique_visitors: match total {
                Some(n) => n,
                None => 0,
            },
            today_visitors: match today {
                Some(n) => n,
                None => 0,
            },
        }
    }
}

/// Records one visit and answers it.
///
/// The caller is identified by the forwarded-for header, or by the peer
/// address where there is none, and recorded under the hash of that
/// identity. Whether anyone was seen today is asked before the visit is
/// written, so that it tells of the time before this request; the counts
/// are taken after. A visitor whose counter is exhausted is refused and
/// the log is left as it was.
pub fn record_visit(
    log: &mut VisitorLog,
    forwarded_for: Option<&str>,
    peer: &str,
    now: i64,
    offset_seconds: i32,
) -> (reply: Result<VisitResponse, VisitError>)
    ensures
        ({
            let key = identity_hash_of(identity_of(opt_str(forwarded_for), peer@));
            if can_count(old(log)@, key) {
                &&& reply == Ok::<VisitResponse, VisitError>(
                    response_to(old(log)@, key, now as int, offset_seconds as int),
                )
                &&& final(log)@ == upserted(old(log)@, key, now as int)
            } else {
                &&& reply == Err::<VisitResponse, VisitError>(VisitError::CounterExhausted)
                &&& final(log)@ == old(log)@
            }
        }),
{
    let identity = client_identity(forwarded_for, peer);
    let seen_before = log.anyone_seen_on(now, offset_seconds);
    let key = identity_hash(identity.as_str());
    match log.upsert(key, now) {
        Ok(visit_count) => {
            let total = log.total();
            let today = log.seen_on(now, offset_seconds);
            Ok(
                VisitResponse {
                    is_first_visit: visit_count == 1,
                    is_first_of_day: !seen_before,
                    total_unique_visitors: total,
                    today_visitors: today,
                },
            )
        },
        Err(e) => Err(e),
    }
}

/// One visit as a mathematical value: under which key and when.
pub struct Visit {
    pub key: Seq<char>,
    pub at: int,
}

/// The records after a visit was asked for: written where the visitor can
/// be counted once more, else as before.
pub open spec fn visited(visitors: Visitors, visit: Visit) -> Visitors {
    if can_count(visitors, visit.key) {
        upserted(visitors, visit.key, visit.at)
    } else {
        visitors
    }
}

/// The records after all of `visits` were asked for, first to last.
pub open spec fn visited_all(visitors: Visitors, visits: Seq<Visit>) -> Visitors
    decreases visits.len(),
{
    if visits.len() == 0 {
        visitors
    } else {
        visited(visited_all(visitors, visits.drop_last()), visits.last())
    }
}

/// Every visit keeps well-formed records well formed.
pub proof fn law_visit_keeps_wf(visitors: Visitors, visit: Visit)
    requires
        visitors_wf(visitors),
    ensures
        visitors_wf(visited(visitors, visit)),
{
}

/// Counting is exact: a visit makes a new visitor's count 1 and raises a
/// known visitor's count by one, leaves everyone else's record alone, and
/// is answered as a first visit exactly where the visitor was not known.
pub proof fn law_visit_counts_once(
    visitors: Visitors,
    key: Seq<char>,
    now: int,
    offset_seconds: int,
)
    requires
        visitors_wf(visitors),
        can_count(visitors, key),
    ensures
        upserted(visitors, key, now)[key].visit_count == (if visitors.contains_key(key) {
            visitors[key].visit_count + 1
        } else {
            1
        }),
        response_to(visitors, key, now, offset_seconds).is_first_visit == !visitors.contains_key(
            key,
        ),
        upserted(visitors, key, now).dom() == visitors.dom().insert(key),
        forall|other: Seq<char>|
            other != key && visitors.contains_key(other) ==> upserted(visitors, key, now)[other]
                == visitors[other],
{
    assert(upserted(visitors, key, now).dom() =~= visitors.dom().insert(key));
}

/// Two visits under one identity that was not known before are counted 1
/// and then 2, and only the first is answered as a first visit.
pub proof fn law_two_visits_count_one_then_two(
    visitors: Visitors,
    key: Seq<char>,
    first_at: int,
    second_at: int,
    offset_seconds: int,
)
    requires
        !visitors.contains_key(key),
    ensures
        ({
            let once = upserted(visitors, key, first_at);
            let twice = upserted(once, key, second_at);
            &&& once[key].visit_count == 1
            &&& twice[key].visit_count == 2
            &&& response_to(visitors, key, first_at, offset_seconds).is_first_visit
            &&& !response_to(once, key, second_at, offset_seconds).is_first_visit
        }),
{
}

/// First of the day, once: where nobody was seen yet on the day of a
/// visit that is then written, that visit is answered as the first of the
/// day, and no visit after it on the same day is, whoever makes it and
/// whatever visits lie between.
pub proof fn law_first_of_day_is_exclusive(
    visitors: Visitors,
    first: Visit,
    between: Seq<Visit>,
    later: Visit,
    offset_seconds: int,
)
    requires
        can_count(visitors, first.key),
        !anyone_seen_on_day(visitors, first.at, offset_seconds),
        forall|i: int|
            0 <= i < between.len() ==> local_day((#[trigger] between[i]).at, offset_seconds)
                == local_day(first.at, offset_seconds),
        local_day(later.at, offset_seconds) == local_day(first.at, offset_seconds),
    ensures
        response_to(visitors, first.key, first.at, offset_seconds).is_first_of_day,
        !response_to(
            visited_all(visited(visitors, first), between),
            later.key,
            later.at,
            offset_seconds,
        ).is_first_of_day,
{
    let start = visited(visitors, first);
    assert(start.contains_key(first.key) && seen_on_day(
        start[first.key],
        first.at,
        offset_seconds,
    ));
    lemma_day_stays_seen(start, between, first.at, offset_seconds);
}

proof fn lemma_day_stays_seen(visitors: Visitors, visits: Seq<Visit>, day_of: int, offset_seconds: int)
    requires
        anyone_seen_on_day(visitors, day_of, offset_seconds),
        forall|i: int|
            0 <= i < visits.len() ==> local_day((#[trigger] visits[i]).at, offset_seconds)
                == local_day(day_of, offset_seconds),
    ensures
        anyone_seen_on_day(visited_all(visitors, visits), day_of, offset_seconds),
    decreases visits.len(),
{
    if visits.len() > 0 {
        let head = visits.drop_last();
        assert forall|i: int| 0 <= i < head.len() implies local_day(
            (#[trigger] head[i]).at,
            offset_seconds,
        ) == local_day(day_of, offset_seconds) by {
            assert(head[i] == visits[i]);
        }
        lemma_day_stays_seen(visitors, head, day_of, offset_seconds);
        let prior = visited_all(visitors, head);
        let last = visits.last();
        let next = visited(prior, last);
        let witness = choose|key: Seq<char>| #[trigger]
            prior.contains_key(key) && seen_on_day(prior[key], day_of, offset_seconds);
        if witness == last.key && can_count(prior, last.key) {
            assert(next.contains_key(witness) && seen_on_day(
                next[witness],
                day_of,
                offset_seconds,
            ));
        } else {
            assert(next.contains_key(witness) && seen_on_day(
                next[witness],
                day_of,
                offset_seconds,
            ));
        }
    }
}

} // verus!
