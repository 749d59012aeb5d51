//! Append-only audit store: insertion with unique identifiers, paginated
//! retrieval ordered by timestamp, and integrity verification over the
//! stored sequence.

use vstd::prelude::*;
use vstd::string::StringExecFns;
use crate::clock;
use crate::error::QmsError;
use crate::logging::{AuditLogEntry, AuditOutcome};
use crate::text;

verus! {

/// Upper bound on the number of entries the store accepts; keeps every
/// derived count comfortably within machine integers.
pub const AUDIT_STORE_CAP: usize = 0x4000_0000;

/// One audit trail row as persisted.
#[derive(Debug)]
pub struct AuditTrailEntry {
    /// Unique identifier, assigned at persistence time, never reused.
    pub id: u64,
    /// Seconds since the Unix epoch at which the action happened.
    pub timestamp: i64,
    /// Identifier of the responsible party.
    pub user_id: String,
    /// Short verb naming the operation.
    pub action: String,
    /// Identifier of the affected entity.
    pub resource: String,
    /// Canonical textual outcome.
    pub outcome: String,
    /// Originating address, if recorded.
    pub ip_address: Option<String>,
    /// Identifier grouping entries into a logical session.
    pub session_id: String,
    /// Serialized metadata payload, if any.
    pub metadata: Option<String>,
    /// Regulatory rule-set version in force at creation.
    pub compliance_version: String,
    /// Digital signature over the identity fields.
    pub signature_hash: Option<String>,
    /// Server-assigned persistence instant, seconds since the Unix epoch.
    pub created_at: i64,
}

/// The mathematical contents of one audit trail row.
#[verifier::ext_equal]
pub ghost struct AuditRow {
    pub id: u64,
    pub timestamp: int,
    pub user_id: Seq<char>,
    pub action: Seq<char>,
    pub resource: Seq<char>,
    pub outcome: Seq<char>,
    pub ip_address: Option<Seq<char>>,
    pub session_id: Seq<char>,
    pub metadata: Option<Seq<char>>,
    pub compliance_version: Seq<char>,
    pub signature_hash: Option<Seq<char>>,
    pub created_at: int,
}

/// The view of an optional string.
pub open spec fn opt_text(o: Option<String>) -> Option<Seq<char>> {
    match o {
        Option::None => Option::None,
        Option::Some(s) => Option::Some(s@),
    }
}

impl View for AuditTrailEntry {
    type V = AuditRow;

    open spec fn view(&self) -> AuditRow {
        AuditRow {
            id: self.id,
            timestamp: self.timestamp as int,
            user_id: self.user_id@,
            action: self.action@,
            resource: self.resource@,
            outcome: self.outcome@,
            ip_address: opt_text(self.ip_address),
            session_id: self.session_id@,
            metadata: opt_text(self.metadata),
            compliance_version: self.compliance_version@,
            signature_hash: opt_text(self.signature_hash),
            created_at: self.created_at as int,
        }
    }
}

/// Copy an optional string.
fn clone_opt_string(o: &Option<String>) -> (r: Option<String>)
    ensures
        opt_text(r) == opt_text(*o),
{
    match o {
        Option::Some(s) => Option::Some(s.clone()),
        Option::None => Option::None,
    }
}

impl AuditTrailEntry {
    /// Copy of the row with the same contents.
    pub fn clone_row(&self) -> (r: AuditTrailEntry)
        ensures
            r@ == self@,
    {
        let r = AuditTrailEntry {
            id: self.id,
            timestamp: self.timestamp,
            user_id: self.user_id.clone(),
            action: self.action.clone(),
            resource: self.resource.clone(),
            outcome: self.outcome.clone(),
            ip_address: clone_opt_string(&self.ip_address),
            session_id: self.session_id.clone(),
            metadata: clone_opt_string(&self.metadata),
            compliance_version: self.compliance_version.clone(),
            signature_hash: clone_opt_string(&self.signature_hash),
            created_at: self.created_at,
        };
        proof {
            assert(r@ =~= self@);
        }
        r
    }
}

/// Canonical textual form of an outcome.
pub open spec fn outcome_text(o: AuditOutcome) -> Seq<char> {
    match o {
        AuditOutcome::Success => "SUCCESS"@,
        AuditOutcome::Failure => "FAILURE"@,
        AuditOutcome::Warning => "WARNING"@,
    }
}

/// The row that persisting an entry produces, given the assigned
/// identifier and the server-assigned persistence instant.
pub open spec fn row_of_entry(e: AuditLogEntry, id: u64, created_at: int) -> AuditRow {
    AuditRow {
        id: id,
        timestamp: e.timestamp as int,
        user_id: e.user_id@,
        action: e.action@,
        resource: e.resource@,
        outcome: outcome_text(e.outcome),
        ip_address: opt_text(e.ip_address),
        session_id: e.session_id@,
        metadata: opt_text(e.metadata),
        compliance_version: e.compliance_version@,
        signature_hash: opt_text(e.signature_hash),
        created_at: created_at,
    }
}

/// Whether a persisted row carries every required field.
pub open spec fn row_complete(r: AuditRow) -> bool {
    r.user_id.len() > 0 && r.action.len() > 0 && r.resource.len() > 0 && r.session_id.len() > 0
}

/// The mathematical contents of a row sequence.
pub open spec fn views_of(s: Seq<AuditTrailEntry>) -> Seq<AuditRow> {
    s.map_values(|e: AuditTrailEntry| e@)
}

/// Retrieval order: newest first, ties broken by ascending identifier.
pub open spec fn row_before(a: AuditRow, b: AuditRow) -> bool {
    a.timestamp > b.timestamp || (a.timestamp == b.timestamp && a.id <= b.id)
}

/// Where a row lands when inserted into a sequence kept in retrieval
/// order: before the first element it precedes.
pub open spec fn insert_sorted(x: AuditRow, s: Seq<AuditRow>) -> Seq<AuditRow>
    decreases s.len(),
{
    if s.len() == 0 {
        seq![x]
    } else if row_before(x, s[0]) {
        seq![x] + s
    } else {
        seq![s[0]] + insert_sorted(x, s.drop_first())
    }
}

/// The unique retrieval ordering of a row sequence.
pub open spec fn sort_rows(s: Seq<AuditRow>) -> Seq<AuditRow>
    decreases s.len(),
{
    if s.len() == 0 {
        Seq::empty()
    } else {
        insert_sorted(s.last(), sort_rows(s.drop_last()))
    }
}

/// Whether a row is for the requested actor (no request admits every row).
pub open spec fn row_matches_actor(r: AuditRow, actor: Option<Seq<char>>) -> bool {
    match actor {
        Option::None => true,
        Option::Some(u) => r.user_id == u,
    }
}

/// The rows for the requested actor, in stored order.
pub open spec fn filter_actor(s: Seq<AuditRow>, actor: Option<Seq<char>>) -> Seq<AuditRow>
    decreases s.len(),
{
    if s.len() == 0 {
        Seq::empty()
    } else {
        filter_actor(s.drop_last(), actor) + (if row_matches_actor(s.last(), actor) {
            seq![s.last()]
        } else {
            Seq::empty()
        })
    }
}

/// Filtering never lengthens a sequence.
pub proof fn lemma_filter_actor_len(s: Seq<AuditRow>, actor: Option<Seq<char>>)
    ensures
        filter_actor(s, actor).len() <= s.len(),
    decreases s.len(),
{
    if s.len() > 0 {
        lemma_filter_actor_len(s.drop_last(), actor);
    }
}

/// The requested page of a sequence: `limit` elements starting at
/// `offset`, clipped to the end.
pub open spec fn page_of(s: Seq<AuditRow>, offset: int, limit: int) -> Seq<AuditRow> {
    if offset >= s.len() {
        Seq::empty()
    } else if offset + limit <= s.len() {
        s.subrange(offset, offset + limit)
    } else {
        s.subrange(offset, s.len() as int)
    }
}

/// Sorted insertion inserts exactly at the first position whose element
/// the new row precedes.
proof fn lemma_insert_sorted_at(x: AuditRow, s: Seq<AuditRow>, idx: int)
    requires
        0 <= idx <= s.len(),
        forall|j: int| 0 <= j < idx ==> !row_before(x, #[trigger] s[j]),
        idx < s.len() ==> row_before(x, s[idx]),
    ensures
        insert_sorted(x, s) == s.insert(idx, x),
    decreases s.len(),
{
    if s.len() == 0 {
        assert(insert_sorted(x, s) =~= s.insert(0, x));
    } else if idx == 0 {
        assert(row_before(x, s[0]));
        assert(insert_sorted(x, s) =~= s.insert(0, x));
    } else {
        assert(!row_before(x, s[0]));
        lemma_insert_sorted_at(x, s.drop_first(), idx - 1);
        assert(seq![s[0]] + s.drop_first().insert(idx - 1, x) =~= s.insert(idx, x));
    }
}

/// Sorted insertion grows the sequence by one.
pub proof fn lemma_insert_sorted_len(x: AuditRow, s: Seq<AuditRow>)
    ensures
        insert_sorted(x, s).len() == s.len() + 1,
    decreases s.len(),
{
    if s.len() > 0 && !row_before(x, s[0]) {
        lemma_insert_sorted_len(x, s.drop_first());
    }
}

/// Sorting preserves length.
pub proof fn lemma_sort_rows_len(s: Seq<AuditRow>)
    ensures
        sort_rows(s).len() == s.len(),
    decreases s.len(),
{
    if s.len() > 0 {
        lemma_sort_rows_len(s.drop_last());
        lemma_insert_sorted_len(s.last(), sort_rows(s.drop_last()));
    }
}

/// Prepending one row adds exactly that row to the contents.
proof fn lemma_cons_contains(h: AuditRow, t: Seq<AuditRow>, y: AuditRow)
    ensures
        (seq![h] + t).contains(y) <==> (y == h || t.contains(y)),
{
    let c = seq![h] + t;
    if c.contains(y) {
        let i = choose|i: int| 0 <= i < c.len() && c[i] == y;
        if i == 0 {
            assert(y == h);
        } else {
            assert(t[i - 1] == y);
        }
    }
    if y == h {
        assert(c[0] == y);
    }
    if t.contains(y) {
        let i = choose|i: int| 0 <= i < t.len() && t[i] == y;
        assert(c[i + 1] == y);
    }
}

/// A sequence contains a row exactly when its sorted ordering does.
pub proof fn lemma_insert_sorted_contains(x: AuditRow, s: Seq<AuditRow>, y: AuditRow)
    ensures
        insert_sorted(x, s).contains(y) <==> (x == y || s.contains(y)),
    decreases s.len(),
{
    if s.len() == 0 {
        assert(insert_sorted(x, s) =~= seq![x] + Seq::<AuditRow>::empty());
        lemma_cons_contains(x, Seq::empty(), y);
    } else if row_before(x, s[0]) {
        lemma_cons_contains(x, s, y);
    } else {
        lemma_insert_sorted_contains(x, s.drop_first(), y);
        lemma_cons_contains(s[0], insert_sorted(x, s.drop_first()), y);
        assert forall|z: AuditRow| s.contains(z) implies (z == s[0] || s.drop_first().contains(
            z,
        )) by {
            let i = choose|i: int| 0 <= i < s.len() && s[i] == z;
            if i > 0 {
                assert(s.drop_first()[i - 1] == z);
            }
        }
        assert forall|z: AuditRow| z == s[0] || s.drop_first().contains(z) implies s.contains(
            z,
        ) by {
            if z == s[0] {
                assert(s[0] == z);
            } else {
                let i = choose|i: int| 0 <= i < s.drop_first().len() && s.drop_first()[i] == z;
                assert(s[i + 1] == z);
            }
        }
    }
}

/// Law: sorting neither loses nor invents rows.
pub proof fn lemma_sort_rows_contains(s: Seq<AuditRow>, y: AuditRow)
    ensures
        sort_rows(s).contains(y) <==> s.contains(y),
    decreases s.len(),
{
    if s.len() > 0 {
        lemma_sort_rows_contains(s.drop_last(), y);
        lemma_insert_sorted_contains(s.last(), sort_rows(s.drop_last()), y);
        assert forall|z: AuditRow| s.contains(z) implies (z == s.last() || s.drop_last().contains(
            z,
        )) by {
            let i = choose|i: int| 0 <= i < s.len() && s[i] == z;
            if i < s.len() - 1 {
                assert(s.drop_last()[i] == z);
            }
        }
        assert forall|z: AuditRow| z == s.last() || s.drop_last().contains(z) implies s.contains(
            z,
        ) by {
            if z == s.last() {
            } else {
                let i = choose|i: int| 0 <= i < s.drop_last().len() && s.drop_last()[i] == z;
                assert(s[i] == z);
            }
        }
    }
}

/// The position where a row lands in a vector kept in retrieval order.
fn find_insert_pos(v: &Vec<AuditTrailEntry>, row: &AuditTrailEntry) -> (idx: usize)
    ensures
        0 <= idx <= v@.len(),
        forall|j: int| 0 <= j < idx ==> !row_before(row@, #[trigger] views_of(v@)[j]),
        idx < v@.len() ==> row_before(row@, views_of(v@)[idx as int]),
{
    let mut i: usize = 0;
    while i < v.len()
        invariant
            0 <= i <= v@.len(),
            forall|j: int| 0 <= j < i ==> !row_before(row@, #[trigger] views_of(v@)[j]),
        decreases v@.len() - i,
    {
        let e = &v[i];
        let goes_before = row.timestamp > e.timestamp || (row.timestamp == e.timestamp && row.id
            <= e.id);
        if goes_before {
            return i;
        }
        i += 1;
    }
    i
}

/// Whether a row sequence is in retrieval order: newest first, ties by
/// ascending identifier.
pub open spec fn rows_ordered(t: Seq<AuditRow>) -> bool {
    forall|i: int, j: int| 0 <= i < j < t.len() ==> row_before(#[trigger] t[i], #[trigger] t[j])
}

/// The retrieval order is total: of two rows, one precedes the other.
pub proof fn lemma_row_before_total(a: AuditRow, b: AuditRow)
    ensures
        row_before(a, b) || row_before(b, a),
{
}

/// The retrieval order is transitive.
pub proof fn lemma_row_before_trans(a: AuditRow, b: AuditRow, c: AuditRow)
    requires
        row_before(a, b),
        row_before(b, c),
    ensures
        row_before(a, c),
{
}

/// Sorted insertion preserves retrieval order.
pub proof fn lemma_insert_sorted_ordered(x: AuditRow, s: Seq<AuditRow>)
    requires
        rows_ordered(s),
    ensures
        rows_ordered(insert_sorted(x, s)),
    decreases s.len(),
{
    if s.len() == 0 {
    } else if row_before(x, s[0]) {
        let t = seq![x] + s;
        assert forall|i: int, j: int| 0 <= i < j < t.len() implies row_before(
            #[trigger] t[i],
            #[trigger] t[j],
        ) by {
            if i == 0 {
                if j > 1 {
                    lemma_row_before_trans(x, s[0], s[j - 1]);
                }
            }
        }
    } else {
        let rest = s.drop_first();
        assert forall|i: int, j: int| 0 <= i < j < rest.len() implies row_before(
            #[trigger] rest[i],
            #[trigger] rest[j],
        ) by {
            assert(s[i + 1] == rest[i]);
            assert(s[j + 1] == rest[j]);
        }
        lemma_insert_sorted_ordered(x, rest);
        let inner = insert_sorted(x, rest);
        let t = seq![s[0]] + inner;
        lemma_insert_sorted_len(x, rest);
        assert forall|i: int, j: int| 0 <= i < j < t.len() implies row_before(
            #[trigger] t[i],
            #[trigger] t[j],
        ) by {
            if i == 0 {
                let y = inner[j - 1];
                lemma_insert_sorted_contains(x, rest, y);
                assert(inner.contains(y)) by {
                    assert(inner[j - 1] == y);
                }
                if y == x {
                    lemma_row_before_total(x, s[0]);
                } else {
                    let k = choose|k: int| 0 <= k < rest.len() && rest[k] == y;
                    assert(s[k + 1] == y);
                }
            }
        }
    }
}

/// Law: the retrieval ordering of a row sequence is in retrieval order —
/// newest first, ties broken by ascending identifier.
pub proof fn lemma_sort_rows_ordered(s: Seq<AuditRow>)
    ensures
        rows_ordered(sort_rows(s)),
    decreases s.len(),
{
    if s.len() > 0 {
        lemma_sort_rows_ordered(s.drop_last());
        lemma_insert_sorted_ordered(s.last(), sort_rows(s.drop_last()));
    }
}

/// Insert a row into a vector kept in retrieval order.
fn insert_row_sorted(v: &mut Vec<AuditTrailEntry>, row: AuditTrailEntry)
    ensures
        views_of(final(v)@) == insert_sorted(row@, views_of(old(v)@)),
{
    let ghost s = views_of(v@);
    let idx = find_insert_pos(v, &row);
    v.insert(idx, row);
    proof {
        lemma_insert_sorted_at(row@, s, idx as int);
        assert(views_of(v@) =~= s.insert(idx as int, row@));
    }
}

/// Sort rows into retrieval order: newest first, ties by identifier.
fn sorted_copy(src: &Vec<AuditTrailEntry>) -> (r: Vec<AuditTrailEntry>)
    ensures
        views_of(r@) == sort_rows(views_of(src@)),
{
    let mut out: Vec<AuditTrailEntry> = Vec::new();
    let mut i: usize = 0;
    proof {
        assert(views_of(out@) =~= sort_rows(views_of(src@.take(0))));
    }
    while i < src.len()
        invariant
            0 <= i <= src@.len(),
            views_of(out@) == sort_rows(views_of(src@.take(i as int))),
        decreases src@.len() - i,
    {
        let row = src[i].clone_row();
        insert_row_sorted(&mut out, row);
        proof {
            let t = src@.take(i + 1 as int);
            assert(t.drop_last() =~= src@.take(i as int));
            assert(views_of(t).drop_last() =~= views_of(t.drop_last()));
            assert(views_of(t).last() == src@[i as int]@);
            assert(views_of(out@) == insert_sorted(
                views_of(t).last(),
                sort_rows(views_of(t).drop_last()),
            ));
        }
        i += 1;
    }
    proof {
        assert(src@.take(src@.len() as int) =~= src@);
    }
    out
}

/// The append-only audit store.
pub struct AuditStore {
    entries: Vec<AuditTrailEntry>,
}

impl AuditStore {
    /// The stored rows, in insertion order.
    pub closed spec fn rows(self) -> Seq<AuditRow> {
        views_of(self.entries@)
    }

    /// Well-formedness: identifiers equal positions (so they are unique
    /// and never reused), every row is complete, and the store is within
    /// its capacity.
    pub closed spec fn wf(self) -> bool {
        &&& self.rows().len() <= AUDIT_STORE_CAP
        &&& forall|i: int|
            0 <= i < self.rows().len() ==> (#[trigger] self.rows()[i]).id == i as u64
        &&& forall|i: int| 0 <= i < self.rows().len() ==> row_complete(#[trigger] self.rows()[i])
    }

    /// Create an empty store.
    pub fn new() -> (r: AuditStore)
        ensures
            r.wf(),
            r.rows().len() == 0,
    {
        let r = AuditStore { entries: Vec::new() };
        proof {
            assert(r.rows() =~= Seq::<AuditRow>::empty());
        }
        r
    }

    /// Timestamp of the stored entry at a position.
    pub fn timestamp_at(&self, i: usize) -> (r: i64)
        requires
            i < self.rows().len(),
        ensures
            r as int == self.rows()[i as int].timestamp,
    {
        self.entries[i].timestamp
    }

    /// Number of stored entries.
    pub fn len(&self) -> (r: usize)
        ensures
            r == self.rows().len(),
    {
        self.entries.len()
    }

    /// Append one audit entry: the entry is validated, receives the next
    /// unique identifier and a server-assigned persistence instant, and
    /// is never updated afterwards. Nothing else changes.
    pub fn insert_audit_entry(&mut self, entry: &AuditLogEntry) -> (r: Result<u64, QmsError>)
        requires
            old(self).wf(),
        ensures
            final(self).wf(),
            !entry.is_complete() ==> (r matches Err(e) && e is Validation && final(self).rows()
                == old(self).rows()),
            entry.is_complete() && old(self).rows().len() >= AUDIT_STORE_CAP ==> (r matches Err(e)
                && e is Database && final(self).rows() == old(self).rows()),
            entry.is_complete() && old(self).rows().len() < AUDIT_STORE_CAP ==> (r matches Ok(id)
                && id == old(self).rows().len() && (exists|c: int|
                final(self).rows() == old(self).rows().push(
                    #[trigger] row_of_entry(*entry, (old(self).rows().len()) as u64, c),
                ))),
            r is Err ==> final(self).rows() == old(self).rows(),
    {
        if let Err(e) = entry.validate() {
            return Err(e);
        }
        if self.entries.len() >= AUDIT_STORE_CAP {
            return Err(QmsError::Database {
                message: String::from_str("The audit store is at capacity"),
            });
        }
        let id = self.entries.len() as u64;
        let created_at = clock::now_unix();
        let row = AuditTrailEntry {
            id,
            timestamp: entry.timestamp,
            user_id: entry.user_id.clone(),
            action: entry.action.clone(),
            resource: entry.resource.clone(),
            outcome: entry.outcome.as_str().to_owned(),
            ip_address: clone_opt_string(&entry.ip_address),
            session_id: entry.session_id.clone(),
            metadata: clone_opt_string(&entry.metadata),
            compliance_version: entry.compliance_version.clone(),
            signature_hash: clone_opt_string(&entry.signature_hash),
            created_at,
        };
        proof {
            assert(row@ =~= row_of_entry(*entry, id, created_at as int));
        }
        self.entries.push(row);
        proof {
            assert(self.rows() =~= old(self).rows().push(
                row_of_entry(*entry, id, created_at as int),
            ));
        }
        Ok(id)
    }

    /// Retrieve a page of entries ordered by timestamp descending (ties
    /// by ascending identifier), optionally filtered by actor. The page
    /// starts `offset` rows in and holds at most `limit` rows. Pagination
    /// parameters are validated.
    pub fn get_audit_entries(&self, limit: i64, offset: i64, user_id: Option<&str>) -> (r: Result<
        Vec<AuditTrailEntry>,
        QmsError,
    >)
        requires
            self.wf(),
        ensures
            limit <= 0 ==> (r matches Err(e) && e matches QmsError::Validation { field, .. }
                && field@ == "limit"@),
            limit > 0 && offset < 0 ==> (r matches Err(e) && e matches QmsError::Validation {
                field,
                ..
            } && field@ == "offset"@),
            limit > 0 && offset >= 0 ==> (r matches Ok(v) && views_of(v@) == page_of(
                sort_rows(filter_actor(self.rows(), opt_view(user_id))),
                offset as int,
                limit as int,
            )),
    {
        if limit <= 0 {
            return Err(QmsError::Validation {
                field: String::from_str("limit"),
                message: String::from_str("The page size must be positive"),
            });
        }
        if offset < 0 {
            return Err(QmsError::Validation {
                field: String::from_str("offset"),
                message: String::from_str("The page offset must not be negative"),
            });
        }
        let filtered = self.filtered_copy(user_id);
        let sorted = sorted_copy(&filtered);
        let ghost ordered = sort_rows(filter_actor(self.rows(), opt_view(user_id)));
        proof {
            lemma_filter_actor_len(self.rows(), opt_view(user_id));
            lemma_sort_rows_len(filter_actor(self.rows(), opt_view(user_id)));
        }
        let mut out: Vec<AuditTrailEntry> = Vec::new();
        let total = sorted.len();
        if offset >= total as i64 {
            proof {
                assert(views_of(out@) =~= page_of(ordered, offset as int, limit as int));
            }
            return Ok(out);
        }
        let start = offset as usize;
        let end = if (limit as u64) <= (total - start) as u64 {
            start + (limit as usize)
        } else {
            total
        };
        let mut k = start;
        proof {
            assert(views_of(out@) =~= ordered.subrange(start as int, start as int));
        }
        while k < end
            invariant
                0 <= start <= k <= end <= sorted@.len(),
                views_of(sorted@) == ordered,
                ordered.len() == sorted@.len(),
                views_of(out@) == ordered.subrange(start as int, k as int),
            decreases end - k,
        {
            let ghost prev = out@;
            let row = sorted[k].clone_row();
            out.push(row);
            proof {
                assert(views_of(out@) =~= views_of(prev).push(sorted@[k as int]@));
                assert(sorted@[k as int]@ == ordered[k as int]);
                assert(views_of(out@) =~= ordered.subrange(start as int, k + 1 as int));
            }
            k += 1;
        }
        proof {
            assert(views_of(out@) =~= page_of(ordered, offset as int, limit as int));
        }
        Ok(out)
    }

    /// The rows for the requested actor, in stored order.
    fn filtered_copy(&self, user_id: Option<&str>) -> (r: Vec<AuditTrailEntry>)
        ensures
            views_of(r@) == filter_actor(self.rows(), opt_view(user_id)),
    {
        let mut out: Vec<AuditTrailEntry> = Vec::new();
        match user_id {
            Option::None => {
                let mut i: usize = 0;
                proof {
                    assert(views_of(out@) =~= filter_actor(
                        views_of(self.entries@.take(0)),
                        opt_view(user_id),
                    ));
                }
                while i < self.entries.len()
                    invariant
                        0 <= i <= self.entries@.len(),
                        views_of(out@) == filter_actor(
                            views_of(self.entries@.take(i as int)),
                            Option::None,
                        ),
                    decreases self.entries@.len() - i,
                {
                    let row = self.entries[i].clone_row();
                    out.push(row);
                    proof {
                        let t = self.entries@.take(i + 1 as int);
                        assert(t.drop_last() =~= self.entries@.take(i as int));
                        assert(views_of(t).drop_last() =~= views_of(t.drop_last()));
                        assert(views_of(t).last() == self.entries@[i as int]@);
                        assert(views_of(out@) =~= filter_actor(views_of(t), Option::None));
                    }
                    i += 1;
                }
                proof {
                    assert(self.entries@.take(self.entries@.len() as int) =~= self.entries@);
                }
                out
            },
            Option::Some(u) => {
                let target = u.to_owned();
                let mut i: usize = 0;
                proof {
                    assert(views_of(out@) =~= filter_actor(
                        views_of(self.entries@.take(0)),
                        opt_view(user_id),
                    ));
                }
                while i < self.entries.len()
                    invariant
                        0 <= i <= self.entries@.len(),
                        target@ == u@,
                        views_of(out@) == filter_actor(
                            views_of(self.entries@.take(i as int)),
                            Option::Some(u@),
                        ),
                    decreases self.entries@.len() - i,
                {
                    let ghost prev = views_of(out@);
                    if self.entries[i].user_id == target {
                        let row = self.entries[i].clone_row();
                        out.push(row);
                    }
                    proof {
                        let t = self.entries@.take(i + 1 as int);
                        assert(t.drop_last() =~= self.entries@.take(i as int));
                        assert(views_of(t).drop_last() =~= views_of(t.drop_last()));
                        assert(views_of(t).last() == self.entries@[i as int]@);
                        if row_matches_actor(self.entries@[i as int]@, Option::Some(u@)) {
                            assert(views_of(out@) =~= prev + seq![self.entries@[i as int]@]);
                        } else {
                            assert(views_of(out@) =~= prev);
                        }
                        assert(views_of(out@) =~= filter_actor(views_of(t), Option::Some(u@)));
                    }
                    i += 1;
                }
                proof {
                    assert(self.entries@.take(self.entries@.len() as int) =~= self.entries@);
                }
                out
            },
        }
    }
}


/// Audit integrity report, derived on demand.
#[derive(Debug)]
pub struct AuditIntegrityReport {
    /// Number of stored entries.
    pub total_entries: u64,
    /// Timestamp of the oldest entry, if any.
    pub earliest_entry: Option<i64>,
    /// Timestamp of the newest entry, if any.
    pub latest_entry: Option<i64>,
    /// Whether no anomaly was found.
    pub integrity_verified: bool,
    /// Number of anomalies found.
    pub gaps_found: usize,
    /// One-line human-readable summary.
    pub details: String,
}

/// Number of adjacent pairs, in retrieval order (newest first), whose
/// timestamps lie more than the threshold apart.
pub open spec fn gap_count(t: Seq<AuditRow>, threshold_secs: int) -> int
    decreases t.len(),
{
    if t.len() < 2 {
        0
    } else {
        gap_count(t.drop_last(), threshold_secs) + (if t[t.len() - 2].timestamp - t[t.len()
            - 1].timestamp > threshold_secs {
            1int
        } else {
            0int
        })
    }
}

/// Whether two rows belong to the same logical session bracket.
pub open spec fn same_group(a: AuditRow, b: AuditRow) -> bool {
    a.user_id == b.user_id && a.session_id == b.session_id
}

/// Whether some other row shares the row's session bracket.
pub open spec fn has_partner(s: Seq<AuditRow>, i: int) -> bool {
    exists|j: int| 0 <= j < s.len() && j != i && same_group(s[i], #[trigger] s[j])
}

/// Number of rows among the first `k` whose session bracket holds no
/// other row.
pub open spec fn lonely_upto(s: Seq<AuditRow>, k: int) -> int
    decreases k,
{
    if k <= 0 {
        0
    } else {
        lonely_upto(s, k - 1) + (if !has_partner(s, k - 1) {
            1int
        } else {
            0int
        })
    }
}

/// Number of rows whose session bracket holds no other row: each such
/// row marks an incomplete session.
pub open spec fn lonely_count(s: Seq<AuditRow>) -> int {
    lonely_upto(s, s.len() as int)
}

/// Number of rows among the first `k` that lack a required field.
pub open spec fn invalid_upto(s: Seq<AuditRow>, k: int) -> int
    decreases k,
{
    if k <= 0 {
        0
    } else {
        invalid_upto(s, k - 1) + (if !row_complete(s[k - 1]) {
            1int
        } else {
            0int
        })
    }
}

/// Number of rows that lack a required field.
pub open spec fn invalid_count(s: Seq<AuditRow>) -> int {
    invalid_upto(s, s.len() as int)
}

/// Anomaly counts are never negative.
pub proof fn lemma_gap_count_nonneg(t: Seq<AuditRow>, threshold_secs: int)
    ensures
        gap_count(t, threshold_secs) >= 0,
    decreases t.len(),
{
    if t.len() >= 2 {
        lemma_gap_count_nonneg(t.drop_last(), threshold_secs);
    }
}

/// Incomplete-session counts are never negative.
pub proof fn lemma_lonely_upto_nonneg(s: Seq<AuditRow>, k: int)
    ensures
        lonely_upto(s, k) >= 0,
    decreases k,
{
    if k > 0 {
        lemma_lonely_upto_nonneg(s, k - 1);
    }
}

/// Invalid-entry counts are never negative.
pub proof fn lemma_invalid_upto_nonneg(s: Seq<AuditRow>, k: int)
    ensures
        invalid_upto(s, k) >= 0,
    decreases k,
{
    if k > 0 {
        lemma_invalid_upto_nonneg(s, k - 1);
    }
}

/// Count the temporal gaps wider than the threshold between adjacent
/// rows of a vector in retrieval order.
fn count_gaps(sorted: &Vec<AuditTrailEntry>, threshold_secs: i64) -> (r: usize)
    ensures
        r == gap_count(views_of(sorted@), threshold_secs as int),
        sorted@.len() == 0 ==> r == 0,
        sorted@.len() > 0 ==> r <= sorted@.len() - 1,
{
    let ghost t = views_of(sorted@);
    if sorted.len() < 2 {
        proof {
            if t.len() == 1 {
                assert(t.take(1).drop_last() =~= t.take(0));
            }
        }
        return 0;
    }
    let mut r: usize = 0;
    let mut k: usize = 1;
    proof {
        assert(t.take(1).drop_last() =~= t.take(0));
        assert(gap_count(t.take(1), threshold_secs as int) == 0);
    }
    while k < sorted.len()
        invariant
            1 <= k <= t.len(),
            t == views_of(sorted@),
            t.len() == sorted@.len(),
            r == gap_count(t.take(k as int), threshold_secs as int),
            r <= k - 1,
        decreases t.len() - k,
    {
        let newer = sorted[k - 1].timestamp as i128;
        let older = sorted[k].timestamp as i128;
        if newer - older > threshold_secs as i128 {
            r += 1;
        }
        proof {
            let p = t.take(k + 1 as int);
            assert(p.drop_last() =~= t.take(k as int));
            assert(p[p.len() - 2] == t[k - 1 as int]);
            assert(p[p.len() - 1] == t[k as int]);
        }
        k += 1;
    }
    proof {
        assert(t.take(t.len() as int) =~= t);
    }
    r
}

/// Whether any other entry shares the entry's session bracket.
fn partner_exists(entries: &Vec<AuditTrailEntry>, i: usize) -> (r: bool)
    requires
        i < entries@.len(),
    ensures
        r == has_partner(views_of(entries@), i as int),
{
    let ghost s = views_of(entries@);
    let mut j: usize = 0;
    while j < entries.len()
        invariant
            0 <= j <= s.len(),
            i < s.len(),
            s == views_of(entries@),
            s.len() == entries@.len(),
            forall|j2: int| 0 <= j2 < j && j2 != i ==> !same_group(s[i as int], #[trigger] s[j2]),
        decreases s.len() - j,
    {
        if j != i {
            let a = &entries[i];
            let b = &entries[j];
            if a.user_id == b.user_id && a.session_id == b.session_id {
                proof {
                    assert(same_group(s[i as int], s[j as int]));
                }
                return true;
            }
        }
        j += 1;
    }
    false
}

/// Count the rows whose session bracket holds no other row.
fn count_incomplete_sessions(entries: &Vec<AuditTrailEntry>) -> (r: usize)
    ensures
        r == lonely_count(views_of(entries@)),
        r <= entries@.len(),
{
    let ghost s = views_of(entries@);
    let mut r: usize = 0;
    let mut i: usize = 0;
    while i < entries.len()
        invariant
            0 <= i <= s.len(),
            s == views_of(entries@),
            s.len() == entries@.len(),
            r == lonely_upto(s, i as int),
            r <= i,
        decreases s.len() - i,
    {
        if !partner_exists(entries, i) {
            r += 1;
        }
        i += 1;
    }
    r
}

/// Count the rows that lack a required field.
fn count_invalid(entries: &Vec<AuditTrailEntry>) -> (r: usize)
    ensures
        r == invalid_count(views_of(entries@)),
        r <= entries@.len(),
{
    let ghost s = views_of(entries@);
    let mut r: usize = 0;
    let mut i: usize = 0;
    while i < entries.len()
        invariant
            0 <= i <= s.len(),
            s == views_of(entries@),
            s.len() == entries@.len(),
            r == invalid_upto(s, i as int),
            r <= i,
        decreases s.len() - i,
    {
        let e = &entries[i];
        let complete = !e.user_id.as_str().is_empty() && !e.action.as_str().is_empty()
            && !e.resource.as_str().is_empty() && !e.session_id.as_str().is_empty();
        if !complete {
            r += 1;
        }
        i += 1;
    }
    r
}

impl AuditStore {
    /// Total count of anomalies under the given gap threshold: temporal
    /// gaps wider than the threshold, incomplete session brackets, and
    /// entries missing a required field.
    pub fn check_audit_gaps(&self, gap_threshold_hours: i64) -> (r: usize)
        requires
            self.wf(),
            0 <= gap_threshold_hours <= 0x7fff_ffff,
        ensures
            r == gap_count(sort_rows(self.rows()), gap_threshold_hours * 3600) + lonely_count(
                self.rows(),
            ) + invalid_count(self.rows()),
    {
        let sorted = sorted_copy(&self.entries);
        proof {
            lemma_sort_rows_len(self.rows());
        }
        let threshold_secs: i64 = gap_threshold_hours * 3600;
        let g = count_gaps(&sorted, threshold_secs);
        let l = count_incomplete_sessions(&self.entries);
        let v = count_invalid(&self.entries);
        g + l + v
    }

    /// Analyze the full stored sequence: count anomalies under the
    /// default 24-hour gap threshold and report the result. Always
    /// computable, even over an empty store, which verifies as intact.
    pub fn verify_audit_integrity(&self) -> (r: Result<AuditIntegrityReport, QmsError>)
        requires
            self.wf(),
        ensures
            r matches Ok(rep) && ({
                let rows = self.rows();
                let sorted = sort_rows(rows);
                let anomalies = gap_count(sorted, (24 * 3600) as int) + lonely_count(rows) + invalid_count(
                    rows,
                );
                &&& rep.total_entries == rows.len()
                &&& (rows.len() == 0 ==> (rep.earliest_entry is None && rep.latest_entry is None))
                &&& (rows.len() > 0 ==> ((rep.latest_entry matches Some(t) && t as int
                    == sorted[0].timestamp) && (rep.earliest_entry matches Some(t) && t as int
                    == sorted.last().timestamp)))
                &&& rep.gaps_found == anomalies
                &&& rep.integrity_verified == (anomalies == 0)
                &&& (rows.len() == 0 ==> rep.details@ == "Empty audit trail"@)
                &&& (rows.len() > 0 && anomalies == 0 ==> rep.details@
                    == "Audit trail integrity verified"@)
                &&& (anomalies > 0 ==> rep.details@ == "Found "@ + text::dec_nat(anomalies as nat)
                    + " potential gaps in audit trail"@)
            }),
    {
        let sorted = sorted_copy(&self.entries);
        proof {
            lemma_sort_rows_len(self.rows());
        }
        let anomalies = self.check_audit_gaps(24);
        let total = self.entries.len();
        let earliest: Option<i64> = if sorted.len() == 0 {
            Option::None
        } else {
            Option::Some(sorted[sorted.len() - 1].timestamp)
        };
        let latest: Option<i64> = if sorted.len() == 0 {
            Option::None
        } else {
            Option::Some(sorted[0].timestamp)
        };
        let details: String = if total == 0 {
            String::from_str("Empty audit trail")
        } else if anomalies == 0 {
            String::from_str("Audit trail integrity verified")
        } else {
            let n = text::u64_to_dec(anomalies as u64);
            let head = String::from_str("Found ");
            let tail = " potential gaps in audit trail";
            let msg = head.concat(n.as_str()).concat(tail);
            proof {
                assert(msg@ =~= "Found "@ + text::dec_nat(anomalies as nat)
                    + " potential gaps in audit trail"@);
            }
            msg
        };
        Ok(AuditIntegrityReport {
            total_entries: total as u64,
            earliest_entry: earliest,
            latest_entry: latest,
            integrity_verified: anomalies == 0,
            gaps_found: anomalies,
            details,
        })
    }
}

/// The view of an optional string slice.
pub open spec fn opt_view(o: Option<&str>) -> Option<Seq<char>> {
    match o {
        Option::None => Option::None,
        Option::Some(s) => Option::Some(s@),
    }
}

} // verus!
