//! Audit trail manager: accepts domain events, validates and signs them,
//! persists them in the append-only store, and produces compliance
//! reports on demand.

use vstd::prelude::*;
use vstd::string::StringExecFns;
use vstd::string::StrSliceExecFns;
use vstd::string::StringSliceAdditionalSpecFns;
use vstd::utf8::{encode_utf8, encode_scalar};
use crate::clock;
use crate::database::{
    filter_actor, page_of, row_of_entry, sort_rows, AuditRow, AuditStore, AUDIT_STORE_CAP,
    lemma_sort_rows_contains, lemma_sort_rows_len,
};
use crate::error::QmsError;
use crate::ident;
use crate::logging::{AuditLogEntry, AuditOutcome};
use crate::security::{signature_of, SecurityManager};
use crate::text;

verus! {

/// Upper bound on the length of each signed identity field; keeps the
/// canonical form within the signing primitive's input limit.
pub const MAX_FIELD_LEN: usize = 0x4000_0000;

/// One length-prefixed field of the canonical form.
pub open spec fn field_block(x: Seq<char>) -> Seq<char> {
    text::dec_nat(x.len()) + seq![':'] + x + seq!['|']
}

/// The canonical concatenation of an entry's identity fields, each
/// length-prefixed so that distinct field values never collide.
pub open spec fn canonical_text(
    actor: Seq<char>,
    action: Seq<char>,
    resource: Seq<char>,
    timestamp: int,
) -> Seq<char> {
    field_block(actor) + field_block(action) + field_block(resource) + text::dec_int(timestamp)
}

/// The signature the manager binds to an entry: the keyed digest of the
/// canonical identity-field concatenation, UTF-8 encoded.
pub open spec fn entry_signature(
    key: Seq<u8>,
    actor: Seq<char>,
    action: Seq<char>,
    resource: Seq<char>,
    timestamp: int,
) -> Seq<char> {
    signature_of(key, encode_utf8(canonical_text(actor, action, resource, timestamp)))
}

/// The row that recording a validated entry appends: the entry's fields,
/// the assigned identifier, the manager's signature, and the
/// server-assigned persistence instant.
pub open spec fn signed_row_of(key: Seq<u8>, e: AuditLogEntry, id: u64, created_at: int) -> AuditRow {
    AuditRow {
        id: id,
        timestamp: e.timestamp as int,
        user_id: e.user_id@,
        action: e.action@,
        resource: e.resource@,
        outcome: crate::database::outcome_text(e.outcome),
        ip_address: crate::database::opt_text(e.ip_address),
        session_id: e.session_id@,
        metadata: crate::database::opt_text(e.metadata),
        compliance_version: e.compliance_version@,
        signature_hash: Some(entry_signature(key, e.user_id@, e.action@, e.resource@, e.timestamp as int)),
        created_at: created_at,
    }
}

/// A length-prefixed field determines itself and whatever follows it.
proof fn lemma_field_block_prefix(x: Seq<char>, rx: Seq<char>, y: Seq<char>, ry: Seq<char>)
    requires
        field_block(x) + rx == field_block(y) + ry,
    ensures
        x == y,
        rx == ry,
{
    let px = text::dec_nat(x.len());
    let py = text::dec_nat(y.len());
    text::lemma_dec_nat_digits(x.len());
    text::lemma_dec_nat_digits(y.len());
    text::lemma_dec_nat_len_pos(x.len());
    text::lemma_dec_nat_len_pos(y.len());
    let s = field_block(x) + rx;
    let t = field_block(y) + ry;
    assert(s[px.len() as int] == ':');
    assert(t[py.len() as int] == ':');
    assert(forall|i: int| 0 <= i < px.len() ==> #[trigger] s[i] == px[i]);
    assert(forall|i: int| 0 <= i < py.len() ==> #[trigger] t[i] == py[i]);
    if px.len() < py.len() {
        assert(s[px.len() as int] == t[px.len() as int]);
        assert(text::is_digit_char(py[px.len() as int]));
        assert(false);
    }
    if py.len() < px.len() {
        assert(t[py.len() as int] == s[py.len() as int]);
        assert(text::is_digit_char(px[py.len() as int]));
        assert(false);
    }
    assert(px =~= s.subrange(0, px.len() as int));
    assert(py =~= t.subrange(0, py.len() as int));
    assert(px == py);
    text::lemma_dec_nat_injective(x.len(), y.len());
    assert(x.len() == y.len());
    let p = px.len() as int;
    assert(x =~= s.subrange(p + 1, p + 1 + x.len()));
    assert(y =~= t.subrange(p + 1, p + 1 + y.len()));
    assert(x == y);
    assert(rx =~= s.subrange(field_block(x).len() as int, s.len() as int));
    assert(ry =~= t.subrange(field_block(y).len() as int, t.len() as int));
    assert(rx == ry);
}

/// Law: the canonical form is injective — equal canonical texts come
/// from equal identity fields.
pub proof fn lemma_canonical_text_injective(
    a1: Seq<char>,
    b1: Seq<char>,
    c1: Seq<char>,
    t1: int,
    a2: Seq<char>,
    b2: Seq<char>,
    c2: Seq<char>,
    t2: int,
)
    requires
        canonical_text(a1, b1, c1, t1) == canonical_text(a2, b2, c2, t2),
    ensures
        a1 == a2,
        b1 == b2,
        c1 == c2,
        t1 == t2,
{
    let r1 = field_block(b1) + field_block(c1) + text::dec_int(t1);
    let r2 = field_block(b2) + field_block(c2) + text::dec_int(t2);
    assert(field_block(a1) + r1 =~= canonical_text(a1, b1, c1, t1));
    assert(field_block(a2) + r2 =~= canonical_text(a2, b2, c2, t2));
    lemma_field_block_prefix(a1, r1, a2, r2);
    let q1 = field_block(c1) + text::dec_int(t1);
    let q2 = field_block(c2) + text::dec_int(t2);
    assert(field_block(b1) + q1 =~= r1);
    assert(field_block(b2) + q2 =~= r2);
    lemma_field_block_prefix(b1, q1, b2, q2);
    lemma_field_block_prefix(c1, text::dec_int(t1), c2, text::dec_int(t2));
    text::lemma_dec_int_injective(t1, t2);
}

/// Law: a signature bound over one set of identity fields verifies
/// against altered fields only on a collision — the two canonical byte
/// strings differ, yet their keyed digests coincide.
pub proof fn lemma_tampered_fields_need_collision(
    key: Seq<u8>,
    a1: Seq<char>,
    b1: Seq<char>,
    c1: Seq<char>,
    t1: int,
    a2: Seq<char>,
    b2: Seq<char>,
    c2: Seq<char>,
    t2: int,
    sig: Seq<char>,
)
    requires
        sig == entry_signature(key, a1, b1, c1, t1),
        sig == entry_signature(key, a2, b2, c2, t2),
        !(a1 == a2 && b1 == b2 && c1 == c2 && t1 == t2),
    ensures
        encode_utf8(canonical_text(a1, b1, c1, t1)) != encode_utf8(
            canonical_text(a2, b2, c2, t2),
        ),
        crate::security::hmac_sha256_of(key, encode_utf8(canonical_text(a1, b1, c1, t1)))
            == crate::security::hmac_sha256_of(key, encode_utf8(canonical_text(a2, b2, c2, t2))),
{
    let m1 = encode_utf8(canonical_text(a1, b1, c1, t1));
    let m2 = encode_utf8(canonical_text(a2, b2, c2, t2));
    crate::security::lemma_hex_of_injective(
        crate::security::hmac_sha256_of(key, m1),
        crate::security::hmac_sha256_of(key, m2),
    );
    if m1 == m2 {
        vstd::utf8::encode_utf8_decode_utf8(canonical_text(a1, b1, c1, t1));
        vstd::utf8::encode_utf8_decode_utf8(canonical_text(a2, b2, c2, t2));
        assert(canonical_text(a1, b1, c1, t1) == canonical_text(a2, b2, c2, t2));
        lemma_canonical_text_injective(a1, b1, c1, t1, a2, b2, c2, t2);
        assert(false);
    }
}

/// Whether a stored row's signature re-verifies against its own identity
/// fields.
pub open spec fn row_signature_valid(key: Seq<u8>, r: AuditRow) -> bool {
    r.signature_hash == Some(entry_signature(key, r.user_id, r.action, r.resource, r.timestamp))
}

/// A UTF-8 scalar encodes in at most four bytes.
proof fn lemma_encode_scalar_len(scalar: u32)
    ensures
        1 <= encode_scalar(scalar).len() <= 4,
{
}

/// A character sequence UTF-8 encodes in at most four bytes per
/// character.
pub proof fn lemma_encode_utf8_len(chars: Seq<char>)
    ensures
        encode_utf8(chars).len() <= 4 * chars.len(),
    decreases chars.len(),
{
    if chars.len() > 0 {
        lemma_encode_scalar_len(chars[0] as u32);
        lemma_encode_utf8_len(chars.drop_first());
    }
}

/// Whether identity fields are short enough to sign: the machine limit
/// the signing primitive imposes.
pub open spec fn fields_within_signing_limit(
    actor: Seq<char>,
    action: Seq<char>,
    resource: Seq<char>,
) -> bool {
    actor.len() <= MAX_FIELD_LEN && action.len() <= MAX_FIELD_LEN && resource.len()
        <= MAX_FIELD_LEN
}

/// The canonical form of bounded fields stays within the signing
/// primitive's input limit.
proof fn lemma_canonical_bytes_bounded(
    actor: Seq<char>,
    action: Seq<char>,
    resource: Seq<char>,
    timestamp: int,
)
    requires
        actor.len() <= MAX_FIELD_LEN,
        action.len() <= MAX_FIELD_LEN,
        resource.len() <= MAX_FIELD_LEN,
        -0x8000000000000000 <= timestamp < 0x8000000000000000,
    ensures
        encode_utf8(canonical_text(actor, action, resource, timestamp)).len()
            < 0x1000000000000000,
{
    text::lemma_dec_nat_len64(actor.len());
    text::lemma_dec_nat_len64(action.len());
    text::lemma_dec_nat_len64(resource.len());
    text::lemma_dec_int_len64(timestamp);
    lemma_encode_utf8_len(canonical_text(actor, action, resource, timestamp));
}

/// Build the canonical identity-field concatenation.
fn canonical_entry_text(user_id: &str, action: &str, resource: &str, timestamp: i64) -> (r: String)
    ensures
        r@ == canonical_text(user_id@, action@, resource@, timestamp as int),
{
    proof {
        reveal_strlit(":");
        reveal_strlit("|");
    }
    let mut out = text::u64_to_dec(user_id.unicode_len() as u64);
    out.append(":");
    out.append(user_id);
    out.append("|");
    let part2 = text::u64_to_dec(action.unicode_len() as u64);
    out.append(part2.as_str());
    out.append(":");
    out.append(action);
    out.append("|");
    let part3 = text::u64_to_dec(resource.unicode_len() as u64);
    out.append(part3.as_str());
    out.append(":");
    out.append(resource);
    out.append("|");
    let ts = text::i64_to_dec(timestamp);
    out.append(ts.as_str());
    proof {
        assert(":"@ =~= seq![':']);
        assert("|"@ =~= seq!['|']);
        assert(out@ =~= canonical_text(user_id@, action@, resource@, timestamp as int));
    }
    out
}

/// Compliance status of a reporting window.
#[derive(Debug, Clone, Copy, PartialEq, Eq, Structural)]
pub enum ComplianceStatus {
    Compliant,
    NonCompliant,
    Warning,
}

/// Compliance report over a requested window.
#[derive(Debug)]
pub struct ComplianceReport {
    /// Fresh identifier of this report.
    pub report_id: String,
    /// Instant the report was produced, seconds since the Unix epoch.
    pub generated_at: i64,
    /// Start of the requested window, seconds since the Unix epoch.
    pub period_start: i64,
    /// End of the requested window, seconds since the Unix epoch.
    pub period_end: i64,
    /// Number of stored entries whose timestamp falls in the window.
    pub total_audit_entries: u64,
    /// Whether the integrity verifier found no anomaly.
    pub integrity_verified: bool,
    /// Compliance status: compliant exactly when integrity verified.
    pub compliance_status: ComplianceStatus,
    /// One-line human-readable summary.
    pub details: String,
}

/// Number of rows whose timestamp falls within the window.
pub open spec fn window_count(s: Seq<AuditRow>, start: int, end: int) -> int
    decreases s.len(),
{
    if s.len() == 0 {
        0
    } else {
        window_count(s.drop_last(), start, end) + (if start <= s.last().timestamp
            && s.last().timestamp <= end {
            1int
        } else {
            0int
        })
    }
}

/// Total number of anomalies the integrity verifier finds under the
/// default 24-hour gap threshold.
pub open spec fn anomaly_count(rows: Seq<AuditRow>) -> int {
    crate::database::gap_count(sort_rows(rows), (24 * 3600) as int) + crate::database::lonely_count(
        rows,
    ) + crate::database::invalid_count(rows)
}

/// What a compliance report asserts of the stored rows and the window it
/// was computed over; everything but the report identifier and the
/// generation instant is a function of rows and window.
pub open spec fn report_matches(
    rep: ComplianceReport,
    rows: Seq<AuditRow>,
    start: int,
    end: int,
) -> bool {
    &&& rep.period_start as int == start
    &&& rep.period_end as int == end
    &&& rep.total_audit_entries as int == window_count(rows, start, end)
    &&& rep.integrity_verified == (anomaly_count(rows) == 0)
    &&& rep.compliance_status == (if anomaly_count(rows) == 0 {
        ComplianceStatus::Compliant
    } else {
        ComplianceStatus::NonCompliant
    })
    &&& (rows.len() == 0 ==> rep.details@ == "Empty audit trail"@)
    &&& (rows.len() > 0 && anomaly_count(rows) == 0 ==> rep.details@
        == "Audit trail integrity verified"@)
    &&& (anomaly_count(rows) > 0 ==> rep.details@ == "Found "@ + text::dec_nat(
        anomaly_count(rows) as nat,
    ) + " potential gaps in audit trail"@)
}

/// Audit trail manager: the sole owner of entry signing and persistence.
pub struct AuditManager {
    store: AuditStore,
    signer: SecurityManager,
    signing_key: Vec<u8>,
}

impl AuditManager {
    /// The stored rows, in insertion order.
    pub closed spec fn rows(self) -> Seq<AuditRow> {
        self.store.rows()
    }

    /// The signing key material, read-only after initialization.
    pub closed spec fn key(self) -> Seq<u8> {
        self.signing_key@
    }

    /// Well-formedness of the underlying store.
    pub closed spec fn wf(self) -> bool {
        self.store.wf()
    }

    /// Create a new audit manager around a store, a signature service and
    /// signing key material.
    pub fn new(store: AuditStore, signer: SecurityManager, signing_key: Vec<u8>) -> (r:
        AuditManager)
        ensures
            r.rows() == store.rows(),
            r.key() == signing_key@,
            store.wf() ==> r.wf(),
    {
        AuditManager { store, signer, signing_key }
    }

    /// Read access to the underlying store.
    pub fn store(&self) -> (r: &AuditStore)
        ensures
            r.rows() == self.rows(),
            self.wf() ==> r.wf(),
    {
        &self.store
    }

    /// Record one audit event: validate it, bind the manager's signature
    /// over its identity fields, and persist it with the next unique
    /// identifier. An entry that cannot be durably recorded is an error;
    /// nothing is ever silently skipped.
    pub fn record_entry(&mut self, entry: AuditLogEntry) -> (r: Result<u64, QmsError>)
        requires
            old(self).wf(),
        ensures
            final(self).wf(),
            final(self).key() == old(self).key(),
            r is Err ==> final(self).rows() == old(self).rows(),
            r is Ok ==> final(self).rows().len() == old(self).rows().len() + 1,
            !entry.is_complete() ==> (r matches Err(QmsError::Validation { field, .. })
                && field@ == entry.first_missing_field()),
            entry.is_complete() && !fields_within_signing_limit(
                entry.user_id@,
                entry.action@,
                entry.resource@,
            ) ==> (r matches Err(e) && e is Validation),
            entry.is_complete() && fields_within_signing_limit(
                entry.user_id@,
                entry.action@,
                entry.resource@,
            ) && old(self).rows().len() < AUDIT_STORE_CAP ==> (r matches Ok(id)
                && id == old(self).rows().len() && (exists|c: int|
                final(self).rows() == old(self).rows().push(
                    #[trigger] signed_row_of(old(self).key(), entry, (old(self).rows().len()) as u64, c),
                ))),
            entry.is_complete() && fields_within_signing_limit(
                entry.user_id@,
                entry.action@,
                entry.resource@,
            ) && old(self).rows().len() >= AUDIT_STORE_CAP ==> (r matches Err(e)
                && e is Database),
    {
        if let Err(e) = entry.validate() {
            return Err(e);
        }
        if entry.user_id.as_str().unicode_len() > MAX_FIELD_LEN
            || entry.action.as_str().unicode_len() > MAX_FIELD_LEN
            || entry.resource.as_str().unicode_len() > MAX_FIELD_LEN {
            return Err(QmsError::Validation {
                field: String::from_str("entry"),
                message: String::from_str("An identity field exceeds the signable length"),
            });
        }
        let canonical = canonical_entry_text(
            entry.user_id.as_str(),
            entry.action.as_str(),
            entry.resource.as_str(),
            entry.timestamp,
        );
        proof {
            lemma_canonical_bytes_bounded(
                entry.user_id@,
                entry.action@,
                entry.resource@,
                entry.timestamp as int,
            );
        }
        let signature = match self.signer.generate_signature(
            canonical.as_str().as_bytes(),
            self.signing_key.as_slice(),
        ) {
            Ok(s) => s,
            Err(_) => {
                return Err(QmsError::Security {
                    message: String::from_str("Signing the audit entry failed"),
                });
            },
        };
        let signed = entry.with_signature(signature);
        let ghost key = self.signing_key@;
        let result = self.store.insert_audit_entry(&signed);
        match result {
            Ok(id) => {
                proof {
                    let c = choose|c: int|
                        self.store.rows() == old(self).rows().push(
                            #[trigger] row_of_entry(signed, (old(self).rows().len()) as u64, c),
                        );
                    assert(row_of_entry(signed, (old(self).rows().len()) as u64, c)
                        =~= signed_row_of(key, entry, (old(self).rows().len()) as u64, c));
                    assert(self.rows() == old(self).rows().push(
                        signed_row_of(key, entry, (old(self).rows().len()) as u64, c),
                    ));
                }
                Ok(id)
            },
            Err(e) => Err(e),
        }
    }

    /// Record one audit event from its parts, under a caller-supplied
    /// session bracket.
    pub fn record(
        &mut self,
        user_id: &str,
        action: &str,
        resource: &str,
        outcome: AuditOutcome,
        session_id: &str,
        metadata: Option<String>,
    ) -> (r: Result<u64, QmsError>)
        requires
            old(self).wf(),
        ensures
            final(self).wf(),
            final(self).key() == old(self).key(),
            r is Err ==> final(self).rows() == old(self).rows(),
            user_id@.len() == 0 ==> (r matches Err(QmsError::Validation { field, .. }) && field@
                == "actor_id"@),
            (user_id@.len() > 0 && action@.len() > 0 && resource@.len() > 0 && session_id@.len()
                > 0 && fields_within_signing_limit(user_id@, action@, resource@) && old(
                self,
            ).rows().len() < AUDIT_STORE_CAP) ==> (r matches Ok(id) && id
                == old(self).rows().len() && (exists|ts: int, c: int|
                {
                    &&& final(self).rows().len() == old(self).rows().len() + 1
                    &&& final(self).rows() == old(self).rows().push(
                        #[trigger] recorded_row(
                            old(self).key(),
                            user_id@,
                            action@,
                            resource@,
                            crate::database::outcome_text(outcome),
                            session_id@,
                            crate::database::opt_text(metadata),
                            (old(self).rows().len()) as u64,
                            ts,
                            c,
                        ),
                    )
                })),
    {
        let ghost key = self.signing_key@;
        let entry = AuditLogEntry::new(
            user_id.to_owned(),
            action.to_owned(),
            resource.to_owned(),
            outcome,
            session_id.to_owned(),
        );
        let entry = match metadata {
            Some(m) => entry.with_metadata(m),
            None => entry,
        };
        let ghost e = entry;
        let r = self.record_entry(entry);
        proof {
            if e.is_complete() && fields_within_signing_limit(e.user_id@, e.action@, e.resource@)
                && old(self).rows().len() < AUDIT_STORE_CAP {
                let c = choose|c: int|
                    self.rows() == old(self).rows().push(
                        #[trigger] signed_row_of(key, e, (old(self).rows().len()) as u64, c),
                    );
                assert(signed_row_of(key, e, (old(self).rows().len()) as u64, c) =~= recorded_row(
                    key,
                    user_id@,
                    action@,
                    resource@,
                    crate::database::outcome_text(outcome),
                    session_id@,
                    crate::database::opt_text(metadata),
                    (old(self).rows().len()) as u64,
                    e.timestamp as int,
                    c,
                ));
            }
        }
        r
    }

    /// Record one audit event from its parts, folding a free-text
    /// comment into the entry's metadata.
    pub fn record_with_comment(
        &mut self,
        user_id: &str,
        action: &str,
        resource: &str,
        outcome: AuditOutcome,
        session_id: &str,
        comment: String,
    ) -> (r: Result<u64, QmsError>)
        requires
            old(self).wf(),
        ensures
            final(self).wf(),
            final(self).key() == old(self).key(),
            r is Err ==> final(self).rows() == old(self).rows(),
            user_id@.len() == 0 ==> (r matches Err(QmsError::Validation { field, .. }) && field@
                == "actor_id"@),
            (user_id@.len() > 0 && action@.len() > 0 && resource@.len() > 0 && session_id@.len()
                > 0 && fields_within_signing_limit(user_id@, action@, resource@) && old(
                self,
            ).rows().len() < AUDIT_STORE_CAP) ==> (r is Ok && final(self).rows().len() == old(
                self,
            ).rows().len() + 1 && final(self).rows().last().metadata == Some(comment@)),
    {
        let ghost key = self.signing_key@;
        let ghost comment_view = comment@;
        let r = self.record(user_id, action, resource, outcome, session_id, Some(comment));
        proof {
            if user_id@.len() > 0 && action@.len() > 0 && resource@.len() > 0
                && session_id@.len() > 0 && fields_within_signing_limit(
                user_id@,
                action@,
                resource@,
            ) && old(self).rows().len() < AUDIT_STORE_CAP {
                let (ts, c) = choose|ts: int, c: int|
                    final(self).rows() == old(self).rows().push(
                        #[trigger] recorded_row(
                            key,
                            user_id@,
                            action@,
                            resource@,
                            crate::database::outcome_text(outcome),
                            session_id@,
                            Some(comment_view),
                            (old(self).rows().len()) as u64,
                            ts,
                            c,
                        ),
                    );
            }
        }
        r
    }

    /// Re-verify a stored row's signature against its own identity
    /// fields, as an auditor holding the key would.
    pub fn verify_entry(&self, row: &crate::database::AuditTrailEntry) -> (r: bool)
        ensures
            fields_within_signing_limit(row.user_id@, row.action@, row.resource@) ==> r
                == row_signature_valid(self.key(), row@),
            !fields_within_signing_limit(row.user_id@, row.action@, row.resource@) ==> r == false,
    {
        if row.user_id.as_str().unicode_len() > MAX_FIELD_LEN
            || row.action.as_str().unicode_len() > MAX_FIELD_LEN
            || row.resource.as_str().unicode_len() > MAX_FIELD_LEN {
            // Fields this long were never signable, so nothing binds them.
            return false;
        }
        let canonical = canonical_entry_text(
            row.user_id.as_str(),
            row.action.as_str(),
            row.resource.as_str(),
            row.timestamp,
        );
        proof {
            lemma_canonical_bytes_bounded(
                row.user_id@,
                row.action@,
                row.resource@,
                row.timestamp as int,
            );
        }
        match &row.signature_hash {
            Some(sig) => self.signer.verify_signature(
                canonical.as_str().as_bytes(),
                sig.as_str(),
                self.signing_key.as_slice(),
            ),
            None => false,
        }
    }

    /// Record one audit event described loosely: the outcome text is
    /// read case-tolerantly (defaulting to success), the event gets a
    /// fresh session bracket and the local loopback address, and is then
    /// validated, signed and persisted.
    pub fn log_action(
        &mut self,
        user_id: &str,
        action: &str,
        resource: &str,
        outcome: &str,
        metadata: Option<String>,
    ) -> (r: Result<(), QmsError>)
        requires
            old(self).wf(),
        ensures
            final(self).wf(),
            final(self).key() == old(self).key(),
            r is Err ==> final(self).rows() == old(self).rows(),
            r is Ok ==> final(self).rows().len() == old(self).rows().len() + 1,
            user_id@.len() == 0 ==> (r matches Err(QmsError::Validation { field, .. }) && field@
                == "actor_id"@),
            (user_id@.len() > 0 && action@.len() > 0 && resource@.len() > 0
                && fields_within_signing_limit(user_id@, action@, resource@)
                && old(self).rows().len() < AUDIT_STORE_CAP) ==> (r is Ok
                && final(self).rows().len() == old(self).rows().len() + 1
                && final(self).rows().last().user_id == user_id@
                && final(self).rows().last().action == action@
                && final(self).rows().last().resource == resource@
                && final(self).rows().last().outcome == lenient_outcome_text(outcome@)
                && final(self).rows().last().session_id.len() == 36
                && row_signature_valid(old(self).key(), final(self).rows().last())),
    {
        let audit_outcome = parse_outcome_lenient(outcome);
        let entry = AuditLogEntry::new(
            user_id.to_owned(),
            action.to_owned(),
            resource.to_owned(),
            audit_outcome,
            ident::fresh_id(),
        );
        let entry = entry.with_ip(String::from_str("127.0.0.1"));
        let entry = match metadata {
            Some(m) => entry.with_metadata(m),
            None => entry,
        };
        let ghost e = entry;
        let ghost key = self.signing_key@;
        let r = self.record_entry(entry);
        match r {
            Ok(_) => {
                proof {
                    let c = choose|c: int|
                        self.rows() == old(self).rows().push(
                            #[trigger] signed_row_of(key, e, (old(self).rows().len()) as u64, c),
                        );
                    assert(self.rows().last() == signed_row_of(
                        key,
                        e,
                        (old(self).rows().len()) as u64,
                        c,
                    ));
                }
                Ok(())
            },
            Err(e2) => Err(e2),
        }
    }

    /// Record one fully formed audit event: validated, signed and
    /// persisted like any other.
    pub fn log_event(&mut self, entry: AuditLogEntry) -> (r: Result<(), QmsError>)
        requires
            old(self).wf(),
        ensures
            final(self).wf(),
            final(self).key() == old(self).key(),
            r is Err ==> final(self).rows() == old(self).rows(),
            r is Ok ==> final(self).rows().len() == old(self).rows().len() + 1,
            !entry.is_complete() ==> (r matches Err(QmsError::Validation { field, .. })
                && field@ == entry.first_missing_field()),
            entry.is_complete() && fields_within_signing_limit(
                entry.user_id@,
                entry.action@,
                entry.resource@,
            ) && old(self).rows().len() < AUDIT_STORE_CAP ==> (r is Ok && (
            exists|c: int|
                final(self).rows() == old(self).rows().push(
                    #[trigger] signed_row_of(old(self).key(), entry, (old(self).rows().len()) as u64, c),
                ))),
    {
        match self.record_entry(entry) {
            Ok(_) => Ok(()),
            Err(e) => Err(e),
        }
    }

    /// Generate a compliance report over a requested window: the window
    /// counts combined with the integrity verifier's verdict. Everything
    /// but the report identifier and generation instant is a function of
    /// the stored rows and the window.
    pub fn generate_compliance_report(&self, start_date: i64, end_date: i64) -> (r: Result<
        ComplianceReport,
        QmsError,
    >)
        requires
            self.wf(),
        ensures
            r matches Ok(rep) && report_matches(rep, self.rows(), start_date as int, end_date as int)
                && rep.report_id@.len() == 36,
    {
        let integrity = match self.store.verify_audit_integrity() {
            Ok(rep) => rep,
            Err(e) => {
                return Err(e);
            },
        };
        let total = self.count_window(start_date, end_date);
        Ok(ComplianceReport {
            report_id: ident::fresh_id(),
            generated_at: clock::now_unix(),
            period_start: start_date,
            period_end: end_date,
            total_audit_entries: total,
            integrity_verified: integrity.integrity_verified,
            compliance_status: if integrity.integrity_verified {
                ComplianceStatus::Compliant
            } else {
                ComplianceStatus::NonCompliant
            },
            details: integrity.details,
        })
    }

    /// Count the stored entries whose timestamp falls within the window.
    fn count_window(&self, start_date: i64, end_date: i64) -> (r: u64)
        requires
            self.wf(),
        ensures
            r as int == window_count(self.rows(), start_date as int, end_date as int),
    {
        let n = self.store.len();
        let mut r: u64 = 0;
        let mut i: usize = 0;
        proof {
            assert(self.rows().take(0) =~= Seq::<AuditRow>::empty());
        }
        while i < n
            invariant
                0 <= i <= n,
                n == self.rows().len(),
                self.wf(),
                r as int == window_count(
                    self.rows().take(i as int),
                    start_date as int,
                    end_date as int,
                ),
                r <= i as u64,
            decreases n - i,
        {
            let ts = self.store.timestamp_at(i);
            if start_date <= ts && ts <= end_date {
                r += 1;
            }
            proof {
                let t = self.rows().take(i + 1 as int);
                assert(t.drop_last() =~= self.rows().take(i as int));
                assert(t.last() == self.rows()[i as int]);
            }
            i += 1;
        }
        proof {
            assert(self.rows().take(n as int) =~= self.rows());
        }
        r
    }
}

/// The row that `record` appends, as a function of its inputs, the
/// assigned identifier, the entry's creation instant and the persistence
/// instant.
pub open spec fn recorded_row(
    key: Seq<u8>,
    actor: Seq<char>,
    action: Seq<char>,
    resource: Seq<char>,
    outcome: Seq<char>,
    session: Seq<char>,
    metadata: Option<Seq<char>>,
    id: u64,
    timestamp: int,
    created_at: int,
) -> AuditRow {
    AuditRow {
        id: id,
        timestamp: timestamp,
        user_id: actor,
        action: action,
        resource: resource,
        outcome: outcome,
        ip_address: None,
        session_id: session,
        metadata: metadata,
        compliance_version: crate::FDA_CFR_PART_820_VERSION@,
        signature_hash: Some(entry_signature(key, actor, action, resource, timestamp)),
        created_at: created_at,
    }
}

/// Law: a freshly recorded row's signature re-verifies against its own
/// identity fields, and the row is returned by any unfiltered query
/// whose page spans the store.
pub proof fn lemma_record_then_query(before: Seq<AuditRow>, row: AuditRow, key: Seq<u8>, limit: int)
    requires
        row_signature_valid(key, row),
        limit >= before.len() + 1,
    ensures
        page_of(sort_rows(filter_actor(before.push(row), None)), 0, limit).contains(row),
        row_signature_valid(key, row),
{
    let s = before.push(row);
    lemma_filter_actor_none(s);
    lemma_sort_rows_len(s);
    lemma_sort_rows_contains(s, row);
    assert(s[s.len() - 1] == row);
    assert(s.contains(row));
    let sorted = sort_rows(s);
    assert(page_of(sorted, 0, limit) =~= sorted);
}

/// Filtering for no actor keeps every row.
pub proof fn lemma_filter_actor_none(s: Seq<AuditRow>)
    ensures
        filter_actor(s, None) == s,
    decreases s.len(),
{
    if s.len() > 0 {
        lemma_filter_actor_none(s.drop_last());
        assert(filter_actor(s, None) =~= s);
    }
}

/// Law: an empty store carries no anomalies — its integrity report has
/// zero entries and verifies as intact.
pub proof fn lemma_empty_store_verified()
    ensures
        anomaly_count(Seq::<AuditRow>::empty()) == 0,
{
    assert(sort_rows(Seq::<AuditRow>::empty()) =~= Seq::<AuditRow>::empty());
}

/// Law: the compliance report is a function of the stored rows and the
/// requested window — two reports over the same rows and window, with no
/// intervening writes, agree on every field but the report identifier
/// and the generation instant.
pub proof fn lemma_report_idempotent(
    r1: ComplianceReport,
    r2: ComplianceReport,
    rows: Seq<AuditRow>,
    start: int,
    end: int,
)
    requires
        report_matches(r1, rows, start, end),
        report_matches(r2, rows, start, end),
    ensures
        r1.period_start == r2.period_start,
        r1.period_end == r2.period_end,
        r1.total_audit_entries == r2.total_audit_entries,
        r1.integrity_verified == r2.integrity_verified,
        r1.compliance_status == r2.compliance_status,
        r1.details@ == r2.details@,
{
    crate::database::lemma_gap_count_nonneg(sort_rows(rows), (24 * 3600) as int);
    crate::database::lemma_lonely_upto_nonneg(rows, rows.len() as int);
    crate::database::lemma_invalid_upto_nonneg(rows, rows.len() as int);
    if anomaly_count(rows) > 0 {
        assert(r1.details@ == "Found "@ + text::dec_nat(anomaly_count(rows) as nat)
            + " potential gaps in audit trail"@);
        assert(r2.details@ == "Found "@ + text::dec_nat(anomaly_count(rows) as nat)
            + " potential gaps in audit trail"@);
    } else if rows.len() == 0 {
        assert(r1.details@ == "Empty audit trail"@);
        assert(r2.details@ == "Empty audit trail"@);
    } else {
        assert(r1.details@ == "Audit trail integrity verified"@);
        assert(r2.details@ == "Audit trail integrity verified"@);
    }
}

/// Simple audit logger for module-level audit logging: validates events
/// under a fixed session bracket.
pub struct AuditLogger {
    session_id: String,
}

impl AuditLogger {
    /// The session bracket this logger stamps on its events.
    pub closed spec fn session(self) -> Seq<char> {
        self.session_id@
    }

    /// Create a new audit logger with a session identifier.
    pub fn new(session_id: String) -> (r: AuditLogger)
        ensures
            r.session() == session_id@,
    {
        AuditLogger { session_id }
    }

    /// Create an audit logger with a fresh session identifier.
    pub fn new_test() -> (r: AuditLogger)
        ensures
            r.session().len() == 36,
    {
        AuditLogger { session_id: ident::fresh_id() }
    }

    /// Validate one audit event under this logger's session: the outcome
    /// must be one of the canonical outcome names, and the required
    /// fields must be present.
    pub fn log_event(
        &self,
        user_id: &str,
        action: &str,
        resource: &str,
        outcome: &str,
        details: Option<String>,
    ) -> (r: Result<(), QmsError>)
        ensures
            !(outcome@ == "SUCCESS"@ || outcome@ == "FAILURE"@ || outcome@ == "WARNING"@) ==> (
                r matches Err(QmsError::Validation { field, .. }) && field@ == "outcome"@),
            (outcome@ == "SUCCESS"@ || outcome@ == "FAILURE"@ || outcome@ == "WARNING"@) && (
            user_id@.len() > 0 && action@.len() > 0 && resource@.len() > 0 && self.session().len()
                > 0) ==> r is Ok,
    {
        let audit_outcome: AuditOutcome = if str_eq_literal(outcome, "SUCCESS") {
            AuditOutcome::Success
        } else if str_eq_literal(outcome, "FAILURE") {
            AuditOutcome::Failure
        } else if str_eq_literal(outcome, "WARNING") {
            AuditOutcome::Warning
        } else {
            return Err(QmsError::Validation {
                field: String::from_str("outcome"),
                message: String::from_str("Invalid audit outcome string"),
            });
        };
        let entry = AuditLogEntry::new(
            user_id.to_owned(),
            action.to_owned(),
            resource.to_owned(),
            audit_outcome,
            self.session_id.clone(),
        );
        let entry = match details {
            Some(d) => entry.with_metadata(d),
            None => entry,
        };
        match entry.validate() {
            Ok(u) => Ok(u),
            Err(e) => Err(e),
        }
    }
}

/// How a loosely written outcome reads: the canonical outcome names in
/// lower, capitalized or upper case; anything else counts as success.
pub open spec fn lenient_outcome_of(s: Seq<char>) -> AuditOutcome {
    if s == "failure"@ || s == "Failure"@ || s == "FAILURE"@ {
        AuditOutcome::Failure
    } else if s == "warning"@ || s == "Warning"@ || s == "WARNING"@ {
        AuditOutcome::Warning
    } else {
        AuditOutcome::Success
    }
}

/// The canonical text of a loosely written outcome.
pub open spec fn lenient_outcome_text(s: Seq<char>) -> Seq<char> {
    crate::database::outcome_text(lenient_outcome_of(s))
}

/// Read a loosely written outcome.
fn parse_outcome_lenient(outcome: &str) -> (r: AuditOutcome)
    ensures
        r == lenient_outcome_of(outcome@),
{
    if str_eq_literal(outcome, "failure") || str_eq_literal(outcome, "Failure") || str_eq_literal(
        outcome,
        "FAILURE",
    ) {
        AuditOutcome::Failure
    } else if str_eq_literal(outcome, "warning") || str_eq_literal(outcome, "Warning")
        || str_eq_literal(outcome, "WARNING") {
        AuditOutcome::Warning
    } else {
        AuditOutcome::Success
    }
}

/// Whether a string equals a literal.
fn str_eq_literal(s: &str, lit: &str) -> (r: bool)
    ensures
        r == (s@ == lit@),
{
    let a = s.to_owned();
    let b = lit.to_owned();
    a == b
}

} // verus!
