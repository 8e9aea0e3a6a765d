//! Authorization decisions around stored intents, approvals, grants and
//! execution leases: the checks that make each write idempotent or turn it
//! into a conflict, and the grant plans and use counts they produce.
//! Instants are plain integers on one clock.

use vstd::prelude::*;
use crate::error::StorageError;

verus! {

/// A stored intent is reused only by a request with the same fingerprint.
pub fn check_intent_fingerprint(stored_fingerprint: &str, requested_fingerprint: &str) -> (r: Result<
    (),
    StorageError,
>)
    ensures
        r is Ok <==> stored_fingerprint@ == requested_fingerprint@,
        r is Err ==> r == Err::<(), StorageError>(StorageError::Conflict),
{
    if stored_fingerprint.to_owned() == requested_fingerprint.to_owned() {
        Ok(())
    } else {
        Err(StorageError::Conflict)
    }
}

/// An approver's verdict on an approval.
#[derive(Debug, Clone, Copy, PartialEq, Eq, Structural)]
pub enum ApprovalDecision {
    Approve,
    Deny,
}

/// The stored status an approval takes on a verdict.
pub fn approval_status_text(decision: ApprovalDecision) -> (r: &'static str)
    ensures
        r@ == match decision {
            ApprovalDecision::Approve => "approved"@,
            ApprovalDecision::Deny => "denied"@,
        },
{
    match decision {
        ApprovalDecision::Approve => "approved",
        ApprovalDecision::Deny => "denied",
    }
}

/// An approval can be decided only while it is pending, before it expires,
/// and for the envelope the approver saw.
pub open spec fn approval_open(
    status: Seq<char>,
    expires_at: i64,
    now: i64,
    stored_hash: Seq<char>,
    request_hash: Seq<char>,
) -> bool {
    status == "pending"@ && expires_at > now && stored_hash == request_hash
}

/// Checks that an approval may be decided now.
pub fn check_approval_open(
    status: &str,
    expires_at: i64,
    now: i64,
    stored_envelope_hash: &str,
    request_envelope_hash: &str,
) -> (r: Result<(), StorageError>)
    ensures
        r is Ok <==> approval_open(status@, expires_at, now, stored_envelope_hash@, request_envelope_hash@),
        r is Err ==> r == Err::<(), StorageError>(StorageError::Conflict),
{
    if status.to_owned() != "pending".to_owned() || expires_at <= now
        || stored_envelope_hash.to_owned() != request_envelope_hash.to_owned() {
        Err(StorageError::Conflict)
    } else {
        Ok(())
    }
}

/// How an approved grant may be used.
#[derive(Debug, Clone, Copy, PartialEq, Eq, Structural)]
pub enum GrantMode {
    /// Once, for exactly the approved request.
    ExactOnce,
    /// Any number of times within the approved scope.
    Scoped,
}

/// The grant an approval produces.
#[derive(Debug, Clone, PartialEq, Eq)]
pub struct GrantPlan {
    pub starts_at: Option<i64>,
    pub expires_at: Option<i64>,
    /// The scope, as its serialized form, for a scoped grant.
    pub scope: Option<String>,
    /// Whether the grant is bound to the envelope's exact fingerprint.
    pub exact: bool,
    pub max_uses: Option<i32>,
}

/// The grant window: the requested expiry or else the approval's; it may
/// not outlast the approval, and a start must come before the expiry.
pub open spec fn grant_window_ok(starts_at: Option<i64>, expires_at: Option<i64>, approval_expires_at: i64) -> bool {
    let e = match expires_at {
        Some(v) => v,
        None => approval_expires_at,
    };
    e <= approval_expires_at && (starts_at matches Some(s) ==> s < e)
}

/// Plans the grant of an approved request. Exact-once grants allow one use
/// of the exact fingerprint; scoped grants need the requested scope to be
/// the one the envelope proposed.
pub fn plan_grant(
    mode: GrantMode,
    approval_expires_at: i64,
    starts_at: Option<i64>,
    expires_at: Option<i64>,
    requested_scope: Option<String>,
    proposed_scope: Option<String>,
) -> (r: Result<GrantPlan, StorageError>)
    ensures
        !grant_window_ok(starts_at, expires_at, approval_expires_at) ==> r == Err::<
            GrantPlan,
            StorageError,
        >(StorageError::Conflict),
        grant_window_ok(starts_at, expires_at, approval_expires_at) ==> match mode {
            GrantMode::ExactOnce => r == Ok::<GrantPlan, StorageError>(
                GrantPlan {
                    starts_at,
                    expires_at: Some(
                        match expires_at {
                            Some(v) => v,
                            None => approval_expires_at,
                        },
                    ),
                    scope: None,
                    exact: true,
                    max_uses: Some(1),
                },
            ),
            GrantMode::Scoped => match (requested_scope, proposed_scope) {
                (Some(req), Some(prop)) => if req@ == prop@ {
                    r matches Ok(p) && p.starts_at == starts_at && p.expires_at == Some(
                        match expires_at {
                            Some(v) => v,
                            None => approval_expires_at,
                        },
                    ) && (p.scope matches Some(s) && s@ == req@) && !p.exact && p.max_uses is None
                } else {
                    r == Err::<GrantPlan, StorageError>(StorageError::Conflict)
                },
                _ => r == Err::<GrantPlan, StorageError>(StorageError::Conflict),
            },
        },
{
    let effective_expiry = match expires_at {
        Some(v) => v,
        None => approval_expires_at,
    };
    if effective_expiry > approval_expires_at {
        return Err(StorageError::Conflict);
    }
    if let Some(s) = starts_at {
        if s >= effective_expiry {
            return Err(StorageError::Conflict);
        }
    }
    match mode {
        GrantMode::ExactOnce => Ok(
            GrantPlan {
                starts_at,
                expires_at: Some(effective_expiry),
                scope: None,
                exact: true,
                max_uses: Some(1),
            },
        ),
        GrantMode::Scoped => {
            let req = match requested_scope {
                None => return Err(StorageError::Conflict),
                Some(s) => s,
            };
            match proposed_scope {
                None => Err(StorageError::Conflict),
                Some(prop) => if req == prop {
                    Ok(
                        GrantPlan {
                            starts_at,
                            expires_at: Some(effective_expiry),
                            scope: Some(req),
                            exact: false,
                            max_uses: None,
                        },
                    )
                } else {
                    Err(StorageError::Conflict)
                },
            }
        },
    }
}

/// What a lease claim reads of a grant.
#[derive(Debug, Clone, Copy, PartialEq, Eq, Structural)]
pub struct GrantUsage {
    pub active: bool,
    pub starts_at: Option<i64>,
    pub expires_at: Option<i64>,
    pub max_uses: Option<i32>,
    pub use_count: i32,
}

/// A grant can be used now: it is active, has started, has not expired,
/// and has uses left.
pub open spec fn grant_usable(g: GrantUsage, now: i64) -> bool {
    &&& g.active
    &&& !(g.starts_at matches Some(s) && s > now)
    &&& !(g.expires_at matches Some(e) && e <= now)
    &&& !(g.max_uses matches Some(m) && g.use_count >= m)
}

/// A grant's use count after one more use, and whether that use exhausts
/// it.
#[derive(Debug, Clone, Copy, PartialEq, Eq, Structural)]
pub struct GrantUse {
    pub use_count: i32,
    pub exhausted: bool,
}

/// Takes one use of a grant for a lease. An unusable grant is a conflict;
/// otherwise the count goes up by one and the grant is exhausted when it
/// reaches its maximum.
pub fn use_grant(g: GrantUsage, now: i64) -> (r: Result<GrantUse, StorageError>)
    requires
        g.use_count < i32::MAX,
    ensures
        !grant_usable(g, now) ==> r == Err::<GrantUse, StorageError>(StorageError::Conflict),
        grant_usable(g, now) ==> r == Ok::<GrantUse, StorageError>(
            GrantUse {
                use_count: (g.use_count + 1) as i32,
                exhausted: g.max_uses matches Some(m) && g.use_count + 1 >= m,
            },
        ),
{
    if !g.active {
        return Err(StorageError::Conflict);
    }
    if let Some(s) = g.starts_at {
        if s > now {
            return Err(StorageError::Conflict);
        }
    }
    if let Some(e) = g.expires_at {
        if e <= now {
            return Err(StorageError::Conflict);
        }
    }
    if let Some(m) = g.max_uses {
        if g.use_count >= m {
            return Err(StorageError::Conflict);
        }
    }
    let next = g.use_count + 1;
    let exhausted = match g.max_uses {
        Some(m) => next >= m,
        None => false,
    };
    Ok(GrantUse { use_count: next, exhausted })
}

/// A grant with a use limit is never used beyond it: each use keeps the
/// count within the limit, and the use that reaches the limit exhausts the
/// grant, after which it is no longer usable. At the same moment, a used
/// grant stays usable exactly when that use did not exhaust it.
pub proof fn law_grant_use_limit(g: GrantUsage, now: i64)
    requires
        grant_usable(g, now),
        g.use_count < i32::MAX,
    ensures
        g.max_uses matches Some(m) ==> g.use_count + 1 <= m,
        g.max_uses matches Some(m) && g.use_count + 1 == m ==> !grant_usable(
            GrantUsage { use_count: (g.use_count + 1) as i32, ..g },
            now,
        ),
        grant_usable(GrantUsage { use_count: (g.use_count + 1) as i32, ..g }, now) <==> !(
        g.max_uses matches Some(m) && g.use_count + 1 >= m),
{
}

/// A claim replayed for the same attempt must match the lease already
/// claimed: same fingerprint, same grant, and a lease that is claimed or
/// consumed.
pub fn check_lease_replay(
    existing_fingerprint: &str,
    existing_grant_id: &Option<String>,
    existing_status: &str,
    fingerprint: &str,
    grant_id: &Option<String>,
) -> (r: Result<(), StorageError>)
    ensures
        r is Ok <==> {
            &&& existing_fingerprint@ == fingerprint@
            &&& match (*existing_grant_id, *grant_id) {
                (None, None) => true,
                (Some(a), Some(b)) => a@ == b@,
                _ => false,
            }
            &&& (existing_status@ == "claimed"@ || existing_status@ == "consumed"@)
        },
        r is Err ==> r == Err::<(), StorageError>(StorageError::Conflict),
{
    if existing_fingerprint.to_owned() != fingerprint.to_owned() {
        return Err(StorageError::Conflict);
    }
    let same_grant = match (existing_grant_id, grant_id) {
        (None, None) => true,
        (Some(a), Some(b)) => *a == *b,
        _ => false,
    };
    if !same_grant {
        return Err(StorageError::Conflict);
    }
    let s = existing_status.to_owned();
    if s != "claimed".to_owned() && s != "consumed".to_owned() {
        return Err(StorageError::Conflict);
    }
    Ok(())
}

/// How long a claimed lease lasts: five minutes, in milliseconds.
pub const LEASE_TTL_MILLIS: i64 = 300_000;

/// The lease already claimed for an attempt, as a replayed claim reads it.
#[derive(Debug, Clone, PartialEq, Eq)]
pub struct StoredLease {
    pub fingerprint: String,
    pub grant_id: Option<String>,
    pub status: String,
}

/// What a lease claim does.
#[derive(Debug, Clone, Copy, PartialEq, Eq, Structural)]
pub enum LeaseClaim {
    /// The attempt already holds a matching lease, which is returned; no
    /// grant is used and no lease is added.
    Replayed,
    /// A new lease is claimed until `expires_at`; when it is under a grant,
    /// the grant's use is recorded.
    Claimed { grant_use: Option<GrantUse>, expires_at: i64 },
}

/// Whether a replayed claim matches the attempt's lease.
pub open spec fn lease_matches(existing: StoredLease, fingerprint: Seq<char>, grant_id: Option<String>) -> bool {
    &&& existing.fingerprint@ == fingerprint
    &&& match (existing.grant_id, grant_id) {
        (None, None) => true,
        (Some(a), Some(b)) => a@ == b@,
        _ => false,
    }
    &&& (existing.status@ == "claimed"@ || existing.status@ == "consumed"@)
}

/// The verdict on a lease claim at `now`. An attempt that already holds a
/// lease gets it back if the claim matches it, and conflicts otherwise. A
/// new claim conflicts when its fingerprint is not the intent's; under a
/// grant, the grant must exist and be usable, and its use count goes up by
/// one; the lease is claimed for five minutes.
pub open spec fn lease_claim_verdict(
    existing: Option<StoredLease>,
    intent_fingerprint: Seq<char>,
    fingerprint: Seq<char>,
    grant_id: Option<String>,
    grant: Option<GrantUsage>,
    now: i64,
) -> Result<LeaseClaim, StorageError> {
    match existing {
        Some(l) => if lease_matches(l, fingerprint, grant_id) {
            Ok(LeaseClaim::Replayed)
        } else {
            Err(StorageError::Conflict)
        },
        None => if intent_fingerprint != fingerprint {
            Err(StorageError::Conflict)
        } else if grant_id is None {
            Ok(LeaseClaim::Claimed { grant_use: None, expires_at: (now + LEASE_TTL_MILLIS) as i64 })
        } else {
            match grant {
                None => Err(StorageError::NotFound),
                Some(g) => if !grant_usable(g, now) {
                    Err(StorageError::Conflict)
                } else {
                    Ok(
                        LeaseClaim::Claimed {
                            grant_use: Some(
                                GrantUse {
                                    use_count: (g.use_count + 1) as i32,
                                    exhausted: g.max_uses matches Some(m) && g.use_count + 1 >= m,
                                },
                            ),
                            expires_at: (now + LEASE_TTL_MILLIS) as i64,
                        },
                    )
                },
            }
        },
    }
}

/// Decides a lease claim: `existing` is the lease the attempt already holds,
/// `intent_fingerprint` the fingerprint of the intent, and `grant` the grant
/// named by `grant_id`, when one is named and found.
pub fn decide_lease_claim(
    existing: Option<&StoredLease>,
    intent_fingerprint: &str,
    fingerprint: &str,
    grant_id: &Option<String>,
    grant: Option<GrantUsage>,
    now: i64,
) -> (r: Result<LeaseClaim, StorageError>)
    requires
        now <= i64::MAX - LEASE_TTL_MILLIS,
        grant matches Some(g) ==> g.use_count < i32::MAX,
    ensures
        r == lease_claim_verdict(
            match existing {
                Some(l) => Some(*l),
                None => None,
            },
            intent_fingerprint@,
            fingerprint@,
            *grant_id,
            grant,
            now,
        ),
{
    if let Some(l) = existing {
        return match check_lease_replay(l.fingerprint.as_str(), &l.grant_id, l.status.as_str(), fingerprint, grant_id) {
            Ok(()) => Ok(LeaseClaim::Replayed),
            Err(e) => Err(e),
        };
    }
    if !crate::text::same_text(intent_fingerprint, fingerprint) {
        return Err(StorageError::Conflict);
    }
    let expires_at = now + LEASE_TTL_MILLIS;
    if grant_id.is_none() {
        return Ok(LeaseClaim::Claimed { grant_use: None, expires_at });
    }
    match grant {
        None => Err(StorageError::NotFound),
        Some(g) => match use_grant(g, now) {
            Ok(u) => Ok(LeaseClaim::Claimed { grant_use: Some(u), expires_at }),
            Err(e) => Err(e),
        },
    }
}

/// A claim either hands back the attempt's matching lease, using nothing,
/// or adds one lease: under a grant it takes exactly one use, exhausts the
/// grant exactly when that use reaches its limit, and never takes a use
/// beyond the limit.
pub proof fn law_lease_claim(
    existing: Option<StoredLease>,
    intent_fingerprint: Seq<char>,
    fingerprint: Seq<char>,
    grant_id: Option<String>,
    grant: Option<GrantUsage>,
    now: i64,
)
    requires
        grant matches Some(g) ==> g.use_count < i32::MAX,
    ensures
        lease_claim_verdict(existing, intent_fingerprint, fingerprint, grant_id, grant, now) matches Ok(
            LeaseClaim::Replayed,
        ) <==> (existing matches Some(l) && lease_matches(l, fingerprint, grant_id)),
        lease_claim_verdict(existing, intent_fingerprint, fingerprint, grant_id, grant, now) matches Ok(
            LeaseClaim::Claimed { grant_use: Some(u), .. },
        ) ==> {
            &&& existing is None
            &&& grant matches Some(g)
            &&& u.use_count == g.use_count + 1
            &&& (u.exhausted <==> (g.max_uses matches Some(m) && u.use_count >= m))
            &&& (g.max_uses matches Some(m) ==> u.use_count <= m)
        },
        lease_claim_verdict(existing, intent_fingerprint, fingerprint, grant_id, grant, now) matches Ok(
            LeaseClaim::Claimed { grant_use: None, .. },
        ) ==> existing is None && grant_id is None && intent_fingerprint == fingerprint,
{
}

/// Where an execution lease stands.
#[derive(Debug, Clone, Copy, PartialEq, Eq, Structural)]
pub enum LeaseStatus {
    Claimed,
    Consumed,
    Canceled,
    Expired,
}

/// A lease completes as consumed or canceled; any other requested status
/// is a conflict.
pub fn lease_completion_text(status: LeaseStatus) -> (r: Result<&'static str, StorageError>)
    ensures
        status == LeaseStatus::Consumed ==> (r matches Ok(s) && s@ == "consumed"@),
        status == LeaseStatus::Canceled ==> (r matches Ok(s) && s@ == "canceled"@),
        status != LeaseStatus::Consumed && status != LeaseStatus::Canceled ==> r == Err::<
            &'static str,
            StorageError,
        >(StorageError::Conflict),
{
    match status {
        LeaseStatus::Consumed => Ok("consumed"),
        LeaseStatus::Canceled => Ok("canceled"),
        _ => Err(StorageError::Conflict),
    }
}

/// After completing a lease: when no claimed lease changed, the request
/// stands only if the lease already has the requested status.
pub fn check_lease_completion(changed: usize, stored_status: &str, requested_status: &str) -> (r:
    Result<(), StorageError>)
    ensures
        r is Ok <==> (changed != 0 || stored_status@ == requested_status@),
        r is Err ==> r == Err::<(), StorageError>(StorageError::Conflict),
{
    if changed == 0 && stored_status.to_owned() != requested_status.to_owned() {
        Err(StorageError::Conflict)
    } else {
        Ok(())
    }
}

/// A revocation must change exactly one active grant.
pub fn check_revocation(changed: usize) -> (r: Result<(), StorageError>)
    ensures
        r is Ok <==> changed == 1,
        r is Err ==> r == Err::<(), StorageError>(StorageError::Conflict),
{
    if changed != 1 {
        Err(StorageError::Conflict)
    } else {
        Ok(())
    }
}

} // verus!
