//! Binding a caller's identity and the policy into one check.

use vstd::prelude::*;

use crate::authz::policy::{Operation, Policy, PolicyView};
use crate::pkcs11::metrics::counted;
use crate::status::{status_of, Code, Status, StatusView};
use crate::text;

verus! {

/// How the checks ended, counted.
#[derive(Clone, Copy, Debug, PartialEq, Eq, Structural)]
pub struct AuthzMetrics {
    pub allowed_total: u64,
    pub denied_total: u64,
    pub unauthenticated_total: u64,
}

impl Default for AuthzMetrics {
    fn default() -> (metrics: AuthzMetrics)
        ensures
            metrics == (AuthzMetrics {
                allowed_total: 0,
                denied_total: 0,
                unauthenticated_total: 0,
            }),
    {
        AuthzMetrics { allowed_total: 0, denied_total: 0, unauthenticated_total: 0 }
    }
}

/// What an identity that is not permitted an operation is told.
///
/// The message names the identity, the key and the operation on purpose: the caller knows which
/// key they asked for, and a vague refusal turns a one-line change of the policy into a
/// debugging session.
pub open spec fn denial(
    identity: Seq<char>,
    key_label: Seq<char>,
    operation: Operation,
) -> StatusView {
    status_of(
        Code::PermissionDenied,
        "identity '"@ + identity + "' is not permitted to "@ + operation.name() + " key '"@
            + key_label + "'"@,
    )
}

fn deny(identity: &str, key_label: &str, operation: Operation) -> (status: Status)
    ensures
        status@ == denial(identity@, key_label@, operation),
{
    let mut message = text::joined("identity '", identity, "' is not permitted to ");
    message.append(operation.as_str());
    message.append(" key '");
    message.append(key_label);
    message.append("'");
    Status { code: Code::PermissionDenied, message }
}

/// What is known of a caller: the identity, or why there is none.
pub open spec fn identity_view(identity: Result<String, Status>) -> Result<Seq<char>, StatusView> {
    match identity {
        Ok(identity) => Ok(identity@),
        Err(reason) => Err(reason@),
    }
}

/// What the check of a caller against a policy comes to: the identity that is permitted the
/// operation, or what the caller is told instead.
pub open spec fn verdict(
    policy: PolicyView,
    identity: Result<Seq<char>, StatusView>,
    key_label: Seq<char>,
    operation: Operation,
) -> Result<Seq<char>, StatusView> {
    match identity {
        Err(reason) => Err(reason),
        Ok(identity) => if policy.allows(identity, key_label, operation) {
            Ok(identity)
        } else {
            Err(denial(identity, key_label, operation))
        },
    }
}

/// The counters after a check: each is counted once, by how it ended.
pub open spec fn check_counted(
    metrics: AuthzMetrics,
    identity: Result<Seq<char>, StatusView>,
    verdict: Result<Seq<char>, StatusView>,
) -> AuthzMetrics {
    if identity is Err {
        AuthzMetrics {
            unauthenticated_total: counted(metrics.unauthenticated_total, 1),
            ..metrics
        }
    } else if verdict is Ok {
        AuthzMetrics { allowed_total: counted(metrics.allowed_total, 1), ..metrics }
    } else {
        AuthzMetrics { denied_total: counted(metrics.denied_total, 1), ..metrics }
    }
}

/// Checks callers against a policy.
pub struct Authorizer {
    pub policy: Policy,
    pub metrics: AuthzMetrics,
}

impl Authorizer {
    /// A check against this policy.
    pub fn new(policy: Policy) -> (authorizer: Authorizer)
        ensures
            authorizer.policy == policy,
            authorizer.metrics == (AuthzMetrics {
                allowed_total: 0,
                denied_total: 0,
                unauthenticated_total: 0,
            }),
    {
        Authorizer { policy, metrics: AuthzMetrics::default() }
    }

    /// How the checks ended so far.
    pub fn metrics(&self) -> (metrics: &AuthzMetrics)
        ensures
            *metrics == self.metrics,
    {
        &self.metrics
    }

    /// The policy.
    pub fn policy(&self) -> (policy: &Policy)
        ensures
            *policy == self.policy,
    {
        &self.policy
    }

    /// Check a caller, whose identity was established or not, against the policy.
    ///
    /// A caller without an identity is answered with the reason for that, and one whom the
    /// policy does not permit the operation with a denial. Every check is counted once.
    pub fn authorize(
        &mut self,
        identity: Result<String, Status>,
        key_label: &str,
        operation: Operation,
    ) -> (result: Result<String, Status>)
        ensures
            final(self).policy == old(self).policy,
            identity_view(result) == verdict(
                old(self).policy@,
                identity_view(identity),
                key_label@,
                operation,
            ),
            final(self).metrics == check_counted(
                old(self).metrics,
                identity_view(identity),
                identity_view(result),
            ),
            match (identity, result) {
                (Ok(who), Ok(passed)) => passed@ == who@ && old(self).policy@.allows(
                    who@,
                    key_label@,
                    operation,
                ),
                (Ok(who), Err(status)) => status.code is PermissionDenied
                    && !old(self).policy@.allows(who@, key_label@, operation),
                (Err(reason), Err(status)) => status@ == reason@,
                (Err(_), Ok(_)) => false,
            },
    {
        let identity = match identity {
            Ok(identity) => identity,
            Err(reason) => {
                self.metrics.unauthenticated_total =
                self.metrics.unauthenticated_total.wrapping_add(1);
                return Err(reason);
            },
        };
        if self.policy.is_allowed(identity.as_str(), key_label, operation) {
            self.metrics.allowed_total = self.metrics.allowed_total.wrapping_add(1);
            return Ok(identity);
        }
        self.metrics.denied_total = self.metrics.denied_total.wrapping_add(1);
        Err(deny(identity.as_str(), key_label, operation))
    }
}

/// Whoever is let through is permitted the operation by the policy, under the identity that was
/// established for them.
pub proof fn law_only_the_permitted_pass(
    policy: PolicyView,
    identity: Result<Seq<char>, StatusView>,
    key_label: Seq<char>,
    operation: Operation,
)
    ensures
        verdict(policy, identity, key_label, operation) matches Ok(who) ==> identity == Ok::<
            _,
            StatusView,
        >(who) && policy.allows(who, key_label, operation),
{
}

/// A caller passes exactly where the policy permits them the operation on the key, and passes as
/// who they are. One without an identity is told why, and one without permission that they have
/// none.
pub proof fn law_every_caller_gets_what_the_policy_says(
    policy: PolicyView,
    who: Seq<char>,
    reason: StatusView,
    key_label: Seq<char>,
    operation: Operation,
)
    ensures
        policy.allows(who, key_label, operation) <==> verdict(policy, Ok(who), key_label, operation)
            == Ok::<_, StatusView>(who),
        !policy.allows(who, key_label, operation) <==> (verdict(
            policy,
            Ok(who),
            key_label,
            operation,
        ) matches Err(status) && status.code is PermissionDenied),
        verdict(policy, Err(reason), key_label, operation) == Err::<Seq<char>, _>(reason),
{
}

/// A denial names who was denied, what, and on which key.
pub proof fn law_a_denial_says_what_was_denied(
    identity: Seq<char>,
    key_label: Seq<char>,
    operation: Operation,
)
    ensures
        text::occurs_in(identity, denial(identity, key_label, operation).message),
        text::occurs_in(key_label, denial(identity, key_label, operation).message),
        text::occurs_in(operation.name(), denial(identity, key_label, operation).message),
{
    let message = denial(identity, key_label, operation).message;
    let opening = "identity '"@;
    let middle = opening + identity + "' is not permitted to "@;
    let label = middle + operation.name() + " key '"@;
    let at_identity = opening.len() as int;
    let at_operation = middle.len() as int;
    let at_label = label.len() as int;
    assert(message.subrange(at_identity, at_identity + identity.len()) =~= identity);
    assert(text::occurs_at(identity, message, at_identity));
    assert(message.subrange(at_operation, at_operation + operation.name().len())
        =~= operation.name());
    assert(text::occurs_at(operation.name(), message, at_operation));
    assert(message.subrange(at_label, at_label + key_label.len()) =~= key_label);
    assert(text::occurs_at(key_label, message, at_label));
}

/// Every check is counted once, by how it ended: one without an identity, one that was permitted
/// and one that was denied each under its own counter, and under no other.
pub proof fn law_every_check_is_counted_once(
    metrics: AuthzMetrics,
    policy: PolicyView,
    who: Seq<char>,
    reason: StatusView,
    key_label: Seq<char>,
    operation: Operation,
)
    requires
        metrics.allowed_total < u64::MAX,
        metrics.denied_total < u64::MAX,
        metrics.unauthenticated_total < u64::MAX,
    ensures
        ({
            let known = verdict(policy, Ok(who), key_label, operation);
            let unknown = verdict(policy, Err(reason), key_label, operation);
            let permitted = policy.allows(who, key_label, operation);
            let after = check_counted(metrics, Ok(who), known);
            let other = check_counted(metrics, Err(reason), unknown);
            &&& after.allowed_total == metrics.allowed_total + (if permitted {
                1int
            } else {
                0int
            })
            &&& after.denied_total == metrics.denied_total + (if permitted {
                0int
            } else {
                1int
            })
            &&& after.unauthenticated_total == metrics.unauthenticated_total
            &&& other.unauthenticated_total == metrics.unauthenticated_total + 1
            &&& other.allowed_total == metrics.allowed_total
            &&& other.denied_total == metrics.denied_total
        }),
{
}

} // verus!
