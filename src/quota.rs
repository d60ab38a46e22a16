use vstd::prelude::*;

use crate::audit::{appended, audit_entry};
use crate::authz::user_in_tenant;
use crate::model::{AuditAction, AuditRecord, EngineError, Limits, ResourceKind, User, UserStatus};
use crate::store::{
    first_match, lemma_first_match_push, limits_at, tenant_has_id, user_has_id, user_with_email, Store,
};

verus! {

/// Number of users of the tenant.
pub open spec fn user_count(users: Seq<User>, tenant_id: u64) -> nat
    decreases users.len(),
{
    if users.len() == 0 {
        0
    } else {
        user_count(users.drop_last(), tenant_id) + if users.last().tenant_id == tenant_id {
            1nat
        } else {
            0nat
        }
    }
}

/// Current usage of a resource by the tenant.
pub open spec fn usage(st: &Store, tenant_id: u64, kind: ResourceKind) -> int {
    match kind {
        ResourceKind::UserCount => user_count(st.users@, tenant_id) as int,
        ResourceKind::StorageGb => match first_match(st.tenants@, tenant_has_id(tenant_id)) {
            Some(i) => st.tenants@[i].storage_used_gb as int,
            None => 0,
        },
    }
}

pub open spec fn limit_of(l: Limits, kind: ResourceKind) -> int {
    match kind {
        ResourceKind::UserCount => l.user_limit as int,
        ResourceKind::StorageGb => l.storage_limit_gb as int,
    }
}

/// What `check_and_reserve` answers: `NotFound` for a missing tenant; allowed
/// when `usage + delta <= limit`; denied without limits.
pub open spec fn quota_result(
    st: &Store,
    tenant_id: u64,
    kind: ResourceKind,
    delta: u64,
    now: u64,
) -> Result<(), EngineError> {
    if first_match(st.tenants@, tenant_has_id(tenant_id)) is None {
        Err(EngineError::NotFound)
    } else {
        match limits_at(st, tenant_id, now) {
            Some(l) => if usage(st, tenant_id, kind) + delta <= limit_of(l, kind) {
                Ok(())
            } else {
                Err(EngineError::QuotaExceeded)
            },
            None => Err(EngineError::QuotaExceeded),
        }
    }
}

/// The row that `invite_user` inserts.
pub open spec fn invited_user(
    tenant_id: u64,
    new_id: u64,
    email: String,
    password_hash: String,
) -> User {
    User { id: new_id, tenant_id, email, password_hash, status: UserStatus::Invited }
}

/// What `invite_user` answers, checks in this order: the inviting user
/// belongs to the tenant, the new id and the email are free, the quota allows
/// one more user, the audit log accepts the record.
pub open spec fn invite_result(
    st: &Store,
    tenant_id: u64,
    actor_id: u64,
    new_id: u64,
    email: Seq<char>,
    now: u64,
) -> Result<u64, EngineError> {
    if !user_in_tenant(st, tenant_id, actor_id) {
        Err(EngineError::NotFound)
    } else if first_match(st.users@, user_has_id(new_id)) is Some || first_match(
        st.users@,
        user_with_email(tenant_id, email),
    ) is Some {
        Err(EngineError::Conflict)
    } else if quota_result(st, tenant_id, ResourceKind::UserCount, 1, now) is Err {
        Err(quota_result(st, tenant_id, ResourceKind::UserCount, 1, now)->Err_0)
    } else if st.next_audit_id == u64::MAX {
        Err(EngineError::StoreUnavailable)
    } else {
        Ok(new_id)
    }
}

/// No two users share an id, nor a tenant and an email.
pub open spec fn users_unique(users: Seq<User>) -> bool {
    forall|i: int, j: int|
        0 <= i < j < users.len() ==> (#[trigger] users[i]).id != (#[trigger] users[j]).id && !(
        users[i].tenant_id == users[j].tenant_id && users[i].email@ == users[j].email@)
}

/// `new` is `old` with the user inserted and its invitation audited.
pub open spec fn invited(old: &Store, new: &Store, user: User, rec: AuditRecord) -> bool {
    &&& new.users@ == old.users@.push(user)
    &&& new.audit_logs@ == old.audit_logs@.push(rec)
    &&& new.next_audit_id == old.next_audit_id + 1
    &&& new.tenants@ == old.tenants@
    &&& new.plans@ == old.plans@
    &&& new.subscriptions@ == old.subscriptions@
    &&& new.roles@ == old.roles@
    &&& new.permissions@ == old.permissions@
    &&& new.user_roles@ == old.user_roles@
    &&& new.role_permissions@ == old.role_permissions@
    &&& new.projects@ == old.projects@
    &&& new.tasks@ == old.tasks@
    &&& new.fallback == old.fallback
}

/// Adding a user of the tenant raises its count by one.
pub proof fn lemma_user_count_push(users: Seq<User>, tenant_id: u64, u: User)
    ensures
        user_count(users.push(u), tenant_id) == user_count(users, tenant_id) + if u.tenant_id
            == tenant_id {
            1nat
        } else {
            0nat
        },
{
    assert(users.push(u).drop_last() =~= users);
}

/// A tenant one user short of its plan's limit admits exactly one invitation:
/// the quota allows it, and once it has been committed the next is refused.
pub proof fn lemma_quota_single_winner(
    before: &Store,
    after: &Store,
    tenant_id: u64,
    user: User,
    rec: AuditRecord,
    now: u64,
)
    requires
        first_match(before.tenants@, tenant_has_id(tenant_id)) is Some,
        limits_at(before, tenant_id, now) matches Some(l) && l.user_limit == user_count(
            before.users@,
            tenant_id,
        ) + 1,
        user.tenant_id == tenant_id,
        invited(before, after, user, rec),
    ensures
        quota_result(before, tenant_id, ResourceKind::UserCount, 1, now) is Ok,
        quota_result(after, tenant_id, ResourceKind::UserCount, 1, now) == Err::<(), EngineError>(
            EngineError::QuotaExceeded,
        ),
{
    lemma_user_count_push(before.users@, tenant_id, user);
    assert(limits_at(after, tenant_id, now) == limits_at(before, tenant_id, now));
}

impl Store {
    /// Number of users of the tenant.
    pub fn count_users(&self, tenant_id: u64) -> (r: u64)
        ensures
            r == user_count(self.users@, tenant_id),
    {
        let mut n: u64 = 0;
        let mut i: usize = 0;
        while i < self.users.len()
            invariant
                i <= self.users@.len(),
                n <= i,
                n == user_count(self.users@.subrange(0, i as int), tenant_id),
            decreases self.users@.len() - i,
        {
            proof {
                assert(self.users@.subrange(0, i + 1).drop_last() =~= self.users@.subrange(
                    0,
                    i as int,
                ));
            }
            if self.users[i].tenant_id == tenant_id {
                n = n + 1;
            }
            i += 1;
        }
        proof {
            assert(self.users@.subrange(0, i as int) =~= self.users@);
        }
        n
    }

    /// Decides whether the tenant may grow a resource by `delta` at `now`,
    /// against the limits of its active subscription's plan.
    pub fn check_and_reserve(&self, tenant_id: u64, kind: ResourceKind, delta: u64, now: u64) -> (r:
        Result<(), EngineError>)
        ensures
            r == quota_result(self, tenant_id, kind, delta, now),
    {
        let t = match self.find_tenant(tenant_id) {
            None => {
                return Err(EngineError::NotFound);
            },
            Some(t) => t,
        };
        let limits = match self.limits_for(tenant_id, now) {
            None => {
                return Err(EngineError::QuotaExceeded);
            },
            Some(l) => l,
        };
        let (used, limit) = match kind {
            ResourceKind::UserCount => (self.count_users(tenant_id), limits.user_limit),
            ResourceKind::StorageGb => (self.tenants[t].storage_used_gb, limits.storage_limit_gb),
        };
        if used <= limit && delta <= limit - used {
            Ok(())
        } else {
            Err(EngineError::QuotaExceeded)
        }
    }

    /// Invites a user into the tenant on behalf of `actor_id`. The quota check,
    /// the insertion and the audit record happen together or not at all.
    pub fn invite_user(
        &mut self,
        tenant_id: u64,
        actor_id: u64,
        new_id: u64,
        email: String,
        password_hash: String,
        now: u64,
    ) -> (r: Result<u64, EngineError>)
        ensures
            r == invite_result(old(self), tenant_id, actor_id, new_id, email@, now),
            r is Ok ==> invited(
                old(self),
                final(self),
                invited_user(tenant_id, new_id, email, password_hash),
                audit_entry(old(self), tenant_id, actor_id, AuditAction::UserInvited, email, now),
            ),
            r is Ok && users_unique(old(self).users@) ==> users_unique(final(self).users@),
            r is Err ==> *final(self) == *old(self),
    {
        if !self.check_membership(tenant_id, actor_id) {
            return Err(EngineError::NotFound);
        }
        if self.find_user(new_id).is_some() || self.find_user_by_email(tenant_id, &email).is_some() {
            return Err(EngineError::Conflict);
        }
        match self.check_and_reserve(tenant_id, ResourceKind::UserCount, 1, now) {
            Err(e) => {
                return Err(e);
            },
            Ok(()) => {},
        }
        if self.next_audit_id == u64::MAX {
            return Err(EngineError::StoreUnavailable);
        }
        let details = email.clone();
        let ghost before = *self;
        self.users.push(
            User { id: new_id, tenant_id, email, password_hash, status: UserStatus::Invited },
        );
        proof {
            lemma_first_match_push(
                before.users@,
                user_has_id(actor_id),
                invited_user(tenant_id, new_id, email, password_hash),
            );
        }
        let logged = self.record(tenant_id, actor_id, AuditAction::UserInvited, details, now);
        proof {
            assert(logged is Ok);
            crate::store::lemma_first_match(before.users@, user_has_id(new_id));
            crate::store::lemma_first_match(before.users@, user_with_email(tenant_id, email@));
            let u = invited_user(tenant_id, new_id, email, password_hash);
            if users_unique(before.users@) {
                assert forall|i: int, j: int| 0 <= i < j < self.users@.len() implies (
                #[trigger] self.users@[i]).id != (#[trigger] self.users@[j]).id && !(
                self.users@[i].tenant_id == self.users@[j].tenant_id && self.users@[i].email@
                    == self.users@[j].email@) by {
                    assert(self.users@ == before.users@.push(u));
                    if j == before.users@.len() {
                        assert(!user_has_id(new_id)(before.users@[i]));
                        assert(!user_with_email(tenant_id, email@)(before.users@[i]));
                    } else {
                        assert(self.users@[i] == before.users@[i]);
                        assert(self.users@[j] == before.users@[j]);
                    }
                }
            }
        }
        Ok(new_id)
    }
}

} // verus!
