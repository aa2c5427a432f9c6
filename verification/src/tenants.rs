//! Tenants and their members.
//!
//! A role is as strong as its rank: member, admin, owner. The last owner of a
//! tenant can neither be demoted nor removed.
use vstd::prelude::*;
use vstd::string::*;

use crate::error::AppError;
use crate::ids::Uuid;

verus! {

/// What a member of a tenant may do.
#[derive(Debug, Clone, Copy, PartialEq, Eq, Structural)]
pub enum TenantRole {
    Member,
    Admin,
    Owner,
}

impl TenantRole {
    /// The rank of a role.
    pub open spec fn spec_rank(self) -> u8 {
        match self {
            TenantRole::Member => 0,
            TenantRole::Admin => 1,
            TenantRole::Owner => 2,
        }
    }

    /// The rank of a role.
    #[verifier::when_used_as_spec(spec_rank)]
    pub fn rank(self) -> (rank: u8)
        ensures
            rank == self.rank(),
    {
        match self {
            TenantRole::Member => 0,
            TenantRole::Admin => 1,
            TenantRole::Owner => 2,
        }
    }

    /// Whether a role is at least as strong as another.
    pub fn at_least(self, other: TenantRole) -> (strong: bool)
        ensures
            strong == (self.rank() >= other.rank()),
    {
        self.rank() >= other.rank()
    }
}

/// The membership of a user in a tenant.
#[derive(Debug, Clone, Copy, PartialEq, Eq, Structural)]
pub struct Membership {
    pub id: Uuid,
    pub tenant_id: Uuid,
    pub user_id: Uuid,
    pub role: TenantRole,
}

/// The settings of a tenant, but for the times.
#[derive(Debug)]
pub struct Tenant {
    pub id: Uuid,
    pub name: String,
    pub slug: String,
    pub avatar_url: Option<String>,
}

/// Refuses a slug that did not pass its check, with the check's message.
pub fn validate_slug(check: Result<(), String>) -> (outcome: Result<(), AppError>)
    ensures
        match check {
            Ok(()) => outcome is Ok,
            Err(message) => outcome matches Err(error) && error@
                == crate::error::AppErrorView::BadRequestDetail(message@),
        },
{
    match check {
        Ok(()) => Ok(()),
        Err(message) => Err(AppError::BadRequestDetail(message)),
    }
}

/// Demands a role. Who is no member is answered just as who is too weak a
/// member, so that the answer does not tell whether the tenant exists.
pub fn require_role(member: Option<Membership>, min_role: TenantRole) -> (outcome: Result<
    Membership,
    AppError,
>)
    ensures
        match member {
            Some(member) => if member.role.rank() >= min_role.rank() {
                outcome == Ok::<Membership, AppError>(member)
            } else {
                outcome matches Err(error) && error@ == crate::error::AppErrorView::Forbidden
            },
            None => outcome matches Err(error) && error@ == crate::error::AppErrorView::Forbidden,
        },
{
    match member {
        Some(member) => if member.role.at_least(min_role) {
            Ok(member)
        } else {
            Err(AppError::Forbidden)
        },
        None => Err(AppError::Forbidden),
    }
}

/// Who may do what a role may do may do what every weaker role may do.
pub proof fn law_stronger_roles_may_do_more(
    role: TenantRole,
    needed: TenantRole,
    weaker: TenantRole,
)
    requires
        role.rank() >= needed.rank(),
        needed.rank() >= weaker.rank(),
    ensures
        role.rank() >= weaker.rank(),
        role.rank() == weaker.rank() ==> role == weaker,
{
}

// ── the tenants of a user ───────────────────────────────────────────────

/// The role that a list of memberships gives in a tenant: that of the last
/// membership in it.
pub open spec fn role_in(memberships: Seq<Membership>, tenant: Uuid) -> Option<TenantRole>
    decreases memberships.len(),
{
    if memberships.len() == 0 {
        None
    } else if memberships.last().tenant_id == tenant {
        Some(memberships.last().role)
    } else {
        role_in(memberships.drop_last(), tenant)
    }
}

/// The places of the tenants in which there is a role, with the role, in
/// order.
pub open spec fn roles_in(memberships: Seq<Membership>, tenants: Seq<Uuid>) -> Seq<
    (usize, TenantRole),
>
    decreases tenants.len(),
{
    if tenants.len() == 0 {
        Seq::empty()
    } else {
        let before = roles_in(memberships, tenants.drop_last());
        match role_in(memberships, tenants.last()) {
            Some(role) => before.push(((tenants.len() - 1) as usize, role)),
            None => before,
        }
    }
}

fn find_role(memberships: &Vec<Membership>, tenant: Uuid) -> (role: Option<TenantRole>)
    ensures
        role == role_in(memberships@, tenant),
{
    let mut left: usize = memberships.len();
    assert(memberships@.take(left as int) =~= memberships@);
    while left > 0
        invariant
            left <= memberships.len(),
            role_in(memberships@, tenant) == role_in(memberships@.take(left as int), tenant),
        decreases left,
    {
        assert(memberships@.take(left as int).drop_last() =~= memberships@.take(left - 1));
        if memberships[left - 1].tenant_id == tenant {
            return Some(memberships[left - 1].role);
        }
        left -= 1;
    }
    None
}

/// The tenants of a user: for each of `tenants` in which the user is a
/// member, its place and the role.
pub fn list_tenants_for_user(memberships: &Vec<Membership>, tenants: &Vec<Uuid>) -> (listed: Vec<
    (usize, TenantRole),
>)
    ensures
        listed@ == roles_in(memberships@, tenants@),
{
    let mut listed: Vec<(usize, TenantRole)> = Vec::new();
    let mut i: usize = 0;
    assert(listed@ =~= roles_in(memberships@, tenants@.take(0)));
    while i < tenants.len()
        invariant
            i <= tenants.len(),
            listed@ == roles_in(memberships@, tenants@.take(i as int)),
        decreases tenants.len() - i,
    {
        assert(tenants@.take(i + 1).drop_last() =~= tenants@.take(i as int));
        if let Some(role) = find_role(memberships, tenants[i]) {
            listed.push((i, role));
        }
        i += 1;
    }
    assert(tenants@.take(tenants@.len() as int) =~= tenants@);
    listed
}

// ── changing a tenant ───────────────────────────────────────────────────

/// Makes a tenant and the membership of its creator, who owns it; the two
/// identifiers were drawn for them.
pub fn create_tenant(
    slug_check: Result<(), String>,
    tenant_id: Uuid,
    member_id: Uuid,
    creator_id: Uuid,
    name: String,
    slug: String,
    avatar_url: Option<String>,
) -> (outcome: Result<(Tenant, Membership), AppError>)
    ensures
        match slug_check {
            Err(message) => outcome matches Err(error) && error@
                == crate::error::AppErrorView::BadRequestDetail(message@),
            Ok(()) => outcome == Ok::<(Tenant, Membership), AppError>(
                (
                    Tenant { id: tenant_id, name, slug, avatar_url },
                    Membership {
                        id: member_id,
                        tenant_id,
                        user_id: creator_id,
                        role: TenantRole::Owner,
                    },
                ),
            ),
        },
{
    match validate_slug(slug_check) {
        Ok(()) => {},
        Err(error) => {
            return Err(error);
        },
    }
    Ok(
        (
            Tenant { id: tenant_id, name, slug, avatar_url },
            Membership { id: member_id, tenant_id, user_id: creator_id, role: TenantRole::Owner },
        ),
    )
}

/// Changes the settings of a tenant. What is `None` stays; an avatar is
/// cleared by `Some(None)`.
pub fn update_tenant(
    tenant: Tenant,
    name: Option<String>,
    avatar_url: Option<Option<String>>,
) -> (updated: Tenant)
    ensures
        updated == (Tenant {
            id: tenant.id,
            slug: tenant.slug,
            name: match name {
                Some(name) => name,
                None => tenant.name,
            },
            avatar_url: match avatar_url {
                Some(avatar_url) => avatar_url,
                None => tenant.avatar_url,
            },
        }),
{
    let mut updated = tenant;
    if let Some(name) = name {
        updated.name = name;
    }
    if let Some(avatar_url) = avatar_url {
        updated.avatar_url = avatar_url;
    }
    updated
}

// ── changing members ────────────────────────────────────────────────────

/// How a user is looked for.
#[derive(Debug)]
pub enum UserLookup {
    ById(Uuid),
    ByName(String),
}

/// How a user is looked for, who is named either by an identifier or by a
/// name.
pub fn resolve_user(user_id: Option<Uuid>, username: Option<String>) -> (lookup: Result<
    UserLookup,
    AppError,
>)
    ensures
        match (user_id, username) {
            (Some(id), None) => lookup == Ok::<UserLookup, AppError>(UserLookup::ById(id)),
            (None, Some(name)) => lookup == Ok::<UserLookup, AppError>(UserLookup::ByName(name)),
            _ => lookup matches Err(error) && error@
                == crate::error::AppErrorView::BadRequestDetail(
                "exactly one of user_id or username is required"@,
            ),
        },
{
    match (user_id, username) {
        (Some(id), None) => Ok(UserLookup::ById(id)),
        (None, Some(name)) => Ok(UserLookup::ByName(name)),
        _ => Err(
            AppError::BadRequestDetail(
                "exactly one of user_id or username is required".to_string(),
            ),
        ),
    }
}

/// Makes the membership of a user; the identifier was drawn for it. A user
/// who is a member already is refused.
pub fn add_member(
    existing: Option<Membership>,
    id: Uuid,
    tenant_id: Uuid,
    user_id: Uuid,
    role: TenantRole,
) -> (outcome: Result<Membership, AppError>)
    ensures
        match existing {
            Some(_) => outcome matches Err(error) && error@ == crate::error::AppErrorView::Conflict,
            None => outcome == Ok::<Membership, AppError>(
                Membership { id, tenant_id, user_id, role },
            ),
        },
{
    match existing {
        Some(_) => Err(AppError::Conflict),
        None => Ok(Membership { id, tenant_id, user_id, role }),
    }
}

/// Whether a change of role takes an owner away.
pub open spec fn demotes(current: TenantRole, role: TenantRole) -> bool {
    current == TenantRole::Owner && role != TenantRole::Owner
}

/// Whether the number of owners has to be known before a role is changed.
pub fn demotes_owner(current: TenantRole, role: TenantRole) -> (needed: bool)
    ensures
        needed == demotes(current, role),
{
    current == TenantRole::Owner && role != TenantRole::Owner
}

/// Changes the role of a member, in a tenant with so many owners. The last
/// owner is not demoted.
pub fn update_member_role(current: Option<Membership>, role: TenantRole, owners: u64) -> (outcome:
    Result<Membership, AppError>)
    ensures
        match current {
            None => outcome matches Err(error) && error@ == crate::error::AppErrorView::NotFound,
            Some(member) => if demotes(member.role, role) && owners <= 1 {
                outcome matches Err(error) && error@ == crate::error::AppErrorView::Conflict
            } else {
                outcome == Ok::<Membership, AppError>(
                    Membership {
                        id: member.id,
                        tenant_id: member.tenant_id,
                        user_id: member.user_id,
                        role,
                    },
                )
            },
        },
{
    match current {
        None => Err(AppError::NotFound),
        Some(member) => {
            if demotes_owner(member.role, role) && owners <= 1 {
                return Err(AppError::Conflict);
            }
            Ok(
                Membership {
                    id: member.id,
                    tenant_id: member.tenant_id,
                    user_id: member.user_id,
                    role,
                },
            )
        },
    }
}

/// The membership that is removed, in a tenant with so many owners. The last
/// owner is not removed.
pub fn remove_member(current: Option<Membership>, owners: u64) -> (outcome: Result<Uuid, AppError>)
    ensures
        match current {
            None => outcome matches Err(error) && error@ == crate::error::AppErrorView::NotFound,
            Some(member) => if member.role == TenantRole::Owner && owners <= 1 {
                outcome matches Err(error) && error@ == crate::error::AppErrorView::Conflict
            } else {
                outcome == Ok::<Uuid, AppError>(member.id)
            },
        },
{
    match current {
        None => Err(AppError::NotFound),
        Some(member) => {
            if member.role == TenantRole::Owner && owners <= 1 {
                return Err(AppError::Conflict);
            }
            Ok(member.id)
        },
    }
}

// ── what holds of members ───────────────────────────────────────────────

/// How many owners there are among the members of a tenant.
pub open spec fn count_owners(members: Seq<Membership>) -> nat
    decreases members.len(),
{
    if members.len() == 0 {
        0
    } else {
        count_owners(members.drop_last()) + if members.last().role == TenantRole::Owner {
            1nat
        } else {
            0nat
        }
    }
}

proof fn lemma_count_update(members: Seq<Membership>, at: int, member: Membership)
    requires
        0 <= at < members.len(),
    ensures
        count_owners(members.update(at, member)) + if members[at].role == TenantRole::Owner {
            1nat
        } else {
            0nat
        } == count_owners(members) + if member.role == TenantRole::Owner {
            1nat
        } else {
            0nat
        },
    decreases members.len(),
{
    let changed = members.update(at, member);
    if at == members.len() - 1 {
        assert(changed.drop_last() =~= members.drop_last());
    } else {
        assert(changed.drop_last() =~= members.drop_last().update(at, member));
        lemma_count_update(members.drop_last(), at, member);
    }
}

proof fn lemma_count_remove(members: Seq<Membership>, at: int)
    requires
        0 <= at < members.len(),
    ensures
        count_owners(members.remove(at)) + if members[at].role == TenantRole::Owner {
            1nat
        } else {
            0nat
        } == count_owners(members),
    decreases members.len(),
{
    let fewer = members.remove(at);
    if at == members.len() - 1 {
        assert(fewer =~= members.drop_last());
    } else {
        assert(fewer.drop_last() =~= members.drop_last().remove(at));
        assert(fewer.last() == members.last());
        lemma_count_remove(members.drop_last(), at);
    }
}

/// A tenant keeps an owner when the role of a member is changed: a change
/// that [`update_member_role`] makes leaves at least one.
pub proof fn law_role_changes_keep_an_owner(members: Seq<Membership>, at: int, role: TenantRole)
    requires
        0 <= at < members.len(),
        count_owners(members) >= 1,
        !(demotes(members[at].role, role) && count_owners(members) <= 1),
    ensures
        count_owners(members.update(at, Membership { role, ..members[at] })) >= 1,
{
    lemma_count_update(members, at, Membership { role, ..members[at] });
}

/// A tenant keeps an owner when a member is removed: a removal that
/// [`remove_member`] makes leaves at least one.
pub proof fn law_removals_keep_an_owner(members: Seq<Membership>, at: int)
    requires
        0 <= at < members.len(),
        count_owners(members) >= 1,
        !(members[at].role == TenantRole::Owner && count_owners(members) <= 1),
    ensures
        count_owners(members.remove(at)) >= 1,
{
    lemma_count_remove(members, at);
}

/// An owner may do more than an admin, and an admin more than a member.
pub proof fn law_roles_are_ranked()
    ensures
        TenantRole::Owner.rank() > TenantRole::Admin.rank(),
        TenantRole::Admin.rank() > TenantRole::Member.rank(),
{
}

/// The role in a tenant is that of a membership in it, wherever it stands in
/// the list, if no later one is in the same tenant; without a membership in
/// the tenant there is no role.
pub proof fn law_the_last_membership_counts(memberships: Seq<Membership>, tenant: Uuid, at: int)
    requires
        -1 <= at < memberships.len(),
        forall|i: int| at < i < memberships.len() ==> (#[trigger] memberships[i]).tenant_id != tenant,
        at >= 0 ==> memberships[at].tenant_id == tenant,
    ensures
        at >= 0 ==> role_in(memberships, tenant) == Some(memberships[at].role),
        at < 0 ==> role_in(memberships, tenant) is None,
    decreases memberships.len(),
{
    if memberships.len() > 0 && at < memberships.len() - 1 {
        let fewer = memberships.drop_last();
        assert(memberships[memberships.len() - 1].tenant_id != tenant);
        assert forall|i: int| at < i < fewer.len() implies (#[trigger] fewer[i]).tenant_id
            != tenant by {
            assert(fewer[i] == memberships[i]);
        }
        law_the_last_membership_counts(fewer, tenant, at);
    }
}

/// Every tenant in which there is a role is listed with its place and the role,
/// and no other; the list is in the order of the places, so each is listed
/// once.
pub proof fn law_every_tenant_is_listed(memberships: Seq<Membership>, tenants: Seq<Uuid>)
    requires
        tenants.len() <= usize::MAX,
    ensures
        forall|i: usize, role: TenantRole|
            #![trigger roles_in(memberships, tenants).contains((i, role))]
            roles_in(memberships, tenants).contains((i, role)) <==> i < tenants.len() && role_in(
                memberships,
                tenants[i as int],
            ) == Some(role),
        forall|a: int, b: int|
            0 <= a < b < roles_in(memberships, tenants).len() ==> (#[trigger] roles_in(
                memberships,
                tenants,
            )[a]).0 < (#[trigger] roles_in(memberships, tenants)[b]).0,
        forall|a: int|
            0 <= a < roles_in(memberships, tenants).len() ==> (#[trigger] roles_in(
                memberships,
                tenants,
            )[a]).0 < tenants.len(),
    decreases tenants.len(),
{
    let now = roles_in(memberships, tenants);
    if tenants.len() > 0 {
        let fewer = tenants.drop_last();
        law_every_tenant_is_listed(memberships, fewer);
        let before = roles_in(memberships, fewer);
        let last = (tenants.len() - 1) as usize;
        assert forall|i: usize, role: TenantRole| #![trigger now.contains((i, role))]
            now.contains((i, role)) <==> i < tenants.len() && role_in(memberships, tenants[i as int])
                == Some(role) by {
            assert(before.contains((i, role)) <==> i < fewer.len() && role_in(
                memberships,
                fewer[i as int],
            ) == Some(role));
            if now.contains((i, role)) {
                let k = choose|k: int| 0 <= k < now.len() && now[k] == (i, role);
                if k < before.len() {
                    assert(before[k] == (i, role));
                }
            }
            if i < fewer.len() {
                assert(fewer[i as int] == tenants[i as int]);
                if before.contains((i, role)) {
                    let k = choose|k: int| 0 <= k < before.len() && before[k] == (i, role);
                    assert(now[k] == (i, role));
                }
            } else if i == last && role_in(memberships, tenants[i as int]) == Some(role) {
                assert(now[now.len() - 1] == (i, role));
            }
        }
        assert forall|a: int| 0 <= a < now.len() implies (#[trigger] now[a]).0 < tenants.len() by {
            if a < before.len() {
                assert(now[a] == before[a]);
            }
        }
        assert forall|a: int, b: int| 0 <= a < b < now.len() implies (#[trigger] now[a]).0 < (
        #[trigger] now[b]).0 by {
            assert(now[a] == before[a]);
            if b < before.len() {
                assert(now[b] == before[b]);
            }
        }
    }
}

/// A change of role takes an owner away exactly if an owner gets another role.
pub proof fn law_demotions(current: TenantRole, role: TenantRole)
    ensures
        demotes(current, role) <==> current is Owner && (role is Admin || role is Member),
{
}

} // verus!
