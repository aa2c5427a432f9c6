//! Tenants, members and users.
use service::error::AppError;
use service::ids::Uuid;
use service::tenants::{
    add_member, create_tenant, demotes_owner, list_tenants_for_user, remove_member, require_role,
    resolve_user, update_member_role, update_tenant, validate_slug, Membership, Tenant,
    TenantRole, UserLookup,
};
use service::users::{set_language, Profile};

fn id(value: u128) -> Uuid {
    Uuid { value }
}

fn member(role: TenantRole) -> Membership {
    Membership { id: id(10), tenant_id: id(20), user_id: id(30), role }
}

#[test]
fn roles_are_ranked() {
    let roles = [TenantRole::Member, TenantRole::Admin, TenantRole::Owner];
    for (i, a) in roles.iter().enumerate() {
        for (j, b) in roles.iter().enumerate() {
            assert_eq!(a.at_least(*b), i >= j);
        }
    }
    assert_eq!(roles.map(|r| r.rank()), [0, 1, 2]);
}

#[test]
fn strangers_and_weak_members_are_answered_alike() {
    assert!(matches!(
        require_role(None, TenantRole::Member),
        Err(AppError::Forbidden)
    ));
    assert!(matches!(
        require_role(Some(member(TenantRole::Member)), TenantRole::Admin),
        Err(AppError::Forbidden)
    ));
    let admin = member(TenantRole::Admin);
    assert_eq!(require_role(Some(admin), TenantRole::Admin).expect("strong"), admin);
}

#[test]
fn slugs_are_refused_with_a_reason() {
    assert!(validate_slug(Ok(())).is_ok());
    assert!(matches!(
        validate_slug(Err("too short".to_string())),
        Err(AppError::BadRequestDetail(m)) if m == "too short"
    ));
}

#[test]
fn tenants_are_listed_with_the_own_role() {
    let in_tenant = |tenant: u128, role: TenantRole| Membership {
        id: id(tenant + 100),
        tenant_id: id(tenant),
        user_id: id(1),
        role,
    };
    let memberships =
        vec![in_tenant(7, TenantRole::Owner), in_tenant(5, TenantRole::Member)];
    assert_eq!(
        list_tenants_for_user(&memberships, &vec![id(5), id(6), id(7)]),
        vec![(0, TenantRole::Member), (2, TenantRole::Owner)]
    );
    assert!(list_tenants_for_user(&vec![], &vec![id(5)]).is_empty());
}

#[test]
fn creators_own_their_tenants() {
    let (tenant, owner) = create_tenant(
        Ok(()),
        id(1),
        id(2),
        id(3),
        "Acme".to_string(),
        "acme".to_string(),
        None,
    )
    .expect("created");
    assert_eq!((tenant.id, tenant.name.as_str(), tenant.slug.as_str()), (id(1), "Acme", "acme"));
    assert!(tenant.avatar_url.is_none());
    assert_eq!(
        owner,
        Membership { id: id(2), tenant_id: id(1), user_id: id(3), role: TenantRole::Owner }
    );
    assert!(matches!(
        create_tenant(
            Err("bad".to_string()),
            id(1),
            id(2),
            id(3),
            "A".to_string(),
            "!".to_string(),
            None
        ),
        Err(AppError::BadRequestDetail(_))
    ));
}

#[test]
fn settings_change_only_where_asked() {
    let tenant = || Tenant {
        id: id(1),
        name: "Acme".to_string(),
        slug: "acme".to_string(),
        avatar_url: Some("a.png".to_string()),
    };
    let same = update_tenant(tenant(), None, None);
    assert_eq!((same.name.as_str(), same.avatar_url.as_deref()), ("Acme", Some("a.png")));
    let cleared = update_tenant(tenant(), Some("New".to_string()), Some(None));
    assert_eq!((cleared.name.as_str(), cleared.avatar_url), ("New", None));
    assert_eq!((cleared.id, cleared.slug.as_str()), (id(1), "acme"));
}

#[test]
fn users_are_named_in_exactly_one_way() {
    assert!(matches!(
        resolve_user(Some(id(4)), None),
        Ok(UserLookup::ById(found)) if found == id(4)
    ));
    assert!(matches!(
        resolve_user(None, Some("ann".to_string())),
        Ok(UserLookup::ByName(name)) if name == "ann"
    ));
    for (user_id, name) in [(None, None), (Some(id(4)), Some("ann".to_string()))] {
        assert!(matches!(
            resolve_user(user_id, name),
            Err(AppError::BadRequestDetail(m))
                if m == "exactly one of user_id or username is required"
        ));
    }
}

#[test]
fn members_are_added_once() {
    let added = add_member(None, id(10), id(20), id(30), TenantRole::Admin).expect("added");
    assert_eq!(added, member(TenantRole::Admin));
    assert!(matches!(
        add_member(Some(added), id(11), id(20), id(30), TenantRole::Member),
        Err(AppError::Conflict)
    ));
}

#[test]
fn the_last_owner_stays() {
    let owner = member(TenantRole::Owner);
    assert!(matches!(
        update_member_role(Some(owner), TenantRole::Admin, 1),
        Err(AppError::Conflict)
    ));
    assert_eq!(
        update_member_role(Some(owner), TenantRole::Admin, 2).expect("another owner is left"),
        member(TenantRole::Admin)
    );
    assert_eq!(
        update_member_role(Some(owner), TenantRole::Owner, 1).expect("no change"),
        owner
    );
    assert!(update_member_role(Some(member(TenantRole::Member)), TenantRole::Admin, 1).is_ok());
    assert!(matches!(
        update_member_role(None, TenantRole::Admin, 1),
        Err(AppError::NotFound)
    ));
    assert!(matches!(remove_member(Some(owner), 1), Err(AppError::Conflict)));
    assert_eq!(remove_member(Some(owner), 2).expect("another owner is left"), id(10));
    assert_eq!(remove_member(Some(member(TenantRole::Admin)), 1).expect("removed"), id(10));
    assert!(matches!(remove_member(None, 1), Err(AppError::NotFound)));
    assert!(demotes_owner(TenantRole::Owner, TenantRole::Admin));
    assert!(!demotes_owner(TenantRole::Admin, TenantRole::Owner));
}

#[test]
fn languages_are_set_and_reset() {
    let profile = Profile { user_id: id(1), language: Some("ja".to_string()) };
    let changed = set_language(profile, Some("en".to_string()));
    assert_eq!((changed.user_id, changed.language.as_deref()), (id(1), Some("en")));
    assert_eq!(set_language(changed, None).language, None);
}
