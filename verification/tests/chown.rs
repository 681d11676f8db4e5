use pna_cli::command::chown::{owner_fields, FoundOwner, OwnerQuery, OwnershipQuery, RawOwnership};

#[test]
fn owner_from_str_user() {
    assert_eq!(
        RawOwnership::from_str("user").unwrap(),
        RawOwnership {
            user: Some("user".into()),
            group: None,
            use_login_group: false,
        }
    );
}

#[test]
fn owner_from_str_user_login_group() {
    assert_eq!(
        RawOwnership::from_str("user:").unwrap(),
        RawOwnership {
            user: Some("user".into()),
            group: None,
            use_login_group: true,
        }
    );
}

#[test]
fn group() {
    assert_eq!(
        RawOwnership::from_str(":group").unwrap(),
        RawOwnership {
            user: None,
            group: Some("group".into()),
            use_login_group: false,
        }
    );
}

#[test]
fn user_group() {
    assert_eq!(
        RawOwnership::from_str("user:group").unwrap(),
        RawOwnership {
            user: Some("user".into()),
            group: Some("group".into()),
            use_login_group: false,
        }
    );
}

#[test]
fn empty_owner_is_rejected() {
    assert_eq!(RawOwnership::from_str(""), Err("owner must not be empty".to_string()));
    assert_eq!(RawOwnership::from_str(":"), Err("owner must not be empty".to_string()));
    assert_eq!(
        RawOwnership::from_str("a:b:c").unwrap(),
        RawOwnership { user: Some("a".into()), group: Some("b:c".into()), use_login_group: false }
    );
}

#[test]
fn owner_lookups_follow_the_options() {
    let o = RawOwnership::from_str("alice:staff").unwrap();
    assert_eq!(
        o.lookup_platform_owner(false, true).unwrap(),
        OwnershipQuery {
            user: Some(OwnerQuery::LookupName("alice".to_string())),
            group: Some(OwnerQuery::LookupName("staff".to_string()))
        }
    );
    assert_eq!(
        o.lookup_platform_owner(false, false).unwrap(),
        OwnershipQuery { user: Some(OwnerQuery::Name("alice".to_string())), group: Some(OwnerQuery::Name("staff".to_string())) }
    );
    assert_eq!(o.lookup_platform_owner(true, false).unwrap_err(), "invalid digit found in string");
    let n = RawOwnership::from_str("10:20").unwrap();
    assert_eq!(
        n.lookup_platform_owner(true, true).unwrap(),
        OwnershipQuery { user: Some(OwnerQuery::LookupId(10)), group: Some(OwnerQuery::LookupId(20)) }
    );
    let login = RawOwnership::from_str("alice:").unwrap();
    assert_eq!(
        login.lookup_platform_owner(false, true).unwrap(),
        OwnershipQuery { user: Some(OwnerQuery::LookupName("alice".to_string())), group: Some(OwnerQuery::PrimaryGroupOfUser) }
    );
    assert_eq!(
        login.lookup_platform_owner(false, false).unwrap_err(),
        "cannot use 'user:' format with --no-owner-lookup"
    );
}

#[test]
fn owner_fields_follow_what_was_found() {
    assert_eq!(
        owner_fields(Some(FoundOwner::Name("alice".into())), Some(5), Some("bob".into())),
        (Some(u64::MAX), "alice".to_string())
    );
    assert_eq!(
        owner_fields(Some(FoundOwner::Id(42)), Some(5), Some("bob".into())),
        (Some(42), String::new())
    );
    assert_eq!(
        owner_fields(Some(FoundOwner::Looked(None, Some("carol".into()))), None, None),
        (Some(u64::MAX), "carol".to_string())
    );
    assert_eq!(
        owner_fields(Some(FoundOwner::Looked(Some(7), None)), None, None),
        (Some(7), String::new())
    );
    assert_eq!(owner_fields(None, Some(5), Some("bob".into())), (Some(5), "bob".to_string()));
    assert_eq!(owner_fields(None, None, None), (None, String::new()));
}
