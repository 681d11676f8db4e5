use pna_cli::chunk::acl::{Ace, Identifier, OwnerType};
use pna_cli::chunk::{AcePlatform, Flag, Permission};
use pna_cli::command::acl::{parse_acl_dump, transform_acl, AclEntries, Acls};

#[test]
fn parse_acl_user() {
    assert_eq!(
        AclEntries::from_str("uname").unwrap(),
        AclEntries {
            default: false,
            allow: None,
            owner: OwnerType::User(Identifier("uname".into())),
            permissions: None,
        }
    );
    assert_eq!(
        AclEntries::from_str("user:").unwrap(),
        AclEntries {
            default: false,
            allow: None,
            owner: OwnerType::Owner,
            permissions: None,
        }
    );
    assert_eq!(
        AclEntries::from_str("uname:").unwrap(),
        AclEntries {
            default: false,
            allow: None,
            owner: OwnerType::User(Identifier("uname".into())),
            permissions: Some(Vec::new()),
        }
    );
}

#[test]
fn parse_acl_group() {
    assert_eq!(
        AclEntries::from_str("g:").unwrap(),
        AclEntries {
            default: false,
            allow: None,
            owner: OwnerType::OwnerGroup,
            permissions: None,
        }
    );
    assert_eq!(
        AclEntries::from_str("group:gname").unwrap(),
        AclEntries {
            default: false,
            allow: None,
            owner: OwnerType::Group(Identifier("gname".into())),
            permissions: None,
        }
    );
    assert_eq!(
        AclEntries::from_str("g::").unwrap(),
        AclEntries {
            default: false,
            allow: None,
            owner: OwnerType::OwnerGroup,
            permissions: Some(Vec::new()),
        }
    );
    assert_eq!(
        AclEntries::from_str("group:gname:").unwrap(),
        AclEntries {
            default: false,
            allow: None,
            owner: OwnerType::Group(Identifier("gname".into())),
            permissions: Some(Vec::new()),
        }
    );
}

#[test]
fn parse_acl_mask() {
    assert_eq!(
        AclEntries::from_str("m:").unwrap(),
        AclEntries {
            default: false,
            allow: None,
            owner: OwnerType::Mask,
            permissions: None,
        }
    );
    assert_eq!(
        AclEntries::from_str("mask:").unwrap(),
        AclEntries {
            default: false,
            allow: None,
            owner: OwnerType::Mask,
            permissions: None,
        }
    );
}

#[test]
fn parse_acl_other() {
    assert_eq!(
        AclEntries::from_str("o:").unwrap(),
        AclEntries {
            default: false,
            allow: None,
            owner: OwnerType::Other,
            permissions: None,
        }
    );
    assert_eq!(
        AclEntries::from_str("other:").unwrap(),
        AclEntries {
            default: false,
            allow: None,
            owner: OwnerType::Other,
            permissions: None,
        }
    );
}

#[test]
fn parse_acl_rwx() {
    assert_eq!(
        AclEntries::from_str("d:u::rwx").unwrap(),
        AclEntries {
            default: true,
            allow: None,
            owner: OwnerType::Owner,
            permissions: Some(vec!["r".into(), "w".into(), "x".into()]),
        }
    );
    assert_eq!(
        AclEntries::from_str("d:u::rw-").unwrap(),
        AclEntries {
            default: true,
            allow: None,
            owner: OwnerType::Owner,
            permissions: Some(vec!["r".into(), "w".into()]),
        }
    );
    assert_eq!(
        AclEntries::from_str("d:u::r-x").unwrap(),
        AclEntries {
            default: true,
            allow: None,
            owner: OwnerType::Owner,
            permissions: Some(vec!["r".into(), "x".into()]),
        }
    );
    assert_eq!(
        AclEntries::from_str("d:u::-w-").unwrap(),
        AclEntries {
            default: true,
            allow: None,
            owner: OwnerType::Owner,
            permissions: Some(vec!["w".into()]),
        }
    );
    assert_eq!(
        AclEntries::from_str("d:u::---").unwrap(),
        AclEntries {
            default: true,
            allow: None,
            owner: OwnerType::Owner,
            permissions: Some(vec![]),
        }
    );
}

#[test]
fn transform_acl_set() {
    let mut acls = Acls { entries: Vec::new() };
    acls.entries.push((AcePlatform::Linux,
        vec![Ace {
            platform: AcePlatform::Linux,
            flags: Flag::empty(),
            owner_type: OwnerType::Owner,
            allow: true,
            permission: Permission::read(),
        }],
    ));

    let actual = transform_acl(
        acls,
        &AcePlatform::Linux,
        Some(&AclEntries::from_str("u::rw-").unwrap()),
        None,
        None,
    );
    let expected = {
        let mut acls = Acls { entries: Vec::new() };
        acls.entries.push((AcePlatform::Linux,
            vec![Ace {
                platform: AcePlatform::Linux,
                flags: Flag::empty(),
                owner_type: OwnerType::Owner,
                allow: true,
                permission: Permission::read().union(Permission::write()),
            }],
        ));
        acls
    };

    assert_eq!(actual, expected);
}

#[test]
fn transform_acl_add() {
    let acls = Acls { entries: Vec::new() };
    let actual = transform_acl(
        acls,
        &AcePlatform::Linux,
        None,
        Some(&AclEntries::from_str("u::rw-").unwrap()),
        None,
    );
    let expected = {
        let mut acls = Acls { entries: Vec::new() };
        acls.entries.push((AcePlatform::Linux,
            vec![Ace {
                platform: AcePlatform::Linux,
                flags: Flag::empty(),
                owner_type: OwnerType::Owner,
                allow: true,
                permission: Permission::read().union(Permission::write()),
            }],
        ));
        acls
    };

    assert_eq!(actual, expected);
}

#[test]
fn transform_acl_modify() {
    let mut acls = Acls { entries: Vec::new() };
    acls.entries.push((AcePlatform::Linux,
        vec![Ace {
            platform: AcePlatform::Linux,
            flags: Flag::empty(),
            owner_type: OwnerType::Owner,
            allow: true,
            permission: Permission::read(),
        }],
    ));
    let actual = transform_acl(
        acls,
        &AcePlatform::Linux,
        None,
        Some(&AclEntries::from_str("u::rwx").unwrap()),
        None,
    );
    let expected = {
        let mut acls = Acls { entries: Vec::new() };
        acls.entries.push((AcePlatform::Linux,
            vec![Ace {
                platform: AcePlatform::Linux,
                flags: Flag::empty(),
                owner_type: OwnerType::Owner,
                allow: true,
                permission: Permission::read().union(Permission::write()).union(Permission::execute()),
            }],
        ));
        acls
    };

    assert_eq!(actual, expected);
}

#[test]
fn transform_acl_remove() {
    let mut acls = Acls { entries: Vec::new() };
    acls.entries.push((AcePlatform::Linux,
        vec![
            Ace {
                platform: AcePlatform::Linux,
                flags: Flag::empty(),
                owner_type: OwnerType::Owner,
                allow: true,
                permission: Permission::read().union(Permission::write()),
            },
            Ace {
                platform: AcePlatform::Linux,
                flags: Flag::empty(),
                owner_type: OwnerType::User(Identifier("test".into())),
                allow: true,
                permission: Permission::read(),
            },
        ],
    ));
    let actual = transform_acl(
        acls,
        &AcePlatform::Linux,
        None,
        None,
        Some(&AclEntries::from_str("u:").unwrap()),
    );
    let expected = {
        let mut acls = Acls { entries: Vec::new() };
        acls.entries.push((AcePlatform::Linux,
            vec![Ace {
                platform: AcePlatform::Linux,
                flags: Flag::empty(),
                owner_type: OwnerType::User(Identifier("test".into())),
                allow: true,
                permission: Permission::read(),
            }],
        ));
        acls
    };
    assert_eq!(actual, expected);
}

#[test]
fn parse_acl_allow_deny_and_names() {
    assert_eq!(
        AclEntries::from_str("default:g:staff:deny:read,write_data").unwrap(),
        AclEntries {
            default: true,
            allow: Some(false),
            owner: OwnerType::Group(Identifier("staff".into())),
            permissions: Some(vec!["read".into(), "write_data".into()]),
        }
    );
    assert_eq!(
        AclEntries::from_str("u::allow:r|x").unwrap().permissions,
        Some(vec!["r".to_string(), "".to_string(), "".to_string(), "".to_string(), "".to_string(), "x".to_string()])
    );
    assert_eq!(
        AclEntries::from_str("owner"),
        Err("unexpected value: wner".to_string())
    );
    assert_eq!(
        AclEntries::from_str("group").unwrap().owner,
        OwnerType::User(Identifier("group".into()))
    );
}

#[test]
fn argument_picks_and_builds_entries() {
    let e = AclEntries::from_str("d:u:alice:allow:rw-").unwrap();
    let ace = e.to_ace(&AcePlatform::Linux);
    assert_eq!(ace.flags, Flag::default_flag());
    assert_eq!(ace.permission, Permission::read().union(Permission::write()));
    assert!(e.is_match(&ace));
    let other = AclEntries::from_str("u:alice:deny").unwrap();
    assert!(!other.is_match(&ace));
}

#[test]
fn transform_acl_keeps_other_platforms() {
    let mut acls = Acls { entries: Vec::new() };
    acls.entries.push((
        AcePlatform::Windows,
        vec![Ace {
            platform: AcePlatform::Windows,
            flags: Flag::empty(),
            owner_type: OwnerType::Owner,
            allow: true,
            permission: Permission::read(),
        }],
    ));
    let before = acls.clone();
    let actual = transform_acl(acls, &AcePlatform::Linux, None, None, Some(&AclEntries::from_str("u:").unwrap()));
    assert_eq!(actual.entries.len(), 2);
    assert_eq!(actual.entries[0], before.entries[0]);
    assert_eq!(actual.entries[1], (AcePlatform::Linux, Vec::new()));
}

#[test]
fn acl_dump_lines_read_into_lists() {
    let lines: Vec<String> = vec![
        "# file: a.txt".into(),
        "# owner: root".into(),
        "# group: root".into(),
        "# platform: linux".into(),
        "linux::u::allow:r,w".into(),
        "".into(),
        "# file: b.txt".into(),
        "::o::deny:".into(),
        "# file: a.txt".into(),
        "# platform: windows".into(),
        "windows::g:staff:allow:x".into(),
    ];
    let dump = parse_acl_dump(&lines).unwrap();
    assert_eq!(dump.len(), 2);
    assert_eq!(dump[0].0, "a.txt");
    assert_eq!(dump[0].1.entries.len(), 2);
    assert_eq!(dump[0].1.entries[0].0, AcePlatform::Linux);
    assert_eq!(dump[0].1.entries[1].0, AcePlatform::Windows);
    assert_eq!(dump[1].0, "b.txt");
    assert_eq!(dump[1].1.entries[0].1[0].owner_type, OwnerType::Other);
    let bad: Vec<String> = vec!["# file: x".into(), "::q::allow:".into()];
    assert!(parse_acl_dump(&bad).is_err());
    let ignored: Vec<String> = vec!["::u::allow:r".into()];
    assert!(parse_acl_dump(&ignored).unwrap().is_empty());
}

#[test]
fn bare_user_name_starting_with_a_class_letter() {
    assert_eq!(
        AclEntries::from_str("oscar").unwrap(),
        AclEntries { default: false, allow: None, owner: OwnerType::User(Identifier("oscar".into())), permissions: None }
    );
    let e = AclEntries::from_str("mallory:allow:read").unwrap();
    assert_eq!(e.owner, OwnerType::User(Identifier("mallory".into())));
    assert_eq!(e.allow, Some(true));
    assert_eq!(e.permissions, Some(vec!["read".to_string()]));
    assert_eq!(AclEntries::from_str("o").unwrap().owner, OwnerType::Other);
    assert_eq!(AclEntries::from_str("other::rw").unwrap().owner, OwnerType::Other);
    assert_eq!(AclEntries::from_str("m:").unwrap().owner, OwnerType::Mask);
    assert_eq!(AclEntries::from_str("g:staff").unwrap().owner, OwnerType::Group(Identifier("staff".into())));
    assert!(AclEntries::from_str("u:bob:allowx").is_err());
}
