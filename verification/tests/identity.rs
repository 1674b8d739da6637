use sysident::error::{IdError, LookupCall};
use sysident::lookup::{finish_group_lookup, finish_passwd_lookup, finish_user_attr_lookup};
use sysident::records::{Group, Passwd, RawGroup, RawPasswd};

fn raw_passwd(name: &str, uid: u32, gid: u32) -> RawPasswd {
    RawPasswd {
        name: Some(name.as_bytes().to_vec()),
        passwd: Some(b"x".to_vec()),
        uid,
        gid,
        age: None,
        comment: None,
        gecos: Some(format!("{} user", name).into_bytes()),
        dir: Some(format!("/home/{}", name).into_bytes()),
        shell: Some(b"/bin/sh".to_vec()),
    }
}

#[test]
fn absent_passwd_is_none_not_error() {
    let r = finish_passwd_lookup(None, 0, LookupCall::GetPwUid);
    assert_eq!(r, Ok(None));
    let r = finish_passwd_lookup(None, 0, LookupCall::GetPwNam);
    assert_eq!(r, Ok(None));
}

#[test]
fn absent_group_is_none_not_error() {
    let r = finish_group_lookup(None, 0, LookupCall::GetGrGid);
    assert_eq!(r, Ok(None));
    let r = finish_group_lookup(None, 0, LookupCall::GetGrNam);
    assert_eq!(r, Ok(None));
}

#[test]
fn absent_user_attr_is_none() {
    let r = finish_user_attr_lookup("nobody".to_string(), None);
    assert!(r.is_none());
}

#[test]
fn nonzero_code_surfaces_as_error_with_code() {
    let r = finish_passwd_lookup(None, 22, LookupCall::GetPwNam);
    assert_eq!(
        r,
        Err(IdError::Lookup { call: LookupCall::GetPwNam, code: 22 })
    );
    let r = finish_group_lookup(None, 9, LookupCall::GetGrNam);
    assert_eq!(
        r,
        Err(IdError::Lookup { call: LookupCall::GetGrNam, code: 9 })
    );
    let r = finish_group_lookup(None, -1, LookupCall::GetGrGid);
    assert_eq!(
        r,
        Err(IdError::Lookup { call: LookupCall::GetGrGid, code: -1 })
    );
}

#[test]
fn passwd_fields_populated_exactly_as_stored() {
    let raw = RawPasswd {
        name: Some(b"alice".to_vec()),
        passwd: Some(b"x".to_vec()),
        uid: 1001,
        gid: 100,
        age: None,
        comment: None,
        gecos: Some(b"Alice Example".to_vec()),
        dir: Some(b"/home/alice".to_vec()),
        shell: Some(b"/bin/sh".to_vec()),
    };
    let r = finish_passwd_lookup(Some(raw), 0, LookupCall::GetPwNam);
    let p: Passwd = r.unwrap().unwrap();
    assert_eq!(p.name, Some("alice".to_string()));
    assert_eq!(p.passwd, Some("x".to_string()));
    assert_eq!(p.uid, 1001);
    assert_eq!(p.gid, 100);
    assert_eq!(p.age, None);
    assert_eq!(p.comment, None);
    assert_eq!(p.gecos, Some("Alice Example".to_string()));
    assert_eq!(p.dir, Some("/home/alice".to_string()));
    assert_eq!(p.shell, Some("/bin/sh".to_string()));
}

#[test]
fn absent_fields_stay_absent_not_empty() {
    let raw = RawPasswd {
        name: None,
        passwd: None,
        uid: 0,
        gid: 0,
        age: None,
        comment: None,
        gecos: None,
        dir: None,
        shell: None,
    };
    let p = Passwd::from_raw(&raw).unwrap();
    assert_eq!(p.name, None);
    assert_eq!(p.passwd, None);
    assert_eq!(p.gecos, None);
    assert_eq!(p.dir, None);
    assert_eq!(p.shell, None);
    assert_ne!(p.name, Some(String::new()));
}

#[test]
fn multibyte_text_is_decoded_not_passed_through() {
    let raw = RawPasswd {
        name: Some(vec![0xC3, 0xA9]),
        passwd: None,
        uid: 1,
        gid: 1,
        age: None,
        comment: None,
        gecos: None,
        dir: None,
        shell: None,
    };
    let p = Passwd::from_raw(&raw).unwrap();
    let name = p.name.unwrap();
    assert_eq!(name, "\u{e9}");
    assert_eq!(name.chars().count(), 1);
}

#[test]
fn undecodable_passwd_field_fails_whole_record() {
    let mut raw = raw_passwd("bob", 1002, 100);
    raw.gecos = Some(vec![0xFF, 0xFE]);
    assert_eq!(Passwd::from_raw(&raw), Err(IdError::Decode));
    let r = finish_passwd_lookup(Some(raw), 0, LookupCall::GetPwUid);
    assert_eq!(r, Err(IdError::Decode));
}

#[test]
fn undecodable_group_member_fails_whole_record() {
    let raw = RawGroup {
        name: Some(b"staff".to_vec()),
        passwd: None,
        gid: 10,
        members: Some(vec![b"alice".to_vec(), vec![0x80], b"bob".to_vec()]),
    };
    assert_eq!(Group::from_raw(&raw), Err(IdError::Decode));
}

#[test]
fn group_with_empty_member_list_is_ok_and_empty() {
    let raw = RawGroup {
        name: Some(b"empty".to_vec()),
        passwd: None,
        gid: 99,
        members: Some(Vec::new()),
    };
    let g = Group::from_raw(&raw).unwrap();
    assert_eq!(g.members, Some(Vec::new()));
    assert_eq!(g.name, Some("empty".to_string()));
    assert_eq!(g.gid, 99);
}

#[test]
fn group_without_member_array_has_no_member_list() {
    let raw = RawGroup {
        name: Some(b"plain".to_vec()),
        passwd: Some(b"*".to_vec()),
        gid: 5,
        members: None,
    };
    let g = Group::from_raw(&raw).unwrap();
    assert_eq!(g.members, None);
    assert_eq!(g.passwd, Some("*".to_string()));
}

#[test]
fn group_members_keep_order() {
    let raw = RawGroup {
        name: Some(b"wheel".to_vec()),
        passwd: None,
        gid: 0,
        members: Some(vec![
            b"root".to_vec(),
            b"alice".to_vec(),
            b"bob".to_vec(),
        ]),
    };
    let g = finish_group_lookup(Some(raw), 0, LookupCall::GetGrNam)
        .unwrap()
        .unwrap();
    assert_eq!(
        g.members,
        Some(vec![
            "root".to_string(),
            "alice".to_string(),
            "bob".to_string()
        ])
    );
}

#[test]
fn consecutive_lookups_do_not_leak_state() {
    let first = finish_passwd_lookup(Some(raw_passwd("alice", 1001, 100)), 0, LookupCall::GetPwNam)
        .unwrap()
        .unwrap();
    let second = finish_passwd_lookup(Some(raw_passwd("bob", 1002, 200)), 0, LookupCall::GetPwNam)
        .unwrap()
        .unwrap();
    assert_eq!(first.name, Some("alice".to_string()));
    assert_eq!(second.name, Some("bob".to_string()));
    assert_eq!(second.dir, Some("/home/bob".to_string()));
    assert_eq!(second.gecos, Some("bob user".to_string()));
    assert_eq!(second.uid, 1002);
    assert_eq!(second.gid, 200);
    let third = finish_passwd_lookup(None, 0, LookupCall::GetPwNam);
    assert_eq!(third, Ok(None));
}

#[test]
fn consecutive_group_lookups_are_independent() {
    let first = finish_group_lookup(
        Some(RawGroup {
            name: Some(b"one".to_vec()),
            passwd: None,
            gid: 1,
            members: Some(vec![b"a".to_vec()]),
        }),
        0,
        LookupCall::GetGrNam,
    )
    .unwrap()
    .unwrap();
    let second = finish_group_lookup(
        Some(RawGroup {
            name: Some(b"two".to_vec()),
            passwd: None,
            gid: 2,
            members: Some(Vec::new()),
        }),
        0,
        LookupCall::GetGrNam,
    )
    .unwrap()
    .unwrap();
    assert_eq!(first.members, Some(vec!["a".to_string()]));
    assert_eq!(second.name, Some("two".to_string()));
    assert_eq!(second.members, Some(Vec::new()));
}
