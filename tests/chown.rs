use unix_utils::chown::{
    lookup_names, parse_spec, CanonicalizeMode, IfFrom, Owner, Verbosity, FTS_LOGICAL,
    FTS_PHYSICAL,
};

#[test]
fn t_parser() {
    let c_uid: Option<u32>;
    let c_gid: Option<u32>;

    let (user, group) = lookup_names("root:audio");
    assert_eq!(user, Some(String::from("root")));
    assert_eq!(group, Some(String::from("audio")));

    match parse_spec("root:audio", Some(0), Some(12)) {
        Ok((u, g)) => {
            c_uid = u;
            c_gid = g;
        }
        Err(e) => {
            panic!("{}", e);
        }
    }

    assert_eq!(c_uid.unwrap(), 0);
    assert_eq!(c_gid.unwrap(), 12);
}

#[test]
fn spec_forms_and_errors() {
    assert_eq!(lookup_names("alice"), (Some(String::from("alice")), None));
    assert_eq!(lookup_names(":wheel"), (None, Some(String::from("wheel"))));
    assert_eq!(lookup_names("a:"), (None, None));
    assert_eq!(parse_spec("alice", Some(5), None), Ok((Some(5), None)));
    assert_eq!(parse_spec(":wheel", None, Some(10)), Ok((None, Some(10))));
    assert_eq!(parse_spec("a:b:c", None, None), Ok((None, None)));
    assert_eq!(
        parse_spec("nobody_here", None, None),
        Err(String::from("invalid user: 'nobody_here'"))
    );
    assert_eq!(
        parse_spec(":nogroup", None, None),
        Err(String::from("invalid group: ':nogroup'"))
    );
    assert_eq!(
        parse_spec("root:nogroup", Some(0), None),
        Err(String::from("invalid group: 'root:nogroup'"))
    );
    assert_eq!(
        parse_spec("x:y", None, Some(1)),
        Err(String::from("invalid user: 'x:y'"))
    );
}

#[test]
fn owner_filter_and_ids() {
    let o = Owner {
        dest_uid: Some(1000),
        dest_gid: None,
        bit_flag: FTS_PHYSICAL,
        verbosity: Verbosity::Silent,
        filter: IfFrom::UserGroup(1000, 12),
        files: vec![String::from("./Cargo.toml")],
        recurse: false,
        preserve_root: false,
        dereference: false,
    };
    assert!(o.matched(1000, 12));
    assert!(!o.matched(1000, 13));
    assert_eq!(o.dest_ids(0, 7), (1000, 7));
    assert!(!o.follows_arguments());
    assert!(!o.follows_walk());
    let l = Owner { bit_flag: FTS_LOGICAL, filter: IfFrom::Group(3), ..o };
    assert!(l.follows_arguments());
    assert!(l.follows_walk());
    assert!(l.matched(99, 3));
    assert_ne!(CanonicalizeMode::Lexical, CanonicalizeMode::Existing);
}

#[test]
fn reports_follow_verbosity() {
    let mut o = Owner {
        dest_uid: Some(1),
        dest_gid: Some(2),
        bit_flag: FTS_PHYSICAL,
        verbosity: Verbosity::Verbose,
        filter: IfFrom::All,
        files: vec![],
        recurse: false,
        preserve_root: false,
        dereference: false,
    };
    assert_eq!(
        o.report("f", "a:b", "c:d", Some("denied"), true),
        vec![
            String::from("changing ownership of 'f': denied"),
            String::from("failed to change ownership of f from a:b to c:d"),
        ]
    );
    assert_eq!(
        o.report("f", "a:b", "a:b", None, false),
        vec![String::from("ownership of f retained as a:b")]
    );
    o.verbosity = Verbosity::Changes;
    assert_eq!(
        o.report("f", "a:b", "c:d", None, true),
        vec![String::from("changed ownership of f from a:b to c:d")]
    );
    assert!(o.report("f", "a:b", "a:b", None, false).is_empty());
    o.verbosity = Verbosity::Silent;
    assert!(o.report("f", "a:b", "c:d", Some("denied"), true).is_empty());
    o.verbosity = Verbosity::Normal;
    assert_eq!(o.report("f", "a:b", "c:d", Some("x"), true).len(), 1);
}
