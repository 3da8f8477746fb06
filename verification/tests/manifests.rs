use coreos_assembler::decode::decode;
use coreos_assembler::dialect::{
    dialect_of, emit, is_json, is_yaml, manifest_from_tree, parse, Dialect,
};
use coreos_assembler::document::Node;
use coreos_assembler::encode::{encode, field_value};
use coreos_assembler::error::{DriverError, SchemaError};
use coreos_assembler::json::read_json;
use coreos_assembler::schema::{Field, Kind, FIELD_COUNT};
use coreos_assembler::treefile::{BootLocation, CheckPasswd, CheckPasswdType, TreeComposeConfig};

fn text(s: &str) -> Node {
    Node::Text(s.to_string())
}

fn texts(items: &[&str]) -> Node {
    Node::List(items.iter().map(|s| text(s)).collect())
}

fn strings(items: &[&str]) -> Vec<String> {
    items.iter().map(|s| s.to_string()).collect()
}

fn minimal() -> TreeComposeConfig {
    TreeComposeConfig {
        treeref: "exampleos/x86_64/stable".to_string(),
        repos: strings(&["fedora"]),
        selinux: None,
        gpg_key: None,
        include_path: None,
        packages: strings(&["kernel", "systemd", "bash"]),
        bootstrap_packages: None,
        documentation: None,
        install_langs: None,
        initramfs_args: None,
        boot_location: None,
        tmp_is_dir: None,
        units: None,
        default_target: None,
        releasever: None,
        automatic_version_prefix: None,
        mutate_os_release: None,
        etc_group_members: None,
        preserve_passwd: None,
        check_passwd: None,
        check_groups: None,
        ignore_removed_users: None,
        ignore_removed_groups: None,
        postprocess_script: None,
        add_files: None,
        remove_files: None,
        remove_from_packages: None,
    }
}

fn full() -> TreeComposeConfig {
    TreeComposeConfig {
        treeref: "exampleos/x86_64/stable".to_string(),
        repos: strings(&["fedora", "updates"]),
        selinux: Some(true),
        gpg_key: Some("ABCDEF".to_string()),
        include_path: Some("base.json".to_string()),
        packages: strings(&["kernel", "systemd"]),
        bootstrap_packages: Some(strings(&["filesystem", "glibc"])),
        documentation: Some(false),
        install_langs: Some(strings(&["en_US"])),
        initramfs_args: Some(strings(&["--no-hostonly"])),
        boot_location: Some(BootLocation::New),
        tmp_is_dir: Some(true),
        units: Some(strings(&["sshd.service"])),
        default_target: Some("multi-user.target".to_string()),
        releasever: Some("28".to_string()),
        automatic_version_prefix: Some("28".to_string()),
        mutate_os_release: Some("28".to_string()),
        etc_group_members: Some(strings(&["wheel"])),
        preserve_passwd: Some(true),
        check_passwd: Some(CheckPasswd {
            variant: CheckPasswdType::File,
            filename: Some("passwd".to_string()),
        }),
        check_groups: Some(CheckPasswd { variant: CheckPasswdType::Previous, filename: None }),
        ignore_removed_users: Some(strings(&["root"])),
        ignore_removed_groups: Some(strings(&[])),
        postprocess_script: Some("fix.sh".to_string()),
        add_files: Some(strings(&["a", "b"])),
        remove_files: Some(strings(&["etc/motd"])),
        remove_from_packages: Some(vec![strings(&["filesystem", "/usr/share/doc"]), strings(&[])]),
    }
}

fn required_entries() -> Vec<(Node, Node)> {
    vec![
        (text("ref"), text("exampleos/x86_64/stable")),
        (text("repos"), texts(&["fedora"])),
        (text("packages"), texts(&["kernel", "systemd", "bash"])),
    ]
}

fn with_entry(key: Node, value: Node) -> Node {
    let mut entries = required_entries();
    entries.push((key, value));
    Node::Table(entries)
}

fn keys_of(tree: &Node) -> Vec<String> {
    match tree {
        Node::Table(entries) => entries
            .iter()
            .map(|e| match &e.0 {
                Node::Text(k) => k.clone(),
                other => panic!("key {:?}", other),
            })
            .collect(),
        other => panic!("not a table: {:?}", other),
    }
}

#[test]
fn human_friendly_to_structured_conversion() {
    let source = "packages: [\"kernel systemd\", \"bash\"]\nref: \"exampleos/x86_64/stable\"\nrepos: [fedora]\n";
    let manifest = parse(source, Dialect::HumanFriendly).unwrap();
    assert_eq!(manifest, minimal());
    let written = emit(&manifest);
    let want = "{\n  \"ref\": \"exampleos/x86_64/stable\",\n  \"repos\": [\n    \"fedora\"\n  ],\n  \"packages\": [\n    \"kernel\",\n    \"systemd\",\n    \"bash\"\n  ]\n}";
    assert_eq!(written, want);
    let tree = read_json(&written).unwrap();
    assert_eq!(keys_of(&tree), strings(&["ref", "repos", "packages"]));
}

#[test]
fn include_is_rejected_in_the_human_friendly_dialect() {
    let source = "ref: x\nrepos: []\npackages: []\ninclude: base.yaml\n";
    assert_eq!(
        parse(source, Dialect::HumanFriendly),
        Err(DriverError::Unsupported("include in human-friendly dialect".to_string()))
    );
}

#[test]
fn include_passes_in_the_structured_dialect() {
    let source = "{\"ref\": \"x\", \"repos\": [], \"packages\": [], \"include\": \"base.json\"}";
    let manifest = parse(source, Dialect::Structured).unwrap();
    assert_eq!(manifest.include_path, Some("base.json".to_string()));
    let written = emit(&manifest);
    assert_eq!(keys_of(&read_json(&written).unwrap()), strings(&["ref", "repos", "include", "packages"]));
}

#[test]
fn structured_dialect_does_not_split_packages() {
    let source = "{\"ref\": \"x\", \"repos\": [], \"packages\": [\"kernel systemd\"]}";
    let manifest = parse(source, Dialect::Structured).unwrap();
    assert_eq!(manifest.packages, strings(&["kernel systemd"]));
}

#[test]
fn round_trip_of_a_minimal_manifest() {
    let m = minimal();
    assert_eq!(decode(&encode(&m)), Ok(m.clone()));
    assert_eq!(parse(&emit(&m), Dialect::Structured), Ok(m));
}

#[test]
fn round_trip_of_a_full_manifest() {
    let m = full();
    assert_eq!(decode(&encode(&m)), Ok(m.clone()));
    assert_eq!(parse(&emit(&m), Dialect::Structured), Ok(m));
}

#[test]
fn round_trip_with_odd_characters() {
    let mut m = minimal();
    m.treeref = "caf\u{e9}/\"quoted\"/back\\slash\n".to_string();
    m.packages = strings(&["a b", "", "\u{1F980}"]);
    m.gpg_key = Some(String::new());
    assert_eq!(parse(&emit(&m), Dialect::Structured), Ok(m));
}

#[test]
fn emission_follows_the_order_of_the_schema() {
    let tree = encode(&full());
    let want = strings(&[
        "ref",
        "repos",
        "selinux",
        "gpg-key",
        "include",
        "packages",
        "bootstrap-packages",
        "documentation",
        "install-langs",
        "initramfs-args",
        "boot-location",
        "tmp-is-dir",
        "units",
        "default-target",
        "releasever",
        "automatic-version-prefix",
        "mutate-os-release",
        "etc-group-members",
        "preserve-passwd",
        "check-passwd",
        "check-groups",
        "ignore-removed-users",
        "ignore-removed-groups",
        "postprocess-script",
        "add-files",
        "remove-files",
        "remove-from-packages",
    ]);
    assert_eq!(keys_of(&tree), want);
}

#[test]
fn emission_omits_absent_fields() {
    let tree = encode(&minimal());
    assert_eq!(keys_of(&tree), strings(&["ref", "repos", "packages"]));
    let mut m = minimal();
    m.tmp_is_dir = Some(false);
    m.boot_location = Some(BootLocation::Both);
    assert_eq!(
        keys_of(&encode(&m)),
        strings(&["ref", "repos", "packages", "boot-location", "tmp-is-dir"])
    );
}

#[test]
fn absent_in_the_source_is_absent_in_the_emission() {
    let source = "ref: x\nrepos: [r]\npackages: [p]\nselinux: false\nunits: ~\n";
    let manifest = parse(source, Dialect::HumanFriendly).unwrap();
    let written = emit(&manifest);
    assert_eq!(written, "{\n  \"ref\": \"x\",\n  \"repos\": [\n    \"r\"\n  ],\n  \"selinux\": false,\n  \"packages\": [\n    \"p\"\n  ]\n}");
}

#[test]
fn defaults_apply_where_a_field_is_absent() {
    let m = minimal();
    assert_eq!(m.effective_boot_location(), BootLocation::Both);
    assert!(!m.effective_tmp_is_dir());
    let f = full();
    assert_eq!(f.effective_boot_location(), BootLocation::New);
    assert!(f.effective_tmp_is_dir());
    assert_eq!(BootLocation::default(), BootLocation::Both);
}

#[test]
fn enumerated_values_are_written_by_their_tags() {
    let mut m = minimal();
    m.boot_location = Some(BootLocation::Legacy);
    m.check_passwd = Some(CheckPasswd { variant: CheckPasswdType::NoCheck, filename: None });
    assert_eq!(field_value(&m, Field::BootLocation), Some(text("legacy")));
    assert_eq!(
        field_value(&m, Field::CheckPasswd),
        Some(Node::Table(vec![(text("type"), text("none"))]))
    );
    assert_eq!(field_value(&m, Field::CheckGroups), None);
    assert_eq!(field_value(&m, Field::Ref), Some(text("exampleos/x86_64/stable")));
}

#[test]
fn tags_are_read_back() {
    for b in [BootLocation::Both, BootLocation::Legacy, BootLocation::New].iter() {
        assert_eq!(BootLocation::from_tag(b.tag()), Some(*b));
    }
    for c in [
        CheckPasswdType::NoCheck,
        CheckPasswdType::Previous,
        CheckPasswdType::File,
        CheckPasswdType::Data,
    ]
    .iter()
    {
        assert_eq!(CheckPasswdType::from_tag(c.tag()), Some(*c));
    }
    assert_eq!(BootLocation::Both.tag(), "both");
    assert_eq!(BootLocation::New.tag(), "new");
    assert_eq!(CheckPasswdType::NoCheck.tag(), "none");
    assert_eq!(CheckPasswdType::Data.tag(), "data");
    assert_eq!(BootLocation::from_tag("Both"), None);
    assert_eq!(BootLocation::from_tag(""), None);
    assert_eq!(CheckPasswdType::from_tag("files"), None);
}

#[test]
fn every_field_is_found_by_its_key() {
    let mut i = 0;
    while i < FIELD_COUNT {
        let f = Field::at(i);
        assert_eq!(f.ordinal(), i);
        assert_eq!(Field::from_name(f.name()), Some(f));
        i += 1;
    }
    assert_eq!(FIELD_COUNT, 27);
    assert_eq!(Field::from_name("mutate-os-release"), Some(Field::MutateOsRelease));
    assert_eq!(Field::from_name("mutate-os-relase"), None);
    assert_eq!(Field::from_name("gpg_key"), None);
    assert_eq!(Field::from_name("treeref"), None);
    assert_eq!(Field::from_name(""), None);
    assert_eq!(Field::Ref.name(), "ref");
    assert_eq!(Field::Include.name(), "include");
}

#[test]
fn kinds_and_requirements_of_fields() {
    assert_eq!(Field::Ref.kind(), Kind::Text);
    assert_eq!(Field::Packages.kind(), Kind::TextList);
    assert_eq!(Field::Selinux.kind(), Kind::Flag);
    assert_eq!(Field::RemoveFromPackages.kind(), Kind::TextLists);
    assert_eq!(Field::BootLocation.kind(), Kind::Boot);
    assert_eq!(Field::CheckGroups.kind(), Kind::Check);
    let mut required = Vec::new();
    let mut i = 0;
    while i < FIELD_COUNT {
        let f = Field::at(i);
        if f.required() {
            required.push(f);
            assert!(!f.nullable());
        }
        i += 1;
    }
    assert_eq!(required, vec![Field::Ref, Field::Repos, Field::Packages]);
    assert!(Field::Selinux.nullable());
    assert!(!Field::BootLocation.nullable());
    assert!(!Field::TmpIsDir.nullable());
}

#[test]
fn a_document_that_is_no_table_is_rejected() {
    assert_eq!(decode(&texts(&["a"])), Err(SchemaError::NotATable));
    assert_eq!(decode(&Node::Null), Err(SchemaError::NotATable));
    assert_eq!(
        parse("- a\n- b\n", Dialect::HumanFriendly),
        Err(DriverError::SchemaError(SchemaError::NotATable))
    );
}

#[test]
fn an_unknown_field_is_rejected() {
    assert_eq!(
        decode(&with_entry(text("colour"), text("red"))),
        Err(SchemaError::UnknownField("colour".to_string()))
    );
    assert_eq!(
        parse("{\"ref\": \"x\", \"gpg_key\": \"k\", \"repos\": [], \"packages\": []}", Dialect::Structured),
        Err(DriverError::SchemaError(SchemaError::UnknownField("gpg_key".to_string())))
    );
}

#[test]
fn a_key_that_is_no_text_is_rejected() {
    assert_eq!(
        decode(&with_entry(Node::Bool(true), text("red"))),
        Err(SchemaError::KeyNotText(3))
    );
    assert_eq!(
        parse("1: x\nref: y\n", Dialect::HumanFriendly),
        Err(DriverError::SchemaError(SchemaError::KeyNotText(0)))
    );
}

#[test]
fn a_duplicate_field_is_rejected() {
    assert_eq!(
        decode(&with_entry(text("repos"), texts(&["other"]))),
        Err(SchemaError::DuplicateField(Field::Repos))
    );
}

#[test]
fn an_ill_typed_field_is_rejected() {
    assert_eq!(
        decode(&with_entry(text("selinux"), text("true"))),
        Err(SchemaError::IllTyped(Field::Selinux))
    );
    assert_eq!(
        decode(&with_entry(text("releasever"), Node::Number("28".to_string()))),
        Err(SchemaError::IllTyped(Field::Releasever))
    );
    assert_eq!(
        decode(&with_entry(text("units"), Node::List(vec![text("a"), Node::Bool(true)]))),
        Err(SchemaError::IllTyped(Field::Units))
    );
    assert_eq!(
        decode(&with_entry(text("units"), text("a"))),
        Err(SchemaError::IllTyped(Field::Units))
    );
    assert_eq!(
        decode(&with_entry(text("remove-from-packages"), texts(&["a"]))),
        Err(SchemaError::IllTyped(Field::RemoveFromPackages))
    );
    assert_eq!(
        decode(&with_entry(text("boot-location"), text("old"))),
        Err(SchemaError::IllTyped(Field::BootLocation))
    );
    assert_eq!(
        decode(&Node::Table(vec![(text("ref"), Node::Null)])),
        Err(SchemaError::IllTyped(Field::Ref))
    );
    assert_eq!(
        parse("ref: x\nrepos: []\npackages: []\nselinux: 1\n", Dialect::HumanFriendly),
        Err(DriverError::SchemaError(SchemaError::IllTyped(Field::Selinux)))
    );
}

#[test]
fn a_whole_number_is_text_in_the_human_friendly_dialect() {
    let plain = "ref: 28\nrepos: [1, two]\npackages: []\nreleasever: 28\ncheck-passwd:\n  type: file\n  filename: 5\n";
    let manifest = parse(plain, Dialect::HumanFriendly).unwrap();
    assert_eq!(manifest.treeref, "28");
    assert_eq!(manifest.repos, strings(&["1", "two"]));
    assert_eq!(manifest.releasever, Some("28".to_string()));
    assert_eq!(manifest.check_passwd.unwrap().filename, Some("5".to_string()));
    let quoted = "ref: x\nrepos: []\npackages: []\nreleasever: \"28\"\n";
    assert_eq!(parse(quoted, Dialect::HumanFriendly).unwrap().releasever, Some("28".to_string()));
    // a number that is not whole is no text: its own spelling is not known
    let real = "ref: x\nrepos: []\npackages: []\nreleasever: 1.10\n";
    assert_eq!(
        parse(real, Dialect::HumanFriendly),
        Err(DriverError::SchemaError(SchemaError::IllTyped(Field::Releasever)))
    );
    // nor is a boolean, and a whole number is no boolean
    let flag = "ref: x\nrepos: []\npackages: []\ngpg-key: true\n";
    assert_eq!(
        parse(flag, Dialect::HumanFriendly),
        Err(DriverError::SchemaError(SchemaError::IllTyped(Field::GpgKey)))
    );
    let one = "ref: x\nrepos: []\npackages: []\ndocumentation: 1\n";
    assert_eq!(
        parse(one, Dialect::HumanFriendly),
        Err(DriverError::SchemaError(SchemaError::IllTyped(Field::Documentation)))
    );
}

#[test]
fn a_number_is_no_text_in_the_structured_dialect() {
    let json = "{\"ref\": \"x\", \"repos\": [], \"packages\": [], \"releasever\": 28}";
    assert_eq!(
        parse(json, Dialect::Structured),
        Err(DriverError::SchemaError(SchemaError::IllTyped(Field::Releasever)))
    );
    let tree = with_entry(text("releasever"), Node::Integer("28".to_string()));
    assert_eq!(decode(&tree), Err(SchemaError::IllTyped(Field::Releasever)));
    assert_eq!(
        manifest_from_tree(&tree, Dialect::Structured),
        Err(DriverError::SchemaError(SchemaError::IllTyped(Field::Releasever)))
    );
    assert_eq!(
        manifest_from_tree(&tree, Dialect::HumanFriendly).unwrap().releasever,
        Some("28".to_string())
    );
}

#[test]
fn a_key_written_twice_in_text_reaches_the_schema_once() {
    let yaml = "ref: x\nrepos: []\npackages: []\nref: y\n";
    assert_eq!(parse(yaml, Dialect::HumanFriendly).unwrap().treeref, "y");
    let json = "{\"ref\": \"x\", \"repos\": [], \"packages\": [], \"ref\": \"y\"}";
    assert_eq!(parse(json, Dialect::Structured).unwrap().treeref, "y");
}

#[test]
fn null_stands_for_absence_where_the_field_takes_it() {
    let m = decode(&with_entry(text("selinux"), Node::Null)).unwrap();
    assert_eq!(m.selinux, None);
    assert_eq!(keys_of(&encode(&m)), strings(&["ref", "repos", "packages"]));
    assert_eq!(
        decode(&with_entry(text("boot-location"), Node::Null)),
        Err(SchemaError::IllTyped(Field::BootLocation))
    );
    assert_eq!(
        decode(&with_entry(text("tmp-is-dir"), Node::Null)),
        Err(SchemaError::IllTyped(Field::TmpIsDir))
    );
}

#[test]
fn a_missing_required_field_is_rejected() {
    let all = required_entries();
    let without = |k: usize| {
        let mut entries = required_entries();
        entries.remove(k);
        Node::Table(entries)
    };
    assert_eq!(all.len(), 3);
    assert_eq!(decode(&without(0)), Err(SchemaError::MissingField(Field::Ref)));
    assert_eq!(decode(&without(1)), Err(SchemaError::MissingField(Field::Repos)));
    assert_eq!(decode(&without(2)), Err(SchemaError::MissingField(Field::Packages)));
    assert_eq!(decode(&Node::Table(vec![])), Err(SchemaError::MissingField(Field::Ref)));
}

#[test]
fn an_empty_ref_is_rejected() {
    let tree = Node::Table(vec![
        (text("ref"), text("")),
        (text("repos"), texts(&[])),
        (text("packages"), texts(&[])),
    ]);
    assert_eq!(decode(&tree), Err(SchemaError::EmptyRef));
}

#[test]
fn the_first_fault_in_the_document_is_reported() {
    let tree = Node::Table(vec![
        (text("selinux"), text("yes")),
        (text("colour"), text("red")),
    ]);
    assert_eq!(decode(&tree), Err(SchemaError::IllTyped(Field::Selinux)));
    let tree = Node::Table(vec![
        (text("colour"), text("red")),
        (text("selinux"), text("yes")),
    ]);
    assert_eq!(decode(&tree), Err(SchemaError::UnknownField("colour".to_string())));
}

#[test]
fn checks_are_read_from_tables() {
    let check = |entries: Vec<(Node, Node)>| decode(&with_entry(text("check-passwd"), Node::Table(entries)));
    let m = check(vec![(text("type"), text("file")), (text("filename"), text("passwd"))]).unwrap();
    assert_eq!(
        m.check_passwd,
        Some(CheckPasswd { variant: CheckPasswdType::File, filename: Some("passwd".to_string()) })
    );
    let m = check(vec![(text("filename"), Node::Null), (text("type"), text("none"))]).unwrap();
    assert_eq!(m.check_passwd, Some(CheckPasswd { variant: CheckPasswdType::NoCheck, filename: None }));
    let ill = Err(SchemaError::IllTyped(Field::CheckPasswd));
    assert_eq!(check(vec![]), ill);
    assert_eq!(check(vec![(text("filename"), text("passwd"))]), ill);
    assert_eq!(check(vec![(text("type"), text("sometimes"))]), ill);
    assert_eq!(check(vec![(text("type"), text("file")), (text("entries"), text("x"))]), ill);
    assert_eq!(check(vec![(text("type"), text("file")), (text("type"), text("file"))]), ill);
    assert_eq!(check(vec![(text("type"), text("file")), (text("filename"), Node::Bool(true))]), ill);
    assert_eq!(decode(&with_entry(text("check-groups"), text("file"))), Err(SchemaError::IllTyped(Field::CheckGroups)));
}

#[test]
fn malformed_text_is_a_parse_error() {
    match parse("ref: [x", Dialect::HumanFriendly) {
        Err(DriverError::ParseError(message)) => assert!(!message.is_empty()),
        other => panic!("{:?}", other),
    }
    match parse("{\"ref\": ", Dialect::Structured) {
        Err(DriverError::ParseError(message)) => assert!(!message.is_empty()),
        other => panic!("{:?}", other),
    }
    // what is a document of one dialect need not be one of the other
    match parse("ref: x\nrepos: []\npackages: []\n", Dialect::Structured) {
        Err(DriverError::ParseError(_)) => {}
        other => panic!("{:?}", other),
    }
}

#[test]
fn a_line_that_is_too_long_is_a_parse_error() {
    let long = format!("ref: x\nrepos: []\npackages: []\ngpg-key: {}\n", "k".repeat(192));
    assert_eq!(
        parse(&long, Dialect::HumanFriendly),
        Err(DriverError::ParseError("a line of the manifest is longer than 200 bytes".to_string()))
    );
    let fits = format!("ref: x\nrepos: []\npackages: []\ngpg-key: {}\n", "k".repeat(191));
    assert_eq!(parse(&fits, Dialect::HumanFriendly).unwrap().gpg_key, Some("k".repeat(191)));
    // the structured dialect has no such bound
    let json = format!("{{\"ref\": \"x\", \"repos\": [], \"packages\": [], \"gpg-key\": \"{}\"}}", "k".repeat(500));
    assert_eq!(parse(&json, Dialect::Structured).unwrap().gpg_key, Some("k".repeat(500)));
}

#[test]
fn manifest_from_tree_normalizes_by_dialect() {
    let tree = Node::Table(vec![
        (text("ref"), text("x")),
        (text("repos"), texts(&[])),
        (text("packages"), texts(&["a b", " c"])),
    ]);
    let human = manifest_from_tree(&tree, Dialect::HumanFriendly).unwrap();
    assert_eq!(human.packages, strings(&["a", "b", "c"]));
    let structured = manifest_from_tree(&tree, Dialect::Structured).unwrap();
    assert_eq!(structured.packages, strings(&["a b", " c"]));
    let with_include = with_entry(text("include"), text("base.yaml"));
    assert_eq!(
        manifest_from_tree(&with_include, Dialect::HumanFriendly),
        Err(DriverError::Unsupported("include in human-friendly dialect".to_string()))
    );
    assert!(manifest_from_tree(&with_include, Dialect::Structured).is_ok());
    assert_eq!(
        manifest_from_tree(&Node::Null, Dialect::Structured),
        Err(DriverError::SchemaError(SchemaError::NotATable))
    );
}

#[test]
fn dialect_goes_by_the_suffix() {
    assert!(is_yaml("m.yaml"));
    assert!(is_yaml("/srv/manifests/host.yaml"));
    assert!(!is_yaml("m.yml"));
    assert!(!is_yaml("m.json"));
    assert!(!is_yaml("yaml"));
    assert!(is_json("m.json"));
    assert!(!is_json("m.yaml"));
    assert_eq!(dialect_of("m.yaml"), Dialect::HumanFriendly);
    assert_eq!(dialect_of("m.json"), Dialect::Structured);
    assert_eq!(dialect_of("m.txt"), Dialect::Structured);
    assert_eq!(dialect_of(""), Dialect::Structured);
}

#[test]
fn messages_of_errors() {
    assert_eq!(
        DriverError::NoManifest.message(),
        "no manifest in arguments, expected *.yaml or *.json"
    );
    assert_eq!(DriverError::Io("disk full".to_string()).message(), "disk full");
    assert_eq!(DriverError::ParseError("line 1".to_string()).message(), "line 1");
    assert_eq!(DriverError::SpawnError("not found".to_string()).message(), "not found");
    assert_eq!(
        DriverError::Unsupported("include in human-friendly dialect".to_string()).message(),
        "not supported: include in human-friendly dialect"
    );
    assert_eq!(
        DriverError::ComposerFailed { status: "exit status: 37".to_string() }.message(),
        "rpm-ostree compose tree failed: exit status: 37"
    );
    assert_eq!(
        DriverError::SchemaError(SchemaError::UnknownField("colour".to_string())).message(),
        "unknown field: colour"
    );
    assert_eq!(SchemaError::NotATable.message(), "manifest is not a mapping");
    assert_eq!(SchemaError::KeyNotText(2).message(), "manifest has a key that is not a string");
    assert_eq!(SchemaError::DuplicateField(Field::Repos).message(), "duplicate field: repos");
    assert_eq!(SchemaError::IllTyped(Field::GpgKey).message(), "invalid type for field: gpg-key");
    assert_eq!(SchemaError::MissingField(Field::Ref).message(), "missing field: ref");
    assert_eq!(SchemaError::EmptyRef.message(), "ref is empty");
}
