use coreos_assembler::driver::{step, Action, Event, State, COMPOSER};
use coreos_assembler::error::DriverError;
use coreos_assembler::staging::{DirEntry, StagingPlan};

fn strings(items: &[&str]) -> Vec<String> {
    items.iter().map(|s| s.to_string()).collect()
}

fn file(name: &str) -> DirEntry {
    DirEntry { name: name.to_string(), is_file: true }
}

fn exit_one(message: &str) -> (State, Action) {
    (State::Done, Action::Exit { code: 1, diagnostic: Some(message.to_string()) })
}

const YAML: &str = "ref: exampleos/x86_64/stable\nrepos: [fedora]\npackages:\n  - kernel systemd\n  - bash\npostprocess-script: fix.sh\n";

const JSON: &str = "{\n  \"ref\": \"exampleos/x86_64/stable\",\n  \"repos\": [\n    \"fedora\"\n  ],\n  \"packages\": [\n    \"kernel\",\n    \"systemd\",\n    \"bash\"\n  ],\n  \"postprocess-script\": \"fix.sh\"\n}";

#[test]
fn the_composer_is_rpm_ostree() {
    assert_eq!(COMPOSER, "rpm-ostree");
}

#[test]
fn structured_pass_through() {
    let (state, action) =
        step(State::Start, Event::Invoked { argv: strings(&["--dry-run", "m.json", "--x"]) });
    let args = strings(&["compose", "tree", "--dry-run", "m.json", "--x"]);
    assert_eq!(state, State::Opening { args: args.clone(), index: 3 });
    assert_eq!(action, Action::Open { path: "m.json".to_string(), read: false });
    let (state, action) = step(state, Event::Opened);
    assert_eq!(state, State::Running);
    assert_eq!(action, Action::Spawn { args });
    let (state, action) =
        step(state, Event::Exited { success: true, status: "exit status: 0".to_string() });
    assert_eq!(state, State::Done);
    assert_eq!(action, Action::Exit { code: 0, diagnostic: None });
}

#[test]
fn human_friendly_run() {
    let (state, action) =
        step(State::Start, Event::Invoked { argv: strings(&["conf/m.yaml", "--x"]) });
    let args = strings(&["compose", "tree", "conf/m.yaml", "--x"]);
    assert!(state.well_formed());
    assert_eq!(state, State::Opening { args: args.clone(), index: 2 });
    assert_eq!(action, Action::Open { path: "conf/m.yaml".to_string(), read: true });
    let (state, action) = step(
        state,
        Event::Read {
            text: YAML.to_string(),
            parent: "conf".to_string(),
            base_name: "m.yaml".to_string(),
        },
    );
    assert_eq!(
        state,
        State::Listing {
            args: args.clone(),
            index: 2,
            manifest_text: JSON.to_string(),
            script: Some("fix.sh".to_string()),
            base_name: "m.yaml".to_string(),
        }
    );
    assert_eq!(action, Action::List { dir: "conf".to_string() });
    let entries = vec![file("m.yaml"), file("fedora.repo"), file("fix.sh"), file("README")];
    let (state, action) = step(state, Event::Listed { entries });
    assert_eq!(state, State::Staging { args, index: 2 });
    assert_eq!(
        action,
        Action::Stage {
            plan: StagingPlan {
                manifest_name: "m.json".to_string(),
                copies: strings(&["fedora.repo", "fix.sh"]),
            },
            manifest_text: JSON.to_string(),
        }
    );
    let (state, action) =
        step(state, Event::Staged { manifest_path: "/tmp/.tmpX/m.json".to_string() });
    assert_eq!(state, State::Running);
    assert_eq!(
        action,
        Action::Spawn { args: strings(&["compose", "tree", "/tmp/.tmpX/m.json", "--x"]) }
    );
}

#[test]
fn an_empty_parent_lists_the_current_directory() {
    let (state, _) = step(State::Start, Event::Invoked { argv: strings(&["m.yaml"]) });
    let (_, action) = step(
        state,
        Event::Read { text: YAML.to_string(), parent: String::new(), base_name: "m.yaml".to_string() },
    );
    assert_eq!(action, Action::List { dir: ".".to_string() });
}

#[test]
fn missing_manifest_exits_with_one() {
    assert_eq!(
        step(State::Start, Event::Invoked { argv: strings(&["--dry-run"]) }),
        exit_one("no manifest in arguments, expected *.yaml or *.json")
    );
}

#[test]
fn include_rejection_exits_before_any_spawn() {
    let (state, _) = step(State::Start, Event::Invoked { argv: strings(&["m.yaml"]) });
    let text = "ref: x\nrepos: []\npackages: []\ninclude: base.yaml\n".to_string();
    assert_eq!(
        step(state, Event::Read { text, parent: String::new(), base_name: "m.yaml".to_string() }),
        exit_one("not supported: include in human-friendly dialect")
    );
}

#[test]
fn a_manifest_that_does_not_parse_exits_with_one() {
    let (state, _) = step(State::Start, Event::Invoked { argv: strings(&["m.yaml"]) });
    let (state, action) = step(
        state,
        Event::Read {
            text: "ref: [".to_string(),
            parent: String::new(),
            base_name: "m.yaml".to_string(),
        },
    );
    assert_eq!(state, State::Done);
    match action {
        Action::Exit { code, diagnostic } => {
            assert_eq!(code, 1);
            assert!(diagnostic.is_some());
        }
        other => panic!("{:?}", other),
    }
}

#[test]
fn a_manifest_with_a_line_too_long_exits_with_one() {
    let (state, _) = step(State::Start, Event::Invoked { argv: strings(&["m.yaml"]) });
    let text = format!("ref: x\nrepos: []\npackages: []\n# {}\n", "-".repeat(199));
    assert_eq!(
        step(state, Event::Read { text, parent: String::new(), base_name: "m.yaml".to_string() }),
        exit_one("a line of the manifest is longer than 200 bytes")
    );
}

#[test]
fn a_manifest_outside_the_schema_exits_with_one() {
    let (state, _) = step(State::Start, Event::Invoked { argv: strings(&["m.yaml"]) });
    let text = "ref: x\nrepos: []\npackages: []\ncolour: red\n".to_string();
    assert_eq!(
        step(state, Event::Read { text, parent: String::new(), base_name: "m.yaml".to_string() }),
        exit_one("unknown field: colour")
    );
}

#[test]
fn a_collision_in_the_staging_directory_exits_with_one() {
    let (state, _) = step(State::Start, Event::Invoked { argv: strings(&["m.yaml"]) });
    let (state, _) = step(
        state,
        Event::Read { text: YAML.to_string(), parent: String::new(), base_name: "m.yaml".to_string() },
    );
    assert_eq!(
        step(state, Event::Listed { entries: vec![file("m.json")] }),
        exit_one("file is staged twice: m.json")
    );
}

#[test]
fn composer_exit_propagation() {
    assert_eq!(
        step(State::Running, Event::Exited { success: false, status: "exit status: 37".to_string() }),
        exit_one("rpm-ostree compose tree failed: exit status: 37")
    );
    assert_eq!(
        step(State::Running, Event::Exited { success: true, status: "exit status: 0".to_string() }),
        (State::Done, Action::Exit { code: 0, diagnostic: None })
    );
}

#[test]
fn a_failure_ends_the_run_from_every_state() {
    let states = vec![
        State::Start,
        State::Opening { args: strings(&["compose", "tree", "m.json"]), index: 2 },
        State::Staging { args: strings(&["compose", "tree", "m.yaml"]), index: 2 },
        State::Running,
        State::Done,
    ];
    for state in states {
        assert_eq!(
            step(state, Event::Failed { error: DriverError::Io("No such file".to_string()) }),
            exit_one("No such file")
        );
    }
    assert_eq!(
        step(State::Running, Event::Failed { error: DriverError::SpawnError("not found".to_string()) }),
        exit_one("not found")
    );
}

#[test]
fn an_event_that_does_not_fit_the_state_ends_the_run() {
    let unexpected = exit_one("unexpected event");
    assert_eq!(step(State::Start, Event::Opened), unexpected);
    assert_eq!(step(State::Running, Event::Invoked { argv: strings(&["m.json"]) }), unexpected);
    assert_eq!(step(State::Done, Event::Staged { manifest_path: "x".to_string() }), unexpected);
    assert_eq!(step(State::Start, Event::Listed { entries: vec![] }), unexpected);
    assert_eq!(
        step(State::Start, Event::Exited { success: true, status: String::new() }),
        unexpected
    );
    // a human-friendly manifest must be read, a structured one must not
    let yaml = State::Opening { args: strings(&["compose", "tree", "m.yaml"]), index: 2 };
    assert_eq!(step(yaml, Event::Opened), unexpected);
    let json = State::Opening { args: strings(&["compose", "tree", "m.json"]), index: 2 };
    assert_eq!(
        step(
            json,
            Event::Read { text: JSON.to_string(), parent: String::new(), base_name: "m.json".to_string() }
        ),
        unexpected
    );
}

#[test]
fn well_formed_states() {
    assert!(State::Start.well_formed());
    assert!(State::Running.well_formed());
    assert!(State::Opening { args: strings(&["a"]), index: 0 }.well_formed());
    assert!(!State::Opening { args: strings(&["a"]), index: 1 }.well_formed());
    assert!(!State::Staging { args: vec![], index: 0 }.well_formed());
}
