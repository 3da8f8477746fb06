//! The decisions of the driver, as a machine that is fed what happened and
//! says what to do next. Whoever runs it opens and reads files, fills the
//! staging directory and runs the composer.
use crate::args::{composed, has_manifest, is_last_manifest, rewrite, substitute};
use crate::dialect::{
    document, emit, interpreted, is_yaml, parse, spec_is_yaml, Dialect,
};
use crate::encode::encoded;
use crate::error::{DriverError, DriverFault};
use crate::json::json_pretty;
use crate::yaml::{line_too_long, yaml_admits};
use crate::staging::{
    copies_of, first_clash, listing, plan_staging, source_dir, spec_source_dir, staged_files,
    staged_name, staged_twice, DirEntry, StagingPlan,
};
use vstd::prelude::*;

verus! {

/// Where the driver stands.
#[derive(Clone, Debug, PartialEq, Eq)]
pub enum State {
    /// Nothing has happened yet.
    Start,
    /// The arguments are ready; the manifest at `args[index]` is being opened.
    Opening { args: Vec<String>, index: usize },
    /// The manifest was read and normalized; the directory beside it is being listed.
    Listing {
        args: Vec<String>,
        index: usize,
        manifest_text: String,
        script: Option<String>,
        base_name: String,
    },
    /// The staging directory is being filled.
    Staging { args: Vec<String>, index: usize },
    /// The composer runs.
    Running,
    /// The driver has said with which code to exit.
    Done,
}

/// What happened.
#[derive(Clone, Debug, PartialEq, Eq)]
pub enum Event {
    /// The driver was called with these arguments, the program's name not among them.
    Invoked { argv: Vec<String> },
    /// The manifest was opened; nothing was read from it.
    Opened,
    /// The manifest was read: its text, the parent of its path and its base name.
    Read { text: String, parent: String, base_name: String },
    /// The directory was listed.
    Listed { entries: Vec<DirEntry> },
    /// The staging directory is filled; the normalized manifest is at this path.
    Staged { manifest_path: String },
    /// The composer has exited.
    Exited { success: bool, status: String },
    /// What the driver asked for could not be done.
    Failed { error: DriverError },
}

/// What to do next.
#[derive(Clone, Debug, PartialEq, Eq)]
pub enum Action {
    /// Open the manifest at `path`, and read it if `read` is set.
    Open { path: String, read: bool },
    /// List the entries of the directory `dir`.
    List { dir: String },
    /// Make a staging directory, write `manifest_text` into it under the
    /// plan's name for the manifest, and copy the plan's files into it.
    Stage { plan: StagingPlan, manifest_text: String },
    /// Run the composer with `args`, its standard input closed, and wait for it.
    Spawn { args: Vec<String> },
    /// Print `diagnostic`, if there is one, and exit with `code`.
    Exit { code: i32, diagnostic: Option<String> },
}

/// The name of the composer's program.
pub const COMPOSER: &'static str = "rpm-ostree";

impl State {
    /// The position of the manifest lies within the arguments.
    pub open spec fn wf(self) -> bool {
        match self {
            State::Opening { args, index } => index < args.len(),
            State::Listing { args, index, .. } => index < args.len(),
            State::Staging { args, index } => index < args.len(),
            _ => true,
        }
    }

    /// Decides `wf`.
    pub fn well_formed(&self) -> (b: bool)
        ensures
            b == self.wf(),
    {
        match self {
            State::Opening { args, index } => *index < args.len(),
            State::Listing { args, index, .. } => *index < args.len(),
            State::Staging { args, index } => *index < args.len(),
            _ => true,
        }
    }
}

/// The driver is done and exits with code 1 and this diagnostic.
pub open spec fn fails_with(next: State, action: Action, message: Seq<char>) -> bool {
    &&& next is Done
    &&& action matches Action::Exit { code, diagnostic }
    &&& code == 1
    &&& diagnostic.deep_view() == Some(message)
}

/// The driver is done and exits with code 1 and some diagnostic.
pub open spec fn fails(next: State, action: Action) -> bool {
    &&& next is Done
    &&& action matches Action::Exit { code, diagnostic }
    &&& code == 1
    &&& diagnostic is Some
}

/// What the driver does when it is called with `argv`.
pub open spec fn on_invoked(argv: Seq<Seq<char>>, next: State, action: Action) -> bool {
    if has_manifest(composed(argv)) {
        &&& next matches State::Opening { args, index }
        &&& args.deep_view() == composed(argv)
        &&& is_last_manifest(args.deep_view(), index as int)
        &&& action matches Action::Open { path, read }
        &&& path@ == args[index as int]@
        &&& read == spec_is_yaml(path@)
    } else {
        fails_with(next, action, DriverFault::NoManifest.spec_message())
    }
}

/// What the driver does with the text of a human-friendly manifest: it ends
/// the run where the text is no manifest, and else asks for the listing of the
/// manifest's directory, with the normalized manifest written out.
pub open spec fn on_read(
    args: Vec<String>,
    index: usize,
    text: Seq<char>,
    parent: Seq<char>,
    base_name: Seq<char>,
    next: State,
    action: Action,
) -> bool {
    match document(text, Dialect::HumanFriendly) {
        None => if yaml_admits(text) {
            fails(next, action)
        } else {
            fails_with(next, action, line_too_long())
        },
        Some(tree) => match interpreted(tree, Dialect::HumanFriendly) {
            Err(fault) => fails_with(next, action, fault.spec_message()),
            Ok(m) => {
                &&& next matches State::Listing {
                    args: kept,
                    index: at,
                    manifest_text,
                    script,
                    base_name: base,
                }
                &&& kept.deep_view() == args.deep_view()
                &&& at == index
                &&& manifest_text@ == json_pretty(encoded(m))
                &&& script.deep_view() == m.postprocess_script
                &&& base@ == base_name
                &&& action matches Action::List { dir }
                &&& dir@ == spec_source_dir(parent)
            },
        },
    }
}

/// What the driver does with the listing of the manifest's directory.
pub open spec fn on_listed(
    args: Vec<String>,
    index: usize,
    manifest_text: Seq<char>,
    script: Option<Seq<char>>,
    base_name: Seq<char>,
    entries: Seq<DirEntry>,
    next: State,
    action: Action,
) -> bool {
    if staged_files(base_name, listing(entries), script).no_duplicates() {
        &&& next matches State::Staging { args: kept, index: at }
        &&& kept.deep_view() == args.deep_view()
        &&& at == index
        &&& action matches Action::Stage { plan, manifest_text: written }
        &&& plan.manifest_name@ == staged_name(base_name)
        &&& plan.copies.deep_view() == copies_of(listing(entries), script)
        &&& written@ == manifest_text
    } else {
        &&& first_clash(base_name, listing(entries), script, 0) matches Some(name)
        &&& fails_with(next, action, staged_twice(name))
    }
}

/// What the driver does when the composer has exited.
pub open spec fn on_exited(success: bool, status: Seq<char>, next: State, action: Action) -> bool {
    if success {
        &&& next is Done
        &&& action matches Action::Exit { code, diagnostic }
        &&& code == 0
        &&& diagnostic is None
    } else {
        fails_with(next, action, (DriverFault::ComposerFailed { status }).spec_message())
    }
}

/// The driver's step: from `state`, on `event`, it goes to `next` and asks for
/// `action`.
pub open spec fn transition(state: State, event: Event, next: State, action: Action) -> bool {
    match (state, event) {
        (_, Event::Failed { error }) => fails_with(next, action, error@.spec_message()),
        (State::Start, Event::Invoked { argv }) => on_invoked(argv.deep_view(), next, action),
        (State::Opening { args, index }, Event::Opened) => if spec_is_yaml(args[index as int]@) {
            fails_with(next, action, "unexpected event"@)
        } else {
            &&& next is Running
            &&& action matches Action::Spawn { args: given }
            &&& given.deep_view() == args.deep_view()
        },
        (State::Opening { args, index }, Event::Read { text, parent, base_name }) => if spec_is_yaml(
            args[index as int]@,
        ) {
            on_read(args, index, text@, parent@, base_name@, next, action)
        } else {
            fails_with(next, action, "unexpected event"@)
        },
        (
            State::Listing { args, index, manifest_text, script, base_name },
            Event::Listed { entries },
        ) => on_listed(
            args,
            index,
            manifest_text@,
            script.deep_view(),
            base_name@,
            entries@,
            next,
            action,
        ),
        (State::Staging { args, index }, Event::Staged { manifest_path }) => {
            &&& next is Running
            &&& action matches Action::Spawn { args: given }
            &&& given.deep_view() == args.deep_view().update(index as int, manifest_path@)
        },
        (State::Running, Event::Exited { success, status }) => on_exited(
            success,
            status@,
            next,
            action,
        ),
        _ => fails_with(next, action, "unexpected event"@),
    }
}

/// Ends the run with a failure.
fn fail(error: &DriverError) -> (r: (State, Action))
    ensures
        fails_with(r.0, r.1, error@.spec_message()),
{
    (State::Done, Action::Exit { code: 1, diagnostic: Some(error.message()) })
}

/// Ends the run because the event does not fit the state.
fn unexpected() -> (r: (State, Action))
    ensures
        fails_with(r.0, r.1, "unexpected event"@),
{
    (State::Done, Action::Exit { code: 1, diagnostic: Some("unexpected event".to_owned()) })
}

/// The driver's step.
pub fn step(state: State, event: Event) -> (r: (State, Action))
    requires
        state.wf(),
    ensures
        transition(state, event, r.0, r.1),
        r.0.wf(),
{
    match event {
        Event::Failed { error } => fail(&error),
        Event::Invoked { argv } => match state {
            State::Start => match rewrite(&argv) {
                Ok((index, args)) => {
                    let path = args[index].clone();
                    let read = is_yaml(path.as_str());
                    (State::Opening { args, index }, Action::Open { path, read })
                },
                Err(e) => fail(&e),
            },
            _ => unexpected(),
        },
        Event::Opened => match state {
            State::Opening { args, index } => {
                if is_yaml(args[index].as_str()) {
                    unexpected()
                } else {
                    (State::Running, Action::Spawn { args })
                }
            },
            _ => unexpected(),
        },
        Event::Read { text, parent, base_name } => match state {
            State::Opening { args, index } => {
                if !is_yaml(args[index].as_str()) {
                    return unexpected();
                }
                let manifest = match parse(text.as_str(), Dialect::HumanFriendly) {
                    Ok(m) => m,
                    Err(e) => {
                        return fail(&e);
                    },
                };
                let manifest_text = emit(&manifest);
                let dir = source_dir(parent.as_str());
                let script = manifest.postprocess_script;
                (
                    State::Listing { args, index, manifest_text, script, base_name },
                    Action::List { dir },
                )
            },
            _ => unexpected(),
        },
        Event::Listed { entries } => match state {
            State::Listing { args, index, manifest_text, script, base_name } => {
                match plan_staging(base_name.as_str(), &entries, &script) {
                    Ok(plan) => (
                        State::Staging { args, index },
                        Action::Stage { plan, manifest_text },
                    ),
                    Err(e) => fail(&e),
                }
            },
            _ => unexpected(),
        },
        Event::Staged { manifest_path } => match state {
            State::Staging { args, index } => {
                let args = substitute(args, index, manifest_path);
                (State::Running, Action::Spawn { args })
            },
            _ => unexpected(),
        },
        Event::Exited { success, status } => match state {
            State::Running => {
                if success {
                    (State::Done, Action::Exit { code: 0, diagnostic: None })
                } else {
                    fail(&DriverError::ComposerFailed { status })
                }
            },
            _ => unexpected(),
        },
    }
}

/// The driver exits with 0 or with 1, and with 0 only when the composer has
/// reported success.
pub proof fn lemma_exit_code(state: State, event: Event, next: State, action: Action)
    requires
        transition(state, event, next, action),
        action is Exit,
    ensures
        action->code == 0 || action->code == 1,
        action->code == 0 <==> (state is Running && event matches Event::Exited {
            success: true,
            ..
        }),
        action->code == 1 ==> action->diagnostic is Some,
{
}

/// The driver asks to exit exactly when it is done.
pub proof fn lemma_done_when_exit(state: State, event: Event, next: State, action: Action)
    requires
        transition(state, event, next, action),
    ensures
        action is Exit <==> next is Done,
{
}

/// The composer is started only when a structured manifest was opened, with
/// the composer's arguments as they were made, or when the staging directory is
/// filled, with the staged manifest in place of the one that was given.
pub proof fn lemma_spawn_only_when_ready(state: State, event: Event, next: State, action: Action)
    requires
        transition(state, event, next, action),
        action is Spawn,
    ensures
        match state {
            State::Opening { args, index } => !spec_is_yaml(args[index as int]@) && event is Opened
                && action->Spawn_args.deep_view() == args.deep_view(),
            State::Staging { args, index } => event matches Event::Staged { manifest_path }
                && action->Spawn_args.deep_view() == args.deep_view().update(
                index as int,
                manifest_path@,
            ),
            _ => false,
        },
{
}

} // verus!
