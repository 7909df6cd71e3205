//! One invocation, step by step. A session decides what is to be done next;
//! the caller does it and reports what came of it. All work on a project
//! happens between taking the lock and giving it back, and a session gives
//! the lock back on every way out. Work that was done counts only if the
//! lock was given back after it.

use crate::builder::{build, build_command, succeeded, BuildCommand, BuildFailure, BuildOutput};
use crate::codec::{
    contributes, encodes, loaded, loaded_entries, store_kernel_item, StoreError,
};
use crate::layout::{
    artifact_path, artifact_path_of, components_view, kernel_dir_of, path_from_item, paths_view,
    project_name, source_unit_path, source_unit_path_of, store_path, store_path_of, PROJECT_SUFFIX,
};
use crate::preamble::{dummy_preamble, dummy_preamble_text, preamble_text};
use crate::reconstruct::{reconstruct_kernel_lib, unit_of};
use crate::scaffold::{
    can_substitute, cleanup_kernel_structure, create_kernel_structure, skeleton_of, target_config,
    Scaffold,
};
use crate::store::upserted;
use crate::text::{as_optional_text, optional_string};
use vstd::prelude::*;

verus! {

/// The lock file that all invocations share.
pub const LOCK_PATH: &'static str = "rocm_attr.lock";

/// What an invocation is asked to do.
#[derive(Clone, Debug, PartialEq, Eq)]
pub enum Request {
    /// Start the project afresh: remove what an earlier cycle left, and
    /// lay out the skeleton from the two templates.
    Init {
        discriminator: String,
        gfx_ver: Option<String>,
        config_template: String,
        manifest_template: String,
    },
    /// Put one fragment into the store of the project.
    Contribute { discriminator: String, identifier: String, source_text: String },
    /// Reconstruct the source unit and build it.
    Finalize { discriminator: String },
}

impl Request {
    /// The discriminator of the project that the request is about.
    pub open spec fn discriminator(&self) -> Seq<char> {
        match self {
            Request::Init { discriminator, .. } => discriminator@,
            Request::Contribute { discriminator, .. } => discriminator@,
            Request::Finalize { discriminator } => discriminator@,
        }
    }
}

/// How far an invocation has come: what it has asked for last.
#[derive(Clone, Copy, Debug, PartialEq, Eq, Structural)]
pub enum Phase {
    /// The lock has been asked for.
    Locking,
    /// The skeleton is being laid out.
    Scaffolding,
    /// The store file is being read.
    ReadingStore,
    /// The store file is being written.
    WritingStore,
    /// The source unit is being written.
    WritingUnit,
    /// The toolchain is running.
    Building,
    /// The binary is being looked for.
    Confirming,
    /// The lock is being given back.
    Releasing,
    /// The outcome has been handed out.
    Finished,
}

/// Why an invocation failed.
#[derive(Clone, Debug, PartialEq, Eq)]
pub enum Failure {
    /// The lock could not be taken.
    Lock,
    /// The skeleton could not be planned or laid out.
    Scaffold,
    /// The store file does not hold a store.
    StoreCorrupt,
    /// The store could not be put into text.
    StoreUnwritable,
    /// A file could not be read or written, or the toolchain not be run.
    Io,
    /// The toolchain ran and failed.
    Build { failure: BuildFailure },
    /// The toolchain ran with success, and the binary is not where it is
    /// expected.
    MissingArtifact,
    /// The work was done, and the lock could not be given back.
    Release,
    /// The session was told of something it had not asked for.
    Unexpected,
}

/// How an invocation ended.
#[derive(Clone, Debug, PartialEq, Eq)]
pub enum Outcome {
    /// The project was started afresh; `stub` stands in for the bindings
    /// of the build to come.
    Initialized { stub: String },
    /// The fragment is in the store.
    Contributed,
    /// The build succeeded; the binary was found at `artifact`.
    Built { artifact: Vec<String> },
    /// Nothing of the kind.
    Failed { failure: Failure },
}

/// What the caller is to do next.
#[derive(Clone, Debug, PartialEq, Eq)]
pub enum Action {
    /// Open the lock file and wait for the lock.
    AcquireLock { file: String },
    /// Remove the stale files where they exist, then create the
    /// directories and write the files of the plan.
    Scaffold { stale: Vec<Vec<String>>, plan: Scaffold },
    /// Read the store file, if there is one.
    ReadStore { path: Vec<String> },
    /// Write a file, in place of what it held; the directories that lead
    /// to it are created where they are missing.
    WriteFile { path: Vec<String>, content: String },
    /// Run the toolchain and capture what it leaves.
    RunBuild { command: BuildCommand },
    /// See whether the binary is there.
    FindArtifact { path: Vec<String> },
    /// Give the lock back.
    ReleaseLock,
    /// Nothing more: the invocation ended with `outcome`.
    Finish { outcome: Outcome },
}

/// What came of the action that was asked for last.
#[derive(Clone, Debug, PartialEq, Eq)]
pub enum Event {
    /// The lock is held.
    LockAcquired,
    /// The lock could not be taken.
    LockFailed,
    /// The action was carried out.
    Done,
    /// The action could not be carried out.
    Failed,
    /// The store file was read; `None` says that there is none.
    StoreRead { content: Option<String> },
    /// The toolchain ran.
    BuildRan { output: BuildOutput },
}

/// The state of one invocation.
pub struct Session {
    request: Request,
    name: String,
    phase: Phase,
    report: Outcome,
}

/// In this phase the invocation holds the lock.
pub open spec fn holds_lock(phase: Phase) -> bool {
    phase == Phase::Scaffolding || phase == Phase::ReadingStore || phase == Phase::WritingStore
        || phase == Phase::WritingUnit || phase == Phase::Building || phase == Phase::Confirming
}

/// The session asks for the lock to be given back.
pub open spec fn releases(post: Session, action: Action) -> bool {
    post.phase() == Phase::Releasing && action is ReleaseLock
}

/// The session keeps what it was going to report.
pub open spec fn keeps_report(pre: Session, post: Session) -> bool {
    post.report() == pre.report()
}

/// The session gives up its work, for the reason `failure`.
pub open spec fn gives_up(post: Session, action: Action, failure: Failure) -> bool {
    releases(post, action) && post.report() == (Outcome::Failed { failure })
}

/// The outcome of an invocation whose last step was the release of the
/// lock: what it was going to report, if the lock was given back or a
/// failure was to be reported anyhow; and else the failure of the release.
pub open spec fn ended_with(report: Outcome, event: Event) -> Outcome {
    if event is Done || report is Failed {
        report
    } else {
        Outcome::Failed { failure: Failure::Release }
    }
}

/// What follows when the lock has been taken: a start plans the skeleton
/// and reports the stand-in bindings when that is laid out, and gives up
/// if and only if its target cannot be put into the configuration; the
/// other two ask for the store file.
pub open spec fn after_lock(pre: Session, post: Session, action: Action) -> bool {
    match pre.request() {
        Request::Init { gfx_ver, config_template, manifest_template, .. } => {
            if can_substitute(optional_string(gfx_ver)) {
                &&& post.phase() == Phase::Scaffolding
                &&& action matches Action::Scaffold { stale, plan }
                &&& paths_view(stale@) == seq![
                    source_unit_path_of(pre.name()),
                    store_path_of(pre.name()),
                ]
                &&& (plan.directories_view(), plan.files_view()) == skeleton_of(
                    pre.name(),
                    target_config(config_template@, optional_string(gfx_ver)),
                    manifest_template@,
                )
                &&& post.report() matches Outcome::Initialized { stub }
                &&& stub@ == dummy_preamble_text()
            } else {
                gives_up(post, action, Failure::Scaffold)
            }
        },
        _ => {
            &&& post.phase() == Phase::ReadingStore
            &&& action matches Action::ReadStore { path }
            &&& components_view(path@) == store_path_of(pre.name())
        },
    }
}

/// What follows when the store file has been read: a contribution writes
/// the store with the fragment put in, and gives up if and only if that
/// store cannot be written; a finalization writes the source unit of the
/// store. A corrupt store ends both.
pub open spec fn after_read(
    pre: Session,
    content: Option<String>,
    post: Session,
    action: Action,
) -> bool {
    match pre.request() {
        Request::Contribute { identifier, source_text, .. } => {
            match loaded_entries(optional_string(content)) {
                Some(entries) => {
                    if encodes(upserted(entries, (identifier@, source_text@))) {
                        &&& post.phase() == Phase::WritingStore
                        &&& action matches Action::WriteFile { path, content: text }
                        &&& components_view(path@) == store_path_of(pre.name())
                        &&& contributes(
                            optional_string(content),
                            identifier@,
                            source_text@,
                            text@,
                        )
                        &&& post.report() == Outcome::Contributed
                    } else {
                        gives_up(post, action, Failure::StoreUnwritable)
                    }
                },
                None => gives_up(post, action, Failure::StoreCorrupt),
            }
        },
        Request::Finalize { .. } => {
            match loaded(optional_string(content)) {
                Some(contents) => {
                    &&& post.phase() == Phase::WritingUnit
                    &&& action matches Action::WriteFile { path, content: unit }
                    &&& components_view(path@) == source_unit_path_of(pre.name())
                    &&& unit@ == unit_of(preamble_text(), contents)
                },
                None => gives_up(post, action, Failure::StoreCorrupt),
            }
        },
        Request::Init { .. } => gives_up(post, action, Failure::Unexpected),
    }
}

/// What follows when the toolchain has run: if and only if it succeeded,
/// the binary is looked for where the build leaves it, to be reported when
/// it is found; else the lock is given back, and the report is the failure
/// with all that was captured.
pub open spec fn after_build(
    pre: Session,
    output: BuildOutput,
    post: Session,
    action: Action,
) -> bool {
    if succeeded(output.exit_code) {
        &&& post.phase() == Phase::Confirming
        &&& action matches Action::FindArtifact { path }
        &&& components_view(path@) == artifact_path_of(pre.name())
        &&& post.report() matches Outcome::Built { artifact }
        &&& components_view(artifact@) == artifact_path_of(pre.name())
    } else {
        &&& releases(post, action)
        &&& post.report() matches Outcome::Failed { failure: Failure::Build { failure } }
        &&& failure.view() == (
            pre.name(),
            output.exit_code,
            output.status@,
            output.stdout@,
            output.stderr@,
        )
    }
}

/// The step from `pre` to `post` on `event`, with `action` as what the
/// session asks for next.
pub open spec fn follows(pre: Session, event: Event, post: Session, action: Action) -> bool {
    &&& post.request() == pre.request()
    &&& post.name() == pre.name()
    &&& match pre.phase() {
        Phase::Locking => {
            if event is LockAcquired {
                after_lock(pre, post, action)
            } else {
                post.phase() == Phase::Finished && action == (Action::Finish {
                    outcome: Outcome::Failed { failure: Failure::Lock },
                })
            }
        },
        Phase::Scaffolding => {
            if event is Done {
                releases(post, action) && keeps_report(pre, post)
            } else {
                gives_up(post, action, Failure::Scaffold)
            }
        },
        Phase::ReadingStore => {
            match event {
                Event::StoreRead { content } => after_read(pre, content, post, action),
                _ => gives_up(post, action, Failure::Io),
            }
        },
        Phase::WritingStore => {
            if event is Done {
                releases(post, action) && keeps_report(pre, post)
            } else {
                gives_up(post, action, Failure::Io)
            }
        },
        Phase::WritingUnit => {
            if event is Done {
                &&& post.phase() == Phase::Building
                &&& action matches Action::RunBuild { command }
                &&& command.program@ == "cargo"@
                &&& components_view(command.arguments@) == seq!["build"@, "--release"@]
                &&& components_view(command.directory@) == kernel_dir_of(pre.name())
            } else {
                gives_up(post, action, Failure::Io)
            }
        },
        Phase::Building => {
            match event {
                Event::BuildRan { output } => after_build(pre, output, post, action),
                _ => gives_up(post, action, Failure::Io),
            }
        },
        Phase::Confirming => {
            if event is Done {
                releases(post, action) && keeps_report(pre, post)
            } else {
                gives_up(post, action, Failure::MissingArtifact)
            }
        },
        Phase::Releasing => {
            post.phase() == Phase::Finished && action == (Action::Finish {
                outcome: ended_with(pre.report(), event),
            })
        },
        Phase::Finished => {
            post.phase() == Phase::Finished && action == (Action::Finish {
                outcome: Outcome::Failed { failure: Failure::Unexpected },
            })
        },
    }
}

impl Session {
    /// What the invocation was asked to do.
    pub closed spec fn request(&self) -> Request {
        self.request
    }

    /// The name of the project.
    pub closed spec fn name(&self) -> Seq<char> {
        self.name@
    }

    /// How far the invocation has come.
    pub closed spec fn phase(&self) -> Phase {
        self.phase
    }

    /// What the invocation reports once the lock is given back.
    pub closed spec fn report(&self) -> Outcome {
        self.report
    }

    /// Begins an invocation: the first thing to do is to take the lock.
    pub fn start(request: Request) -> (r: (Session, Action))
        ensures
            r.0.request() == request,
            r.0.name() == path_from_item(request.discriminator(), PROJECT_SUFFIX@),
            r.0.phase() == Phase::Locking,
            r.1 matches Action::AcquireLock { file } && file@ == LOCK_PATH@,
    {
        let name = match &request {
            Request::Init { discriminator, .. } => project_name(discriminator.as_str()),
            Request::Contribute { discriminator, .. } => project_name(discriminator.as_str()),
            Request::Finalize { discriminator } => project_name(discriminator.as_str()),
        };
        let session = Session {
            request,
            name,
            phase: Phase::Locking,
            report: Outcome::Failed { failure: Failure::Lock },
        };
        (session, Action::AcquireLock { file: String::from_str(LOCK_PATH) })
    }

    /// How far the invocation has come.
    pub fn current_phase(&self) -> (r: Phase)
        ensures
            r == self.phase(),
    {
        self.phase
    }

    /// The name of the project that the invocation works on.
    pub fn project(&self) -> (r: &str)
        ensures
            r@ == self.name(),
    {
        self.name.as_str()
    }

    /// Whether the outcome has been handed out.
    pub fn is_finished(&self) -> (r: bool)
        ensures
            r == (self.phase() == Phase::Finished),
    {
        match self.phase {
            Phase::Finished => true,
            _ => false,
        }
    }

    /// Whether the invocation holds the lock.
    pub fn has_lock(&self) -> (r: bool)
        ensures
            r == holds_lock(self.phase()),
    {
        match self.phase {
            Phase::Scaffolding
            | Phase::ReadingStore
            | Phase::WritingStore
            | Phase::WritingUnit
            | Phase::Building
            | Phase::Confirming => true,
            _ => false,
        }
    }

    /// The session that gives the lock back and then reports `failure`.
    fn abandon(request: Request, name: String, failure: Failure) -> (r: (Session, Action))
        ensures
            r.0.request() == request,
            r.0.name() == name@,
            gives_up(r.0, r.1, failure),
    {
        (
            Session { request, name, phase: Phase::Releasing, report: Outcome::Failed { failure } },
            Action::ReleaseLock,
        )
    }

    /// Takes note of what came of the last action and decides the next.
    pub fn step(self, event: Event) -> (r: (Session, Action))
        ensures
            follows(self, event, r.0, r.1),
    {
        let Session { request, name, phase, report } = self;
        match phase {
            Phase::Locking => match event {
                Event::LockAcquired => Session::locked(request, name),
                _ => (
                    Session {
                        request,
                        name,
                        phase: Phase::Finished,
                        report: Outcome::Failed { failure: Failure::Unexpected },
                    },
                    Action::Finish { outcome: Outcome::Failed { failure: Failure::Lock } },
                ),
            },
            Phase::Scaffolding => match event {
                Event::Done => (
                    Session { request, name, phase: Phase::Releasing, report },
                    Action::ReleaseLock,
                ),
                _ => Session::abandon(request, name, Failure::Scaffold),
            },
            Phase::ReadingStore => match event {
                Event::StoreRead { content } => Session::store_read(request, name, content),
                _ => Session::abandon(request, name, Failure::Io),
            },
            Phase::WritingStore => match event {
                Event::Done => (
                    Session { request, name, phase: Phase::Releasing, report },
                    Action::ReleaseLock,
                ),
                _ => Session::abandon(request, name, Failure::Io),
            },
            Phase::WritingUnit => match event {
                Event::Done => {
                    let command = build_command(name.as_str());
                    (
                        Session { request, name, phase: Phase::Building, report },
                        Action::RunBuild { command },
                    )
                },
                _ => Session::abandon(request, name, Failure::Io),
            },
            Phase::Building => match event {
                Event::BuildRan { output } => match build(name.as_str(), output) {
                    Ok(artifact) => {
                        let path = artifact_path(name.as_str());
                        (
                            Session {
                                request,
                                name,
                                phase: Phase::Confirming,
                                report: Outcome::Built { artifact },
                            },
                            Action::FindArtifact { path },
                        )
                    },
                    Err(failure) => Session::abandon(request, name, Failure::Build { failure }),
                },
                _ => Session::abandon(request, name, Failure::Io),
            },
            Phase::Confirming => match event {
                Event::Done => (
                    Session { request, name, phase: Phase::Releasing, report },
                    Action::ReleaseLock,
                ),
                _ => Session::abandon(request, name, Failure::MissingArtifact),
            },
            Phase::Releasing => {
                let outcome = match (event, report) {
                    (Event::Done, report) => report,
                    (_, Outcome::Failed { failure }) => Outcome::Failed { failure },
                    (_, _) => Outcome::Failed { failure: Failure::Release },
                };
                (
                    Session {
                        request,
                        name,
                        phase: Phase::Finished,
                        report: Outcome::Failed { failure: Failure::Unexpected },
                    },
                    Action::Finish { outcome },
                )
            },
            Phase::Finished => (
                Session { request, name, phase: Phase::Finished, report },
                Action::Finish { outcome: Outcome::Failed { failure: Failure::Unexpected } },
            ),
        }
    }

    /// The step that follows the taking of the lock.
    fn locked(request: Request, name: String) -> (r: (Session, Action))
        ensures
            r.0.request() == request,
            r.0.name() == name@,
            after_lock(
                Session {
                    request,
                    name,
                    phase: Phase::Locking,
                    report: Outcome::Failed { failure: Failure::Lock },
                },
                r.0,
                r.1,
            ),
    {
        let planned = match &request {
            Request::Init { gfx_ver, config_template, manifest_template, .. } => Some(
                create_kernel_structure(
                    name.as_str(),
                    as_optional_text(gfx_ver),
                    config_template.as_str(),
                    manifest_template.as_str(),
                ),
            ),
            _ => None,
        };
        match planned {
            Some(Ok(plan)) => {
                let stale = cleanup_kernel_structure(name.as_str());
                let stub = dummy_preamble();
                (
                    Session {
                        request,
                        name,
                        phase: Phase::Scaffolding,
                        report: Outcome::Initialized { stub },
                    },
                    Action::Scaffold { stale, plan },
                )
            },
            Some(Err(_)) => Session::abandon(request, name, Failure::Scaffold),
            None => {
                let path = store_path(name.as_str());
                (
                    Session {
                        request,
                        name,
                        phase: Phase::ReadingStore,
                        report: Outcome::Failed { failure: Failure::Io },
                    },
                    Action::ReadStore { path },
                )
            },
        }
    }

    /// The step that follows the reading of the store file.
    fn store_read(request: Request, name: String, content: Option<String>) -> (r: (
        Session,
        Action,
    ))
        ensures
            r.0.request() == request,
            r.0.name() == name@,
            after_read(
                Session {
                    request,
                    name,
                    phase: Phase::ReadingStore,
                    report: Outcome::Failed { failure: Failure::Io },
                },
                content,
                r.0,
                r.1,
            ),
    {
        let existing = as_optional_text(&content);
        let written: Option<Result<(Vec<String>, String, Phase, Outcome), StoreError>> =
            match &request {
            Request::Contribute { identifier, source_text, .. } => Some(
                match store_kernel_item(existing, identifier.as_str(), source_text.as_str()) {
                    Ok(text) => Ok(
                        (store_path(name.as_str()), text, Phase::WritingStore, Outcome::Contributed),
                    ),
                    Err(e) => Err(e),
                },
            ),
            Request::Finalize { .. } => Some(
                match reconstruct_kernel_lib(existing) {
                    Ok(unit) => Ok(
                        (
                            source_unit_path(name.as_str()),
                            unit,
                            Phase::WritingUnit,
                            Outcome::Failed { failure: Failure::Io },
                        ),
                    ),
                    Err(e) => Err(e),
                },
            ),
            Request::Init { .. } => None,
        };
        match written {
            Some(Ok((path, text, phase, report))) => (
                Session { request, name, phase, report },
                Action::WriteFile { path, content: text },
            ),
            Some(Err(StoreError::Corrupt)) => Session::abandon(request, name, Failure::StoreCorrupt),
            Some(Err(StoreError::Unwritable)) => Session::abandon(
                request,
                name,
                Failure::StoreUnwritable,
            ),
            None => Session::abandon(request, name, Failure::Unexpected),
        }
    }
}

} // verus!
