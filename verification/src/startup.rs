//! The order of the startup steps, and what a failure of each is called.
//!
//! Each step before serving is fatal where it fails: the caller stops with
//! the step's diagnostic. The caller does the work of a step and reports
//! whether it succeeded; [`proceed`] says what comes next.

use vstd::prelude::*;
use vstd::string::*;

verus! {

/// The steps of a startup, in their order.
#[derive(Clone, Copy, Debug, PartialEq, Eq, Structural)]
pub enum Stage {
    /// Reading the files that the arguments name.
    ReadConfig,
    /// Parsing the expanded arguments.
    ParseArguments,
    /// Opening the server certificate.
    OpenCertificate,
    /// Opening the server certificate's key.
    OpenKey,
    /// Opening the trusted CA certificate.
    OpenCa,
    /// Making the TLS configuration from the three files.
    BuildTls,
    /// Making the application.
    BuildApp,
    /// Binding the listening socket.
    Bind,
    /// Accepting connections.
    Serve,
}

/// What follows a step.
#[derive(Debug)]
pub enum Progress {
    /// The step succeeded: do this one next.
    Next(Stage),
    /// The step failed: stop, with this diagnostic where the step has one
    /// of its own.
    Abort { context: Option<String> },
    /// Serving has ended: stop without error.
    Finished,
}

/// What follows a step, with its text as a sequence of characters.
pub enum ProgressView {
    Next(Stage),
    Abort { context: Option<Seq<char>> },
    Finished,
}

impl View for Progress {
    type V = ProgressView;

    open spec fn view(&self) -> ProgressView {
        match *self {
            Progress::Next(stage) => ProgressView::Next(stage),
            Progress::Abort { context } => ProgressView::Abort {
                context: match context {
                    Some(c) => Some(c@),
                    None => None,
                },
            },
            Progress::Finished => ProgressView::Finished,
        }
    }
}

/// A step's place in the order, from 0.
pub open spec fn rank(stage: Stage) -> nat {
    match stage {
        Stage::ReadConfig => 0,
        Stage::ParseArguments => 1,
        Stage::OpenCertificate => 2,
        Stage::OpenKey => 3,
        Stage::OpenCa => 4,
        Stage::BuildTls => 5,
        Stage::BuildApp => 6,
        Stage::Bind => 7,
        Stage::Serve => 8,
    }
}

/// The step after `stage`, where there is one.
pub open spec fn successor(stage: Stage) -> Option<Stage> {
    match stage {
        Stage::ReadConfig => Some(Stage::ParseArguments),
        Stage::ParseArguments => Some(Stage::OpenCertificate),
        Stage::OpenCertificate => Some(Stage::OpenKey),
        Stage::OpenKey => Some(Stage::OpenCa),
        Stage::OpenCa => Some(Stage::BuildTls),
        Stage::BuildTls => Some(Stage::BuildApp),
        Stage::BuildApp => Some(Stage::Bind),
        Stage::Bind => Some(Stage::Serve),
        Stage::Serve => None,
    }
}

/// The diagnostic of a failure of `stage`, the server binding to `addr`.
/// Parsing reports its own errors, and serving has no fatal failure.
pub open spec fn context_of(stage: Stage, addr: Seq<char>) -> Option<Seq<char>> {
    match stage {
        Stage::ReadConfig => Some("Failed to read config file"@),
        Stage::ParseArguments => None,
        Stage::OpenCertificate => Some("Failed to open server certificate file"@),
        Stage::OpenKey => Some("Failed to open server key file"@),
        Stage::OpenCa => Some("Failed to open CA certificate file"@),
        Stage::BuildTls => Some("Failed to construct server TLS config"@),
        Stage::BuildApp => Some("Failed to build app"@),
        Stage::Bind => Some("Failed to bind to "@ + addr),
        Stage::Serve => None,
    }
}

/// What follows `stage`, which succeeded or not.
pub open spec fn progress_of(stage: Stage, succeeded: bool, addr: Seq<char>) -> ProgressView {
    match successor(stage) {
        None => ProgressView::Finished,
        Some(next) => if succeeded {
            ProgressView::Next(next)
        } else {
            ProgressView::Abort { context: context_of(stage, addr) }
        },
    }
}

/// The step that is due once the steps so far have ended as `outcomes`
/// says, first to last (`true` for a success), or `None` where the startup
/// has ended.
pub open spec fn stage_due(outcomes: Seq<bool>) -> Option<Stage>
    decreases outcomes.len(),
{
    if outcomes.len() == 0 {
        Some(Stage::ReadConfig)
    } else {
        match stage_due(outcomes.drop_last()) {
            None => None,
            Some(stage) => match progress_of(stage, outcomes.last(), Seq::empty()) {
                ProgressView::Next(next) => Some(next),
                _ => None,
            },
        }
    }
}

/// Whether `part` stands somewhere in `text`.
pub open spec fn contains(text: Seq<char>, part: Seq<char>) -> bool {
    exists|i: int| 0 <= i && i + part.len() <= text.len() && #[trigger] text.subrange(
        i,
        i + part.len(),
    ) == part
}

/// The step with which a startup begins.
pub fn first_stage() -> (stage: Stage)
    ensures
        rank(stage) == 0,
{
    Stage::ReadConfig
}

/// The diagnostic of a failure of `stage`, the server binding to `addr`.
pub fn failure_context(stage: Stage, addr: &str) -> (context: Option<String>)
    ensures
        context is Some <==> context_of(stage, addr@) is Some,
        context is Some ==> context->0@ == context_of(stage, addr@)->0,
{
    match stage {
        Stage::ReadConfig => Some(String::from_str("Failed to read config file")),
        Stage::ParseArguments => None,
        Stage::OpenCertificate => Some(String::from_str("Failed to open server certificate file")),
        Stage::OpenKey => Some(String::from_str("Failed to open server key file")),
        Stage::OpenCa => Some(String::from_str("Failed to open CA certificate file")),
        Stage::BuildTls => Some(String::from_str("Failed to construct server TLS config")),
        Stage::BuildApp => Some(String::from_str("Failed to build app")),
        Stage::Bind => Some(String::from_str("Failed to bind to ").concat(addr)),
        Stage::Serve => None,
    }
}

/// Decides what follows `stage`: the next step where it succeeded, the end
/// of the startup where it failed.
pub fn proceed(stage: Stage, succeeded: bool, addr: &str) -> (progress: Progress)
    ensures
        progress@ == progress_of(stage, succeeded, addr@),
{
    let next: Stage = match stage {
        Stage::ReadConfig => Stage::ParseArguments,
        Stage::ParseArguments => Stage::OpenCertificate,
        Stage::OpenCertificate => Stage::OpenKey,
        Stage::OpenKey => Stage::OpenCa,
        Stage::OpenCa => Stage::BuildTls,
        Stage::BuildTls => Stage::BuildApp,
        Stage::BuildApp => Stage::Bind,
        Stage::Bind => Stage::Serve,
        Stage::Serve => {
            return Progress::Finished;
        },
    };
    if succeeded {
        Progress::Next(next)
    } else {
        Progress::Abort { context: failure_context(stage, addr) }
    }
}

/// Steps follow one another in the order of their ranks.
pub proof fn lemma_successor_is_next(stage: Stage)
    ensures
        successor(stage) is Some ==> rank(successor(stage)->0) == rank(stage) + 1,
        successor(stage) is None <==> stage == Stage::Serve,
{
}

/// A step before serving that fails ends the startup, whatever the step:
/// nothing after it is begun.
pub proof fn lemma_failure_is_fatal(stage: Stage, addr: Seq<char>)
    requires
        stage != Stage::Serve,
    ensures
        progress_of(stage, false, addr) is Abort,
{
}

/// A step is due only after every step before it has succeeded, and the
/// steps come due in the order of their ranks.
pub proof fn lemma_steps_come_due_in_order(outcomes: Seq<bool>)
    ensures
        stage_due(outcomes) is Some ==> rank(stage_due(outcomes)->0) == outcomes.len(),
        stage_due(outcomes) is Some ==> forall|i: int| 0 <= i < outcomes.len() ==> outcomes[i],
    decreases outcomes.len(),
{
    if outcomes.len() > 0 {
        lemma_steps_come_due_in_order(outcomes.drop_last());
        if stage_due(outcomes) is Some {
            assert forall|i: int| 0 <= i < outcomes.len() implies outcomes[i] by {
                if i < outcomes.len() - 1 {
                    assert(outcomes.drop_last()[i] == outcomes[i]);
                }
            }
        }
    }
}

/// Once a step has failed, no step is due any more: in particular the
/// socket is never bound after a file could not be opened.
pub proof fn lemma_nothing_follows_a_failure(outcomes: Seq<bool>, failed: int)
    requires
        0 <= failed < outcomes.len(),
        !outcomes[failed],
    ensures
        stage_due(outcomes) is None,
{
    lemma_steps_come_due_in_order(outcomes);
}

/// A server certificate that cannot be opened ends the startup with a
/// diagnostic that names the server certificate file, and the step that
/// fails comes before the socket is bound.
pub proof fn lemma_certificate_failure(addr: Seq<char>)
    ensures
        progress_of(Stage::OpenCertificate, false, addr) is Abort,
        progress_of(Stage::OpenCertificate, false, addr)->Abort_context is Some,
        contains(
            progress_of(Stage::OpenCertificate, false, addr)->Abort_context->0,
            "server certificate file"@,
        ),
        rank(Stage::OpenCertificate) < rank(Stage::Bind),
{
    reveal_strlit("Failed to open server certificate file");
    reveal_strlit("server certificate file");
    let text = "Failed to open server certificate file"@;
    let part = "server certificate file"@;
    assert(text.subrange(15, 15 + part.len() as int) == part);
}

} // verus!
