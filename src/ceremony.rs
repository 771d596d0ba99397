//! The artifact-gated phases that a node walks through.
//!
//! A phase is skipped when its artifact is already in the node's data
//! directory. Otherwise it makes one isolated run, and that run is removed
//! before the phase ends, whatever the outcome. A [`PhaseRunner`] decides; its
//! caller performs the pending [`Task`] and hands back a [`Report`].

use crate::container::{fresh_run, Container, ContainerView};
use crate::protocol::texts;
use crate::scan::{
    enr_prefix, first_finished_line_with, first_line_with, lemma_match_stays, identity_text, scanner_ended, scanner_fed, scanner_wf, IdentityScanner,
    ScannerView,
};
use crate::{CeremonyError, DkgConfig};
use vstd::prelude::*;

verus! {

/// The files whose presence marks a phase as done.
#[derive(Debug, Clone, Copy, PartialEq, Eq, Structural)]
pub enum Artifact {
    IdentityKey,
    IdentityPublic,
    ConfigDefinition,
    CeremonyLock,
}

/// Where an artifact lives, relative to the data directory.
pub open spec fn artifact_path(a: Artifact) -> Seq<char> {
    match a {
        Artifact::IdentityKey => ".charon/charon-enr-private-key"@,
        Artifact::IdentityPublic => "enr.pub"@,
        Artifact::ConfigDefinition => ".charon/cluster-definition.json"@,
        Artifact::CeremonyLock => ".charon/cluster-lock.json"@,
    }
}

impl Artifact {
    pub fn relative_path(&self) -> (r: String)
        ensures
            r@ == artifact_path(*self),
    {
        match self {
            Artifact::IdentityKey => String::from_str(".charon/charon-enr-private-key"),
            Artifact::IdentityPublic => String::from_str("enr.pub"),
            Artifact::ConfigDefinition => String::from_str(".charon/cluster-definition.json"),
            Artifact::CeremonyLock => String::from_str(".charon/cluster-lock.json"),
        }
    }
}

/// The image that every run uses.
pub open spec fn tool_image() -> Seq<char> {
    "obolnetwork/charon:v1.1.1"@
}

/// Where the data directory is mounted inside a run.
pub open spec fn mount_point() -> Seq<char> {
    "/opt/charon"@
}

/// The bind mount of a data directory.
pub open spec fn bind_of(data_dir: Seq<char>) -> Seq<char> {
    data_dir + ":"@ + mount_point()
}

/// A run of the tool with these arguments and the data directory mounted.
pub open spec fn tool_run(data_dir: Seq<char>, cmd: Seq<Seq<char>>) -> ContainerView {
    ContainerView { cmd: Some(cmd), binds: Some(seq![bind_of(data_dir)]), ..fresh_run(tool_image()) }
}

/// The decimal digits of `n`.
pub open spec fn decimal(n: nat) -> Seq<char>
    decreases n,
{
    let digit = digit_char(n % 10);
    if n < 10 {
        seq![digit]
    } else {
        decimal(n / 10).push(digit)
    }
}

/// The items of `v` joined with commas.
pub open spec fn join_commas(v: Seq<Seq<char>>) -> Seq<char>
    decreases v.len(),
{
    if v.len() == 0 {
        seq![]
    } else if v.len() == 1 {
        v[0]
    } else {
        join_commas(v.drop_last()) + ","@ + v.last()
    }
}

pub struct DkgConfigView {
    pub name: Seq<char>,
    pub validator_count: u32,
    pub enrs: Seq<Seq<char>>,
    pub fee_recipient: Seq<char>,
    pub withdrawal: Seq<char>,
}

impl View for DkgConfig {
    type V = DkgConfigView;

    open spec fn view(&self) -> DkgConfigView {
        DkgConfigView {
            name: self.name@,
            validator_count: self.validator_count,
            enrs: texts(self.enrs@),
            fee_recipient: self.fee_recipient_address@,
            withdrawal: self.withdrawal_address@,
        }
    }
}

/// The arguments that author a configuration: the operator's own identity
/// comes first among the identities, then the configuration's.
pub open spec fn config_cmd(own: Seq<char>, c: DkgConfigView) -> Seq<Seq<char>> {
    seq![
        "create"@,
        "dkg"@,
        "--name"@,
        c.name,
        "--num-validators"@,
        decimal(c.validator_count as nat),
        "--fee-recipient-addresses"@,
        c.fee_recipient,
        "--withdrawal-addresses"@,
        c.withdrawal,
        "--operator-enrs"@,
        join_commas(seq![own] + c.enrs),
    ]
}

/// The arguments that generate an identity.
pub open spec fn identity_cmd() -> Seq<Seq<char>> {
    seq!["create"@, "enr"@]
}

/// The arguments that run the ceremony and publish its result.
pub open spec fn ceremony_cmd() -> Seq<Seq<char>> {
    seq!["dkg"@, "--publish"@]
}

/// The character of a decimal digit.
pub open spec fn digit_char(d: nat) -> char {
    seq!['0', '1', '2', '3', '4', '5', '6', '7', '8', '9'][d as int]
}

fn digit_text(d: u32) -> (r: &'static str)
    requires
        d < 10,
    ensures
        r@ == seq![digit_char(d as nat)],
{
    match d {
        0 => {
            proof {
                reveal_strlit("0");
            }
            "0"
        },
        1 => {
            proof {
                reveal_strlit("1");
            }
            "1"
        },
        2 => {
            proof {
                reveal_strlit("2");
            }
            "2"
        },
        3 => {
            proof {
                reveal_strlit("3");
            }
            "3"
        },
        4 => {
            proof {
                reveal_strlit("4");
            }
            "4"
        },
        5 => {
            proof {
                reveal_strlit("5");
            }
            "5"
        },
        6 => {
            proof {
                reveal_strlit("6");
            }
            "6"
        },
        7 => {
            proof {
                reveal_strlit("7");
            }
            "7"
        },
        8 => {
            proof {
                reveal_strlit("8");
            }
            "8"
        },
        _ => {
            proof {
                reveal_strlit("9");
            }
            "9"
        },
    }
}

/// The decimal digits of `n`.
fn decimal_text(n: u32) -> (r: String)
    ensures
        r@ == decimal(n as nat),
    decreases n,
{
    if n < 10 {
        let r = String::from_str(digit_text(n));
        assert(r@ =~= decimal(n as nat));
        r
    } else {
        let mut r = decimal_text(n / 10);
        r.append(digit_text(n % 10));
        assert(r@ =~= decimal(n as nat));
        r
    }
}

fn join_identities(own: &String, others: &Vec<String>) -> (r: String)
    ensures
        r@ == join_commas(seq![own@] + texts(others@)),
{
    let mut r = own.clone();
    let mut k: usize = 0;
    assert(seq![own@] + texts(others@.subrange(0, 0)) =~= seq![own@]);
    while k < others.len()
        invariant
            k <= others@.len(),
            r@ == join_commas(seq![own@] + texts(others@.subrange(0, k as int))),
        decreases others@.len() - k,
    {
        let ghost w = seq![own@] + texts(others@.subrange(0, k + 1));
        assert(w.drop_last() =~= seq![own@] + texts(others@.subrange(0, k as int)));
        r.append(",");
        r.append(others[k].as_str());
        k = k + 1;
    }
    assert(others@.subrange(0, others@.len() as int) =~= others@);
    r
}

fn tool_container(data_dir: &str, cmd: Vec<String>) -> (r: Container)
    ensures
        r@ == tool_run(data_dir@, texts(cmd@)),
{
    let mut c = Container::new(String::from_str("obolnetwork/charon:v1.1.1"));
    let mut bind = String::from_str(data_dir);
    bind.append(":");
    bind.append("/opt/charon");
    let binds = vec![bind];
    assert(texts(binds@) =~= seq![bind_of(data_dir@)]);
    c.cmd(cmd);
    c.binds(binds);
    c
}

/// The phases that a [`PhaseRunner`] can run.
#[derive(Debug, Clone, Copy, PartialEq, Eq, Structural)]
pub enum Phase {
    /// Generate the node's identity.
    Identity,
    /// Author the shared configuration (leader only).
    Authoring,
    /// Run the ceremony.
    Ceremony,
}

/// The artifact whose presence skips a phase.
pub open spec fn gate(p: Phase) -> Artifact {
    match p {
        Phase::Identity => Artifact::IdentityKey,
        Phase::Authoring => Artifact::ConfigDefinition,
        Phase::Ceremony => Artifact::CeremonyLock,
    }
}

/// The artifact whose contents a skipped or finished phase returns.
pub open spec fn result_artifact(p: Phase) -> Artifact {
    match p {
        Phase::Identity => Artifact::IdentityPublic,
        _ => Artifact::ConfigDefinition,
    }
}

/// The error of a phase whose run fails or leaves no artifact behind.
pub open spec fn phase_failure(p: Phase) -> CeremonyError {
    match p {
        Phase::Identity => CeremonyError::IdentityGenerationFailed,
        Phase::Authoring => CeremonyError::ConfigAuthoringFailed,
        Phase::Ceremony => CeremonyError::CeremonyFailed,
    }
}

/// Where a phase stands: each stage waits for one task to be performed.
#[derive(Debug, Clone, Copy, PartialEq, Eq, Structural)]
pub enum Stage {
    Checking,
    Reading,
    Launching,
    Streaming,
    Writing,
    Waiting,
    Removing,
    Finished,
}

/// What a runner asks its caller to do.
#[derive(Debug, PartialEq, Eq)]
pub enum Task {
    /// Report whether the artifact exists.
    CheckArtifact(Artifact),
    /// Report the artifact's contents.
    ReadArtifact(Artifact),
    /// Write the artifact, then report `Written`.
    WriteArtifact(Artifact, String),
    /// Create and start this run, then report `Launched`.
    Launch(Container),
    /// Report the next chunk of the run's output, or its end.
    StreamOutput,
    /// Wait for the run to exit and report how.
    AwaitExit,
    /// Remove the run, then report `Removed`.
    Remove,
    /// The phase succeeded with this value.
    Complete(String),
    /// The phase failed.
    Abort(CeremonyError),
}

pub enum TaskView {
    CheckArtifact(Artifact),
    ReadArtifact(Artifact),
    WriteArtifact(Artifact, Seq<char>),
    Launch(ContainerView),
    StreamOutput,
    AwaitExit,
    Remove,
    Complete(Seq<char>),
    Abort(CeremonyError),
}

impl View for Task {
    type V = TaskView;

    open spec fn view(&self) -> TaskView {
        match self {
            Task::CheckArtifact(a) => TaskView::CheckArtifact(*a),
            Task::ReadArtifact(a) => TaskView::ReadArtifact(*a),
            Task::WriteArtifact(a, s) => TaskView::WriteArtifact(*a, s@),
            Task::Launch(c) => TaskView::Launch(c@),
            Task::StreamOutput => TaskView::StreamOutput,
            Task::AwaitExit => TaskView::AwaitExit,
            Task::Remove => TaskView::Remove,
            Task::Complete(s) => TaskView::Complete(s@),
            Task::Abort(e) => TaskView::Abort(*e),
        }
    }
}

/// What the caller reports after performing a task.
#[derive(Debug, PartialEq, Eq)]
pub enum Report {
    Exists(bool),
    Read(String),
    Written,
    Launched,
    /// The next chunk of the run's combined output.
    Output(Vec<u8>),
    OutputEnded,
    /// The run exited; `true` when it succeeded.
    Exited(bool),
    Removed,
    /// The runtime or the artifact store failed.
    IoFailed,
}

pub enum ReportView {
    Exists(bool),
    Read(Seq<char>),
    Written,
    Launched,
    Output(Seq<u8>),
    OutputEnded,
    Exited(bool),
    Removed,
    IoFailed,
}

impl View for Report {
    type V = ReportView;

    open spec fn view(&self) -> ReportView {
        match self {
            Report::Exists(b) => ReportView::Exists(*b),
            Report::Read(s) => ReportView::Read(s@),
            Report::Written => ReportView::Written,
            Report::Launched => ReportView::Launched,
            Report::Output(c) => ReportView::Output(c@),
            Report::OutputEnded => ReportView::OutputEnded,
            Report::Exited(ok) => ReportView::Exited(*ok),
            Report::Removed => ReportView::Removed,
            Report::IoFailed => ReportView::IoFailed,
        }
    }
}

pub struct RunnerView {
    pub phase: Phase,
    pub stage: Stage,
    pub run: ContainerView,
    pub scanner: ScannerView,
    /// How many runs the phase has launched.
    pub launches: nat,
    /// Whether a launched run has not been removed yet.
    pub live: bool,
    /// The result, once decided; while removing, `None` means that the
    /// artifact is checked again after the removal.
    pub outcome: Option<Result<Seq<char>, CeremonyError>>,
}

/// A scanner for identity lines before any output.
pub open spec fn fresh_scanner() -> ScannerView {
    ScannerView { prefix: enr_prefix(), seen: seq![], ended: false, found: None }
}

/// A phase before any report.
pub open spec fn runner_init(phase: Phase, run: ContainerView) -> RunnerView {
    RunnerView {
        phase,
        stage: Stage::Checking,
        run,
        scanner: fresh_scanner(),
        launches: 0,
        live: false,
        outcome: None,
    }
}

/// The task that a runner waits on.
pub open spec fn pending_task(s: RunnerView) -> TaskView {
    match s.stage {
        Stage::Checking => TaskView::CheckArtifact(gate(s.phase)),
        Stage::Reading => TaskView::ReadArtifact(result_artifact(s.phase)),
        Stage::Launching => TaskView::Launch(s.run),
        Stage::Streaming => TaskView::StreamOutput,
        Stage::Writing => TaskView::WriteArtifact(Artifact::IdentityPublic, identity_text(s.scanner)),
        Stage::Waiting => TaskView::AwaitExit,
        Stage::Removing => TaskView::Remove,
        Stage::Finished => match s.outcome {
            Some(Ok(v)) => TaskView::Complete(v),
            Some(Err(e)) => TaskView::Abort(e),
            None => TaskView::Abort(CeremonyError::ProcessIOFailed),
        },
    }
}

/// A runner's state after one report. A report that the stage does not wait
/// for changes nothing, but for a failure of the runtime or the store.
pub open spec fn runner_next(s: RunnerView, r: ReportView) -> RunnerView {
    match (s.stage, r) {
        (Stage::Finished, _) => s,
        (Stage::Checking, ReportView::Exists(present)) => {
            if present {
                if s.phase == Phase::Ceremony {
                    RunnerView { stage: Stage::Finished, outcome: Some(Ok(seq![])), ..s }
                } else {
                    RunnerView { stage: Stage::Reading, ..s }
                }
            } else if s.launches == 0 {
                RunnerView { stage: Stage::Launching, launches: 1, live: true, ..s }
            } else {
                RunnerView { stage: Stage::Finished, outcome: Some(Err(phase_failure(s.phase))), ..s }
            }
        },
        (Stage::Reading, ReportView::Read(c)) => {
            RunnerView { stage: Stage::Finished, outcome: Some(Ok(c)), ..s }
        },
        (Stage::Launching, ReportView::Launched) => {
            if s.phase == Phase::Identity {
                RunnerView { stage: Stage::Streaming, ..s }
            } else {
                RunnerView { stage: Stage::Waiting, ..s }
            }
        },
        (Stage::Streaming, ReportView::Output(chunk)) => {
            let scanner = scanner_fed(s.scanner, chunk);
            if scanner.found is Some {
                RunnerView { stage: Stage::Waiting, scanner, ..s }
            } else {
                RunnerView { scanner, ..s }
            }
        },
        (Stage::Streaming, ReportView::OutputEnded) => {
            RunnerView { stage: Stage::Waiting, scanner: scanner_ended(s.scanner), ..s }
        },
        (Stage::Writing, ReportView::Written) => {
            RunnerView { stage: Stage::Removing, outcome: Some(Ok(identity_text(s.scanner))), ..s }
        },
        (Stage::Waiting, ReportView::Exited(ok)) => if s.phase == Phase::Identity {
            if ok && s.scanner.found is Some {
                RunnerView { stage: Stage::Writing, ..s }
            } else {
                RunnerView {
                    stage: Stage::Removing,
                    outcome: Some(Err(CeremonyError::IdentityGenerationFailed)),
                    ..s
                }
            }
        } else {
            RunnerView {
                stage: Stage::Removing,
                outcome: if ok {
                    None
                } else {
                    Some(Err(phase_failure(s.phase)))
                },
                ..s
            }
        },
        (Stage::Removing, ReportView::Removed) => {
            if s.outcome is Some {
                RunnerView { stage: Stage::Finished, live: false, ..s }
            } else {
                RunnerView { stage: Stage::Checking, live: false, ..s }
            }
        },
        (Stage::Removing, ReportView::IoFailed) => {
            RunnerView {
                stage: Stage::Finished,
                outcome: Some(Err(CeremonyError::ProcessIOFailed)),
                ..s
            }
        },
        (_, ReportView::IoFailed) => {
            if s.live {
                RunnerView {
                    stage: Stage::Removing,
                    outcome: Some(Err(CeremonyError::ProcessIOFailed)),
                    ..s
                }
            } else {
                RunnerView {
                    stage: Stage::Finished,
                    outcome: Some(Err(CeremonyError::ProcessIOFailed)),
                    ..s
                }
            }
        },
        _ => s,
    }
}

/// A runner's state after a sequence of reports.
pub open spec fn runner_run(s: RunnerView, reports: Seq<ReportView>) -> RunnerView
    decreases reports.len(),
{
    if reports.len() == 0 {
        s
    } else {
        runner_run(runner_next(s, reports[0]), reports.drop_first())
    }
}

/// At most one run per phase; a run is live exactly while the stages that
/// use it last; a finished phase has a result, and leaves a run behind only
/// when removing it failed.
pub open spec fn runner_wf(s: RunnerView) -> bool {
    &&& s.launches <= 1
    &&& (s.live ==> s.launches == 1)
    &&& (s.stage == Stage::Launching || s.stage == Stage::Streaming || s.stage == Stage::Writing
        || s.stage == Stage::Waiting || s.stage == Stage::Removing ==> s.live)
    &&& (s.stage == Stage::Checking || s.stage == Stage::Reading ==> !s.live)
    &&& (s.stage == Stage::Finished ==> s.outcome is Some)
    &&& (s.stage == Stage::Finished && s.live ==> s.outcome == Some(
        Err::<Seq<char>, CeremonyError>(CeremonyError::ProcessIOFailed),
    ))
    &&& (s.stage == Stage::Writing ==> s.scanner.found is Some)
    &&& scanner_wf(s.scanner)
    &&& (s.stage == Stage::Checking || s.stage == Stage::Reading || s.stage == Stage::Launching
        || s.stage == Stage::Streaming || s.stage == Stage::Writing || s.stage == Stage::Waiting
        ==> s.outcome is None)
}

pub open spec fn opt_outcome(o: Option<Result<String, CeremonyError>>) -> Option<
    Result<Seq<char>, CeremonyError>,
> {
    match o {
        Some(Ok(s)) => Some(Ok(s@)),
        Some(Err(e)) => Some(Err(e)),
        None => None,
    }
}

/// One phase of a node, from the artifact check to the removal of its run.
pub struct PhaseRunner {
    phase: Phase,
    stage: Stage,
    run: Container,
    scanner: IdentityScanner,
    launches: u64,
    live: bool,
    outcome: Option<Result<String, CeremonyError>>,
}

impl View for PhaseRunner {
    type V = RunnerView;

    closed spec fn view(&self) -> RunnerView {
        RunnerView {
            phase: self.phase,
            stage: self.stage,
            run: self.run@,
            scanner: self.scanner@,
            launches: self.launches as nat,
            live: self.live,
            outcome: opt_outcome(self.outcome),
        }
    }
}

impl PhaseRunner {
    pub open spec fn wf(&self) -> bool {
        runner_wf(self@)
    }

    /// A runner of `phase` that launches `run` if the phase's artifact is
    /// missing.
    pub fn new(phase: Phase, run: Container) -> (r: PhaseRunner)
        ensures
            r.wf(),
            r@ == runner_init(phase, run@),
    {
        PhaseRunner {
            phase,
            stage: Stage::Checking,
            run,
            scanner: IdentityScanner::for_enr(),
            launches: 0,
            live: false,
            outcome: None,
        }
    }

    pub fn stage(&self) -> (r: Stage)
        ensures
            r == self@.stage,
    {
        self.stage
    }

    /// Whether the phase has a result.
    pub fn is_finished(&self) -> (r: bool)
        ensures
            r == (self@.stage == Stage::Finished),
    {
        self.stage == Stage::Finished
    }

    /// The task that the runner waits on.
    pub fn task(&self) -> (t: Task)
        requires
            self.wf(),
        ensures
            t@ == pending_task(self@),
    {
        match self.stage {
            Stage::Checking => Task::CheckArtifact(match self.phase {
                Phase::Identity => Artifact::IdentityKey,
                Phase::Authoring => Artifact::ConfigDefinition,
                Phase::Ceremony => Artifact::CeremonyLock,
            }),
            Stage::Reading => Task::ReadArtifact(match self.phase {
                Phase::Identity => Artifact::IdentityPublic,
                _ => Artifact::ConfigDefinition,
            }),
            Stage::Launching => Task::Launch(self.run.clone()),
            Stage::Streaming => Task::StreamOutput,
            Stage::Writing => match self.scanner.identity() {
                Some(t) => Task::WriteArtifact(Artifact::IdentityPublic, t),
                None => Task::WriteArtifact(Artifact::IdentityPublic, String::new()),
            },
            Stage::Waiting => Task::AwaitExit,
            Stage::Removing => Task::Remove,
            Stage::Finished => match &self.outcome {
                Some(Ok(v)) => Task::Complete(v.clone()),
                Some(Err(e)) => Task::Abort(*e),
                None => Task::Abort(CeremonyError::ProcessIOFailed),
            },
        }
    }

    fn fail_io(&mut self)
        requires
            old(self).wf(),
            old(self)@.stage != Stage::Finished,
            old(self)@.stage != Stage::Removing,
        ensures
            final(self)@ == runner_next(old(self)@, ReportView::IoFailed),
            final(self).wf(),
    {
        self.outcome = Some(Err(CeremonyError::ProcessIOFailed));
        if self.live {
            self.stage = Stage::Removing;
        } else {
            self.stage = Stage::Finished;
        }
    }

    /// Takes the report of the pending task and answers with the next one.
    pub fn step(&mut self, report: Report) -> (t: Task)
        requires
            old(self).wf(),
        ensures
            final(self).wf(),
            final(self)@ == runner_next(old(self)@, report@),
            t@ == pending_task(final(self)@),
    {
        let ghost s = self@;
        let ghost rv = report@;
        match self.stage {
            Stage::Finished => {},
            Stage::Checking => match report {
                Report::Exists(present) => {
                    if present {
                        if self.phase == Phase::Ceremony {
                            self.stage = Stage::Finished;
                            self.outcome = Some(Ok(String::new()));
                        } else {
                            self.stage = Stage::Reading;
                        }
                    } else if self.launches == 0 {
                        self.stage = Stage::Launching;
                        self.launches = 1;
                        self.live = true;
                    } else {
                        self.stage = Stage::Finished;
                        self.outcome = Some(Err(match self.phase {
                            Phase::Identity => CeremonyError::IdentityGenerationFailed,
                            Phase::Authoring => CeremonyError::ConfigAuthoringFailed,
                            Phase::Ceremony => CeremonyError::CeremonyFailed,
                        }));
                    }
                },
                Report::IoFailed => self.fail_io(),
                _ => {},
            },
            Stage::Reading => match report {
                Report::Read(c) => {
                    self.stage = Stage::Finished;
                    self.outcome = Some(Ok(c));
                },
                Report::IoFailed => self.fail_io(),
                _ => {},
            },
            Stage::Launching => match report {
                Report::Launched => {
                    if self.phase == Phase::Identity {
                        self.stage = Stage::Streaming;
                    } else {
                        self.stage = Stage::Waiting;
                    }
                },
                Report::IoFailed => self.fail_io(),
                _ => {},
            },
            Stage::Streaming => match report {
                Report::Output(chunk) => {
                    self.scanner.feed(&chunk);
                    if self.scanner.is_done() {
                        self.stage = Stage::Waiting;
                    }
                },
                Report::OutputEnded => {
                    self.scanner.end();
                    self.stage = Stage::Waiting;
                },
                Report::IoFailed => self.fail_io(),
                _ => {},
            },
            Stage::Writing => match report {
                Report::Written => {
                    self.stage = Stage::Removing;
                    self.outcome = match self.scanner.identity() {
                        Some(t) => Some(Ok(t)),
                        None => Some(Ok(String::new())),
                    };
                },
                Report::IoFailed => self.fail_io(),
                _ => {},
            },
            Stage::Waiting => match report {
                Report::Exited(ok) => {
                    if self.phase == Phase::Identity {
                        if ok && self.scanner.is_done() {
                            self.stage = Stage::Writing;
                        } else {
                            self.stage = Stage::Removing;
                            self.outcome = Some(Err(CeremonyError::IdentityGenerationFailed));
                        }
                    } else {
                        self.stage = Stage::Removing;
                        if !ok {
                            self.outcome = Some(Err(match self.phase {
                                Phase::Identity => CeremonyError::IdentityGenerationFailed,
                                Phase::Authoring => CeremonyError::ConfigAuthoringFailed,
                                Phase::Ceremony => CeremonyError::CeremonyFailed,
                            }));
                        }
                    }
                },
                Report::IoFailed => self.fail_io(),
                _ => {},
            },
            Stage::Removing => match report {
                Report::Removed => {
                    self.live = false;
                    if self.outcome.is_some() {
                        self.stage = Stage::Finished;
                    } else {
                        self.stage = Stage::Checking;
                    }
                },
                Report::IoFailed => {
                    self.stage = Stage::Finished;
                    self.outcome = Some(Err(CeremonyError::ProcessIOFailed));
                },
                _ => {},
            },
        }
        assert(self@ == runner_next(s, rv));
        self.task()
    }
}

/// A node's operator: its data directory and its identity.
pub struct Operator {
    data_dir: String,
    enr: String,
}

pub struct OperatorView {
    pub data_dir: Seq<char>,
    pub enr: Seq<char>,
}

impl View for Operator {
    type V = OperatorView;

    closed spec fn view(&self) -> OperatorView {
        OperatorView { data_dir: self.data_dir@, enr: self.enr@ }
    }
}

impl Operator {
    /// An operator whose data directory and identity are known; the identity
    /// comes from [`create_enr`] or from a stored artifact.
    pub fn new(data_dir: String, enr: String) -> (r: Operator)
        ensures
            r@ == (OperatorView { data_dir: data_dir@, enr: enr@ }),
    {
        Operator { data_dir, enr }
    }

    pub fn enr(&self) -> (r: &str)
        ensures
            r@ == self@.enr,
    {
        self.enr.as_str()
    }

    pub fn data_dir(&self) -> (r: &str)
        ensures
            r@ == self@.data_dir,
    {
        self.data_dir.as_str()
    }

    /// The authoring phase for `config`: skipped when a configuration is
    /// already stored, whose contents it then returns.
    pub fn create_dkg_config(&self, config: &DkgConfig) -> (r: PhaseRunner)
        ensures
            r.wf(),
            r@ == runner_init(Phase::Authoring, tool_run(self@.data_dir, config_cmd(self@.enr, config@))),
    {
        let cmd = vec![
            String::from_str("create"),
            String::from_str("dkg"),
            String::from_str("--name"),
            config.name.clone(),
            String::from_str("--num-validators"),
            decimal_text(config.validator_count),
            String::from_str("--fee-recipient-addresses"),
            config.fee_recipient_address.clone(),
            String::from_str("--withdrawal-addresses"),
            config.withdrawal_address.clone(),
            String::from_str("--operator-enrs"),
            join_identities(&self.enr, &config.enrs),
        ];
        assert(texts(cmd@) =~= config_cmd(self.enr@, config@));
        PhaseRunner::new(Phase::Authoring, tool_container(self.data_dir.as_str(), cmd))
    }

    /// Asks for the stored configuration's contents.
    pub fn fetch_dkg_config(&self) -> (t: Task)
        ensures
            t@ == TaskView::ReadArtifact(Artifact::ConfigDefinition),
    {
        Task::ReadArtifact(Artifact::ConfigDefinition)
    }

    /// Asks for `config` to be stored, overwriting any stored configuration.
    pub fn copy_in_dkg_config(&self, config: String) -> (t: Task)
        ensures
            t@ == TaskView::WriteArtifact(Artifact::ConfigDefinition, config@),
    {
        Task::WriteArtifact(Artifact::ConfigDefinition, config)
    }

    /// The ceremony phase: skipped when the lock is already stored.
    pub fn start_dkg_ceremony(&self) -> (r: PhaseRunner)
        ensures
            r.wf(),
            r@ == runner_init(Phase::Ceremony, tool_run(self@.data_dir, ceremony_cmd())),
    {
        let cmd = vec![String::from_str("dkg"), String::from_str("--publish")];
        assert(texts(cmd@) =~= ceremony_cmd());
        PhaseRunner::new(Phase::Ceremony, tool_container(self.data_dir.as_str(), cmd))
    }
}

/// The identity phase for a data directory: skipped when an identity key is
/// stored, whose public identity it then returns; otherwise the first output
/// line that starts with `enr:-` is the identity, and it is stored.
pub fn create_enr(data_dir: &str) -> (r: PhaseRunner)
    ensures
        r.wf(),
        r@ == runner_init(Phase::Identity, tool_run(data_dir@, identity_cmd())),
{
    let cmd = vec![String::from_str("create"), String::from_str("enr")];
    assert(texts(cmd@) =~= identity_cmd());
    PhaseRunner::new(Phase::Identity, tool_container(data_dir, cmd))
}

// ------------------------------------------------------------------ laws

/// Every report keeps a runner well formed: in particular a phase finishes
/// with its run removed, unless the removal itself failed.
pub proof fn lemma_runner_wf_preserved(s: RunnerView, r: ReportView)
    requires
        runner_wf(s),
    ensures
        runner_wf(runner_next(s, r)),
{
}

/// Whether a task names the ceremony lock.
pub open spec fn touches_lock(t: TaskView) -> bool {
    match t {
        TaskView::CheckArtifact(a) => a == Artifact::CeremonyLock,
        TaskView::ReadArtifact(a) => a == Artifact::CeremonyLock,
        TaskView::WriteArtifact(a, _) => a == Artifact::CeremonyLock,
        _ => false,
    }
}

/// Only the ceremony phase checks for, reads or writes the ceremony lock:
/// identity generation and configuration authoring never ask for it, in any
/// state.
pub proof fn lemma_lock_untouched_outside_ceremony(s: RunnerView)
    requires
        s.phase != Phase::Ceremony,
    ensures
        !touches_lock(pending_task(s)),
{
}

spec fn skipped_authoring(s: RunnerView) -> bool {
    &&& s.phase == Phase::Authoring
    &&& s.launches == 0
    &&& !s.live
    &&& (s.stage == Stage::Reading || s.stage == Stage::Finished)
}

proof fn lemma_skipped_authoring_stays(s: RunnerView, reports: Seq<ReportView>)
    requires
        skipped_authoring(s),
    ensures
        skipped_authoring(runner_run(s, reports)),
    decreases reports.len(),
{
    if reports.len() > 0 {
        lemma_skipped_authoring_stays(runner_next(s, reports[0]), reports.drop_first());
    }
}

/// When the configuration is already stored, authoring reads it and returns
/// its contents, and launches no run, whatever is reported afterwards. So
/// authoring twice against the same stored configuration returns the same
/// bytes and runs nothing the second time.
pub proof fn lemma_authoring_skipped_when_present(
    run: ContainerView,
    stored: Seq<char>,
    later: Seq<ReportView>,
)
    ensures
        pending_task(runner_init(Phase::Authoring, run)) == TaskView::CheckArtifact(
            Artifact::ConfigDefinition,
        ),
        pending_task(runner_next(runner_init(Phase::Authoring, run), ReportView::Exists(true)))
            == TaskView::ReadArtifact(Artifact::ConfigDefinition),
        pending_task(
            runner_run(
                runner_init(Phase::Authoring, run),
                seq![ReportView::Exists(true), ReportView::Read(stored)],
            ),
        ) == TaskView::Complete(stored),
        runner_run(
            runner_init(Phase::Authoring, run),
            seq![ReportView::Exists(true)] + later,
        ).launches == 0,
{
    let s0 = runner_init(Phase::Authoring, run);
    let s1 = runner_next(s0, ReportView::Exists(true));
    let s2 = runner_next(s1, ReportView::Read(stored));
    let two = seq![ReportView::Exists(true), ReportView::Read(stored)];
    assert(two.drop_first() =~= seq![ReportView::Read(stored)]);
    assert(two.drop_first().drop_first() =~= seq![]);
    assert(runner_run(s0, two) == runner_run(s1, two.drop_first()));
    assert(runner_run(s1, two.drop_first()) == runner_run(s2, seq![]));
    let rest = seq![ReportView::Exists(true)] + later;
    assert(rest.drop_first() =~= later);
    assert(runner_run(s0, rest) == runner_run(s1, later));
    lemma_skipped_authoring_stays(s1, later);
}

/// A finished runner stays as it is, whatever is reported.
pub proof fn lemma_finished_stays(s: RunnerView, reports: Seq<ReportView>)
    requires
        s.stage == Stage::Finished,
    ensures
        runner_run(s, reports) == s,
    decreases reports.len(),
{
    if reports.len() > 0 {
        lemma_finished_stays(runner_next(s, reports[0]), reports.drop_first());
    }
}

/// When the ceremony lock is already stored, the ceremony phase succeeds at
/// once and launches no run, whatever is reported afterwards.
pub proof fn lemma_ceremony_skipped_when_locked(
    run: ContainerView,
    later: Seq<ReportView>,
)
    ensures
        pending_task(runner_init(Phase::Ceremony, run)) == TaskView::CheckArtifact(
            Artifact::CeremonyLock,
        ),
        pending_task(runner_next(runner_init(Phase::Ceremony, run), ReportView::Exists(true)))
            == TaskView::Complete(seq![]),
        runner_run(
            runner_init(Phase::Ceremony, run),
            seq![ReportView::Exists(true)] + later,
        ).launches == 0,
{
    let s0 = runner_init(Phase::Ceremony, run);
    let s1 = runner_next(s0, ReportView::Exists(true));
    let rest = seq![ReportView::Exists(true)] + later;
    assert(rest.drop_first() =~= later);
    assert(runner_run(s0, rest) == runner_run(s1, later));
    lemma_finished_stays(s1, later);
}

/// Chunks of output, as the reports that hand them over.
pub open spec fn output_reports(chunks: Seq<Seq<u8>>) -> Seq<ReportView> {
    Seq::new(chunks.len(), |k: int| ReportView::Output(chunks[k]))
}

proof fn lemma_streaming_without_match(s: RunnerView, chunks: Seq<Seq<u8>>)
    requires
        runner_wf(s),
        s.stage == Stage::Streaming,
        !s.scanner.ended,
        first_finished_line_with(s.scanner.seen + chunks.flatten(), s.scanner.prefix) is None,
    ensures
        runner_run(s, output_reports(chunks)) == (RunnerView {
            scanner: ScannerView { seen: s.scanner.seen + chunks.flatten(), found: None, ..s.scanner },
            ..s
        }),
    decreases chunks.len(),
{
    let pre = s.scanner.prefix;
    if chunks.len() == 0 {
        assert(s.scanner.seen + chunks.flatten() =~= s.scanner.seen);
        assert(s.scanner.found == first_finished_line_with(s.scanner.seen, pre));
    } else {
        let rs = output_reports(chunks);
        let seen1 = s.scanner.seen + chunks[0];
        assert(seen1 + chunks.drop_first().flatten() =~= s.scanner.seen + chunks.flatten());
        if first_finished_line_with(seen1, pre) is Some {
            lemma_match_stays(seen1, chunks.drop_first().flatten(), pre, 0);
        }
        let s1 = runner_next(s, rs[0]);
        assert(rs.drop_first() =~= output_reports(chunks.drop_first()));
        assert(runner_run(s, rs) == runner_run(s1, rs.drop_first()));
        lemma_streaming_without_match(s1, chunks.drop_first());
    }
}

/// When the identity run's whole output, however it is cut into chunks, holds
/// no line that starts with the prefix, the phase waits for the run to exit,
/// then asks for it to be removed, and only then fails with
/// `IdentityGenerationFailed`, with no run left. After the last chunk it is
/// still streaming, and none of the tasks that follow writes the identity.
pub proof fn lemma_identity_failure_removes_run(s: RunnerView, chunks: Seq<Seq<u8>>, ok: bool)
    requires
        runner_wf(s),
        s.phase == Phase::Identity,
        s.stage == Stage::Streaming,
        !s.scanner.ended,
        first_line_with(s.scanner.seen + chunks.flatten(), s.scanner.prefix) is None,
    ensures
        runner_run(s, output_reports(chunks)).stage == Stage::Streaming,
        pending_task(runner_run(s, output_reports(chunks) + seq![ReportView::OutputEnded]))
            == TaskView::AwaitExit,
        pending_task(
            runner_run(
                s,
                output_reports(chunks) + seq![ReportView::OutputEnded, ReportView::Exited(ok)],
            ),
        ) == TaskView::Remove,
        runner_run(
            s,
            output_reports(chunks) + seq![ReportView::OutputEnded, ReportView::Exited(ok)],
        ).live,
        runner_run(
            s,
            output_reports(chunks) + seq![
                ReportView::OutputEnded,
                ReportView::Exited(ok),
                ReportView::Removed,
            ],
        ).stage == Stage::Finished,
        !runner_run(
            s,
            output_reports(chunks) + seq![
                ReportView::OutputEnded,
                ReportView::Exited(ok),
                ReportView::Removed,
            ],
        ).live,
        pending_task(
            runner_run(
                s,
                output_reports(chunks) + seq![
                    ReportView::OutputEnded,
                    ReportView::Exited(ok),
                    ReportView::Removed,
                ],
            ),
        ) == TaskView::Abort(CeremonyError::IdentityGenerationFailed),
{
    let pre = s.scanner.prefix;
    let all = s.scanner.seen + chunks.flatten();
    if first_finished_line_with(all, pre) is Some {
        lemma_match_stays(all, seq![], pre, 0);
        assert(all + seq![] =~= all);
    }
    lemma_streaming_without_match(s, chunks);
    let a = output_reports(chunks);
    let t = runner_run(s, a);
    let e1 = seq![ReportView::OutputEnded];
    let e2 = seq![ReportView::OutputEnded, ReportView::Exited(ok)];
    let e3 = seq![ReportView::OutputEnded, ReportView::Exited(ok), ReportView::Removed];
    lemma_runner_run_append(s, a, e1);
    lemma_runner_run_append(s, a, e2);
    lemma_runner_run_append(s, a, e3);
    let t1 = runner_next(t, ReportView::OutputEnded);
    let t2 = runner_next(t1, ReportView::Exited(ok));
    let t3 = runner_next(t2, ReportView::Removed);
    assert(e1.drop_first() =~= seq![]);
    assert(runner_run(t, e1) == runner_run(t1, e1.drop_first()));
    assert(e2.drop_first() =~= seq![ReportView::Exited(ok)]);
    assert(e2.drop_first().drop_first() =~= seq![]);
    assert(runner_run(t, e2) == runner_run(t1, e2.drop_first()));
    assert(runner_run(t1, e2.drop_first()) == runner_run(t2, seq![]));
    assert(e3.drop_first() =~= seq![ReportView::Exited(ok), ReportView::Removed]);
    assert(e3.drop_first().drop_first() =~= seq![ReportView::Removed]);
    assert(e3.drop_first().drop_first().drop_first() =~= seq![]);
    assert(runner_run(t, e3) == runner_run(t1, e3.drop_first()));
    assert(runner_run(t1, e3.drop_first()) == runner_run(t2, e3.drop_first().drop_first()));
    assert(runner_run(t2, e3.drop_first().drop_first()) == runner_run(t3, seq![]));
}

/// A runner's run over `a` then `b` is its run over `a` continued over `b`.
pub proof fn lemma_runner_run_append(s: RunnerView, a: Seq<ReportView>, b: Seq<ReportView>)
    ensures
        runner_run(s, a + b) == runner_run(runner_run(s, a), b),
    decreases a.len(),
{
    if a.len() > 0 {
        assert((a + b).drop_first() =~= a.drop_first() + b);
        lemma_runner_run_append(runner_next(s, a[0]), a.drop_first(), b);
    } else {
        assert(a + b =~= b);
    }
}

} // verus!
