//! One deployment attempt as a state machine. The machine decides; a driver
//! acts. Each step takes what the driver observed, hands back the progress
//! lines to send and says what the driver is to do next.
//!
//! The stages follow one another in one direction only: probing for a
//! device, fetching the artifact, unpacking it where it is an archive,
//! locating the package in what was unpacked, installing, done.

use vstd::prelude::*;
use vstd::string::*;
use crate::events::{
    classify, device_status, exit_code, exit_code_of, show, shown, DeviceStatus, EventView,
    ProcessEvent, NOTHING_INSTALLED, NOT_TERMINATED,
};
use crate::failure::{DeployError, DeployErrorView};
use crate::lines::{
    concat, lemma_concat_push, line, line_text, texts, ARCHIVE_FOUND, CACHE_HIT, CHECKING_DEVICES,
    CREATING_ROOT, DEVELOPER_MODE_HELP, DOWNLOAD_DONE, DOWNLOAD_STARTS, INSTALLING, INSTALL_FAILED,
    INSTALL_OK, NO_DEVICE, PACKAGE_FOUND, PACKAGE_MISSING, ROOT_REUSED, SEARCHING, UNPACK_DONE,
    UNPACK_STARTS,
};
use crate::locate::{listing, locate_package, located, TreeEntry, TreeEntryView};
use crate::paths::{
    cache_file_name, cache_name, cache_path_of, cached_at, extraction_root_of, is_archive,
    is_archive_name, unpacked_at,
};

verus! {

/// The name of the bridge tool.
pub const BRIDGE_TOOL: &'static str = "hdc";

/// The name of the channel that the progress lines are sent on.
pub const PROGRESS_CHANNEL: &'static str = "hdc-output";

/// The six phases of a deployment, in the order in which they are passed.
#[derive(Clone, Copy, Debug, PartialEq, Eq, Structural)]
pub enum Phase {
    Probing,
    Fetching,
    Extracting,
    Locating,
    Installing,
    Done,
}

/// Where a deployment stands: its phase, and within the phase the answer
/// that it is waiting for.
#[derive(Clone, Copy, Debug, PartialEq, Eq, Structural)]
pub enum Stage {
    /// Waiting for the output of the device list.
    Probing,
    /// Waiting to hear whether the artifact is in the cache.
    CheckingCache,
    /// Waiting for the download to end.
    Downloading,
    /// Waiting to hear whether the archive was unpacked before.
    CheckingRoot,
    /// Waiting for the directory to unpack into.
    CreatingRoot,
    /// Waiting for the archive to be unpacked.
    Unpacking,
    /// Waiting for the list of the unpacked files.
    Locating,
    /// Waiting for the output of the installation.
    Installing,
    /// Nothing is left to do.
    Done,
}

/// What the driver observed.
#[derive(Debug, PartialEq, Eq)]
pub enum Input {
    /// The running process sent an event.
    Event(ProcessEvent),
    /// The running process's stream has ended.
    StreamClosed,
    /// Whether the file or directory asked about exists.
    Exists(bool),
    /// The work asked for was done.
    Completed,
    /// The entries found below the directory that was to be listed.
    Tree(Vec<TreeEntry>),
    /// The work asked for failed.
    Failed(DeployError),
}

/// What the driver is to do next.
#[derive(Debug, PartialEq, Eq)]
pub enum Action {
    /// Nothing new: go on with what was asked for.
    Await,
    /// Run the bridge tool's device list and report its events.
    ListTargets,
    /// Report whether a file exists at `path`.
    ProbeFile { path: String },
    /// Fetch `url` and save the response at `path`.
    Download { url: String, path: String },
    /// Report whether a directory exists at `path`.
    ProbeDir { path: String },
    /// Create the directory `path`.
    CreateDir { path: String },
    /// Unpack the archive at `archive` into the directory `root`.
    Extract { archive: String, root: String },
    /// List what lies below the directory `root`.
    Walk { root: String },
    /// Run the bridge tool's installation of `package` and report its
    /// events.
    Install { package: String },
    /// Stop: the deployment has its result.
    Finish,
}

/// What a step hands to the driver.
#[derive(Debug, PartialEq, Eq)]
pub struct Step {
    /// The progress lines to send, in order.
    pub lines: Vec<String>,
    /// What to do next.
    pub action: Action,
}

/// One deployment attempt.
pub struct Deployment {
    stage: Stage,
    url: String,
    temp_dir: String,
    transcript: String,
    probe_output: String,
    code: i32,
    error: Option<DeployError>,
}

/// An [`Input`] as plain values.
pub enum InputView {
    Event(EventView),
    StreamClosed,
    Exists(bool),
    Completed,
    Tree(Seq<TreeEntryView>),
    Failed(DeployErrorView),
}

/// An [`Action`] as plain values.
pub enum ActionView {
    Await,
    ListTargets,
    ProbeFile { path: Seq<char> },
    Download { url: Seq<char>, path: Seq<char> },
    ProbeDir { path: Seq<char> },
    CreateDir { path: Seq<char> },
    Extract { archive: Seq<char>, root: Seq<char> },
    Walk { root: Seq<char> },
    Install { package: Seq<char> },
    Finish,
}

/// A [`Step`] as plain values.
#[verifier::ext_equal]
pub struct StepView {
    pub lines: Seq<Seq<char>>,
    pub action: ActionView,
}

/// A [`Deployment`] as plain values.
#[verifier::ext_equal]
pub struct DeploymentView {
    /// Where the deployment stands.
    pub stage: Stage,
    /// Where the artifact is fetched from.
    pub url: Seq<char>,
    /// The directory that holds the cache.
    pub temp_dir: Seq<char>,
    /// Every progress line so far, one behind the other.
    pub transcript: Seq<char>,
    /// What the device list has written so far.
    pub probe_output: Seq<char>,
    /// The exit code to report.
    pub code: i32,
    /// The failure that ended the deployment, if one did.
    pub error: Option<DeployErrorView>,
}

/// A state, and what the step that led to it hands to the driver.
#[verifier::ext_equal]
pub struct Transition {
    pub state: DeploymentView,
    pub lines: Seq<Seq<char>>,
    pub action: ActionView,
}

impl View for Input {
    type V = InputView;

    open spec fn view(&self) -> InputView {
        match self {
            Input::Event(event) => InputView::Event(event@),
            Input::StreamClosed => InputView::StreamClosed,
            Input::Exists(found) => InputView::Exists(*found),
            Input::Completed => InputView::Completed,
            Input::Tree(entries) => InputView::Tree(listing(entries@)),
            Input::Failed(error) => InputView::Failed(error@),
        }
    }
}

impl View for Action {
    type V = ActionView;

    open spec fn view(&self) -> ActionView {
        match self {
            Action::Await => ActionView::Await,
            Action::ListTargets => ActionView::ListTargets,
            Action::ProbeFile { path } => ActionView::ProbeFile { path: path@ },
            Action::Download { url, path } => ActionView::Download { url: url@, path: path@ },
            Action::ProbeDir { path } => ActionView::ProbeDir { path: path@ },
            Action::CreateDir { path } => ActionView::CreateDir { path: path@ },
            Action::Extract { archive, root } => ActionView::Extract {
                archive: archive@,
                root: root@,
            },
            Action::Walk { root } => ActionView::Walk { root: root@ },
            Action::Install { package } => ActionView::Install { package: package@ },
            Action::Finish => ActionView::Finish,
        }
    }
}

impl View for Step {
    type V = StepView;

    open spec fn view(&self) -> StepView {
        StepView { lines: texts(self.lines@), action: self.action@ }
    }
}

impl View for Deployment {
    type V = DeploymentView;

    closed spec fn view(&self) -> DeploymentView {
        DeploymentView {
            stage: self.stage,
            url: self.url@,
            temp_dir: self.temp_dir@,
            transcript: self.transcript@,
            probe_output: self.probe_output@,
            code: self.code,
            error: match self.error {
                Some(error) => Some(error@),
                None => None,
            },
        }
    }
}

/// The phase that a stage belongs to.
pub open spec fn phase_of(stage: Stage) -> Phase {
    match stage {
        Stage::Probing => Phase::Probing,
        Stage::CheckingCache | Stage::Downloading => Phase::Fetching,
        Stage::CheckingRoot | Stage::CreatingRoot | Stage::Unpacking => Phase::Extracting,
        Stage::Locating => Phase::Locating,
        Stage::Installing => Phase::Installing,
        Stage::Done => Phase::Done,
    }
}

/// The place of a phase in the order of phases.
pub open spec fn rank(phase: Phase) -> nat {
    match phase {
        Phase::Probing => 0,
        Phase::Fetching => 1,
        Phase::Extracting => 2,
        Phase::Locating => 3,
        Phase::Installing => 4,
        Phase::Done => 5,
    }
}

/// Where the artifact is cached: in the cache directory, under the name
/// taken from the URL.
pub open spec fn cache_path(s: DeploymentView) -> Seq<char> {
    cached_at(s.temp_dir, s.url)
}

/// Where the archive is unpacked: in a directory beside the cached archive,
/// named like the archive without its extension.
pub open spec fn root_path(s: DeploymentView) -> Seq<char> {
    unpacked_at(s.temp_dir, s.url)
}

/// A state that steps can lead to: only a finished deployment holds a
/// failure.
pub open spec fn consistent(s: DeploymentView) -> bool {
    s.error is Some ==> s.stage == Stage::Done
}

/// An input that the stage has no use for changes nothing.
pub open spec fn ignored(s: DeploymentView) -> Transition {
    Transition { state: s, lines: Seq::empty(), action: ActionView::Await }
}

/// A failure ends the deployment at once, with no line of its own.
pub open spec fn aborted(s: DeploymentView, error: DeployErrorView) -> Transition {
    Transition {
        state: DeploymentView { stage: Stage::Done, error: Some(error), ..s },
        lines: Seq::empty(),
        action: ActionView::Finish,
    }
}

/// The step that sends `lines`, adds them to the transcript, and goes on in
/// `stage` with `action`.
pub open spec fn moved(
    s: DeploymentView,
    lines: Seq<Seq<char>>,
    stage: Stage,
    action: ActionView,
) -> Transition {
    Transition {
        state: DeploymentView { stage, transcript: s.transcript + concat(lines), ..s },
        lines,
        action,
    }
}

/// The step into the installation of `package`, behind the lines `said`.
/// The exit code starts anew: none has been seen of this process.
pub open spec fn installing(s: DeploymentView, said: Seq<Seq<char>>, package: Seq<char>) -> Transition {
    moved(
        DeploymentView { code: NOT_TERMINATED, ..s },
        said.push(INSTALLING@),
        Stage::Installing,
        ActionView::Install { package },
    )
}

/// The step that follows once the artifact is in the cache, behind the
/// lines `said`: an archive is unpacked first, any other file is installed
/// as it is.
pub open spec fn fetched(s: DeploymentView, said: Seq<Seq<char>>) -> Transition {
    if is_archive_name(cache_name(s.url)) {
        moved(
            s,
            said.push(line(ARCHIVE_FOUND@, cache_path(s))),
            Stage::CheckingRoot,
            ActionView::ProbeDir { path: root_path(s) },
        )
    } else {
        installing(s, said, cache_path(s))
    }
}

/// The state a deployment starts in, with the first line and the first
/// thing to do.
pub open spec fn started(url: Seq<char>, temp_dir: Seq<char>) -> Transition {
    Transition {
        state: DeploymentView {
            stage: Stage::Probing,
            url,
            temp_dir,
            transcript: CHECKING_DEVICES@,
            probe_output: Seq::empty(),
            code: NOT_TERMINATED,
            error: None,
        },
        lines: seq![CHECKING_DEVICES@],
        action: ActionView::ListTargets,
    }
}

/// While the device list runs: its output is sent on and kept for reading;
/// when it ends, the output decides whether there is a device to go on with.
pub open spec fn probing_next(s: DeploymentView, input: InputView) -> Transition {
    match input {
        InputView::Event(EventView::StdoutLine(text)) => moved(
            DeploymentView { probe_output: s.probe_output + text, ..s },
            seq![text],
            Stage::Probing,
            ActionView::Await,
        ),
        InputView::Event(EventView::StderrLine(text)) => moved(
            DeploymentView { probe_output: s.probe_output + shown(EventView::StderrLine(text))->0, ..s },
            seq![shown(EventView::StderrLine(text))->0],
            Stage::Probing,
            ActionView::Await,
        ),
        InputView::Event(EventView::SpawnError(text)) => moved(
            s,
            seq![shown(EventView::SpawnError(text))->0],
            Stage::Probing,
            ActionView::Await,
        ),
        InputView::Event(EventView::Terminated(code)) => Transition {
            state: DeploymentView { code: exit_code(code), ..s },
            lines: Seq::empty(),
            action: ActionView::Await,
        },
        InputView::StreamClosed => if device_status(s.probe_output) == DeviceStatus::NoDevice {
            moved(
                DeploymentView { code: NOTHING_INSTALLED, ..s },
                seq![NO_DEVICE@, DEVELOPER_MODE_HELP@],
                Stage::Done,
                ActionView::Finish,
            )
        } else {
            moved(
                s,
                Seq::empty(),
                Stage::CheckingCache,
                ActionView::ProbeFile { path: cache_path(s) },
            )
        },
        InputView::Failed(error) => aborted(s, error),
        _ => ignored(s),
    }
}

/// Once it is known whether the artifact is cached: a cached artifact is
/// used as it is, a missing one is downloaded.
pub open spec fn checking_cache_next(s: DeploymentView, input: InputView) -> Transition {
    match input {
        InputView::Exists(true) => fetched(s, seq![line(CACHE_HIT@, cache_path(s))]),
        InputView::Exists(false) => moved(
            s,
            seq![line(DOWNLOAD_STARTS@, s.url)],
            Stage::Downloading,
            ActionView::Download { url: s.url, path: cache_path(s) },
        ),
        InputView::Failed(error) => aborted(s, error),
        _ => ignored(s),
    }
}

/// Once the download has ended.
pub open spec fn downloading_next(s: DeploymentView, input: InputView) -> Transition {
    match input {
        InputView::Completed => fetched(s, seq![line(DOWNLOAD_DONE@, cache_path(s))]),
        InputView::Failed(error) => aborted(s, error),
        _ => ignored(s),
    }
}

/// Once it is known whether the archive was unpacked before: what is there
/// is used as it is, else the directory is created first.
pub open spec fn checking_root_next(s: DeploymentView, input: InputView) -> Transition {
    match input {
        InputView::Exists(true) => moved(
            s,
            seq![line(ROOT_REUSED@, root_path(s)), SEARCHING@],
            Stage::Locating,
            ActionView::Walk { root: root_path(s) },
        ),
        InputView::Exists(false) => moved(
            s,
            seq![line(CREATING_ROOT@, root_path(s))],
            Stage::CreatingRoot,
            ActionView::CreateDir { path: root_path(s) },
        ),
        InputView::Failed(error) => aborted(s, error),
        _ => ignored(s),
    }
}

/// Once the directory to unpack into is there.
pub open spec fn creating_root_next(s: DeploymentView, input: InputView) -> Transition {
    match input {
        InputView::Completed => moved(
            s,
            seq![line(UNPACK_STARTS@, root_path(s))],
            Stage::Unpacking,
            ActionView::Extract { archive: cache_path(s), root: root_path(s) },
        ),
        InputView::Failed(error) => aborted(s, error),
        _ => ignored(s),
    }
}

/// Once the archive is unpacked.
pub open spec fn unpacking_next(s: DeploymentView, input: InputView) -> Transition {
    match input {
        InputView::Completed => moved(
            s,
            seq![UNPACK_DONE@, SEARCHING@],
            Stage::Locating,
            ActionView::Walk { root: root_path(s) },
        ),
        InputView::Failed(error) => aborted(s, error),
        _ => ignored(s),
    }
}

/// Once the unpacked files are listed: the package that sorts first is
/// installed; where there is none, the deployment ends with nothing
/// installed, which is a result and no error.
pub open spec fn locating_next(s: DeploymentView, input: InputView) -> Transition {
    match input {
        InputView::Tree(tree) => match located(tree) {
            Some(package) => installing(s, seq![line(PACKAGE_FOUND@, package)], package),
            None => moved(
                DeploymentView { code: NOTHING_INSTALLED, ..s },
                seq![PACKAGE_MISSING@],
                Stage::Done,
                ActionView::Finish,
            ),
        },
        InputView::Failed(error) => aborted(s, error),
        _ => ignored(s),
    }
}

/// While the installation runs: its output is sent on; its end sets the
/// exit code and is reported as success or failure. When the stream ends,
/// the deployment is done with the exit code seen last.
pub open spec fn installing_next(s: DeploymentView, input: InputView) -> Transition {
    match input {
        InputView::Event(EventView::Terminated(code)) => moved(
            DeploymentView { code: exit_code(code), ..s },
            seq![
                if exit_code(code) == 0 {
                    INSTALL_OK@
                } else {
                    INSTALL_FAILED@
                },
            ],
            Stage::Installing,
            ActionView::Await,
        ),
        InputView::Event(event) => moved(s, seq![shown(event)->0], Stage::Installing, ActionView::Await),
        InputView::StreamClosed => moved(s, Seq::empty(), Stage::Done, ActionView::Finish),
        InputView::Failed(error) => aborted(s, error),
        _ => ignored(s),
    }
}

/// The step that `input` causes in state `s`.
pub open spec fn next(s: DeploymentView, input: InputView) -> Transition {
    match s.stage {
        Stage::Probing => probing_next(s, input),
        Stage::CheckingCache => checking_cache_next(s, input),
        Stage::Downloading => downloading_next(s, input),
        Stage::CheckingRoot => checking_root_next(s, input),
        Stage::CreatingRoot => creating_root_next(s, input),
        Stage::Unpacking => unpacking_next(s, input),
        Stage::Locating => locating_next(s, input),
        Stage::Installing => installing_next(s, input),
        Stage::Done => Transition { state: s, lines: Seq::empty(), action: ActionView::Finish },
    }
}

/// What a series of steps leaves behind: the state, every line sent, and
/// every action asked for, in order.
#[verifier::ext_equal]
pub struct Run {
    pub state: DeploymentView,
    pub lines: Seq<Seq<char>>,
    pub actions: Seq<ActionView>,
}

/// The steps that `inputs` cause one after the other, from state `s` on.
pub open spec fn run(s: DeploymentView, inputs: Seq<InputView>) -> Run
    decreases inputs.len(),
{
    if inputs.len() == 0 {
        Run { state: s, lines: Seq::empty(), actions: Seq::empty() }
    } else {
        let before = run(s, inputs.drop_last());
        let last = next(before.state, inputs.last());
        Run {
            state: last.state,
            lines: before.lines + last.lines,
            actions: before.actions.push(last.action),
        }
    }
}

/// The events of a process as inputs, in order.
pub open spec fn as_inputs(events: Seq<EventView>) -> Seq<InputView> {
    Seq::new(events.len(), |i: int| InputView::Event(events[i]))
}

/// A list of events as plain values.
pub open spec fn event_views(events: Seq<ProcessEvent>) -> Seq<EventView> {
    Seq::new(events.len(), |i: int| events[i]@)
}

/// The arguments that the bridge tool is run with for an action: `list
/// targets` for the device list, `install` and the package's path for an
/// installation. No other action runs the bridge tool.
pub open spec fn arguments(action: ActionView) -> Option<Seq<Seq<char>>> {
    match action {
        ActionView::ListTargets => Some(seq!["list"@, "targets"@]),
        ActionView::Install { package } => Some(seq!["install"@, package]),
        _ => None,
    }
}

/// What a finished deployment reports: the failure that ended it, or the
/// transcript and the exit code. A deployment that is not done has no result.
pub open spec fn result_of(s: DeploymentView) -> Option<Result<(Seq<char>, i32), DeployErrorView>> {
    if s.stage != Stage::Done {
        None
    } else {
        match s.error {
            Some(error) => Some(Err(error)),
            None => Some(Ok((s.transcript, s.code))),
        }
    }
}

/// The arguments that the bridge tool is run with for `action`, or `None`
/// where the action does not run it.
pub fn bridge_arguments(action: &Action) -> (args: Option<Vec<String>>)
    ensures
        match args {
            Some(args) => arguments(action@) == Some(texts(args@)),
            None => arguments(action@) is None,
        },
{
    match action {
        Action::ListTargets => {
            let mut args: Vec<String> = Vec::new();
            args.push(String::from_str("list"));
            args.push(String::from_str("targets"));
            assert(texts(args@) =~= seq!["list"@, "targets"@]);
            Some(args)
        },
        Action::Install { package } => {
            let mut args: Vec<String> = Vec::new();
            args.push(String::from_str("install"));
            args.push(package.clone());
            assert(texts(args@) =~= seq!["install"@, package@]);
            Some(args)
        },
        _ => None,
    }
}

impl Stage {
    /// The phase that this stage belongs to.
    pub fn phase(self) -> (phase: Phase)
        ensures
            phase == phase_of(self),
    {
        match self {
            Stage::Probing => Phase::Probing,
            Stage::CheckingCache => Phase::Fetching,
            Stage::Downloading => Phase::Fetching,
            Stage::CheckingRoot => Phase::Extracting,
            Stage::CreatingRoot => Phase::Extracting,
            Stage::Unpacking => Phase::Extracting,
            Stage::Locating => Phase::Locating,
            Stage::Installing => Phase::Installing,
            Stage::Done => Phase::Done,
        }
    }
}

impl Deployment {
    /// Starts a deployment of the artifact at `url`, with `temp_dir` as the
    /// directory that holds the cache. Hands back the deployment and its
    /// first step.
    pub fn begin(url: String, temp_dir: String) -> (first: (Deployment, Step))
        ensures
            first.0@ =~= started(url@, temp_dir@).state,
            first.1@.lines =~= started(url@, temp_dir@).lines,
            first.1@.action == started(url@, temp_dir@).action,
            consistent(first.0@),
    {
        let deployment = Deployment {
            stage: Stage::Probing,
            url,
            temp_dir,
            transcript: String::from_str(CHECKING_DEVICES),
            probe_output: String::new(),
            code: NOT_TERMINATED,
            error: None,
        };
        let mut lines: Vec<String> = Vec::new();
        lines.push(String::from_str(CHECKING_DEVICES));
        (deployment, Step { lines, action: Action::ListTargets })
    }

    /// Takes what the driver observed. Hands back the lines to send and
    /// what to do next.
    pub fn step(&mut self, input: Input) -> (out: Step)
        ensures
            final(self)@ =~= next(old(self)@, input@).state,
            out@.lines =~= next(old(self)@, input@).lines,
            out@.action == next(old(self)@, input@).action,
            consistent(old(self)@) ==> consistent(final(self)@),
    {
        match self.stage {
            Stage::Probing => self.on_probing(input),
            Stage::CheckingCache => self.on_checking_cache(input),
            Stage::Downloading => self.on_downloading(input),
            Stage::CheckingRoot => self.on_checking_root(input),
            Stage::CreatingRoot => self.on_creating_root(input),
            Stage::Unpacking => self.on_unpacking(input),
            Stage::Locating => self.on_locating(input),
            Stage::Installing => self.on_installing(input),
            Stage::Done => Step { lines: Vec::new(), action: Action::Finish },
        }
    }

    /// Takes a whole process stream at once: its events in order, then its
    /// end. Hands back every line to send and what to do next.
    pub fn drain(&mut self, events: Vec<ProcessEvent>) -> (out: Step)
        ensures
            final(self)@ =~= run(
                old(self)@,
                as_inputs(event_views(events@)).push(InputView::StreamClosed),
            ).state,
            out@.lines =~= run(
                old(self)@,
                as_inputs(event_views(events@)).push(InputView::StreamClosed),
            ).lines,
            out@.action == run(
                old(self)@,
                as_inputs(event_views(events@)).push(InputView::StreamClosed),
            ).actions.last(),
            consistent(old(self)@) ==> consistent(final(self)@),
    {
        let ghost start = self@;
        let ghost inputs = as_inputs(event_views(events@));
        let mut lines: Vec<String> = Vec::new();
        proof {
            assert(inputs.take(0) =~= Seq::<InputView>::empty());
            assert(texts(lines@) =~= Seq::<Seq<char>>::empty());
        }
        for event in it: events.into_iter()
            invariant
                it.seq() == events@,
                inputs == as_inputs(event_views(events@)),
                self@ == run(start, inputs.take(it.index() as int)).state,
                texts(lines@) == run(start, inputs.take(it.index() as int)).lines,
                consistent(start) ==> consistent(self@),
        {
            proof {
                let fed = inputs.take(it.index() + 1);
                assert(fed.drop_last() =~= inputs.take(it.index() as int));
                assert(fed.last() == InputView::Event(event@));
            }
            let ghost before = texts(lines@);
            let mut step = self.step(Input::Event(event));
            let ghost added = texts(step.lines@);
            lines.append(&mut step.lines);
            proof {
                assert(texts(lines@) =~= before + added);
            }
        }
        let ghost before = texts(lines@);
        let mut last = self.step(Input::StreamClosed);
        let ghost added = texts(last.lines@);
        lines.append(&mut last.lines);
        proof {
            assert(texts(lines@) =~= before + added);
            assert(inputs.take(inputs.len() as int) =~= inputs);
            assert(inputs.push(InputView::StreamClosed).drop_last() =~= inputs);
        }
        Step { lines, action: last.action }
    }

    /// Where the deployment stands.
    pub fn stage(&self) -> (stage: Stage)
        ensures
            stage == self@.stage,
    {
        self.stage
    }

    /// Every progress line so far, one behind the other.
    pub fn transcript(&self) -> (text: &str)
        ensures
            text@ == self@.transcript,
    {
        self.transcript.as_str()
    }

    /// The exit code to report as things stand.
    pub fn exit_code(&self) -> (code: i32)
        ensures
            code == self@.code,
    {
        self.code
    }

    /// What the deployment reports once it is done: transcript and exit
    /// code, or the failure that ended it.
    pub fn result(&self) -> (result: Option<Result<(String, i32), DeployError>>)
        ensures
            match result {
                None => result_of(self@) is None,
                Some(Ok(report)) => result_of(self@) == Some(
                    Ok::<(Seq<char>, i32), DeployErrorView>((report.0@, report.1)),
                ),
                Some(Err(error)) => result_of(self@) == Some(
                    Err::<(Seq<char>, i32), DeployErrorView>(error@),
                ),
            },
    {
        match self.stage {
            Stage::Done => match &self.error {
                Some(error) => Some(Err(error.duplicate())),
                None => Some(Ok((self.transcript.clone(), self.code))),
            },
            _ => None,
        }
    }

    fn cache_file(&self) -> (path: String)
        ensures
            path@ == cache_path(self@),
    {
        cache_path_of(self.temp_dir.as_str(), self.url.as_str())
    }

    fn extraction_root(&self) -> (path: String)
        ensures
            path@ == root_path(self@),
    {
        extraction_root_of(self.temp_dir.as_str(), self.url.as_str())
    }

    /// Sends one line: to the driver, and to the transcript.
    fn emit(&mut self, lines: &mut Vec<String>, text: String, Ghost(base): Ghost<Seq<char>>)
        requires
            old(self)@.transcript == base + concat(texts(old(lines)@)),
        ensures
            final(self)@ =~= (DeploymentView {
                transcript: base + concat(texts(final(lines)@)),
                ..old(self)@
            }),
            texts(final(lines)@) == texts(old(lines)@).push(text@),
    {
        proof {
            lemma_concat_push(texts(lines@), text@);
            assert(texts(lines@.push(text)) =~= texts(lines@).push(text@));
            assert((base + concat(texts(lines@))) + text@ =~= base + (concat(texts(lines@)) + text@));
        }
        self.transcript.append(text.as_str());
        lines.push(text);
    }

    fn abort(&mut self, error: DeployError) -> (out: Step)
        ensures
            final(self)@ =~= aborted(old(self)@, error@).state,
            out@.lines =~= aborted(old(self)@, error@).lines,
            out@.action == aborted(old(self)@, error@).action,
    {
        self.stage = Stage::Done;
        self.error = Some(error);
        Step { lines: Vec::new(), action: Action::Finish }
    }

    /// Goes on to the installation of `package`, behind the lines sent so
    /// far in this step.
    fn install(&mut self, lines: Vec<String>, package: String, Ghost(base): Ghost<Seq<char>>) -> (out: Step)
        requires
            old(self)@.transcript == base + concat(texts(lines@)),
        ensures
            final(self)@ =~= installing(
                DeploymentView { transcript: base, ..old(self)@ },
                texts(lines@),
                package@,
            ).state,
            out@.lines =~= installing(
                DeploymentView { transcript: base, ..old(self)@ },
                texts(lines@),
                package@,
            ).lines,
            out@.action == installing(
                DeploymentView { transcript: base, ..old(self)@ },
                texts(lines@),
                package@,
            ).action,
    {
        let mut lines = lines;
        self.emit(&mut lines, String::from_str(INSTALLING), Ghost(base));
        self.code = NOT_TERMINATED;
        self.stage = Stage::Installing;
        Step { lines, action: Action::Install { package } }
    }

    /// Goes on with the artifact in the cache, behind the lines sent so far
    /// in this step.
    fn proceed(&mut self, lines: Vec<String>, Ghost(base): Ghost<Seq<char>>) -> (out: Step)
        requires
            old(self)@.transcript == base + concat(texts(lines@)),
        ensures
            final(self)@ =~= fetched(
                DeploymentView { transcript: base, ..old(self)@ },
                texts(lines@),
            ).state,
            out@.lines =~= fetched(
                DeploymentView { transcript: base, ..old(self)@ },
                texts(lines@),
            ).lines,
            out@.action == fetched(
                DeploymentView { transcript: base, ..old(self)@ },
                texts(lines@),
            ).action,
    {
        let mut lines = lines;
        let name = cache_file_name(self.url.as_str());
        let path = self.cache_file();
        if is_archive(name.as_str()) {
            self.emit(&mut lines, line_text(ARCHIVE_FOUND, path.as_str()), Ghost(base));
            self.stage = Stage::CheckingRoot;
            let root = self.extraction_root();
            Step { lines, action: Action::ProbeDir { path: root } }
        } else {
            self.install(lines, path, Ghost(base))
        }
    }

    fn on_probing(&mut self, input: Input) -> (out: Step)
        requires
            old(self)@.stage == Stage::Probing,
        ensures
            final(self)@ =~= next(old(self)@, input@).state,
            out@.lines =~= next(old(self)@, input@).lines,
            out@.action == next(old(self)@, input@).action,
    {
        let ghost want = next(self@, input@);
        let ghost base = self@.transcript;
        let mut lines: Vec<String> = Vec::new();
        proof {
            assert(texts(lines@) =~= Seq::<Seq<char>>::empty());
            assert(base + concat(texts(lines@)) =~= base);
        }
        match input {
            Input::Event(event) => {
                let text = show(&event);
                match event {
                    ProcessEvent::StdoutLine(_) => {
                        let text = text.unwrap();
                        self.probe_output.append(text.as_str());
                        self.emit(&mut lines, text, Ghost(base));
                    },
                    ProcessEvent::StderrLine(_) => {
                        let text = text.unwrap();
                        self.probe_output.append(text.as_str());
                        self.emit(&mut lines, text, Ghost(base));
                    },
                    ProcessEvent::SpawnError(_) => {
                        self.emit(&mut lines, text.unwrap(), Ghost(base));
                    },
                    ProcessEvent::Terminated(code) => {
                        self.code = exit_code_of(code);
                    },
                }
                Step { lines, action: Action::Await }
            },
            Input::StreamClosed => {
                match classify(self.probe_output.as_str()) {
                    DeviceStatus::NoDevice => {
                        self.emit(&mut lines, String::from_str(NO_DEVICE), Ghost(base));
                        self.emit(&mut lines, String::from_str(DEVELOPER_MODE_HELP), Ghost(base));
                        assert(texts(lines@) =~= want.lines);
                        self.code = NOTHING_INSTALLED;
                        self.stage = Stage::Done;
                        Step { lines, action: Action::Finish }
                    },
                    DeviceStatus::HasDevices => {
                        let path = self.cache_file();
                        self.stage = Stage::CheckingCache;
                        Step { lines, action: Action::ProbeFile { path } }
                    },
                }
            },
            Input::Failed(error) => self.abort(error),
            _ => Step { lines, action: Action::Await },
        }
    }

    fn on_checking_cache(&mut self, input: Input) -> (out: Step)
        requires
            old(self)@.stage == Stage::CheckingCache,
        ensures
            final(self)@ =~= next(old(self)@, input@).state,
            out@.lines =~= next(old(self)@, input@).lines,
            out@.action == next(old(self)@, input@).action,
    {
        let ghost base = self@.transcript;
        let mut lines: Vec<String> = Vec::new();
        proof {
            assert(texts(lines@) =~= Seq::<Seq<char>>::empty());
            assert(base + concat(texts(lines@)) =~= base);
        }
        match input {
            Input::Exists(found) => {
                let path = self.cache_file();
                if found {
                    self.emit(&mut lines, line_text(CACHE_HIT, path.as_str()), Ghost(base));
                    self.proceed(lines, Ghost(base))
                } else {
                    self.emit(&mut lines, line_text(DOWNLOAD_STARTS, self.url.as_str()), Ghost(base));
                    self.stage = Stage::Downloading;
                    Step { lines, action: Action::Download { url: self.url.clone(), path } }
                }
            },
            Input::Failed(error) => self.abort(error),
            _ => Step { lines, action: Action::Await },
        }
    }

    fn on_downloading(&mut self, input: Input) -> (out: Step)
        requires
            old(self)@.stage == Stage::Downloading,
        ensures
            final(self)@ =~= next(old(self)@, input@).state,
            out@.lines =~= next(old(self)@, input@).lines,
            out@.action == next(old(self)@, input@).action,
    {
        let ghost base = self@.transcript;
        let mut lines: Vec<String> = Vec::new();
        proof {
            assert(texts(lines@) =~= Seq::<Seq<char>>::empty());
            assert(base + concat(texts(lines@)) =~= base);
        }
        match input {
            Input::Completed => {
                let path = self.cache_file();
                self.emit(&mut lines, line_text(DOWNLOAD_DONE, path.as_str()), Ghost(base));
                self.proceed(lines, Ghost(base))
            },
            Input::Failed(error) => self.abort(error),
            _ => Step { lines, action: Action::Await },
        }
    }

    fn on_checking_root(&mut self, input: Input) -> (out: Step)
        requires
            old(self)@.stage == Stage::CheckingRoot,
        ensures
            final(self)@ =~= next(old(self)@, input@).state,
            out@.lines =~= next(old(self)@, input@).lines,
            out@.action == next(old(self)@, input@).action,
    {
        let ghost want = next(self@, input@);
        let ghost base = self@.transcript;
        let mut lines: Vec<String> = Vec::new();
        proof {
            assert(texts(lines@) =~= Seq::<Seq<char>>::empty());
            assert(base + concat(texts(lines@)) =~= base);
        }
        match input {
            Input::Exists(found) => {
                let root = self.extraction_root();
                if found {
                    self.emit(&mut lines, line_text(ROOT_REUSED, root.as_str()), Ghost(base));
                    self.emit(&mut lines, String::from_str(SEARCHING), Ghost(base));
                    assert(texts(lines@) =~= want.lines);
                    self.stage = Stage::Locating;
                    Step { lines, action: Action::Walk { root } }
                } else {
                    self.emit(&mut lines, line_text(CREATING_ROOT, root.as_str()), Ghost(base));
                    self.stage = Stage::CreatingRoot;
                    Step { lines, action: Action::CreateDir { path: root } }
                }
            },
            Input::Failed(error) => self.abort(error),
            _ => Step { lines, action: Action::Await },
        }
    }

    fn on_creating_root(&mut self, input: Input) -> (out: Step)
        requires
            old(self)@.stage == Stage::CreatingRoot,
        ensures
            final(self)@ =~= next(old(self)@, input@).state,
            out@.lines =~= next(old(self)@, input@).lines,
            out@.action == next(old(self)@, input@).action,
    {
        let ghost base = self@.transcript;
        let mut lines: Vec<String> = Vec::new();
        proof {
            assert(texts(lines@) =~= Seq::<Seq<char>>::empty());
            assert(base + concat(texts(lines@)) =~= base);
        }
        match input {
            Input::Completed => {
                let root = self.extraction_root();
                let archive = self.cache_file();
                self.emit(&mut lines, line_text(UNPACK_STARTS, root.as_str()), Ghost(base));
                self.stage = Stage::Unpacking;
                Step { lines, action: Action::Extract { archive, root } }
            },
            Input::Failed(error) => self.abort(error),
            _ => Step { lines, action: Action::Await },
        }
    }

    fn on_unpacking(&mut self, input: Input) -> (out: Step)
        requires
            old(self)@.stage == Stage::Unpacking,
        ensures
            final(self)@ =~= next(old(self)@, input@).state,
            out@.lines =~= next(old(self)@, input@).lines,
            out@.action == next(old(self)@, input@).action,
    {
        let ghost want = next(self@, input@);
        let ghost base = self@.transcript;
        let mut lines: Vec<String> = Vec::new();
        proof {
            assert(texts(lines@) =~= Seq::<Seq<char>>::empty());
            assert(base + concat(texts(lines@)) =~= base);
        }
        match input {
            Input::Completed => {
                let root = self.extraction_root();
                self.emit(&mut lines, String::from_str(UNPACK_DONE), Ghost(base));
                self.emit(&mut lines, String::from_str(SEARCHING), Ghost(base));
                assert(texts(lines@) =~= want.lines);
                self.stage = Stage::Locating;
                Step { lines, action: Action::Walk { root } }
            },
            Input::Failed(error) => self.abort(error),
            _ => Step { lines, action: Action::Await },
        }
    }

    fn on_locating(&mut self, input: Input) -> (out: Step)
        requires
            old(self)@.stage == Stage::Locating,
        ensures
            final(self)@ =~= next(old(self)@, input@).state,
            out@.lines =~= next(old(self)@, input@).lines,
            out@.action == next(old(self)@, input@).action,
    {
        let ghost base = self@.transcript;
        let mut lines: Vec<String> = Vec::new();
        proof {
            assert(texts(lines@) =~= Seq::<Seq<char>>::empty());
            assert(base + concat(texts(lines@)) =~= base);
        }
        match input {
            Input::Tree(tree) => {
                match locate_package(&tree) {
                    Some(at) => {
                        let package = tree[at].path.clone();
                        self.emit(&mut lines, line_text(PACKAGE_FOUND, package.as_str()), Ghost(base));
                        self.install(lines, package, Ghost(base))
                    },
                    None => {
                        self.emit(&mut lines, String::from_str(PACKAGE_MISSING), Ghost(base));
                        self.code = NOTHING_INSTALLED;
                        self.stage = Stage::Done;
                        Step { lines, action: Action::Finish }
                    },
                }
            },
            Input::Failed(error) => self.abort(error),
            _ => Step { lines, action: Action::Await },
        }
    }

    fn on_installing(&mut self, input: Input) -> (out: Step)
        requires
            old(self)@.stage == Stage::Installing,
        ensures
            final(self)@ =~= next(old(self)@, input@).state,
            out@.lines =~= next(old(self)@, input@).lines,
            out@.action == next(old(self)@, input@).action,
    {
        let ghost base = self@.transcript;
        let mut lines: Vec<String> = Vec::new();
        proof {
            assert(texts(lines@) =~= Seq::<Seq<char>>::empty());
            assert(base + concat(texts(lines@)) =~= base);
        }
        match input {
            Input::Event(event) => {
                match show(&event) {
                    Some(text) => {
                        self.emit(&mut lines, text, Ghost(base));
                    },
                    None => {
                        match event {
                            ProcessEvent::Terminated(code) => {
                                self.code = exit_code_of(code);
                                if self.code == 0 {
                                    self.emit(&mut lines, String::from_str(INSTALL_OK), Ghost(base));
                                } else {
                                    self.emit(&mut lines, String::from_str(INSTALL_FAILED), Ghost(base));
                                }
                            },
                            _ => {},
                        }
                    },
                }
                Step { lines, action: Action::Await }
            },
            Input::StreamClosed => {
                self.stage = Stage::Done;
                Step { lines, action: Action::Finish }
            },
            Input::Failed(error) => self.abort(error),
            _ => Step { lines, action: Action::Await },
        }
    }
}

} // verus!
