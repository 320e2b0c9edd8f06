//! What holds of every deployment, whatever the driver reports.

use vstd::prelude::*;
use crate::events::{
    device_status, exit_code, lemma_error_line_means_no_device, DeviceStatus, EventView,
    NOTHING_INSTALLED, NOT_TERMINATED,
};
use crate::failure::DeployErrorView;
use crate::lines::{
    concat, lemma_concat_add, DEVELOPER_MODE_HELP, EMPTY_MARKER, ERROR_MARKER, NO_DEVICE,
    PACKAGE_MISSING,
};
use crate::locate::{located, TreeEntryView};
use crate::pipeline::{
    as_inputs, cache_path, consistent, next, phase_of, rank, result_of, root_path, run, started, ActionView,
    DeploymentView, InputView, Phase, Stage,
};
use crate::text::{has_infix, lemma_infix_appended, lemma_infix_grows};

verus! {

/// The exit code seen last in `events`, or `code` where no event reports
/// the end of the process.
pub open spec fn last_exit(events: Seq<EventView>, code: i32) -> i32
    decreases events.len(),
{
    if events.len() == 0 {
        code
    } else {
        match events.last() {
            EventView::Terminated(reported) => exit_code(reported),
            _ => last_exit(events.drop_last(), code),
        }
    }
}

/// A deployment starts consistent.
pub proof fn lemma_starts_consistent(url: Seq<char>, temp_dir: Seq<char>)
    ensures
        consistent(started(url, temp_dir).state),
{
}

/// Every step keeps a deployment consistent.
pub proof fn lemma_stays_consistent(s: DeploymentView, input: InputView)
    requires
        consistent(s),
    ensures
        consistent(next(s, input).state),
{
}

/// Both channels carry the same text in the same order: what a step adds to
/// the transcript is what it sends as lines, no more and no less.
pub proof fn lemma_step_speaks_on_both_channels(s: DeploymentView, input: InputView)
    ensures
        next(s, input).state.transcript == s.transcript + concat(next(s, input).lines),
{
    let t = next(s, input);
    if t.lines.len() == 0 {
        assert(t.state.transcript =~= s.transcript + concat(t.lines));
    }
}

/// Both channels carry the same text in the same order over any series of
/// steps.
pub proof fn lemma_run_speaks_on_both_channels(s: DeploymentView, inputs: Seq<InputView>)
    ensures
        run(s, inputs).state.transcript == s.transcript + concat(run(s, inputs).lines),
    decreases inputs.len(),
{
    if inputs.len() == 0 {
        assert(s.transcript + concat(Seq::<Seq<char>>::empty()) =~= s.transcript);
    } else {
        let before = run(s, inputs.drop_last());
        let last = next(before.state, inputs.last());
        lemma_run_speaks_on_both_channels(s, inputs.drop_last());
        lemma_step_speaks_on_both_channels(before.state, inputs.last());
        lemma_concat_add(before.lines, last.lines);
        assert((s.transcript + concat(before.lines)) + concat(last.lines) =~= s.transcript + (
        concat(before.lines) + concat(last.lines)));
    }
}

/// From its start on, the transcript of a deployment is the text of every
/// line that was sent, in the order of sending.
pub proof fn lemma_transcript_is_what_was_sent(
    url: Seq<char>,
    temp_dir: Seq<char>,
    inputs: Seq<InputView>,
)
    ensures
        run(started(url, temp_dir).state, inputs).state.transcript == concat(
            started(url, temp_dir).lines + run(started(url, temp_dir).state, inputs).lines,
        ),
{
    let first = started(url, temp_dir);
    lemma_run_speaks_on_both_channels(first.state, inputs);
    lemma_concat_add(first.lines, run(first.state, inputs).lines);
    assert(first.lines.drop_last() =~= Seq::<Seq<char>>::empty());
    assert(concat(first.lines) =~= first.state.transcript);
}

/// No step leads back to an earlier phase.
pub proof fn lemma_no_way_back(s: DeploymentView, input: InputView)
    ensures
        rank(phase_of(s.stage)) <= rank(phase_of(next(s, input).state.stage)),
{
}

/// No series of steps leads back to an earlier phase.
pub proof fn lemma_run_has_no_way_back(s: DeploymentView, inputs: Seq<InputView>)
    ensures
        rank(phase_of(s.stage)) <= rank(phase_of(run(s, inputs).state.stage)),
    decreases inputs.len(),
{
    if inputs.len() > 0 {
        lemma_run_has_no_way_back(s, inputs.drop_last());
        lemma_no_way_back(run(s, inputs.drop_last()).state, inputs.last());
    }
}

/// A finished deployment stays as it is: whatever is reported to it, it
/// sends no line, keeps its result and asks for nothing but to stop.
pub proof fn lemma_done_is_final(s: DeploymentView, inputs: Seq<InputView>)
    requires
        s.stage == Stage::Done,
    ensures
        run(s, inputs).state == s,
        run(s, inputs).lines =~= Seq::<Seq<char>>::empty(),
        run(s, inputs).actions.len() == inputs.len(),
        forall|i: int| 0 <= i < inputs.len() ==> run(s, inputs).actions[i] == ActionView::Finish,
    decreases inputs.len(),
{
    if inputs.len() > 0 {
        lemma_done_is_final(s, inputs.drop_last());
    }
}

/// The network is used only for an artifact that the cache lacks: a step
/// asks for a download only when it was told that the cached file does not
/// exist, and then for the deployment's own URL and cache path.
pub proof fn lemma_download_only_when_absent(s: DeploymentView, input: InputView)
    requires
        next(s, input).action is Download,
    ensures
        s.stage == Stage::CheckingCache,
        input == InputView::Exists(false),
        next(s, input).action == (ActionView::Download { url: s.url, path: cache_path(s) }),
{
}

/// Fetching twice downloads once. Of two deployments of one URL with one
/// cache directory, the first finds no cached file and asks for the
/// download; the second finds the file that the first one saved and asks
/// for no download, now or later: it goes on with that same file.
pub proof fn lemma_fetch_is_idempotent(
    first: DeploymentView,
    second: DeploymentView,
    later: Seq<InputView>,
)
    requires
        first.stage == Stage::CheckingCache,
        second.stage == Stage::CheckingCache,
        first.url == second.url,
        first.temp_dir == second.temp_dir,
    ensures
        next(first, InputView::Exists(false)).action == (ActionView::Download {
            url: first.url,
            path: cache_path(first),
        }),
        cache_path(second) == cache_path(first),
        next(second, InputView::Exists(true)).action == (ActionView::Install {
            package: cache_path(first),
        }) || next(second, InputView::Exists(true)).action == (ActionView::ProbeDir {
            path: root_path(first),
        }),
        forall|i: int|
            0 <= i < later.len() ==> !(run(
                next(second, InputView::Exists(true)).state,
                later,
            ).actions[i] is Download),
{
    let hit = next(second, InputView::Exists(true)).state;
    lemma_no_download_after_fetching(hit, later);
}

/// Once the fetching phase is left, no download is asked for.
pub proof fn lemma_no_download_after_fetching(s: DeploymentView, inputs: Seq<InputView>)
    requires
        rank(phase_of(s.stage)) > rank(Phase::Fetching),
    ensures
        run(s, inputs).actions.len() == inputs.len(),
        forall|i: int| 0 <= i < inputs.len() ==> !(run(s, inputs).actions[i] is Download),
    decreases inputs.len(),
{
    if inputs.len() > 0 {
        let before = run(s, inputs.drop_last());
        lemma_no_download_after_fetching(s, inputs.drop_last());
        lemma_run_has_no_way_back(s, inputs.drop_last());
        if next(before.state, inputs.last()).action is Download {
            lemma_download_only_when_absent(before.state, inputs.last());
        }
    }
}

/// Nothing is written into a directory of an earlier unpacking: a step asks
/// for the directory to be created only when it was told that it does not
/// exist, and for the archive to be unpacked only once that directory was
/// created.
pub proof fn lemma_unpacking_only_when_absent(s: DeploymentView, input: InputView)
    ensures
        next(s, input).action is CreateDir ==> s.stage == Stage::CheckingRoot && input
            == InputView::Exists(false),
        next(s, input).action is Extract ==> s.stage == Stage::CreatingRoot && input
            == InputView::Completed,
{
}

/// Unpacking twice unpacks once. Where the directory of an earlier
/// unpacking exists, the step fails nothing and writes nothing: it goes on
/// to list that directory.
pub proof fn lemma_unpacked_archive_is_reused(s: DeploymentView)
    requires
        s.stage == Stage::CheckingRoot,
    ensures
        next(s, InputView::Exists(true)).state.stage == Stage::Locating,
        next(s, InputView::Exists(true)).state.error == s.error,
        next(s, InputView::Exists(true)).action == (ActionView::Walk { root: root_path(s) }),
{
}

/// What the device list has written is never taken back: output that reads
/// as "no device" reads so after any further event.
pub proof fn lemma_no_device_stays(s: DeploymentView, event: EventView)
    requires
        s.stage == Stage::Probing,
        device_status(s.probe_output) == DeviceStatus::NoDevice,
    ensures
        next(s, InputView::Event(event)).state.stage == Stage::Probing,
        device_status(next(s, InputView::Event(event)).state.probe_output) == DeviceStatus::NoDevice,
{
    let after = next(s, InputView::Event(event)).state.probe_output;
    match event {
        EventView::StdoutLine(text) => {
            if has_infix(s.probe_output, EMPTY_MARKER@) {
                lemma_infix_grows(s.probe_output, text, EMPTY_MARKER@);
            } else {
                lemma_infix_grows(s.probe_output, text, ERROR_MARKER@);
            }
        },
        EventView::StderrLine(text) => {
            let more = after.subrange(s.probe_output.len() as int, after.len() as int);
            assert(after =~= s.probe_output + more);
            if has_infix(s.probe_output, EMPTY_MARKER@) {
                lemma_infix_grows(s.probe_output, more, EMPTY_MARKER@);
            } else {
                lemma_infix_grows(s.probe_output, more, ERROR_MARKER@);
            }
        },
        _ => {},
    }
}

/// Output of the device list that holds the marker for an empty list reads
/// as "no device", whatever was written before it.
pub proof fn lemma_empty_marker_means_no_device(s: DeploymentView, text: Seq<char>)
    requires
        s.stage == Stage::Probing,
        has_infix(text, EMPTY_MARKER@),
    ensures
        device_status(next(s, InputView::Event(EventView::StdoutLine(text))).state.probe_output)
            == DeviceStatus::NoDevice,
{
    lemma_infix_appended(s.probe_output, text, EMPTY_MARKER@);
}

/// Any line that the device list writes to its error stream makes its
/// output read as "no device".
pub proof fn lemma_error_output_means_no_device(s: DeploymentView, text: Seq<char>)
    requires
        s.stage == Stage::Probing,
    ensures
        device_status(next(s, InputView::Event(EventView::StderrLine(text))).state.probe_output)
            == DeviceStatus::NoDevice,
{
    lemma_error_line_means_no_device(s.probe_output, text, Seq::empty());
    let after = next(s, InputView::Event(EventView::StderrLine(text))).state.probe_output;
    assert(after =~= s.probe_output + (crate::lines::ERROR_PREFIX@ + text) + Seq::<char>::empty());
}

/// Without a device nothing is fetched and nothing is installed. When the
/// device list ends and its output reads as "no device", the deployment is
/// done with exit code 1, which is a result and no error, and whatever is
/// reported later, it asks for nothing but to stop.
pub proof fn lemma_no_device_ends_the_run(s: DeploymentView, later: Seq<InputView>)
    requires
        s.stage == Stage::Probing,
        consistent(s),
        device_status(s.probe_output) == DeviceStatus::NoDevice,
    ensures
        next(s, InputView::StreamClosed).action == ActionView::Finish,
        next(s, InputView::StreamClosed).lines == seq![NO_DEVICE@, DEVELOPER_MODE_HELP@],
        result_of(next(s, InputView::StreamClosed).state) == Some(
            Ok::<(Seq<char>, i32), DeployErrorView>(
                (s.transcript + concat(seq![NO_DEVICE@, DEVELOPER_MODE_HELP@]), NOTHING_INSTALLED),
            ),
        ),
        forall|i: int|
            0 <= i < later.len() ==> run(next(s, InputView::StreamClosed).state, later).actions[i]
                == ActionView::Finish,
{
    lemma_done_is_final(next(s, InputView::StreamClosed).state, later);
}

/// Unpacked files without a package are a result and no error: the
/// deployment is done with exit code 1, and asks for nothing but to stop.
pub proof fn lemma_no_package_is_a_result(s: DeploymentView, tree: Seq<TreeEntryView>)
    requires
        s.stage == Stage::Locating,
        consistent(s),
        located(tree) is None,
    ensures
        next(s, InputView::Tree(tree)).action == ActionView::Finish,
        next(s, InputView::Tree(tree)).lines == seq![PACKAGE_MISSING@],
        result_of(next(s, InputView::Tree(tree)).state) == Some(
            Ok::<(Seq<char>, i32), DeployErrorView>(
                (s.transcript + concat(seq![PACKAGE_MISSING@]), NOTHING_INSTALLED),
            ),
        ),
{
}

/// Every installation starts without an exit code: the step that leads
/// into it sets the code that stands for "not terminated".
pub proof fn lemma_installation_starts_unterminated(s: DeploymentView, input: InputView)
    requires
        s.stage != Stage::Installing,
        next(s, input).state.stage == Stage::Installing,
    ensures
        next(s, input).state.code == NOT_TERMINATED,
        next(s, input).action is Install,
{
}

/// The exit code of an installation is the one that its process reported
/// last. After the events of the process and the end of its stream, the
/// deployment is done, and its exit code is that of the last event that
/// reports the end of the process, or the code it started with where there
/// is no such event.
pub proof fn lemma_exit_code_is_the_last_reported(s: DeploymentView, events: Seq<EventView>)
    requires
        s.stage == Stage::Installing,
    ensures
        run(s, as_inputs(events)).state.stage == Stage::Installing,
        run(s, as_inputs(events)).state.code == last_exit(events, s.code),
        run(s, as_inputs(events)).state.error == s.error,
        next(run(s, as_inputs(events)).state, InputView::StreamClosed).state.stage == Stage::Done,
        next(run(s, as_inputs(events)).state, InputView::StreamClosed).state.code == last_exit(
            events,
            s.code,
        ),
        next(run(s, as_inputs(events)).state, InputView::StreamClosed).action == ActionView::Finish,
    decreases events.len(),
{
    if events.len() > 0 {
        lemma_exit_code_is_the_last_reported(s, events.drop_last());
        assert(as_inputs(events).drop_last() =~= as_inputs(events.drop_last()));
        assert(as_inputs(events).last() == InputView::Event(events.last()));
    }
}

/// While the device list runs, the exit code is the one that its process
/// reported last, or the code before it where there is no such event.
pub proof fn lemma_exit_code_while_probing(s: DeploymentView, events: Seq<EventView>)
    requires
        s.stage == Stage::Probing,
    ensures
        run(s, as_inputs(events)).state.stage == Stage::Probing,
        run(s, as_inputs(events)).state.code == last_exit(events, s.code),
    decreases events.len(),
{
    if events.len() > 0 {
        lemma_exit_code_while_probing(s, events.drop_last());
        assert(as_inputs(events).drop_last() =~= as_inputs(events.drop_last()));
        assert(as_inputs(events).last() == InputView::Event(events.last()));
    }
}

/// A process that never reports its end leaves the exit code that stands
/// for "not terminated": where no event of the installation reports the
/// end of the process, the deployment is done with exit code -1.
pub proof fn lemma_unterminated_process_reports_sentinel(s: DeploymentView, events: Seq<EventView>)
    requires
        s.stage == Stage::Installing,
        s.code == NOT_TERMINATED,
        forall|i: int| 0 <= i < events.len() ==> !(events[i] is Terminated),
    ensures
        next(run(s, as_inputs(events)).state, InputView::StreamClosed).state.stage == Stage::Done,
        next(run(s, as_inputs(events)).state, InputView::StreamClosed).state.code == -1,
{
    lemma_exit_code_is_the_last_reported(s, events);
    lemma_no_exit_reported(events, s.code);
}

/// Events that do not report the end of the process leave the code as it
/// was.
pub proof fn lemma_no_exit_reported(events: Seq<EventView>, code: i32)
    requires
        forall|i: int| 0 <= i < events.len() ==> !(events[i] is Terminated),
    ensures
        last_exit(events, code) == code,
    decreases events.len(),
{
    if events.len() > 0 {
        lemma_no_exit_reported(events.drop_last(), code);
    }
}

} // verus!
