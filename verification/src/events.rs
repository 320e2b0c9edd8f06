//! What a running bridge tool reports, and how its reports are read.

use vstd::prelude::*;
use vstd::string::*;
use crate::lines::{line, line_text, EMPTY_MARKER, ERROR_MARKER, ERROR_PREFIX, STREAM_ERROR};
use crate::text::{contains, has_infix};

verus! {

/// One event of a process's output stream, in the order it was produced.
#[derive(Debug, PartialEq, Eq)]
pub enum ProcessEvent {
    /// A piece of standard output.
    StdoutLine(String),
    /// A piece of standard error.
    StderrLine(String),
    /// The stream itself reported an error.
    SpawnError(String),
    /// The process ended, with its exit code where it had one.
    Terminated(Option<i32>),
}

/// A [`ProcessEvent`] as plain values.
pub enum EventView {
    StdoutLine(Seq<char>),
    StderrLine(Seq<char>),
    SpawnError(Seq<char>),
    Terminated(Option<i32>),
}

impl View for ProcessEvent {
    type V = EventView;

    open spec fn view(&self) -> EventView {
        match self {
            ProcessEvent::StdoutLine(text) => EventView::StdoutLine(text@),
            ProcessEvent::StderrLine(text) => EventView::StderrLine(text@),
            ProcessEvent::SpawnError(text) => EventView::SpawnError(text@),
            ProcessEvent::Terminated(code) => EventView::Terminated(*code),
        }
    }
}

/// Whether any device is attached.
#[derive(Clone, Copy, Debug, PartialEq, Eq, Structural)]
pub enum DeviceStatus {
    NoDevice,
    HasDevices,
}

/// The exit code reported while no process has been seen to end.
pub const NOT_TERMINATED: i32 = -1;

/// The exit code of a run that ended without installing anything.
pub const NOTHING_INSTALLED: i32 = 1;

/// The progress line that an event is shown as: standard output as it is,
/// standard error behind the error prefix, an error of the stream as a line
/// of its own. The end of the process shows as nothing.
pub open spec fn shown(event: EventView) -> Option<Seq<char>> {
    match event {
        EventView::StdoutLine(text) => Some(text),
        EventView::StderrLine(text) => Some(ERROR_PREFIX@ + text),
        EventView::SpawnError(text) => Some(line(STREAM_ERROR@, text)),
        EventView::Terminated(_) => None,
    }
}

/// The exit code that the end of a process stands for: its own, or 0 where
/// it ended without one.
pub open spec fn exit_code(reported: Option<i32>) -> i32 {
    match reported {
        Some(code) => code,
        None => 0,
    }
}

/// The device status that the output of the bridge tool's device list
/// stands for: no device where it holds the tool's marker for an empty
/// list or the marker of an error line.
pub open spec fn device_status(output: Seq<char>) -> DeviceStatus {
    if has_infix(output, EMPTY_MARKER@) || has_infix(output, ERROR_MARKER@) {
        DeviceStatus::NoDevice
    } else {
        DeviceStatus::HasDevices
    }
}

/// The progress line that `event` is shown as.
pub fn show(event: &ProcessEvent) -> (text: Option<String>)
    ensures
        match text {
            Some(text) => shown(event@) == Some(text@),
            None => shown(event@) is None,
        },
{
    match event {
        ProcessEvent::StdoutLine(text) => Some(text.clone()),
        ProcessEvent::StderrLine(text) => {
            let mut shown = String::from_str(ERROR_PREFIX);
            shown.append(text.as_str());
            Some(shown)
        },
        ProcessEvent::SpawnError(text) => Some(line_text(STREAM_ERROR, text.as_str())),
        ProcessEvent::Terminated(_) => None,
    }
}

/// The exit code that the end of a process stands for.
pub fn exit_code_of(reported: Option<i32>) -> (code: i32)
    ensures
        code == exit_code(reported),
{
    match reported {
        Some(code) => code,
        None => 0,
    }
}

/// Reads the device status from the output of the bridge tool's device list.
pub fn classify(output: &str) -> (status: DeviceStatus)
    ensures
        status == device_status(output@),
{
    if contains(output, EMPTY_MARKER) || contains(output, ERROR_MARKER) {
        DeviceStatus::NoDevice
    } else {
        DeviceStatus::HasDevices
    }
}

/// Any line from the error stream makes the output read as "no device".
pub proof fn lemma_error_line_means_no_device(before: Seq<char>, text: Seq<char>, after: Seq<char>)
    ensures
        device_status(before + (ERROR_PREFIX@ + text) + after) == DeviceStatus::NoDevice,
{
    reveal_strlit("[错误] ");
    reveal_strlit("[错误]");
    let output = before + (ERROR_PREFIX@ + text) + after;
    assert(output.subrange(before.len() as int, before.len() + ERROR_MARKER@.len() as int)
        =~= ERROR_MARKER@);
    assert(crate::text::occurs_at(output, ERROR_MARKER@, before.len() as int));
}

} // verus!
