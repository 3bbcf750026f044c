//! Closing a running game before it is started again: ask its window to
//! close, wait for the process to exit, terminate it if it does not.
//! The decisions are a state machine; the caller performs each action on
//! the operating system and reports what happened.
use vstd::prelude::*;
use crate::text::chars_of;

verus! {

/// The window class of the game's main window.
pub open spec fn game_window_class() -> Seq<char> {
    "Valve001"@
}

/// UTF-16 code units of one character.
pub open spec fn utf16_units(c: char) -> Seq<u16> {
    let v = c as int;
    if v < 0x10000 {
        seq![v as u16]
    } else {
        let u = v - 0x10000;
        seq![(0xD800 + u / 0x400) as u16, (0xDC00 + u % 0x400) as u16]
    }
}

/// UTF-16 encoding of a string (std's `str::encode_utf16`).
pub open spec fn utf16(s: Seq<char>) -> Seq<u16>
    decreases s.len(),
{
    if s.len() == 0 {
        Seq::empty()
    } else {
        utf16(s.drop_last()) + utf16_units(s.last())
    }
}

fn push_utf16(out: &mut Vec<u16>, c: char)
    ensures
        final(out)@ == old(out)@ + utf16_units(c),
{
    let v = c as u32;
    if v < 0x10000 {
        out.push(v as u16);
        assert(final(out)@ =~= old(out)@ + utf16_units(c));
    } else {
        let u = v - 0x10000;
        out.push((0xD800 + u / 0x400) as u16);
        out.push((0xDC00 + u % 0x400) as u16);
        assert(final(out)@ =~= old(out)@ + utf16_units(c));
    }
}

/// A string as a NUL-terminated UTF-16 buffer, the form Windows APIs take.
pub fn wide_null(value: &str) -> (r: Vec<u16>)
    ensures
        r@ == utf16(value@).push(0u16),
{
    let cs = chars_of(value);
    let mut out: Vec<u16> = Vec::new();
    let mut i: usize = 0;
    while i < cs.len()
        invariant
            i <= cs@.len(),
            cs@ == value@,
            out@ == utf16(cs@.take(i as int)),
        decreases cs@.len() - i,
    {
        let ghost t = cs@.take(i + 1);
        assert(t.drop_last() =~= cs@.take(i as int));
        push_utf16(&mut out, cs[i]);
        i = i + 1;
    }
    assert(cs@.take(cs@.len() as int) =~= cs@);
    out.push(0u16);
    out
}

/// Where closing the game stands.
#[derive(Debug, Clone, Copy, PartialEq, Eq, Structural)]
pub enum CloseStage {
    /// Looking for the game's window.
    FindingWindow,
    /// The window was found; asking it to close and reading its process id.
    ClosingWindow,
    /// Opening the game's process to wait on it.
    OpeningProcess,
    /// Waiting for the process to exit (a process handle is open).
    WaitingForExit,
    /// Terminating the process and waiting for it (a process handle is open).
    Terminating,
    /// Closing the process handle.
    ReleasingHandle,
    /// A last pause before returning.
    FinalPause,
    /// Done: the game is not running, or was asked to close.
    Finished,
}

/// What the operating system reported for the last action.
#[derive(Debug, Clone, Copy, PartialEq, Eq, Structural)]
pub enum CloseEvent {
    /// Whether a window of the game's class was found.
    WindowSearched { found: bool },
    /// The close message was posted; the window's process id (0 when unknown).
    ClosePosted { process_id: u32 },
    /// Whether the process could be opened.
    ProcessOpened { opened: bool },
    /// Whether the process exited within the wait.
    ExitWaited { exited: bool },
    /// The action (a pause, a termination, closing the handle) was carried out.
    Completed,
}

/// What the caller is to do next.
#[derive(Debug, Clone, Copy, PartialEq, Eq, Structural)]
pub enum CloseAction {
    /// Look for a top-level window of class `Valve001`.
    FindWindow,
    /// Read the window's process id and post it `WM_CLOSE`.
    PostCloseAndReadProcessId,
    /// Pause for this many milliseconds.
    Sleep { millis: u64 },
    /// Open the process with the rights to wait on it and terminate it.
    OpenProcess { process_id: u32 },
    /// Wait up to this many milliseconds for the process to exit.
    WaitForExit { millis: u32 },
    /// Terminate the process, then wait up to this many milliseconds.
    TerminateAndWait { millis: u32 },
    /// Close the process handle.
    CloseHandle,
    /// Return success.
    Finish,
}

/// Whether a process handle is open in this stage.
pub open spec fn holds_handle(s: CloseStage) -> bool {
    s == CloseStage::WaitingForExit || s == CloseStage::Terminating || s
        == CloseStage::ReleasingHandle
}

/// The transition table. An event that does not answer the stage's action
/// ends the machine, releasing the process handle first if one is open.
pub open spec fn close_transition(s: CloseStage, e: CloseEvent) -> (CloseStage, CloseAction) {
    match (s, e) {
        (CloseStage::FindingWindow, CloseEvent::WindowSearched { found }) => if found {
            (CloseStage::ClosingWindow, CloseAction::PostCloseAndReadProcessId)
        } else {
            (CloseStage::Finished, CloseAction::Finish)
        },
        (CloseStage::ClosingWindow, CloseEvent::ClosePosted { process_id }) => if process_id
            == 0 {
            (CloseStage::FinalPause, CloseAction::Sleep { millis: 1400 })
        } else {
            (CloseStage::OpeningProcess, CloseAction::OpenProcess { process_id })
        },
        (CloseStage::OpeningProcess, CloseEvent::ProcessOpened { opened }) => if opened {
            (CloseStage::WaitingForExit, CloseAction::WaitForExit { millis: 3500 })
        } else {
            (CloseStage::FinalPause, CloseAction::Sleep { millis: 1400 })
        },
        (CloseStage::WaitingForExit, CloseEvent::ExitWaited { exited }) => if exited {
            (CloseStage::ReleasingHandle, CloseAction::CloseHandle)
        } else {
            (CloseStage::Terminating, CloseAction::TerminateAndWait { millis: 2000 })
        },
        (CloseStage::Terminating, CloseEvent::Completed) => (
            CloseStage::ReleasingHandle,
            CloseAction::CloseHandle,
        ),
        (CloseStage::ReleasingHandle, _) => (
            CloseStage::FinalPause,
            CloseAction::Sleep { millis: 700 },
        ),
        (CloseStage::FinalPause, CloseEvent::Completed) => (
            CloseStage::Finished,
            CloseAction::Finish,
        ),
        (CloseStage::WaitingForExit, _) => (CloseStage::ReleasingHandle, CloseAction::CloseHandle),
        (CloseStage::Terminating, _) => (CloseStage::ReleasingHandle, CloseAction::CloseHandle),
        _ => (CloseStage::Finished, CloseAction::Finish),
    }
}

/// The first stage and action: look for the game's window.
pub fn begin_close_csgo() -> (r: (CloseStage, CloseAction))
    ensures
        r == (CloseStage::FindingWindow, CloseAction::FindWindow),
{
    (CloseStage::FindingWindow, CloseAction::FindWindow)
}

/// One step of closing the game: from the stage and what the last action
/// reported, the next stage and action. The machine always ends in
/// success; a window that is not found means there is nothing to close.
pub fn close_csgo_if_running(stage: CloseStage, event: CloseEvent) -> (r: (CloseStage, CloseAction))
    ensures
        r == close_transition(stage, event),
{
    match (stage, event) {
        (CloseStage::FindingWindow, CloseEvent::WindowSearched { found }) => if found {
            (CloseStage::ClosingWindow, CloseAction::PostCloseAndReadProcessId)
        } else {
            (CloseStage::Finished, CloseAction::Finish)
        },
        (CloseStage::ClosingWindow, CloseEvent::ClosePosted { process_id }) => if process_id
            == 0 {
            (CloseStage::FinalPause, CloseAction::Sleep { millis: 1400 })
        } else {
            (CloseStage::OpeningProcess, CloseAction::OpenProcess { process_id })
        },
        (CloseStage::OpeningProcess, CloseEvent::ProcessOpened { opened }) => if opened {
            (CloseStage::WaitingForExit, CloseAction::WaitForExit { millis: 3500 })
        } else {
            (CloseStage::FinalPause, CloseAction::Sleep { millis: 1400 })
        },
        (CloseStage::WaitingForExit, CloseEvent::ExitWaited { exited }) => if exited {
            (CloseStage::ReleasingHandle, CloseAction::CloseHandle)
        } else {
            (CloseStage::Terminating, CloseAction::TerminateAndWait { millis: 2000 })
        },
        (CloseStage::Terminating, CloseEvent::Completed) => (
            CloseStage::ReleasingHandle,
            CloseAction::CloseHandle,
        ),
        (CloseStage::ReleasingHandle, _) => (
            CloseStage::FinalPause,
            CloseAction::Sleep { millis: 700 },
        ),
        (CloseStage::FinalPause, CloseEvent::Completed) => (
            CloseStage::Finished,
            CloseAction::Finish,
        ),
        (CloseStage::WaitingForExit, _) => (CloseStage::ReleasingHandle, CloseAction::CloseHandle),
        (CloseStage::Terminating, _) => (CloseStage::ReleasingHandle, CloseAction::CloseHandle),
        _ => (CloseStage::Finished, CloseAction::Finish),
    }
}

/// How many steps at most remain from a stage.
pub open spec fn close_rank(s: CloseStage) -> nat {
    match s {
        CloseStage::FindingWindow => 7,
        CloseStage::ClosingWindow => 6,
        CloseStage::OpeningProcess => 5,
        CloseStage::WaitingForExit => 4,
        CloseStage::Terminating => 3,
        CloseStage::ReleasingHandle => 2,
        CloseStage::FinalPause => 1,
        CloseStage::Finished => 0,
    }
}

/// Closing the game always ends: every step before the end moves to a
/// stage of lower rank, so at most seven steps follow the first action,
/// whatever the operating system reports; the end is final and says
/// `Finish`, and `Finish` is said only at the end.
pub proof fn lemma_close_terminates(s: CloseStage, e: CloseEvent)
    ensures
        s != CloseStage::Finished ==> close_rank(close_transition(s, e).0) < close_rank(s),
        s == CloseStage::Finished ==> close_transition(s, e) == (
            CloseStage::Finished,
            CloseAction::Finish,
        ),
        (close_transition(s, e).1 == CloseAction::Finish) == (close_transition(s, e).0
            == CloseStage::Finished),
{
}

/// A process handle that was opened is always closed before the end: the
/// only step out of the stages that hold it is the one that follows
/// `CloseHandle`, the only action that enters the releasing stage is
/// `CloseHandle`, and the only way into the holding stages is a successful
/// `OpenProcess`.
pub proof fn lemma_close_releases_handle(s: CloseStage, e: CloseEvent)
    ensures
        holds_handle(s) && !holds_handle(close_transition(s, e).0) ==> s
            == CloseStage::ReleasingHandle,
        close_transition(s, e).0 == CloseStage::ReleasingHandle ==> close_transition(s, e).1
            == CloseAction::CloseHandle,
        !holds_handle(s) && holds_handle(close_transition(s, e).0) ==> s
            == CloseStage::OpeningProcess && e == (CloseEvent::ProcessOpened { opened: true }),
{
}

} // verus!
