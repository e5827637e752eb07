//! What a terminal reports, and what the applet makes of it.

use crate::message::Message;
use crate::pane::PaneId;
use vstd::prelude::*;

verus! {

/// What a terminal reports, as far as it matters here.
#[derive(Debug, Clone, Copy, PartialEq, Eq, Structural)]
pub enum TermSignal {
    /// The child process is gone.
    Exit,
    /// Anything else: there is something new to show.
    Wakeup,
}

/// What to do after a look at a terminal's queue of reports.
#[derive(Debug, Clone)]
pub enum DrainStep {
    /// Look again, without waiting.
    LookAgain,
    /// Hand this message to the applet, and then wait for the next report.
    Emit(Message),
    /// No more reports will come.
    End,
}

/// What a look at the queue leads to. A terminal that repaints its screen reports
/// many times within one frame; all those reports together make one message, and
/// the end of the child goes before any repaint.
pub open spec fn drain_step(pane: PaneId, draining: bool, next: Option<TermSignal>) -> DrainStep {
    match next {
        Some(TermSignal::Exit) => DrainStep::Emit(Message::ClosePane(pane)),
        Some(TermSignal::Wakeup) => DrainStep::LookAgain,
        None => if draining {
            DrainStep::Emit(Message::TerminalUpdated(pane))
        } else {
            DrainStep::End
        },
    }
}

/// Decides what a look at the queue of the pane's terminal leads to. `draining`
/// says whether reports were found before, so that `None` means that the queue is
/// empty for now; else it means that the queue is closed.
pub fn term_event_step(pane: PaneId, draining: bool, next: Option<TermSignal>) -> (step: DrainStep)
    ensures
        step == drain_step(pane, draining, next),
{
    match next {
        Some(TermSignal::Exit) => DrainStep::Emit(Message::ClosePane(pane)),
        Some(TermSignal::Wakeup) => DrainStep::LookAgain,
        None => {
            if draining {
                DrainStep::Emit(Message::TerminalUpdated(pane))
            } else {
                DrainStep::End
            }
        },
    }
}

/// The message that a queue of reports makes, read step by step from position
/// `i` on until it is empty.
pub open spec fn drained(pane: PaneId, queue: Seq<TermSignal>, i: int) -> DrainStep
    decreases queue.len() - i,
{
    if i < 0 || i >= queue.len() {
        drain_step(pane, i > 0, None)
    } else {
        match drain_step(pane, i > 0, Some(queue[i])) {
            DrainStep::LookAgain => drained(pane, queue, i + 1),
            step => step,
        }
    }
}

proof fn lemma_drained(pane: PaneId, queue: Seq<TermSignal>, i: int)
    requires
        0 <= i <= queue.len(),
        i > 0 || queue.len() > 0,
    ensures
        drained(pane, queue, i) == (if exists|k: int|
            i <= k < queue.len() && #[trigger] queue[k] == TermSignal::Exit {
            DrainStep::Emit(Message::ClosePane(pane))
        } else {
            DrainStep::Emit(Message::TerminalUpdated(pane))
        }),
    decreases queue.len() - i,
{
    if i < queue.len() {
        if queue[i] != TermSignal::Exit {
            lemma_drained(pane, queue, i + 1);
        }
    }
}

/// How many reports of a queue have been taken, read step by step from position `i`
/// on, once there is a message.
pub open spec fn consumed(pane: PaneId, queue: Seq<TermSignal>, i: int) -> int
    decreases queue.len() - i,
{
    if i < 0 || i >= queue.len() {
        i
    } else {
        match drain_step(pane, i > 0, Some(queue[i])) {
            DrainStep::LookAgain => consumed(pane, queue, i + 1),
            _ => i + 1,
        }
    }
}

proof fn lemma_consumed(pane: PaneId, queue: Seq<TermSignal>, i: int)
    requires
        0 <= i <= queue.len(),
    ensures
        i <= consumed(pane, queue, i) <= queue.len(),
        i < queue.len() ==> i < consumed(pane, queue, i),
        forall|k: int|
            i <= k < consumed(pane, queue, i) - 1 ==> (#[trigger] queue[k]) != TermSignal::Exit,
        consumed(pane, queue, i) == queue.len() || queue[consumed(pane, queue, i) - 1]
            == TermSignal::Exit,
    decreases queue.len() - i,
{
    if i < queue.len() && queue[i] != TermSignal::Exit {
        lemma_consumed(pane, queue, i + 1);
    }
}

/// A message takes the reports up to the child's end, or all of them where that is
/// not among them, and leaves what comes after for the next message.
pub proof fn law_message_takes_reports_up_to_the_end(pane: PaneId, queue: Seq<TermSignal>)
    requires
        queue.len() > 0,
    ensures
        1 <= consumed(pane, queue, 0) <= queue.len(),
        drained(pane, queue, 0) == DrainStep::Emit(Message::ClosePane(pane)) <==> queue[consumed(
            pane,
            queue,
            0,
        ) - 1] == TermSignal::Exit,
        forall|k: int|
            0 <= k < consumed(pane, queue, 0) - 1 ==> (#[trigger] queue[k]) != TermSignal::Exit,
        drained(pane, queue, 0) != DrainStep::Emit(Message::ClosePane(pane)) ==> consumed(
            pane,
            queue,
            0,
        ) == queue.len(),
{
    lemma_drained(pane, queue, 0);
    lemma_consumed(pane, queue, 0);
    let last = consumed(pane, queue, 0) - 1;
    if queue[last] == TermSignal::Exit {
        assert(exists|k: int| 0 <= k < queue.len() && #[trigger] queue[k] == TermSignal::Exit);
    } else {
        assert(last == queue.len() - 1);
        assert forall|k: int| 0 <= k < queue.len() implies (#[trigger] queue[k])
            != TermSignal::Exit by {}
    }
}

/// However many reports are waiting, they make one message: that the pane closes
/// if the child's end is among them, and that it is to be drawn anew if not.
pub proof fn law_reports_make_one_message(pane: PaneId, queue: Seq<TermSignal>)
    requires
        queue.len() > 0,
    ensures
        drained(pane, queue, 0) == (if queue.contains(TermSignal::Exit) {
            DrainStep::Emit(Message::ClosePane(pane))
        } else {
            DrainStep::Emit(Message::TerminalUpdated(pane))
        }),
{
    lemma_drained(pane, queue, 0);
}

} // verus!
