//! The chunked copy of a large file: when to go on, when to report, and
//! what to do when the caller asks to stop in the middle.

use vstd::prelude::*;
use crate::models::Fraction;

verus! {

/// The size of the buffer that a file is copied through: 64 KiB.
pub const COPY_BUFFER_SIZE: usize = 64 * 1024;

/// The time that has to pass between two progress reports of one copy, in
/// milliseconds.
pub const PROGRESS_INTERVAL_MILLIS: u64 = 50;

/// How far a copy has come: in the whole run, and in its own file.
#[derive(Clone, Copy, Debug, PartialEq, Eq, Structural)]
pub struct CopyProgress {
    pub overall: Fraction,
    pub file: Fraction,
}

/// What happened at the reader's end.
#[derive(Clone, Copy, Debug, PartialEq, Eq, Structural)]
pub enum ChunkEvent {
    /// The caller asked to stop; nothing was read.
    StopRequested,
    /// The caller is gone: it cannot be asked, and a report cannot reach
    /// it. This counts as a request to stop.
    CallerGone,
    /// A read brought `bytes` bytes, `elapsed_millis` after the last
    /// progress report. A read of no bytes is the end of the file.
    Read { bytes: usize, elapsed_millis: u64 },
}

/// What the copy does next.
#[derive(Clone, Copy, Debug, PartialEq, Eq, Structural)]
pub enum ChunkStep {
    /// Close both files and remove the destination, so that no truncated
    /// file stays behind; the run is stopped.
    Abandon,
    /// The file is copied.
    Finished,
    /// Write the chunk; then report progress, if a report is given, and
    /// start the time to the next report anew.
    Write { report: Option<CopyProgress> },
}

/// A copy under way.
#[derive(Clone, Copy, Debug, PartialEq, Eq, Structural)]
pub struct Transfer {
    /// The size of the source.
    pub file_size: u64,
    /// The bytes copied so far.
    pub copied: u64,
    /// The bytes that the whole plan stands for.
    pub total: u64,
    /// The bytes of the plan's actions that were over before this copy.
    pub before: u64,
}

/// The sum of two counts, held to what a `u64` can count.
pub open spec fn capped_sum(a: int, b: int) -> u64 {
    if a + b > u64::MAX {
        u64::MAX
    } else if a + b < 0 {
        0
    } else {
        (a + b) as u64
    }
}

/// `done` of `total` as a fraction, held to the whole; where the whole is
/// nothing, all of it is done.
pub open spec fn part_of(done: u64, total: u64) -> Fraction {
    if total == 0 {
        Fraction { done: 1, total: 1 }
    } else if done > total {
        Fraction { done: total, total }
    } else {
        Fraction { done, total }
    }
}

/// Writes `done` of `total` as a fraction.
pub fn fraction(done: u64, total: u64) -> (f: Fraction)
    ensures
        f == part_of(done, total),
        f.wf(),
{
    if total == 0 {
        Fraction { done: 1, total: 1 }
    } else if done > total {
        Fraction { done: total, total }
    } else {
        Fraction { done, total }
    }
}

impl Transfer {
    /// Whether a report is due after a chunk: there is something to measure
    /// against, and either enough time has passed or the file is complete.
    pub open spec fn report_due(self, elapsed_millis: u64) -> bool {
        self.total > 0 && (elapsed_millis > PROGRESS_INTERVAL_MILLIS || self.copied
            == self.file_size)
    }

    /// The report of a copy that stands as `self`.
    pub open spec fn report(self) -> CopyProgress {
        CopyProgress {
            overall: part_of(capped_sum(self.before as int, self.copied as int), self.total),
            file: part_of(self.copied, self.file_size),
        }
    }

    /// The copy after an event, and what it does next.
    pub open spec fn stepped(self, event: ChunkEvent) -> (Transfer, ChunkStep) {
        match event {
            ChunkEvent::StopRequested => (self, ChunkStep::Abandon),
            ChunkEvent::CallerGone => (self, ChunkStep::Abandon),
            ChunkEvent::Read { bytes, elapsed_millis } => if bytes == 0 {
                (self, ChunkStep::Finished)
            } else {
                let next = Transfer {
                    copied: capped_sum(self.copied as int, bytes as int),
                    ..self
                };
                (
                    next,
                    ChunkStep::Write {
                        report: if next.report_due(elapsed_millis) {
                            Some(next.report())
                        } else {
                            None
                        },
                    },
                )
            },
        }
    }

    /// Begins the copy of a file of `file_size` bytes, in a run that stands
    /// for `total` bytes of which `before` are over.
    pub fn begin(file_size: u64, total: u64, before: u64) -> (transfer: Self)
        ensures
            transfer == (Transfer { file_size, copied: 0, total, before }),
    {
        Transfer { file_size, copied: 0, total, before }
    }

    /// Takes in what happened at the reader's end and says what to do next.
    pub fn step(self, event: ChunkEvent) -> (next: (Transfer, ChunkStep))
        ensures
            next == self.stepped(event),
            next.1 matches ChunkStep::Write { report: Some(progress) } ==> progress.overall.wf()
                && progress.file.wf(),
    {
        match event {
            ChunkEvent::StopRequested => (self, ChunkStep::Abandon),
            ChunkEvent::CallerGone => (self, ChunkStep::Abandon),
            ChunkEvent::Read { bytes, elapsed_millis } => {
                if bytes == 0 {
                    (self, ChunkStep::Finished)
                } else {
                    let copied = self.copied.saturating_add(bytes as u64);
                    let next = Transfer {
                        file_size: self.file_size,
                        copied,
                        total: self.total,
                        before: self.before,
                    };
                    let due = self.total > 0 && (elapsed_millis > PROGRESS_INTERVAL_MILLIS || copied
                        == self.file_size);
                    let report = if due {
                        Some(
                            CopyProgress {
                                overall: fraction(self.before.saturating_add(copied), self.total),
                                file: fraction(copied, self.file_size),
                            },
                        )
                    } else {
                        None
                    };
                    (next, ChunkStep::Write { report })
                }
            },
        }
    }
}

/// A request to stop abandons the copy at once, whatever has been copied,
/// and so does the loss of the caller.
pub proof fn law_stop_abandons(transfer: Transfer)
    ensures
        transfer.stepped(ChunkEvent::StopRequested) == (transfer, ChunkStep::Abandon),
        transfer.stepped(ChunkEvent::CallerGone) == (transfer, ChunkStep::Abandon),
{
}

/// The count of copied bytes never goes down, and the copy is finished only
/// by a read of no bytes.
pub proof fn law_copy_moves_forward(transfer: Transfer, event: ChunkEvent)
    ensures
        transfer.stepped(event).0.copied >= transfer.copied,
        transfer.stepped(event).1 is Finished <==> event == (ChunkEvent::Read {
            bytes: 0,
            elapsed_millis: event->elapsed_millis,
        }),
{
}

} // verus!
