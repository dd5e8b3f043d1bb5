use syncu::models::Fraction;
use syncu::transfer::{
    fraction, ChunkEvent, ChunkStep, CopyProgress, Transfer, COPY_BUFFER_SIZE,
    PROGRESS_INTERVAL_MILLIS,
};

#[test]
fn copy_engine_constants() {
    assert_eq!(COPY_BUFFER_SIZE, 65536);
    assert_eq!(PROGRESS_INTERVAL_MILLIS, 50);
}

#[test]
fn stop_abandons_the_copy_in_the_middle() {
    let transfer = Transfer::begin(50 * 1024 * 1024, 60 * 1024 * 1024, 0);
    let (transfer, step) = transfer.step(ChunkEvent::Read { bytes: 65536, elapsed_millis: 1 });
    assert_eq!(step, ChunkStep::Write { report: None });
    assert_eq!(transfer.copied, 65536);
    let (after, step) = transfer.step(ChunkEvent::StopRequested);
    assert_eq!(step, ChunkStep::Abandon);
    assert_eq!(after, transfer);
}

#[test]
fn read_of_nothing_finishes_the_copy() {
    let transfer = Transfer::begin(10, 10, 0);
    let (transfer, _) = transfer.step(ChunkEvent::Read { bytes: 10, elapsed_millis: 0 });
    let (after, step) = transfer.step(ChunkEvent::Read { bytes: 0, elapsed_millis: 100 });
    assert_eq!(step, ChunkStep::Finished);
    assert_eq!(after.copied, 10);
}

#[test]
fn reports_wait_for_the_interval() {
    let transfer = Transfer::begin(1000, 4000, 1000);
    let (transfer, step) = transfer.step(ChunkEvent::Read { bytes: 100, elapsed_millis: 50 });
    assert_eq!(step, ChunkStep::Write { report: None });
    let (transfer, step) = transfer.step(ChunkEvent::Read { bytes: 100, elapsed_millis: 51 });
    assert_eq!(
        step,
        ChunkStep::Write {
            report: Some(CopyProgress {
                overall: Fraction { done: 1200, total: 4000 },
                file: Fraction { done: 200, total: 1000 },
            })
        }
    );
    assert_eq!(transfer.copied, 200);
}

#[test]
fn completed_file_is_reported_at_once() {
    let transfer = Transfer::begin(300, 1000, 200);
    let (transfer, _) = transfer.step(ChunkEvent::Read { bytes: 100, elapsed_millis: 0 });
    let (_, step) = transfer.step(ChunkEvent::Read { bytes: 200, elapsed_millis: 0 });
    assert_eq!(
        step,
        ChunkStep::Write {
            report: Some(CopyProgress {
                overall: Fraction { done: 500, total: 1000 },
                file: Fraction { done: 300, total: 300 },
            })
        }
    );
}

#[test]
fn nothing_is_reported_without_a_total() {
    let transfer = Transfer::begin(100, 0, 0);
    let (_, step) = transfer.step(ChunkEvent::Read { bytes: 100, elapsed_millis: 500 });
    assert_eq!(step, ChunkStep::Write { report: None });
}

#[test]
fn reported_fractions_stay_within_the_whole() {
    // The file grew while it was copied, and the plan counted less.
    let transfer = Transfer::begin(100, 150, 100);
    let (_, step) = transfer.step(ChunkEvent::Read { bytes: 120, elapsed_millis: 60 });
    assert_eq!(
        step,
        ChunkStep::Write {
            report: Some(CopyProgress {
                overall: Fraction { done: 150, total: 150 },
                file: Fraction { done: 100, total: 100 },
            })
        }
    );
    assert_eq!(fraction(5, 0), Fraction { done: 1, total: 1 });
    assert_eq!(fraction(5, 10), Fraction { done: 5, total: 10 });
    assert_eq!(fraction(11, 10), Fraction { done: 10, total: 10 });
}

#[test]
fn copied_bytes_stop_at_the_largest_count() {
    let transfer = Transfer { file_size: u64::MAX, copied: u64::MAX - 5, total: 0, before: 0 };
    let (after, _) = transfer.step(ChunkEvent::Read { bytes: 10, elapsed_millis: 0 });
    assert_eq!(after.copied, u64::MAX);
}

#[test]
fn lost_caller_abandons_the_copy_like_a_stop() {
    let transfer = Transfer::begin(50 * 1024 * 1024, 60 * 1024 * 1024, 0);
    let (transfer, _) = transfer.step(ChunkEvent::Read { bytes: 65536, elapsed_millis: 1 });
    let (after, step) = transfer.step(ChunkEvent::CallerGone);
    assert_eq!(step, ChunkStep::Abandon);
    assert_eq!(after, transfer);
    let fresh = Transfer::begin(1, 1, 0);
    assert_eq!(fresh.step(ChunkEvent::CallerGone), (fresh, ChunkStep::Abandon));
}
