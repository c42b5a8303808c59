use flow_farm::batch::{classify, Batch, BatchAction, Report, Thresholds, Verdict};

#[test]
fn counts_successes_and_failures() {
    let mut batch = Batch::new(3, 0);
    assert_eq!(batch.report(), Report { success: 0, failed: 0, total: 3 });
    assert_eq!(batch.resume(), BatchAction::Process { index: 0 });
    assert_eq!(batch.record(true), BatchAction::Process { index: 1 });
    assert_eq!(batch.record(false), BatchAction::Process { index: 2 });
    assert_eq!(batch.report(), Report { success: 1, failed: 1, total: 3 });
    assert_eq!(batch.record(true), BatchAction::Done(Report { success: 2, failed: 1, total: 3 }));
    assert_eq!(batch.record(true), BatchAction::Done(Report { success: 2, failed: 1, total: 3 }));
    assert_eq!(batch.resume(), BatchAction::Done(Report { success: 2, failed: 1, total: 3 }));
}

#[test]
fn pauses_between_items_but_not_after_the_last() {
    let mut batch = Batch::new(2, 3000);
    assert_eq!(batch.resume(), BatchAction::Process { index: 0 });
    assert_eq!(batch.record(false), BatchAction::Pause { ms: 3000 });
    assert_eq!(batch.resume(), BatchAction::Process { index: 1 });
    assert_eq!(batch.record(false), BatchAction::Done(Report { success: 0, failed: 2, total: 2 }));
}

#[test]
fn an_empty_batch_is_done_at_once() {
    let mut batch = Batch::new(0, 3000);
    assert_eq!(batch.resume(), BatchAction::Done(Report { success: 0, failed: 0, total: 0 }));
    assert_eq!(batch.record(true), BatchAction::Done(Report { success: 0, failed: 0, total: 0 }));
}

#[test]
fn judges_by_share_of_successes() {
    let t = Thresholds::standard();
    assert_eq!(t, Thresholds { full_percent: 80, partial_percent: 50 });
    assert_eq!(classify(0, 0, t), Verdict::Failed);
    assert_eq!(classify(5, 5, t), Verdict::Full);
    assert_eq!(classify(4, 5, t), Verdict::Full);
    assert_eq!(classify(79, 100, t), Verdict::Partial);
    assert_eq!(classify(80, 100, t), Verdict::Full);
    assert_eq!(classify(1, 2, t), Verdict::Partial);
    assert_eq!(classify(49, 100, t), Verdict::Failed);
    assert_eq!(classify(0, 7, t), Verdict::Failed);
    assert_eq!(classify(usize::MAX, usize::MAX, t), Verdict::Full);
    assert_eq!(classify(usize::MAX / 2, usize::MAX, t), Verdict::Failed);
    assert_eq!(classify(usize::MAX / 2 + 1, usize::MAX, t), Verdict::Partial);
}

#[test]
fn thresholds_can_be_chosen() {
    let strict = Thresholds { full_percent: 100, partial_percent: 1 };
    assert_eq!(classify(99, 100, strict), Verdict::Partial);
    assert_eq!(classify(100, 100, strict), Verdict::Full);
    assert_eq!(classify(1, 100, strict), Verdict::Partial);
    assert_eq!(classify(0, 100, strict), Verdict::Failed);
    let lax = Thresholds { full_percent: 0, partial_percent: 0 };
    assert_eq!(classify(0, 1, lax), Verdict::Full);
    assert_eq!(classify(0, 0, lax), Verdict::Failed);
    let never = Thresholds { full_percent: 255, partial_percent: 200 };
    assert_eq!(classify(10, 10, never), Verdict::Failed);
    let report = Report { success: 2, failed: 1, total: 3 };
    assert_eq!(report.verdict(Thresholds::standard()), Verdict::Partial);
    assert!(report.any_success());
}
