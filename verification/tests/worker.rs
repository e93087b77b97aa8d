use burnsubs::acceleration::{EncoderSelection, VideoEncoder};
use burnsubs::worker::{concise_error, EncodeFailure, QueueAction, QueueInput, QueueRunner, WorkerEvent};

fn delivered(runner: &mut QueueRunner) -> QueueAction {
    runner.advance(QueueInput::Delivered(true), false)
}

fn expect_event(action: QueueAction) -> WorkerEvent {
    match action {
        QueueAction::Emit(event) => event,
        other => panic!("expected an event, got {other:?}"),
    }
}

fn start_with(jobs: Vec<u64>, encoder: VideoEncoder) -> QueueRunner {
    let (mut runner, first) = QueueRunner::new(jobs.clone());
    assert!(matches!(expect_event(first), WorkerEvent::QueueStarted { total_jobs } if total_jobs == jobs.len()));
    assert!(matches!(delivered(&mut runner), QueueAction::LocateFfmpeg));
    assert!(matches!(runner.advance(QueueInput::Located(Ok(())), false), QueueAction::SelectEncoder));
    let selection = EncoderSelection { encoder, note: None };
    let event = expect_event(runner.advance(QueueInput::Selected(Ok(selection)), false));
    assert!(matches!(event, WorkerEvent::EncoderSelected { hardware, .. } if hardware == encoder.is_hardware()));
    runner
}

fn failure(message: &str) -> EncodeFailure {
    EncodeFailure { message: message.to_owned(), detailed: format!("{message}: details") }
}

#[test]
fn queue_completes_and_counts_jobs() {
    let mut runner = start_with(vec![7, 8], VideoEncoder::Software);
    for (id, ok) in [(7u64, true), (8u64, false)] {
        assert!(matches!(expect_event(delivered(&mut runner)), WorkerEvent::JobProbing(j) if j == id));
        assert!(matches!(delivered(&mut runner), QueueAction::ProbeJob(_)));
        assert!(matches!(
            expect_event(runner.advance(QueueInput::Probed(Ok(())), false)),
            WorkerEvent::JobStarted { job_id, .. } if job_id == id
        ));
        assert!(matches!(delivered(&mut runner), QueueAction::EncodeJob(_, VideoEncoder::Software)));
        let result = if ok { Ok(()) } else { Err(failure("disk full")) };
        let event = expect_event(runner.advance(QueueInput::Encoded(result), false));
        if ok {
            assert!(matches!(event, WorkerEvent::JobCompleted(j) if j == id));
        } else {
            assert!(matches!(event, WorkerEvent::JobFailed { job_id, ref error } if job_id == id && error == "disk full"));
        }
    }
    let last = expect_event(delivered(&mut runner));
    assert!(matches!(last, WorkerEvent::QueueCompleted { completed_jobs: 1, failed_jobs: 1 }));
    assert!(matches!(delivered(&mut runner), QueueAction::Stop));
}

#[test]
fn hardware_failure_retries_the_job_on_cpu() {
    let mut runner = start_with(vec![1, 2], VideoEncoder::NvidiaNvenc);
    expect_event(delivered(&mut runner));
    delivered(&mut runner);
    expect_event(runner.advance(QueueInput::Probed(Ok(())), false));
    assert!(matches!(delivered(&mut runner), QueueAction::EncodeJob(0, VideoEncoder::NvidiaNvenc)));
    let fallback = expect_event(runner.advance(QueueInput::Encoded(Err(failure("nvenc broke"))), false));
    match fallback {
        WorkerEvent::JobFallback { job_id, from, to, reason } => {
            assert_eq!(job_id, 1);
            assert_eq!(from, "NVIDIA NVENC");
            assert_eq!(to, "CPU (libx264)");
            assert_eq!(reason, "nvenc broke: details");
        }
        other => panic!("unexpected {other:?}"),
    }
    assert!(matches!(delivered(&mut runner), QueueAction::EncodeJob(0, VideoEncoder::Software)));
    assert!(matches!(expect_event(runner.advance(QueueInput::Encoded(Ok(())), false)), WorkerEvent::JobCompleted(1)));
    expect_event(delivered(&mut runner));
    delivered(&mut runner);
    let started = expect_event(runner.advance(QueueInput::Probed(Ok(())), false));
    assert!(matches!(started, WorkerEvent::JobStarted { job_id: 2, ref encoder } if encoder == "CPU (libx264)"));
    assert!(matches!(delivered(&mut runner), QueueAction::EncodeJob(1, VideoEncoder::Software)));
}

#[test]
fn fallback_failure_reports_both_errors() {
    let mut runner = start_with(vec![5], VideoEncoder::IntelQuickSync);
    expect_event(delivered(&mut runner));
    delivered(&mut runner);
    expect_event(runner.advance(QueueInput::Probed(Ok(())), false));
    delivered(&mut runner);
    expect_event(runner.advance(QueueInput::Encoded(Err(failure("qsv"))), false));
    runner.advance(QueueInput::Delivered(true), false);
    let failed = expect_event(runner.advance(QueueInput::Encoded(Err(failure("cpu"))), false));
    match failed {
        WorkerEvent::JobFailed { job_id, error } => {
            assert_eq!(job_id, 5);
            assert_eq!(
                error,
                "Intel Quick Sync failed, then the CPU fallback also failed.\nHardware error: qsv: details\nCPU error: cpu: details"
            );
        }
        other => panic!("unexpected {other:?}"),
    }
    assert!(matches!(expect_event(delivered(&mut runner)), WorkerEvent::QueueCompleted { completed_jobs: 0, failed_jobs: 1 }));
}

#[test]
fn cancellation_stops_before_the_next_job() {
    let mut runner = start_with(vec![1, 2], VideoEncoder::Software);
    expect_event(delivered(&mut runner));
    delivered(&mut runner);
    let cancelled = expect_event(runner.advance(QueueInput::Probed(Ok(())), true));
    assert!(matches!(cancelled, WorkerEvent::JobCancelled(1)));
    let end = expect_event(runner.advance(QueueInput::Delivered(true), true));
    assert!(matches!(end, WorkerEvent::QueueCancelled { completed_jobs: 0, failed_jobs: 0 }));
    assert!(matches!(delivered(&mut runner), QueueAction::Stop));
}

#[test]
fn lost_user_interface_cancels_the_queue() {
    let (mut runner, _) = QueueRunner::new(vec![1]);
    assert!(matches!(runner.advance(QueueInput::Delivered(false), false), QueueAction::CancelAndStop));
}

#[test]
fn setup_failures_end_the_queue() {
    let (mut runner, _) = QueueRunner::new(vec![1]);
    delivered(&mut runner);
    let event = expect_event(runner.advance(QueueInput::Located(Err("no ffmpeg".to_owned())), false));
    assert!(matches!(event, WorkerEvent::QueueFailed { ref error } if error == "no ffmpeg"));

    let (mut runner, _) = QueueRunner::new(vec![1]);
    delivered(&mut runner);
    runner.advance(QueueInput::Located(Ok(())), false);
    let event = expect_event(runner.advance(QueueInput::Selected(Err("libx264 missing".to_owned())), false));
    assert!(matches!(event, WorkerEvent::QueueFailed { ref error } if error == "Could not initialize a video encoder: libx264 missing"));
}

#[test]
fn probe_failure_counts_as_failed_job() {
    let mut runner = start_with(vec![4], VideoEncoder::Software);
    expect_event(delivered(&mut runner));
    delivered(&mut runner);
    let event = expect_event(runner.advance(QueueInput::Probed(Err("unreadable".to_owned())), false));
    assert!(matches!(event, WorkerEvent::JobFailed { job_id: 4, ref error } if error == "unreadable"));
    assert!(matches!(expect_event(delivered(&mut runner)), WorkerEvent::QueueCompleted { completed_jobs: 0, failed_jobs: 1 }));
}

#[test]
fn error_messages_are_shortened() {
    assert_eq!(concise_error("short"), "short");
    let long = "é".repeat(600);
    let short = concise_error(&long);
    assert_eq!(short.chars().count(), 501);
    assert!(short.ends_with('…'));
}

#[test]
fn empty_queue_completes_at_once() {
    let mut runner = start_with(Vec::new(), VideoEncoder::Software);
    assert!(matches!(expect_event(delivered(&mut runner)), WorkerEvent::QueueCompleted { completed_jobs: 0, failed_jobs: 0 }));
}
