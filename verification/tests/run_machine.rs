use k8s_scale_app_rs::patch::{restart_patch_body, scale_patch_body, FIELD_MANAGER};
use k8s_scale_app_rs::run::{
    Action, Event, Invocation, Operation, Outcome, PatchTarget, Phase, Run, RunError,
};

fn invocation(operation: Operation, dry_run: bool, has_extra_ca_bundle: bool) -> Invocation {
    Invocation {
        operation,
        deployment: String::from("web"),
        namespace: String::from("shop"),
        dry_run,
        has_extra_ca_bundle,
    }
}

fn certificate_pem(content: Vec<u8>) -> Vec<u8> {
    pem::encode(&pem::Pem::new("CERTIFICATE", content)).into_bytes()
}

#[test]
fn scale_run_sends_one_scale_patch() {
    let mut run = Run::new(invocation(Operation::Scale { replicas: 3 }, true, false));
    assert_eq!(run.step(Event::Begin), Action::InferConfig);
    assert_eq!(
        run.step(Event::ConfigInferred { root_cert: Some(vec![vec![1]]) }),
        Action::BuildClient { root_cert: Some(vec![vec![1]]), extra_certificates: 0 }
    );
    match run.step(Event::ClientReady) {
        Action::SendPatch(request) => {
            assert_eq!(request.target, PatchTarget::ScaleSubresource);
            assert_eq!(request.name, "web");
            assert_eq!(request.namespace, "shop");
            assert!(request.options.dry_run);
            assert!(!request.options.force);
            assert_eq!(request.options.field_validation, None);
            assert_eq!(request.options.field_manager, FIELD_MANAGER);
            assert_eq!(request.body, scale_patch_body(3));
        },
        other => panic!("expected a patch, got {other:?}"),
    }
    assert_eq!(run.phase, Phase::AwaitScale);
    assert_eq!(
        run.step(Event::PatchApplied { reported_replicas: Some(Some(3)) }),
        Action::Finish(Outcome::Scaled { replicas: 3 })
    );
    assert_eq!(run.phase, Phase::Done);
}

#[test]
fn scale_run_reports_the_server_count() {
    let mut run = Run::new(invocation(Operation::Scale { replicas: 2 }, false, false));
    run.step(Event::Begin);
    run.step(Event::ConfigInferred { root_cert: None });
    run.step(Event::ClientReady);
    assert_eq!(
        run.step(Event::PatchApplied { reported_replicas: Some(Some(5)) }),
        Action::Finish(Outcome::Scaled { replicas: 5 })
    );
}

#[test]
fn scale_run_falls_back_to_the_requested_count() {
    for reported in [None, Some(None)] {
        let mut run = Run::new(invocation(Operation::Scale { replicas: 4 }, false, false));
        run.step(Event::Begin);
        run.step(Event::ConfigInferred { root_cert: None });
        run.step(Event::ClientReady);
        assert_eq!(
            run.step(Event::PatchApplied { reported_replicas: reported }),
            Action::Finish(Outcome::Scaled { replicas: 4 })
        );
    }
}

#[test]
fn negative_replicas_fail_before_any_work() {
    let mut run = Run::new(invocation(Operation::Scale { replicas: -3 }, true, true));
    assert_eq!(run.step(Event::Begin), Action::Fail(RunError::NegativeReplicas { replicas: -3 }));
    assert_eq!(run.phase, Phase::Failed);
    assert_eq!(run.step(Event::ClientReady), Action::Fail(RunError::OutOfOrder));
    assert_eq!(run.phase, Phase::Failed);
}

#[test]
fn zero_replicas_are_accepted() {
    let mut run = Run::new(invocation(Operation::Scale { replicas: 0 }, false, false));
    assert_eq!(run.step(Event::Begin), Action::InferConfig);
}

#[test]
fn restart_run_stamps_the_current_time() {
    let mut run = Run::new(invocation(Operation::Restart, false, false));
    assert_eq!(run.step(Event::Begin), Action::InferConfig);
    run.step(Event::ConfigInferred { root_cert: None });
    let request = match run.step(Event::ClientReady) {
        Action::SendPatch(request) => request,
        other => panic!("expected a patch, got {other:?}"),
    };
    let restarted_at = match &run.phase {
        Phase::AwaitRestart { restarted_at } => restarted_at.clone(),
        other => panic!("expected to await the restart patch, got {other:?}"),
    };
    assert!(restarted_at.ends_with("+00:00"), "not UTC RFC 3339: {restarted_at}");
    assert!(restarted_at.starts_with("20"), "not a current year: {restarted_at}");
    assert!(restarted_at.chars().all(|c| c.is_ascii_digit() || "-T:.+".contains(c)));
    assert_eq!(request.target, PatchTarget::Deployment);
    assert!(!request.options.dry_run);
    assert_eq!(request.body, restart_patch_body(&restarted_at));
    assert_eq!(
        run.step(Event::PatchApplied { reported_replicas: None }),
        Action::Finish(Outcome::Restarted { restarted_at })
    );
}

#[test]
fn extra_bundle_is_merged_after_cluster_roots() {
    let mut run = Run::new(invocation(Operation::Scale { replicas: 1 }, true, true));
    run.step(Event::Begin);
    assert_eq!(
        run.step(Event::ConfigInferred { root_cert: Some(vec![vec![9, 9]]) }),
        Action::ReadCaBundle
    );
    let mut bundle = certificate_pem(vec![1, 2, 3]);
    bundle.extend(pem::encode(&pem::Pem::new("PRIVATE KEY", vec![0])).into_bytes());
    bundle.extend(certificate_pem(vec![4, 5]));
    assert_eq!(
        run.step(Event::CaBundleRead { contents: bundle }),
        Action::BuildClient {
            root_cert: Some(vec![vec![9, 9], vec![1, 2, 3], vec![4, 5]]),
            extra_certificates: 2,
        }
    );
    assert_eq!(run.phase, Phase::AwaitClient);
}

#[test]
fn extra_bundle_without_cluster_roots() {
    let mut run = Run::new(invocation(Operation::Restart, false, true));
    run.step(Event::Begin);
    run.step(Event::ConfigInferred { root_cert: None });
    assert_eq!(
        run.step(Event::CaBundleRead { contents: certificate_pem(vec![7]) }),
        Action::BuildClient { root_cert: Some(vec![vec![7]]), extra_certificates: 1 }
    );
}

#[test]
fn empty_extra_bundle_fails() {
    let mut run = Run::new(invocation(Operation::Scale { replicas: 1 }, false, true));
    run.step(Event::Begin);
    run.step(Event::ConfigInferred { root_cert: None });
    assert_eq!(
        run.step(Event::CaBundleRead { contents: Vec::new() }),
        Action::Fail(RunError::CaBundleEmpty)
    );
    assert_eq!(run.phase, Phase::Failed);
}

#[test]
fn malformed_extra_bundle_fails() {
    let mut run = Run::new(invocation(Operation::Scale { replicas: 1 }, false, true));
    run.step(Event::Begin);
    run.step(Event::ConfigInferred { root_cert: None });
    let bad = b"-----BEGIN CERTIFICATE-----\nnot base64 !@#\n-----END CERTIFICATE-----\n".to_vec();
    assert!(matches!(
        run.step(Event::CaBundleRead { contents: bad }),
        Action::Fail(RunError::CaBundleMalformed { .. })
    ));
}

#[test]
fn outside_failures_end_the_run() {
    let mut run = Run::new(invocation(Operation::Scale { replicas: 1 }, false, true));
    run.step(Event::Begin);
    assert_eq!(run.step(Event::ConfigFailed), Action::Fail(RunError::ConfigUnavailable));

    let mut run = Run::new(invocation(Operation::Scale { replicas: 1 }, false, true));
    run.step(Event::Begin);
    run.step(Event::ConfigInferred { root_cert: None });
    assert_eq!(run.step(Event::CaBundleFailed), Action::Fail(RunError::CaBundleUnreadable));

    let mut run = Run::new(invocation(Operation::Restart, false, false));
    run.step(Event::Begin);
    run.step(Event::ConfigInferred { root_cert: None });
    assert_eq!(run.step(Event::ClientFailed), Action::Fail(RunError::ClientUnavailable));

    let mut run = Run::new(invocation(Operation::Scale { replicas: 1 }, false, false));
    run.step(Event::Begin);
    run.step(Event::ConfigInferred { root_cert: None });
    run.step(Event::ClientReady);
    assert_eq!(run.step(Event::PatchFailed), Action::Fail(RunError::PatchRejected));
    assert_eq!(run.phase, Phase::Failed);
}

#[test]
fn unexpected_events_fail_the_run() {
    let mut run = Run::new(invocation(Operation::Scale { replicas: 1 }, false, false));
    assert_eq!(run.step(Event::ClientReady), Action::Fail(RunError::OutOfOrder));
    assert_eq!(run.phase, Phase::Failed);

    let mut run = Run::new(invocation(Operation::Scale { replicas: 1 }, false, false));
    run.step(Event::Begin);
    assert_eq!(
        run.step(Event::CaBundleRead { contents: Vec::new() }),
        Action::Fail(RunError::OutOfOrder)
    );
}

#[test]
fn finished_run_stays_finished() {
    let mut run = Run::new(invocation(Operation::Scale { replicas: 1 }, false, false));
    run.step(Event::Begin);
    run.step(Event::ConfigInferred { root_cert: None });
    run.step(Event::ClientReady);
    run.step(Event::PatchApplied { reported_replicas: None });
    assert_eq!(run.phase, Phase::Done);
    assert_eq!(run.step(Event::ClientReady), Action::Fail(RunError::OutOfOrder));
    assert_eq!(run.phase, Phase::Done);
}

#[test]
fn restart_is_stamped_with_the_given_time() {
    let mut run = Run::new(invocation(Operation::Restart, true, false));
    run.step_with_clock(Event::Begin, None);
    run.step_with_clock(Event::ConfigInferred { root_cert: None }, None);
    let stamp = String::from("2030-01-02T03:04:05+00:00");
    match run.step_with_clock(Event::ClientReady, Some(stamp.clone())) {
        Action::SendPatch(request) => {
            assert_eq!(request.target, PatchTarget::Deployment);
            assert_eq!(request.body, restart_patch_body(&stamp));
            assert!(request.options.dry_run);
        },
        other => panic!("expected a patch, got {other:?}"),
    }
    assert_eq!(run.phase, Phase::AwaitRestart { restarted_at: stamp.clone() });
    assert_eq!(
        run.step_with_clock(Event::PatchApplied { reported_replicas: None }, None),
        Action::Finish(Outcome::Restarted { restarted_at: stamp })
    );
}

#[test]
fn restarts_at_different_times_send_different_patches() {
    let mut bodies = Vec::new();
    for stamp in ["2030-01-02T03:04:05+00:00", "2030-01-02T03:04:06+00:00"] {
        let mut run = Run::new(invocation(Operation::Restart, false, false));
        run.step(Event::Begin);
        run.step(Event::ConfigInferred { root_cert: None });
        match run.step_with_clock(Event::ClientReady, Some(String::from(stamp))) {
            Action::SendPatch(request) => bodies.push(request.body),
            other => panic!("expected a patch, got {other:?}"),
        }
    }
    assert_ne!(bodies[0], bodies[1]);
}

#[test]
fn restart_without_a_clock_reading_fails() {
    let mut run = Run::new(invocation(Operation::Restart, false, false));
    run.step_with_clock(Event::Begin, None);
    run.step_with_clock(Event::ConfigInferred { root_cert: None }, None);
    assert_eq!(
        run.step_with_clock(Event::ClientReady, None),
        Action::Fail(RunError::ClockUnavailable)
    );
    assert_eq!(run.phase, Phase::Failed);
}

#[test]
fn scale_ignores_the_clock() {
    let mut run = Run::new(invocation(Operation::Scale { replicas: 2 }, false, false));
    run.step_with_clock(Event::Begin, None);
    run.step_with_clock(Event::ConfigInferred { root_cert: None }, None);
    match run.step_with_clock(Event::ClientReady, Some(String::from("1999-01-01T00:00:00+00:00"))) {
        Action::SendPatch(request) => assert_eq!(request.body, scale_patch_body(2)),
        other => panic!("expected a patch, got {other:?}"),
    }
}
