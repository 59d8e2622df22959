use pgmoneta_lifecycle::error::{classify_failure, ApiError, Failure, Operation};
use pgmoneta_lifecycle::instance::WorkloadInstance;
use pgmoneta_lifecycle::kind::ResourceKind;
use pgmoneta_lifecycle::retire::{retire, DeleteRequest, RetireReport, RetireStep};

/// Runs a retiring whose calls return `outcomes` in turn. Gives the calls
/// made and the report, if the run came to its end.
fn run_retire(
    instance: WorkloadInstance,
    outcomes: &[Result<(), ApiError>],
) -> (Vec<DeleteRequest>, Option<RetireReport>) {
    let mut calls = Vec::new();
    let mut step = retire(instance);
    let mut next = outcomes.iter();
    loop {
        match step {
            RetireStep::Finished(report) => return (calls, Some(report)),
            RetireStep::Delete { request, then } => {
                calls.push(request);
                match next.next() {
                    Some(outcome) => step = then.resume(*outcome),
                    None => return (calls, None),
                }
            }
        }
    }
}

fn retired() -> WorkloadInstance {
    WorkloadInstance::new("pgmoneta", "default", 10).unwrap()
}

fn delete_of(kind: ResourceKind, name: &str) -> DeleteRequest {
    DeleteRequest { kind, name: name.to_string(), namespace: "default".to_string() }
}

#[test]
fn retire_deletes_network_compute_storage() {
    let (calls, report) = run_retire(retired(), &[Ok(()), Ok(()), Ok(())]);
    assert_eq!(
        calls,
        vec![
            delete_of(ResourceKind::Network, "pgmoneta"),
            delete_of(ResourceKind::Compute, "pgmoneta"),
            delete_of(ResourceKind::Storage, "pgmoneta-storage"),
        ]
    );
    let report = report.unwrap();
    assert!(report.succeeded());
    assert_eq!(report.warnings(), 0);
    assert_eq!(
        report.removed,
        vec![ResourceKind::Network, ResourceKind::Compute, ResourceKind::Storage]
    );
    assert_eq!(report.missing, vec![]);
    assert_eq!(report.failure, None);
}

#[test]
fn retire_passes_over_a_missing_network_service() {
    let (calls, report) = run_retire(retired(), &[Err(ApiError::NotFound), Ok(()), Ok(())]);
    assert_eq!(
        calls,
        vec![
            delete_of(ResourceKind::Network, "pgmoneta"),
            delete_of(ResourceKind::Compute, "pgmoneta"),
            delete_of(ResourceKind::Storage, "pgmoneta-storage"),
        ]
    );
    let report = report.unwrap();
    assert!(report.succeeded());
    assert_eq!(report.warnings(), 1);
    assert_eq!(report.missing, vec![ResourceKind::Network]);
    assert_eq!(report.removed, vec![ResourceKind::Compute, ResourceKind::Storage]);
    assert_eq!(report.failure, None);
}

#[test]
fn retire_attempts_compute_after_a_missing_network_service() {
    let (calls, report) = run_retire(retired(), &[Err(ApiError::NotFound)]);
    assert_eq!(calls.len(), 2);
    assert_eq!(calls[1], delete_of(ResourceKind::Compute, "pgmoneta"));
    assert_eq!(report, None);
}

#[test]
fn retire_passes_over_everything_missing() {
    let gone = Err(ApiError::NotFound);
    let (calls, report) = run_retire(retired(), &[gone, gone, gone]);
    assert_eq!(calls.len(), 3);
    let report = report.unwrap();
    assert!(report.succeeded());
    assert_eq!(report.warnings(), 3);
    assert_eq!(report.removed, vec![]);
    assert_eq!(
        report.missing,
        vec![ResourceKind::Network, ResourceKind::Compute, ResourceKind::Storage]
    );
}

#[test]
fn retire_stops_when_the_cluster_is_unreachable() {
    let (calls, report) = run_retire(retired(), &[Err(ApiError::Unreachable), Ok(()), Ok(())]);
    assert_eq!(calls, vec![delete_of(ResourceKind::Network, "pgmoneta")]);
    let report = report.unwrap();
    assert!(!report.succeeded());
    assert_eq!(
        report.failure,
        Some(Failure { kind: ResourceKind::Network, error: ApiError::Unreachable })
    );
    assert_eq!(report.removed, vec![]);
    assert_eq!(report.missing, vec![]);
}

#[test]
fn retire_reports_what_went_before_a_failure() {
    let (calls, report) =
        run_retire(retired(), &[Err(ApiError::NotFound), Ok(()), Err(ApiError::Unreachable)]);
    assert_eq!(calls.len(), 3);
    let report = report.unwrap();
    assert_eq!(
        report.failure,
        Some(Failure { kind: ResourceKind::Storage, error: ApiError::Unreachable })
    );
    assert_eq!(report.removed, vec![ResourceKind::Compute]);
    assert_eq!(report.missing, vec![ResourceKind::Network]);
    assert_eq!(report.warnings(), 1);
}

#[test]
fn retire_stops_at_compute_when_it_cannot_be_reached() {
    let (calls, report) =
        run_retire(retired(), &[Err(ApiError::NotFound), Err(ApiError::Unreachable)]);
    assert_eq!(calls.len(), 2);
    assert_eq!(
        report.unwrap().failure,
        Some(Failure { kind: ResourceKind::Compute, error: ApiError::Unreachable })
    );
}

#[test]
fn only_not_found_is_passed_over() {
    for error in [ApiError::Conflict, ApiError::Unreachable, ApiError::Rejected] {
        let (calls, report) = run_retire(retired(), &[Ok(()), Err(error), Ok(())]);
        assert_eq!(calls.len(), 2);
        let report = report.unwrap();
        assert_eq!(report.failure, Some(Failure { kind: ResourceKind::Compute, error }));
        assert_eq!(report.removed, vec![ResourceKind::Network]);
    }
}

#[test]
fn retire_starts_with_the_network_service_alone() {
    let (calls, report) = run_retire(retired(), &[]);
    assert_eq!(calls, vec![delete_of(ResourceKind::Network, "pgmoneta")]);
    assert_eq!(report, None);
}

#[test]
fn retire_tells_which_call_is_under_way() {
    match retire(retired()) {
        RetireStep::Delete { request: _, then } => {
            assert_eq!(then.awaiting(), ResourceKind::Network);
            match then.resume(Err(ApiError::NotFound)) {
                RetireStep::Delete { request: _, then } => {
                    assert_eq!(then.awaiting(), ResourceKind::Compute)
                }
                RetireStep::Finished(_) => panic!("ended after the network service"),
            }
        }
        RetireStep::Finished(_) => panic!("ended before the first call"),
    }
}

#[test]
fn storage_is_never_deleted_before_network_returned() {
    let outcomes = [Ok(()), Err(ApiError::NotFound), Err(ApiError::Unreachable)];
    for first in outcomes {
        for second in outcomes {
            for given in 0..3usize {
                let script = [first, second, Ok(())];
                let (calls, _) = run_retire(retired(), &script[..given]);
                for (position, call) in calls.iter().enumerate() {
                    assert_eq!(call.kind.teardown_rank() as usize, position);
                    assert!(position <= given);
                    if call.kind == ResourceKind::Storage {
                        assert_ne!(first, Err(ApiError::Unreachable));
                        assert_ne!(second, Err(ApiError::Unreachable));
                        assert!(given >= 2);
                    }
                }
            }
        }
    }
}

#[test]
fn missing_counts_as_removed_for_the_calls() {
    let outcomes = [Ok(()), Err(ApiError::NotFound), Err(ApiError::Rejected)];
    for first in outcomes {
        for second in outcomes {
            for third in outcomes {
                let script = [first, second, third];
                let forgiving: Vec<Result<(), ApiError>> = script
                    .iter()
                    .map(|outcome| match outcome {
                        Err(ApiError::NotFound) => Ok(()),
                        other => *other,
                    })
                    .collect();
                assert_eq!(run_retire(retired(), &script).0, run_retire(retired(), &forgiving).0);
            }
        }
    }
}

#[test]
fn retire_addresses_by_name_and_namespace() {
    let instance = WorkloadInstance::new("db", "backups", 1).unwrap();
    let (calls, _) = run_retire(instance, &[Ok(()), Ok(())]);
    assert_eq!(
        calls,
        vec![
            DeleteRequest {
                kind: ResourceKind::Network,
                name: "db".to_string(),
                namespace: "backups".to_string(),
            },
            DeleteRequest {
                kind: ResourceKind::Compute,
                name: "db".to_string(),
                namespace: "backups".to_string(),
            },
            DeleteRequest {
                kind: ResourceKind::Storage,
                name: "db-storage".to_string(),
                namespace: "backups".to_string(),
            },
        ]
    );
}

#[test]
fn only_a_delete_answered_404_is_passed_over() {
    for status in [None, Some(0u16), Some(403), Some(404), Some(409), Some(500)] {
        let outcome = Err(classify_failure(Operation::Delete, status));
        let (calls, _) = run_retire(retired(), &[outcome]);
        assert_eq!(calls.len() == 2, status == Some(404));
    }
}
