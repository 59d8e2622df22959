//! Provisioning: creating the resources of an instance, storage first.
//!
//! The library does not talk to the cluster. It decides: `provision` hands
//! out the first create call, and `Provision::resume` takes what that call
//! returned and hands out the next call or the final report. Whoever drives
//! it performs each call and comes back with its outcome, so a call is never
//! handed out before the call before it has returned.

use crate::builder::{build, build_model, bundle_model};
use crate::error::{ApiError, Failure};
use crate::instance::{InstanceView, WorkloadInstance};
use crate::kind::ResourceKind;
use crate::model::{ResourceSpec, ResourceSpecView};
use vstd::prelude::*;

verus! {

/// How a provisioning ended.
#[derive(Debug, PartialEq, Eq)]
pub struct ProvisionReport {
    /// The kinds that were created and are left in place, in creation order.
    pub created: Vec<ResourceKind>,
    /// The create call that failed, if one did. Nothing is created after it,
    /// and nothing that was created before it is removed.
    pub failure: Option<Failure>,
}

/// What a `ProvisionReport` stands for.
pub struct ProvisionReportView {
    pub created: Seq<ResourceKind>,
    pub failure: Option<Failure>,
}

impl View for ProvisionReport {
    type V = ProvisionReportView;

    open spec fn view(&self) -> ProvisionReportView {
        ProvisionReportView { created: self.created@, failure: self.failure }
    }
}

impl ProvisionReport {
    /// Whether every resource was created.
    pub fn succeeded(&self) -> (yes: bool)
        ensures
            yes == (self@.failure is None),
    {
        self.failure.is_none()
    }
}

/// A provisioning whose create call for one kind is under way.
#[derive(Debug, PartialEq, Eq)]
pub struct Provision {
    instance: WorkloadInstance,
    awaiting: ResourceKind,
}

/// What a `Provision` stands for.
pub struct ProvisioningView {
    pub instance: InstanceView,
    /// The kind whose create call is under way.
    pub awaiting: ResourceKind,
}

impl View for Provision {
    type V = ProvisioningView;

    closed spec fn view(&self) -> ProvisioningView {
        ProvisioningView { instance: self.instance@, awaiting: self.awaiting }
    }
}

/// What the driver of a provisioning does next.
#[derive(Debug, PartialEq, Eq)]
pub enum ProvisionStep {
    /// Submit `spec` to the cluster, then resume `then` with the outcome.
    Create { spec: ResourceSpec, then: Provision },
    /// Nothing more: the provisioning is over.
    Finished(ProvisionReport),
}

/// What a `ProvisionStep` stands for.
pub enum ProvisionStepView {
    Create { spec: ResourceSpecView, then: ProvisioningView },
    Finished(ProvisionReportView),
}

impl View for ProvisionStep {
    type V = ProvisionStepView;

    open spec fn view(&self) -> ProvisionStepView {
        match self {
            ProvisionStep::Create { spec, then } => ProvisionStepView::Create {
                spec: spec@,
                then: then@,
            },
            ProvisionStep::Finished(report) => ProvisionStepView::Finished(report@),
        }
    }
}

/// The step that hands out the create call for `kind`.
pub open spec fn create_step(instance: InstanceView, kind: ResourceKind) -> ProvisionStepView {
    ProvisionStepView::Create {
        spec: build_model(kind, instance),
        then: ProvisioningView { instance: instance, awaiting: kind },
    }
}

/// First step of a provisioning: the storage claim.
pub open spec fn provision_start(instance: InstanceView) -> ProvisionStepView {
    create_step(instance, ResourceKind::Storage)
}

/// The step that follows when the call under way returns `outcome`.
///
/// An error ends the provisioning. What was created stays, and the report
/// names the kind that failed. Success leads to the next kind in creation
/// order, or to a report without a failure after the last.
pub open spec fn provision_step(
    state: ProvisioningView,
    outcome: Result<(), ApiError>,
) -> ProvisionStepView {
    match outcome {
        Err(error) => ProvisionStepView::Finished(
            ProvisionReportView {
                created: ResourceKind::creation_order().take(state.awaiting.rank() as int),
                failure: Some(Failure { kind: state.awaiting, error: error }),
            },
        ),
        Ok(_) => match state.awaiting.created_after() {
            Some(next) => create_step(state.instance, next),
            None => ProvisionStepView::Finished(
                ProvisionReportView { created: ResourceKind::creation_order(), failure: None },
            ),
        },
    }
}

/// The create calls handed out, in order, by a run that stands at `step`
/// and whose calls return `outcomes`, one after the other. Outcomes beyond
/// the end of the run are not looked at.
pub open spec fn creates_issued(
    step: ProvisionStepView,
    outcomes: Seq<Result<(), ApiError>>,
) -> Seq<ResourceSpecView>
    decreases outcomes.len(),
{
    match step {
        ProvisionStepView::Finished(_) => Seq::empty(),
        ProvisionStepView::Create { spec, then } => if outcomes.len() == 0 {
            seq![spec]
        } else {
            seq![spec] + creates_issued(
                provision_step(then, outcomes.first()),
                outcomes.drop_first(),
            )
        },
    }
}

/// The report of a run that stands at `step` and whose calls return
/// `outcomes`, or `None` while a call is still under way.
pub open spec fn provision_result(
    step: ProvisionStepView,
    outcomes: Seq<Result<(), ApiError>>,
) -> Option<ProvisionReportView>
    decreases outcomes.len(),
{
    match step {
        ProvisionStepView::Finished(report) => Some(report),
        ProvisionStepView::Create { spec, then } => if outcomes.len() == 0 {
            None
        } else {
            provision_result(provision_step(then, outcomes.first()), outcomes.drop_first())
        },
    }
}

/// Number of outcomes at the head of `outcomes` that are successes.
pub open spec fn leading_successes(outcomes: Seq<Result<(), ApiError>>) -> nat
    decreases outcomes.len(),
{
    if outcomes.len() > 0 && outcomes.first() is Ok {
        1 + leading_successes(outcomes.drop_first())
    } else {
        0
    }
}

/// Starts to provision `instance`: hands out the create call for its storage
/// claim.
pub fn provision(instance: WorkloadInstance) -> (step: ProvisionStep)
    ensures
        step@ == provision_start(instance@),
{
    let spec = build(ResourceKind::Storage, &instance);
    ProvisionStep::Create {
        spec,
        then: Provision { instance, awaiting: ResourceKind::Storage },
    }
}

impl Provision {
    /// The kind whose create call is under way.
    pub fn awaiting(&self) -> (kind: ResourceKind)
        ensures
            kind == self@.awaiting,
    {
        self.awaiting
    }

    /// Takes the outcome of the create call under way and says what follows.
    pub fn resume(self, outcome: Result<(), ApiError>) -> (step: ProvisionStep)
        ensures
            step@ == provision_step(self@, outcome),
    {
        match outcome {
            Err(error) => ProvisionStep::Finished(
                ProvisionReport {
                    created: self.awaiting.created_before(),
                    failure: Some(Failure { kind: self.awaiting, error }),
                },
            ),
            Ok(_) => match self.awaiting.next_to_create() {
                Some(next) => {
                    let spec = build(next, &self.instance);
                    ProvisionStep::Create {
                        spec,
                        then: Provision { instance: self.instance, awaiting: next },
                    }
                },
                None => ProvisionStep::Finished(
                    ProvisionReport {
                        created: ResourceKind::all_in_creation_order(),
                        failure: None,
                    },
                ),
            },
        }
    }
}

proof fn lemma_creates_from(
    instance: InstanceView,
    kind: ResourceKind,
    outcomes: Seq<Result<(), ApiError>>,
)
    ensures
        ({
            let calls = creates_issued(create_step(instance, kind), outcomes);
            let oks = leading_successes(outcomes);
            &&& calls.len() == if oks + 1 <= 3 - kind.rank() {
                (oks + 1) as int
            } else {
                3 - kind.rank()
            }
            &&& forall|i: int|
                0 <= i < calls.len() ==> calls[i] == build_model(
                    ResourceKind::creation_order()[kind.rank() + i],
                    instance,
                )
        }),
    decreases outcomes.len(),
{
    let calls = creates_issued(create_step(instance, kind), outcomes);
    if outcomes.len() > 0 {
        let rest = outcomes.drop_first();
        match outcomes.first() {
            Ok(_) => match kind.created_after() {
                Some(next) => {
                    lemma_creates_from(instance, next, rest);
                    let tail = creates_issued(create_step(instance, next), rest);
                    assert(calls == seq![build_model(kind, instance)] + tail);
                    assert forall|i: int| 0 <= i < calls.len() implies calls[i] == build_model(
                        ResourceKind::creation_order()[kind.rank() + i],
                        instance,
                    ) by {
                        if i > 0 {
                            assert(calls[i] == tail[i - 1]);
                        }
                    }
                },
                None => {
                    assert(creates_issued(provision_step(
                        ProvisioningView { instance: instance, awaiting: kind },
                        outcomes.first(),
                    ), rest) =~= Seq::empty());
                },
            },
            Err(_) => {
                assert(creates_issued(provision_step(
                    ProvisioningView { instance: instance, awaiting: kind },
                    outcomes.first(),
                ), rest) =~= Seq::empty());
            },
        }
    }
}

proof fn lemma_leading_successes(outcomes: Seq<Result<(), ApiError>>)
    ensures
        leading_successes(outcomes) <= outcomes.len(),
        forall|i: int| 0 <= i < leading_successes(outcomes) ==> outcomes[i] is Ok,
        leading_successes(outcomes) < outcomes.len() ==> outcomes[leading_successes(
            outcomes,
        ) as int] is Err,
    decreases outcomes.len(),
{
    if outcomes.len() > 0 && outcomes.first() is Ok {
        let rest = outcomes.drop_first();
        lemma_leading_successes(rest);
        assert forall|i: int| 0 <= i < leading_successes(outcomes) implies outcomes[i] is Ok by {
            if i > 0 {
                assert(outcomes[i] == rest[i - 1]);
            }
        }
        if leading_successes(outcomes) < outcomes.len() {
            assert(outcomes[leading_successes(outcomes) as int] == rest[leading_successes(
                rest,
            ) as int]);
        }
    }
}

/// Provisioning creates in creation order, one call at a time.
///
/// Whatever the calls return, the calls handed out are the descriptions of
/// storage, compute and network of the instance, in that order and without a
/// gap. A call is handed out only when every call before it has returned
/// with success: the first always, each later one once as many outcomes are
/// in as there are calls before it.
pub proof fn lemma_provision_follows_creation_order(
    instance: InstanceView,
    outcomes: Seq<Result<(), ApiError>>,
)
    ensures
        ({
            let calls = creates_issued(provision_start(instance), outcomes);
            &&& 1 <= calls.len() <= 3
            &&& calls.len() <= outcomes.len() + 1
            &&& calls.len() == if leading_successes(outcomes) < 2 {
                leading_successes(outcomes) + 1
            } else {
                3nat
            }
            &&& forall|i: int|
                0 <= i < calls.len() ==> calls[i] == build_model(
                    ResourceKind::creation_order()[i],
                    instance,
                )
            &&& forall|i: int| 0 <= i && i + 1 < calls.len() ==> outcomes[i] is Ok
        }),
{
    lemma_creates_from(instance, ResourceKind::Storage, outcomes);
    lemma_leading_successes(outcomes);
}

/// The network service is never created before the create call for the
/// storage claim has returned: where the call at position `later` is the one
/// for the network service, the call for the storage claim was the first,
/// and its outcome and that of the call for the workload are in, both
/// successes.
pub proof fn lemma_network_waits_for_storage(
    instance: InstanceView,
    outcomes: Seq<Result<(), ApiError>>,
    later: int,
)
    requires
        0 <= later < creates_issued(provision_start(instance), outcomes).len(),
        creates_issued(provision_start(instance), outcomes)[later].kind()
            == ResourceKind::Network,
    ensures
        later == 2,
        creates_issued(provision_start(instance), outcomes)[0].kind() == ResourceKind::Storage,
        creates_issued(provision_start(instance), outcomes)[1].kind() == ResourceKind::Compute,
        outcomes.len() >= 2,
        outcomes[0] is Ok,
        outcomes[1] is Ok,
{
    lemma_provision_follows_creation_order(instance, outcomes);
}

proof fn lemma_result_from(
    instance: InstanceView,
    kind: ResourceKind,
    outcomes: Seq<Result<(), ApiError>>,
)
    ensures
        ({
            let result = provision_result(create_step(instance, kind), outcomes);
            let oks = leading_successes(outcomes);
            if oks >= 3 - kind.rank() {
                result == Some(
                    ProvisionReportView { created: ResourceKind::creation_order(), failure: None },
                )
            } else if oks < outcomes.len() {
                result == Some(
                    ProvisionReportView {
                        created: ResourceKind::creation_order().take((kind.rank() + oks) as int),
                        failure: Some(
                            Failure {
                                kind: ResourceKind::creation_order()[(kind.rank() + oks) as int],
                                error: outcomes[oks as int]->Err_0,
                            },
                        ),
                    },
                )
            } else {
                result is None
            }
        }),
    decreases outcomes.len(),
{
    reveal_with_fuel(provision_result, 2);
    lemma_leading_successes(outcomes);
    if outcomes.len() > 0 {
        let rest = outcomes.drop_first();
        match outcomes.first() {
            Ok(_) => match kind.created_after() {
                Some(next) => {
                    lemma_result_from(instance, next, rest);
                    lemma_leading_successes(rest);
                    let oks = leading_successes(rest);
                    if oks < rest.len() {
                        assert(outcomes[(oks + 1) as int] == rest[oks as int]);
                    }
                },
                None => {},
            },
            Err(_) => {},
        }
    }
}

/// How a provisioning ends.
///
/// With three successes it reports all three kinds as created and no
/// failure. With an error after fewer successes it reports that error with
/// the kind whose call gave it, and as created exactly the kinds before that
/// one. Otherwise a call is still under way.
pub proof fn lemma_provision_result(instance: InstanceView, outcomes: Seq<Result<(), ApiError>>)
    ensures
        ({
            let result = provision_result(provision_start(instance), outcomes);
            let oks = leading_successes(outcomes);
            if oks >= 3 {
                result == Some(
                    ProvisionReportView { created: ResourceKind::creation_order(), failure: None },
                )
            } else if oks < outcomes.len() {
                result == Some(
                    ProvisionReportView {
                        created: ResourceKind::creation_order().take(oks as int),
                        failure: Some(
                            Failure {
                                kind: ResourceKind::creation_order()[oks as int],
                                error: outcomes[oks as int]->Err_0,
                            },
                        ),
                    },
                )
            } else {
                result is None
            }
        }),
{
    lemma_result_from(instance, ResourceKind::Storage, outcomes);
}

/// A failed create call for the workload leaves the storage claim in place.
///
/// After the storage claim is created and the call for the workload fails
/// with `error`, whatever `later` holds: the report names the workload and
/// `error`, it lists the storage claim as created, and the only calls handed
/// out are the two create calls. No call follows the failure, so nothing
/// takes the storage claim away again.
pub proof fn lemma_compute_failure_keeps_storage(
    instance: InstanceView,
    error: ApiError,
    later: Seq<Result<(), ApiError>>,
)
    ensures
        provision_result(provision_start(instance), seq![Ok(()), Err(error)] + later) == Some(
            ProvisionReportView {
                created: seq![ResourceKind::Storage],
                failure: Some(Failure { kind: ResourceKind::Compute, error: error }),
            },
        ),
        creates_issued(provision_start(instance), seq![Ok(()), Err(error)] + later) == seq![
            build_model(ResourceKind::Storage, instance),
            build_model(ResourceKind::Compute, instance),
        ],
{
    let outcomes = seq![Ok::<(), ApiError>(()), Err(error)] + later;
    let rest = outcomes.drop_first();
    assert(outcomes.first() == Ok::<(), ApiError>(()));
    assert(rest.first() == Err::<(), ApiError>(error));
    assert(leading_successes(rest) == 0);
    assert(leading_successes(outcomes) == 1);
    lemma_provision_result(instance, outcomes);
    lemma_provision_follows_creation_order(instance, outcomes);
    assert(ResourceKind::creation_order().take(1) =~= seq![ResourceKind::Storage]);
    assert(creates_issued(provision_start(instance), outcomes) =~= seq![
        build_model(ResourceKind::Storage, instance),
        build_model(ResourceKind::Compute, instance),
    ]);
}

/// A provisioning in which every call succeeds submits the bundle of the
/// instance, no more and no less, and reports every kind as created.
pub proof fn lemma_full_run_submits_the_bundle(
    instance: InstanceView,
    later: Seq<Result<(), ApiError>>,
)
    ensures
        creates_issued(provision_start(instance), seq![Ok(()), Ok(()), Ok(())] + later)
            == bundle_model(instance),
        provision_result(provision_start(instance), seq![Ok(()), Ok(()), Ok(())] + later) == Some(
            ProvisionReportView { created: ResourceKind::creation_order(), failure: None },
        ),
{
    let outcomes = seq![Ok::<(), ApiError>(()), Ok(()), Ok(())] + later;
    let second = outcomes.drop_first();
    let third = second.drop_first();
    assert(outcomes.first() is Ok);
    assert(second.first() == outcomes[1]);
    assert(third.first() == outcomes[2]);
    assert(leading_successes(third) >= 1);
    assert(leading_successes(second) >= 2);
    assert(leading_successes(outcomes) >= 3);
    lemma_provision_follows_creation_order(instance, outcomes);
    lemma_provision_result(instance, outcomes);
    assert(creates_issued(provision_start(instance), outcomes) =~= bundle_model(instance));
}

} // verus!
