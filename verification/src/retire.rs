//! Retiring: removing the resources of an instance, network first.
//!
//! As in provisioning the library decides and its driver calls: `retire`
//! hands out the first delete call, `Retire::resume` takes what that call
//! returned and hands out the next call or the final report. A resource that
//! is gone already is noted and passed over; any other error ends the run.

use crate::builder::{build_model, resource_name, resource_name_model};
use crate::error::{failure_class, ApiError, Failure, Operation};
use crate::instance::{InstanceView, WorkloadInstance};
use crate::kind::ResourceKind;
use vstd::prelude::*;

verus! {

/// A delete call: the resource of `kind` called `name` in `namespace`.
#[derive(Debug, PartialEq, Eq)]
pub struct DeleteRequest {
    pub kind: ResourceKind,
    pub name: String,
    pub namespace: String,
}

/// What a `DeleteRequest` stands for.
pub struct DeleteRequestView {
    pub kind: ResourceKind,
    pub name: Seq<char>,
    pub namespace: Seq<char>,
}

impl View for DeleteRequest {
    type V = DeleteRequestView;

    open spec fn view(&self) -> DeleteRequestView {
        DeleteRequestView { kind: self.kind, name: self.name@, namespace: self.namespace@ }
    }
}

impl Clone for DeleteRequest {
    fn clone(&self) -> (copy: Self)
        ensures
            copy@ == self@,
    {
        DeleteRequest {
            kind: self.kind,
            name: self.name.clone(),
            namespace: self.namespace.clone(),
        }
    }
}

/// How a retiring ended.
#[derive(Debug, PartialEq, Eq)]
pub struct RetireReport {
    /// The kinds that were removed, in teardown order.
    pub removed: Vec<ResourceKind>,
    /// The kinds that were gone already, in teardown order: one warning each.
    pub missing: Vec<ResourceKind>,
    /// The delete call that ended the run, if one did.
    pub failure: Option<Failure>,
}

/// What a `RetireReport` stands for.
pub struct RetireReportView {
    pub removed: Seq<ResourceKind>,
    pub missing: Seq<ResourceKind>,
    pub failure: Option<Failure>,
}

impl View for RetireReport {
    type V = RetireReportView;

    open spec fn view(&self) -> RetireReportView {
        RetireReportView { removed: self.removed@, missing: self.missing@, failure: self.failure }
    }
}

impl RetireReport {
    /// Whether the run went through all kinds.
    pub fn succeeded(&self) -> (yes: bool)
        ensures
            yes == (self@.failure is None),
    {
        self.failure.is_none()
    }

    /// Number of resources that were gone already.
    pub fn warnings(&self) -> (count: usize)
        ensures
            count == self@.missing.len(),
    {
        self.missing.len()
    }
}

/// A retiring whose delete call for one kind is under way.
#[derive(Debug, PartialEq, Eq)]
pub struct Retire {
    instance: WorkloadInstance,
    awaiting: ResourceKind,
    removed: Vec<ResourceKind>,
    missing: Vec<ResourceKind>,
}

/// What a `Retire` stands for.
pub struct RetiringView {
    pub instance: InstanceView,
    /// The kind whose delete call is under way.
    pub awaiting: ResourceKind,
    /// The kinds removed so far.
    pub removed: Seq<ResourceKind>,
    /// The kinds found gone so far.
    pub missing: Seq<ResourceKind>,
}

impl View for Retire {
    type V = RetiringView;

    closed spec fn view(&self) -> RetiringView {
        RetiringView {
            instance: self.instance@,
            awaiting: self.awaiting,
            removed: self.removed@,
            missing: self.missing@,
        }
    }
}

/// What the driver of a retiring does next.
#[derive(Debug, PartialEq, Eq)]
pub enum RetireStep {
    /// Delete what `request` names, then resume `then` with the outcome.
    Delete { request: DeleteRequest, then: Retire },
    /// Nothing more: the retiring is over.
    Finished(RetireReport),
}

/// What a `RetireStep` stands for.
pub enum RetireStepView {
    Delete { request: DeleteRequestView, then: RetiringView },
    Finished(RetireReportView),
}

impl View for RetireStep {
    type V = RetireStepView;

    open spec fn view(&self) -> RetireStepView {
        match self {
            RetireStep::Delete { request, then } => RetireStepView::Delete {
                request: request@,
                then: then@,
            },
            RetireStep::Finished(report) => RetireStepView::Finished(report@),
        }
    }
}

/// The delete call for the resource of `kind` of `instance`.
pub open spec fn delete_model(kind: ResourceKind, instance: InstanceView) -> DeleteRequestView {
    DeleteRequestView {
        kind: kind,
        name: resource_name_model(kind, instance.name),
        namespace: instance.namespace,
    }
}

/// The step that hands out the delete call that `state` waits for.
pub open spec fn delete_step(state: RetiringView) -> RetireStepView {
    RetireStepView::Delete { request: delete_model(state.awaiting, state.instance), then: state }
}

/// First step of a retiring: the network service.
pub open spec fn retire_start(instance: InstanceView) -> RetireStepView {
    delete_step(
        RetiringView {
            instance: instance,
            awaiting: ResourceKind::Network,
            removed: Seq::empty(),
            missing: Seq::empty(),
        },
    )
}

/// An outcome after which a retiring goes on: the resource was removed, or
/// it was not there.
pub open spec fn tolerated(outcome: Result<(), ApiError>) -> bool {
    outcome is Ok || outcome == Err::<(), ApiError>(ApiError::NotFound)
}

/// The step that follows when the call under way returns `outcome`.
///
/// An error other than `NotFound` ends the retiring, and the report names
/// the kind that failed. Otherwise the kind is noted as removed or as
/// missing, and the next kind in teardown order follows, or a report without
/// a failure after the last.
pub open spec fn retire_step(state: RetiringView, outcome: Result<(), ApiError>) -> RetireStepView {
    if !tolerated(outcome) {
        RetireStepView::Finished(
            RetireReportView {
                removed: state.removed,
                missing: state.missing,
                failure: Some(Failure { kind: state.awaiting, error: outcome->Err_0 }),
            },
        )
    } else {
        let removed = if outcome is Ok {
            state.removed.push(state.awaiting)
        } else {
            state.removed
        };
        let missing = if outcome is Ok {
            state.missing
        } else {
            state.missing.push(state.awaiting)
        };
        match state.awaiting.removed_after() {
            Some(next) => delete_step(
                RetiringView {
                    instance: state.instance,
                    awaiting: next,
                    removed: removed,
                    missing: missing,
                },
            ),
            None => RetireStepView::Finished(
                RetireReportView { removed: removed, missing: missing, failure: None },
            ),
        }
    }
}

/// The delete calls handed out, in order, by a run that stands at `step` and
/// whose calls return `outcomes`, one after the other. Outcomes beyond the
/// end of the run are not looked at.
pub open spec fn deletes_issued(
    step: RetireStepView,
    outcomes: Seq<Result<(), ApiError>>,
) -> Seq<DeleteRequestView>
    decreases outcomes.len(),
{
    match step {
        RetireStepView::Finished(_) => Seq::empty(),
        RetireStepView::Delete { request, then } => if outcomes.len() == 0 {
            seq![request]
        } else {
            seq![request] + deletes_issued(
                retire_step(then, outcomes.first()),
                outcomes.drop_first(),
            )
        },
    }
}

/// The report of a run that stands at `step` and whose calls return
/// `outcomes`, or `None` while a call is still under way.
pub open spec fn retire_result(
    step: RetireStepView,
    outcomes: Seq<Result<(), ApiError>>,
) -> Option<RetireReportView>
    decreases outcomes.len(),
{
    match step {
        RetireStepView::Finished(report) => Some(report),
        RetireStepView::Delete { request, then } => if outcomes.len() == 0 {
            None
        } else {
            retire_result(retire_step(then, outcomes.first()), outcomes.drop_first())
        },
    }
}

/// Number of outcomes at the head of `outcomes` that are tolerated.
pub open spec fn leading_tolerated(outcomes: Seq<Result<(), ApiError>>) -> nat
    decreases outcomes.len(),
{
    if outcomes.len() > 0 && tolerated(outcomes.first()) {
        1 + leading_tolerated(outcomes.drop_first())
    } else {
        0
    }
}

/// The kinds among the first `upto` of the teardown order whose delete call
/// returned with success, in teardown order.
pub open spec fn removed_among(outcomes: Seq<Result<(), ApiError>>, upto: nat) -> Seq<
    ResourceKind,
>
    decreases upto,
{
    if upto == 0 {
        Seq::empty()
    } else if outcomes[upto - 1] is Ok {
        removed_among(outcomes, (upto - 1) as nat).push(ResourceKind::teardown_order()[upto - 1])
    } else {
        removed_among(outcomes, (upto - 1) as nat)
    }
}

/// The kinds among the first `upto` of the teardown order whose delete call
/// found nothing to delete, in teardown order.
pub open spec fn missing_among(outcomes: Seq<Result<(), ApiError>>, upto: nat) -> Seq<
    ResourceKind,
>
    decreases upto,
{
    if upto == 0 {
        Seq::empty()
    } else if outcomes[upto - 1] == Err::<(), ApiError>(ApiError::NotFound) {
        missing_among(outcomes, (upto - 1) as nat).push(ResourceKind::teardown_order()[upto - 1])
    } else {
        missing_among(outcomes, (upto - 1) as nat)
    }
}

fn delete_request(kind: ResourceKind, instance: &WorkloadInstance) -> (request: DeleteRequest)
    ensures
        request@ == delete_model(kind, instance@),
{
    DeleteRequest {
        kind,
        name: resource_name(kind, instance.name()),
        namespace: instance.namespace().to_owned(),
    }
}

/// Starts to retire `instance`: hands out the delete call for its network
/// service.
pub fn retire(instance: WorkloadInstance) -> (step: RetireStep)
    ensures
        step@ == retire_start(instance@),
{
    let request = delete_request(ResourceKind::Network, &instance);
    RetireStep::Delete {
        request,
        then: Retire {
            instance,
            awaiting: ResourceKind::Network,
            removed: Vec::new(),
            missing: Vec::new(),
        },
    }
}

impl Retire {
    /// The kind whose delete call is under way.
    pub fn awaiting(&self) -> (kind: ResourceKind)
        ensures
            kind == self@.awaiting,
    {
        self.awaiting
    }

    /// Takes the outcome of the delete call under way and says what follows.
    pub fn resume(self, outcome: Result<(), ApiError>) -> (step: RetireStep)
        ensures
            step@ == retire_step(self@, outcome),
    {
        let Retire { instance, awaiting, mut removed, mut missing } = self;
        match outcome {
            Ok(_) => {
                removed.push(awaiting);
            },
            Err(ApiError::NotFound) => {
                missing.push(awaiting);
            },
            Err(error) => {
                return RetireStep::Finished(
                    RetireReport {
                        removed,
                        missing,
                        failure: Some(Failure { kind: awaiting, error }),
                    },
                );
            },
        }
        match awaiting.next_to_remove() {
            Some(next) => {
                let request = delete_request(next, &instance);
                RetireStep::Delete {
                    request,
                    then: Retire { instance, awaiting: next, removed, missing },
                }
            },
            None => RetireStep::Finished(RetireReport { removed, missing, failure: None }),
        }
    }
}

/// The same outcomes with every `NotFound` taken for a success.
pub open spec fn forgiving(outcomes: Seq<Result<(), ApiError>>) -> Seq<Result<(), ApiError>> {
    Seq::new(
        outcomes.len(),
        |i: int|
            if outcomes[i] == Err::<(), ApiError>(ApiError::NotFound) {
                Ok(())
            } else {
                outcomes[i]
            },
    )
}

proof fn lemma_leading_tolerated(outcomes: Seq<Result<(), ApiError>>)
    ensures
        leading_tolerated(outcomes) <= outcomes.len(),
        forall|i: int| 0 <= i < leading_tolerated(outcomes) ==> tolerated(#[trigger] outcomes[i]),
        leading_tolerated(outcomes) < outcomes.len() ==> !tolerated(
            outcomes[leading_tolerated(outcomes) as int],
        ),
    decreases outcomes.len(),
{
    if outcomes.len() > 0 && tolerated(outcomes.first()) {
        let rest = outcomes.drop_first();
        lemma_leading_tolerated(rest);
        assert forall|i: int| 0 <= i < leading_tolerated(outcomes) implies tolerated(
            #[trigger] outcomes[i],
        ) by {
            if i > 0 {
                assert(outcomes[i] == rest[i - 1]);
            }
        }
        if leading_tolerated(outcomes) < outcomes.len() {
            assert(outcomes[leading_tolerated(outcomes) as int] == rest[leading_tolerated(
                rest,
            ) as int]);
        }
    }
}

proof fn lemma_deletes_from(
    instance: InstanceView,
    all: Seq<Result<(), ApiError>>,
    done: nat,
    removed: Seq<ResourceKind>,
    missing: Seq<ResourceKind>,
)
    requires
        done < 3,
        done <= all.len(),
        forall|i: int| 0 <= i < done ==> tolerated(#[trigger] all[i]),
    ensures
        ({
            let state = RetiringView {
                instance: instance,
                awaiting: ResourceKind::teardown_order()[done as int],
                removed: removed,
                missing: missing,
            };
            let calls = deletes_issued(delete_step(state), all.skip(done as int));
            let reach = if leading_tolerated(all) < 2 {
                leading_tolerated(all) + 1
            } else {
                3nat
            };
            &&& calls.len() == reach - done
            &&& forall|i: int|
                0 <= i < calls.len() ==> calls[i] == delete_model(
                    ResourceKind::teardown_order()[done + i],
                    instance,
                )
        }),
    decreases 3 - done,
{
    reveal_with_fuel(deletes_issued, 2);
    lemma_leading_tolerated(all);
    let count = leading_tolerated(all);
    if count < done {
        assert(tolerated(all[count as int]));
    }
    let awaiting = ResourceKind::teardown_order()[done as int];
    let state = RetiringView {
        instance: instance,
        awaiting: awaiting,
        removed: removed,
        missing: missing,
    };
    let left = all.skip(done as int);
    let calls = deletes_issued(delete_step(state), left);
    if left.len() > 0 {
        let outcome = left.first();
        assert(outcome == all[done as int]);
        assert(left.drop_first() =~= all.skip(done + 1 as int));
        if tolerated(outcome) {
            assert(count > done) by {
                if count == done {
                    assert(!tolerated(all[count as int]));
                }
            }
            if done < 2 {
                let next = ResourceKind::teardown_order()[done + 1 as int];
                assert(awaiting.removed_after() == Some(next));
                let removed_next = if outcome is Ok {
                    removed.push(awaiting)
                } else {
                    removed
                };
                let missing_next = if outcome is Ok {
                    missing
                } else {
                    missing.push(awaiting)
                };
                assert forall|i: int| 0 <= i < done + 1 implies tolerated(#[trigger] all[i]) by {}
                lemma_deletes_from(instance, all, done + 1, removed_next, missing_next);
                let then = RetiringView {
                    instance: instance,
                    awaiting: next,
                    removed: removed_next,
                    missing: missing_next,
                };
                let tail = deletes_issued(delete_step(then), all.skip(done + 1 as int));
                assert(calls == seq![delete_model(awaiting, instance)] + tail);
                assert forall|i: int| 0 <= i < calls.len() implies calls[i] == delete_model(
                    ResourceKind::teardown_order()[done + i],
                    instance,
                ) by {
                    if i > 0 {
                        assert(calls[i] == tail[i - 1]);
                    }
                }
            } else {
                assert(awaiting.removed_after() is None);
                assert(calls =~= seq![delete_model(awaiting, instance)]);
            }
        } else {
            assert(count == done) by {
                if count > done {
                    assert(tolerated(all[done as int]));
                }
            }
            assert(calls =~= seq![delete_model(awaiting, instance)]);
        }
    } else {
        assert(count == done);
    }
}

proof fn lemma_result_from(instance: InstanceView, all: Seq<Result<(), ApiError>>, done: nat)
    requires
        done < 3,
        done <= all.len(),
        forall|i: int| 0 <= i < done ==> tolerated(#[trigger] all[i]),
    ensures
        ({
            let state = RetiringView {
                instance: instance,
                awaiting: ResourceKind::teardown_order()[done as int],
                removed: removed_among(all, done),
                missing: missing_among(all, done),
            };
            let result = retire_result(delete_step(state), all.skip(done as int));
            let count = leading_tolerated(all);
            if count >= 3 {
                result == Some(
                    RetireReportView {
                        removed: removed_among(all, 3),
                        missing: missing_among(all, 3),
                        failure: None,
                    },
                )
            } else if count < all.len() {
                result == Some(
                    RetireReportView {
                        removed: removed_among(all, count),
                        missing: missing_among(all, count),
                        failure: Some(
                            Failure {
                                kind: ResourceKind::teardown_order()[count as int],
                                error: all[count as int]->Err_0,
                            },
                        ),
                    },
                )
            } else {
                result is None
            }
        }),
    decreases 3 - done,
{
    reveal_with_fuel(retire_result, 2);
    lemma_leading_tolerated(all);
    let count = leading_tolerated(all);
    if count < done {
        assert(tolerated(all[count as int]));
    }
    let awaiting = ResourceKind::teardown_order()[done as int];
    let left = all.skip(done as int);
    if left.len() > 0 {
        let outcome = left.first();
        assert(outcome == all[done as int]);
        assert(left.drop_first() =~= all.skip(done + 1 as int));
        if tolerated(outcome) {
            assert(count > done) by {
                if count == done {
                    assert(!tolerated(all[count as int]));
                }
            }
            assert forall|i: int| 0 <= i < done + 1 implies tolerated(#[trigger] all[i]) by {}
            if done < 2 {
                assert(awaiting.removed_after() == Some(
                    ResourceKind::teardown_order()[done + 1 as int],
                ));
                lemma_result_from(instance, all, done + 1);
            } else {
                assert(awaiting.removed_after() is None);
            }
        } else {
            assert(count == done) by {
                if count > done {
                    assert(tolerated(all[done as int]));
                }
            }
        }
    } else {
        assert(count == done);
    }
}

/// Retiring deletes in teardown order, one call at a time.
///
/// Whatever the calls return, the calls handed out are the delete calls for
/// network, compute and storage of the instance, in that order and without a
/// gap. A call is handed out only when every call before it has returned
/// with success or with `NotFound`: the first always, each later one once as
/// many outcomes are in as there are calls before it.
pub proof fn lemma_retire_follows_teardown_order(
    instance: InstanceView,
    outcomes: Seq<Result<(), ApiError>>,
)
    ensures
        ({
            let calls = deletes_issued(retire_start(instance), outcomes);
            &&& 1 <= calls.len() <= 3
            &&& calls.len() <= outcomes.len() + 1
            &&& calls.len() == if leading_tolerated(outcomes) < 2 {
                leading_tolerated(outcomes) + 1
            } else {
                3nat
            }
            &&& forall|i: int|
                0 <= i < calls.len() ==> calls[i] == delete_model(
                    ResourceKind::teardown_order()[i],
                    instance,
                )
            &&& forall|i: int| 0 <= i && i + 1 < calls.len() ==> tolerated(#[trigger] outcomes[i])
        }),
{
    lemma_deletes_from(instance, outcomes, 0, Seq::empty(), Seq::empty());
    lemma_leading_tolerated(outcomes);
    assert(outcomes.skip(0) =~= outcomes);
}

/// The storage claim is never deleted before the delete call for the
/// network service has returned: where the call at position `later` is the
/// one for the storage claim, the call for the network service was the
/// first, and its outcome and that of the call for the workload are in.
pub proof fn lemma_storage_waits_for_network(
    instance: InstanceView,
    outcomes: Seq<Result<(), ApiError>>,
    later: int,
)
    requires
        0 <= later < deletes_issued(retire_start(instance), outcomes).len(),
        deletes_issued(retire_start(instance), outcomes)[later].kind == ResourceKind::Storage,
    ensures
        later == 2,
        deletes_issued(retire_start(instance), outcomes)[0].kind == ResourceKind::Network,
        deletes_issued(retire_start(instance), outcomes)[1].kind == ResourceKind::Compute,
        outcomes.len() >= 2,
        tolerated(outcomes[0]),
        tolerated(outcomes[1]),
{
    lemma_retire_follows_teardown_order(instance, outcomes);
}

/// How a retiring ends.
///
/// With three tolerated outcomes it reports no failure, as removed the kinds
/// whose call succeeded and as missing those whose call found nothing. With
/// another error after fewer tolerated outcomes it reports that error with
/// the kind whose call gave it, and what was removed and missing before.
/// Otherwise a call is still under way.
pub proof fn lemma_retire_result(instance: InstanceView, outcomes: Seq<Result<(), ApiError>>)
    ensures
        ({
            let result = retire_result(retire_start(instance), outcomes);
            let count = leading_tolerated(outcomes);
            if count >= 3 {
                result == Some(
                    RetireReportView {
                        removed: removed_among(outcomes, 3),
                        missing: missing_among(outcomes, 3),
                        failure: None,
                    },
                )
            } else if count < outcomes.len() {
                result == Some(
                    RetireReportView {
                        removed: removed_among(outcomes, count),
                        missing: missing_among(outcomes, count),
                        failure: Some(
                            Failure {
                                kind: ResourceKind::teardown_order()[count as int],
                                error: outcomes[count as int]->Err_0,
                            },
                        ),
                    },
                )
            } else {
                result is None
            }
        }),
{
    lemma_result_from(instance, outcomes, 0);
    assert(outcomes.skip(0) =~= outcomes);
}

/// A network service that is gone does not stop the teardown.
///
/// When the first delete call returns `NotFound`, whatever `later` holds, the
/// delete call for the workload is handed out next. When that call in turn
/// is tolerated, the delete call for the storage claim follows; when it fails
/// with another error, the run ends there.
pub proof fn lemma_missing_network_is_passed_over(
    instance: InstanceView,
    later: Seq<Result<(), ApiError>>,
)
    ensures
        ({
            let calls = deletes_issued(
                retire_start(instance),
                seq![Err::<(), ApiError>(ApiError::NotFound)] + later,
            );
            &&& calls.len() >= 2
            &&& calls[0] == delete_model(ResourceKind::Network, instance)
            &&& calls[1] == delete_model(ResourceKind::Compute, instance)
            &&& later.len() > 0 && tolerated(later[0]) ==> calls.len() == 3 && calls[2]
                == delete_model(ResourceKind::Storage, instance)
            &&& later.len() > 0 && !tolerated(later[0]) ==> calls.len() == 2
        }),
{
    let outcomes = seq![Err::<(), ApiError>(ApiError::NotFound)] + later;
    let rest = outcomes.drop_first();
    assert(rest =~= later);
    assert(tolerated(outcomes.first()));
    assert(leading_tolerated(outcomes) == 1 + leading_tolerated(later));
    if later.len() > 0 {
        if tolerated(later[0]) {
            assert(leading_tolerated(later) >= 1);
        } else {
            assert(leading_tolerated(later) == 0);
        }
    }
    lemma_retire_follows_teardown_order(instance, outcomes);
}

/// For the calls that are handed out, a resource that was gone counts as one
/// that was removed: the run issues the same delete calls as it would had
/// every `NotFound` been a success.
pub proof fn lemma_missing_counts_as_removed(
    instance: InstanceView,
    outcomes: Seq<Result<(), ApiError>>,
)
    ensures
        deletes_issued(retire_start(instance), outcomes) == deletes_issued(
            retire_start(instance),
            forgiving(outcomes),
        ),
{
    lemma_forgiving_keeps_count(outcomes);
    lemma_retire_follows_teardown_order(instance, outcomes);
    lemma_retire_follows_teardown_order(instance, forgiving(outcomes));
    assert(deletes_issued(retire_start(instance), outcomes) =~= deletes_issued(
        retire_start(instance),
        forgiving(outcomes),
    ));
}

proof fn lemma_forgiving_keeps_count(outcomes: Seq<Result<(), ApiError>>)
    ensures
        leading_tolerated(forgiving(outcomes)) == leading_tolerated(outcomes),
    decreases outcomes.len(),
{
    if outcomes.len() > 0 {
        assert(forgiving(outcomes).drop_first() =~= forgiving(outcomes.drop_first()));
        lemma_forgiving_keeps_count(outcomes.drop_first());
    }
}

/// Retiring finds what provisioning made: the delete call for a kind names
/// the resource that is built for that kind, by its name and its namespace.
pub proof fn lemma_retire_addresses_what_is_built(kind: ResourceKind, instance: InstanceView)
    ensures
        delete_model(kind, instance).kind == build_model(kind, instance).kind(),
        delete_model(kind, instance).name == build_model(kind, instance).name(),
        delete_model(kind, instance).namespace == build_model(kind, instance).namespace(),
{
}

/// A report accounts for every kind that the run went through: as long as
/// the first `upto` outcomes are tolerated, each of the first `upto` kinds
/// of the teardown order is listed once, as removed or as missing.
pub proof fn lemma_report_accounts_for_every_kind(
    outcomes: Seq<Result<(), ApiError>>,
    upto: nat,
)
    requires
        upto <= 3,
        upto <= outcomes.len(),
        forall|i: int| 0 <= i < upto ==> tolerated(#[trigger] outcomes[i]),
    ensures
        removed_among(outcomes, upto).len() + missing_among(outcomes, upto).len() == upto,
        forall|i: int|
            0 <= i < upto ==> (removed_among(outcomes, upto).contains(
                ResourceKind::teardown_order()[i],
            ) <==> #[trigger] outcomes[i] is Ok),
        forall|i: int|
            0 <= i < upto ==> (missing_among(outcomes, upto).contains(
                ResourceKind::teardown_order()[i],
            ) <==> #[trigger] outcomes[i] is Err),
        forall|kind: ResourceKind|
            removed_among(outcomes, upto).contains(kind) || missing_among(outcomes, upto).contains(
                kind,
            ) ==> 2 - kind.rank() < upto,
    decreases upto,
{
    if upto > 0 {
        let before = (upto - 1) as nat;
        lemma_report_accounts_for_every_kind(outcomes, before);
        let last = ResourceKind::teardown_order()[upto - 1];
        let removed_before = removed_among(outcomes, before);
        let missing_before = missing_among(outcomes, before);
        let removed = removed_among(outcomes, upto);
        let missing = missing_among(outcomes, upto);
        assert(tolerated(outcomes[upto - 1]));
        assert(!removed_before.contains(last) && !missing_before.contains(last)) by {
            if removed_before.contains(last) || missing_before.contains(last) {
                assert(2 - last.rank() < before);
            }
        }
        if outcomes[upto - 1] is Ok {
            assert(removed == removed_before.push(last));
            assert(missing == missing_before);
            assert(removed[removed.len() - 1] == last);
        } else {
            assert(removed == removed_before);
            assert(missing == missing_before.push(last));
            assert(missing[missing.len() - 1] == last);
        }
        assert forall|i: int| 0 <= i < upto implies (removed.contains(
            ResourceKind::teardown_order()[i],
        ) <==> #[trigger] outcomes[i] is Ok) by {
            let kind = ResourceKind::teardown_order()[i];
            if i < before {
                assert(kind != last);
                if removed_before.contains(kind) {
                    let at = choose|at: int|
                        0 <= at < removed_before.len() && removed_before[at] == kind;
                    assert(removed[at] == kind);
                }
            }
        }
        assert forall|i: int| 0 <= i < upto implies (missing.contains(
            ResourceKind::teardown_order()[i],
        ) <==> #[trigger] outcomes[i] is Err) by {
            let kind = ResourceKind::teardown_order()[i];
            if i < before {
                assert(kind != last);
                if missing_before.contains(kind) {
                    let at = choose|at: int|
                        0 <= at < missing_before.len() && missing_before[at] == kind;
                    assert(missing[at] == kind);
                }
            }
        }
        assert forall|kind: ResourceKind|
            removed.contains(kind) || missing.contains(kind) implies 2 - kind.rank() < upto by {
            if kind != last {
                assert(removed_before.contains(kind) || missing_before.contains(kind));
            }
        }
    }
}

/// Of the delete calls that fail, a retiring passes over exactly those that
/// the control plane answered with status 404. A create call that fails is
/// never classed as `NotFound`.
pub proof fn lemma_only_status_404_is_passed_over(status: Option<u16>)
    ensures
        tolerated(Err(failure_class(Operation::Delete, status))) <==> status == Some(404u16),
        failure_class(Operation::Create, status) != ApiError::NotFound,
{
}

} // verus!
