//! One run of the tool as a state machine: the caller performs each action
//! that `Run::step` returns and hands back what came of it as the next event.
//!
//! A run infers the cluster configuration, merges an extra CA bundle into it
//! when one is given, builds the API client, sends one merge patch and
//! reports its outcome. A scale run with a negative replica count fails
//! before any of that.
use crate::clock::restart_time;
use crate::patch::{patch_params, restart_patch_body, scale_patch_body, PatchOptions};
use crate::pem_bundle::{extra_ca_certificates, merge_root_certs, CaBundleError};
use vstd::prelude::*;
use vstd::string::StringSliceAdditionalSpecFns;

verus! {

/// What a run is asked to do.
#[derive(Clone, Copy, Debug, PartialEq, Eq)]
pub enum Operation {
    /// Set the Deployment's replica count.
    Scale { replicas: i32 },
    /// Restart the Deployment's pods by stamping the pod template.
    Restart,
}

/// The arguments of one run.
#[derive(Clone, Debug, PartialEq, Eq)]
pub struct Invocation {
    pub operation: Operation,
    /// Name of the Deployment.
    pub deployment: String,
    /// Namespace of the Deployment.
    pub namespace: String,
    /// Whether the patch is a server-side dry run.
    pub dry_run: bool,
    /// Whether a bundle of extra CA certificates is to be trusted.
    pub has_extra_ca_bundle: bool,
}

/// Which resource a patch goes to.
#[derive(Clone, Copy, Debug, PartialEq, Eq)]
pub enum PatchTarget {
    /// The Deployment's `scale` subresource.
    ScaleSubresource,
    /// The Deployment itself.
    Deployment,
}

/// A merge patch to send.
#[derive(Clone, Debug, PartialEq, Eq)]
pub struct PatchRequest {
    pub target: PatchTarget,
    /// Name of the Deployment.
    pub name: String,
    /// Namespace of the Deployment.
    pub namespace: String,
    pub options: PatchOptions,
    /// The merge-patch document, JSON text.
    pub body: Vec<u8>,
}

/// How a run ended well.
#[derive(Clone, Debug, PartialEq, Eq)]
pub enum Outcome {
    /// The replica count the server reports after the patch.
    Scaled { replicas: i32 },
    /// The time stamped on the pod template.
    Restarted { restarted_at: String },
}

/// How a run ended badly.
#[derive(Debug, PartialEq, Eq)]
pub enum RunError {
    /// The requested replica count is below zero.
    NegativeReplicas { replicas: i32 },
    /// No cluster configuration could be inferred.
    ConfigUnavailable,
    /// The extra CA bundle could not be read.
    CaBundleUnreadable,
    /// The extra CA bundle is not PEM; the parser's error.
    CaBundleMalformed { source: pem::PemError },
    /// The extra CA bundle holds no certificate.
    CaBundleEmpty,
    /// No API client could be built from the configuration.
    ClientUnavailable,
    /// The API server refused the patch.
    PatchRejected,
    /// The system clock could not be read as a time to stamp the restart
    /// with (it stands before the Unix epoch).
    ClockUnavailable,
    /// An event came that the run was not waiting for.
    OutOfOrder,
}

/// What the caller is to do next.
#[derive(Debug, PartialEq, Eq)]
pub enum Action {
    /// Infer the cluster configuration (in-cluster or from a kubeconfig).
    InferConfig,
    /// Read the extra CA bundle.
    ReadCaBundle,
    /// Build the API client from the configuration, its trusted root
    /// certificates replaced by `root_cert`; `extra_certificates` of them
    /// came from the extra bundle.
    BuildClient { root_cert: Option<Vec<Vec<u8>>>, extra_certificates: usize },
    /// Send this patch.
    SendPatch(PatchRequest),
    /// Report success; the run is over.
    Finish(Outcome),
    /// Report the failure; the run is over.
    Fail(RunError),
}

/// What came of the last action.
#[derive(Clone, Debug, PartialEq, Eq)]
pub enum Event {
    /// The run starts.
    Begin,
    /// A configuration was inferred; these are its trusted root certificates.
    ConfigInferred { root_cert: Option<Vec<Vec<u8>>> },
    /// No configuration could be inferred.
    ConfigFailed,
    /// The extra CA bundle holds these bytes.
    CaBundleRead { contents: Vec<u8> },
    /// The extra CA bundle could not be read.
    CaBundleFailed,
    /// The API client is built.
    ClientReady,
    /// No API client could be built.
    ClientFailed,
    /// The server accepted the patch; for a scale patch, the `spec` of the
    /// returned scale and the replica count in it.
    PatchApplied { reported_replicas: Option<Option<i32>> },
    /// The server refused the patch.
    PatchFailed,
}

/// Where a run stands.
#[derive(Clone, Debug, PartialEq, Eq)]
pub enum Phase {
    Start,
    AwaitConfig,
    AwaitCaBundle { root_cert: Option<Vec<Vec<u8>>> },
    AwaitClient,
    AwaitScale,
    AwaitRestart { restarted_at: String },
    Done,
    Failed,
}

/// One run: what it was asked and where it stands.
#[derive(Clone, Debug, PartialEq, Eq)]
pub struct Run {
    pub invocation: Invocation,
    pub phase: Phase,
}

/// The replica count to report after a scale patch: the one the server
/// returns, else the one requested.
pub open spec fn reported_or_requested(reported: Option<Option<i32>>, requested: i32) -> i32 {
    match reported {
        Some(Some(replicas)) => replicas,
        _ => requested,
    }
}

/// The patch that a run sends once its client is ready: to `target`, of the
/// invocation's Deployment, with the invocation's dry-run choice, the tool's
/// field manager, no forced ownership and the server's own field
/// validation, carrying `body`.
pub open spec fn is_patch_for(
    invocation: Invocation,
    request: PatchRequest,
    target: PatchTarget,
    body: Seq<u8>,
) -> bool {
    &&& request.target == target
    &&& request.name@ == invocation.deployment@
    &&& request.namespace@ == invocation.namespace@
    &&& request.options.dry_run == invocation.dry_run
    &&& !request.options.force
    &&& request.options.field_manager@ == crate::patch::FIELD_MANAGER@
    &&& request.options.field_validation is None
    &&& request.body@ == body
}

/// The text of an optional string.
pub open spec fn text_of(text: Option<String>) -> Option<Seq<char>> {
    match text {
        Some(t) => Some(t@),
        None => None,
    }
}

/// What the system clock can give for a restart: timestamp text, or nothing.
pub open spec fn is_clock_reading(clock: Option<Seq<char>>) -> bool {
    clock matches Some(t) ==> crate::clock::is_timestamp_text(t)
}

/// The step of a run from `phase`, on `event`, to `next`, answering with
/// `action`, where `clock` is the time read for a restart (only the step
/// that sends the restart patch reads it).
pub open spec fn step_relation(
    invocation: Invocation,
    phase: Phase,
    event: Event,
    clock: Option<Seq<char>>,
    next: Phase,
    action: Action,
) -> bool {
    match phase {
        Phase::Start => match event {
            Event::Begin => match invocation.operation {
                Operation::Scale { replicas } => if replicas < 0 {
                    next == Phase::Failed && action == Action::Fail(
                        RunError::NegativeReplicas { replicas },
                    )
                } else {
                    next == Phase::AwaitConfig && action == Action::InferConfig
                },
                Operation::Restart => next == Phase::AwaitConfig && action == Action::InferConfig,
            },
            _ => next == Phase::Failed && action == Action::Fail(RunError::OutOfOrder),
        },
        Phase::AwaitConfig => match event {
            Event::ConfigInferred { root_cert } => if invocation.has_extra_ca_bundle {
                next == (Phase::AwaitCaBundle { root_cert }) && action == Action::ReadCaBundle
            } else {
                next == Phase::AwaitClient && action == (Action::BuildClient {
                    root_cert,
                    extra_certificates: 0,
                })
            },
            Event::ConfigFailed => next == Phase::Failed && action == Action::Fail(
                RunError::ConfigUnavailable,
            ),
            _ => next == Phase::Failed && action == Action::Fail(RunError::OutOfOrder),
        },
        Phase::AwaitCaBundle { root_cert } => match event {
            Event::CaBundleRead { contents } => match crate::pem_bundle::pem_parse_many(
                contents@,
            ) {
                None => next == Phase::Failed && action matches Action::Fail(
                    RunError::CaBundleMalformed { .. },
                ),
                Some(blocks) => {
                    let extra = crate::pem_bundle::certificate_contents(blocks);
                    if extra.len() == 0 {
                        next == Phase::Failed && action == Action::Fail(RunError::CaBundleEmpty)
                    } else {
                        &&& next == Phase::AwaitClient
                        &&& action matches Action::BuildClient {
                            root_cert: Some(merged),
                            extra_certificates,
                        }
                        &&& crate::pem_bundle::bytes_view(merged@)
                            == crate::pem_bundle::merged_roots(
                            crate::pem_bundle::roots_view(root_cert),
                            extra,
                        )
                        &&& extra_certificates == extra.len()
                    }
                },
            },
            Event::CaBundleFailed => next == Phase::Failed && action == Action::Fail(
                RunError::CaBundleUnreadable,
            ),
            _ => next == Phase::Failed && action == Action::Fail(RunError::OutOfOrder),
        },
        Phase::AwaitClient => match event {
            Event::ClientReady => match invocation.operation {
                Operation::Scale { replicas } => {
                    &&& next == Phase::AwaitScale
                    &&& action matches Action::SendPatch(request)
                    &&& is_patch_for(
                        invocation,
                        request,
                        PatchTarget::ScaleSubresource,
                        crate::patch::scale_patch(replicas as int),
                    )
                },
                Operation::Restart => match clock {
                    None => next == Phase::Failed && action == Action::Fail(
                        RunError::ClockUnavailable,
                    ),
                    Some(now) => {
                        &&& next matches Phase::AwaitRestart { restarted_at }
                        &&& restarted_at@ == now
                        &&& action matches Action::SendPatch(request)
                        &&& is_patch_for(
                            invocation,
                            request,
                            PatchTarget::Deployment,
                            crate::patch::restart_patch(vstd::utf8::encode_utf8(now)),
                        )
                    },
                },
            },
            Event::ClientFailed => next == Phase::Failed && action == Action::Fail(
                RunError::ClientUnavailable,
            ),
            _ => next == Phase::Failed && action == Action::Fail(RunError::OutOfOrder),
        },
        Phase::AwaitScale => match event {
            Event::PatchApplied { reported_replicas } => match invocation.operation {
                Operation::Scale { replicas } => next == Phase::Done && action == Action::Finish(
                    Outcome::Scaled { replicas: reported_or_requested(reported_replicas, replicas) },
                ),
                Operation::Restart => next == Phase::Failed && action == Action::Fail(
                    RunError::OutOfOrder,
                ),
            },
            Event::PatchFailed => next == Phase::Failed && action == Action::Fail(
                RunError::PatchRejected,
            ),
            _ => next == Phase::Failed && action == Action::Fail(RunError::OutOfOrder),
        },
        Phase::AwaitRestart { restarted_at } => match event {
            Event::PatchApplied { .. } => next == Phase::Done && action == Action::Finish(
                Outcome::Restarted { restarted_at },
            ),
            Event::PatchFailed => next == Phase::Failed && action == Action::Fail(
                RunError::PatchRejected,
            ),
            _ => next == Phase::Failed && action == Action::Fail(RunError::OutOfOrder),
        },
        Phase::Done => next == Phase::Done && action == Action::Fail(RunError::OutOfOrder),
        Phase::Failed => next == Phase::Failed && action == Action::Fail(RunError::OutOfOrder),
    }
}

/// The requested replica count, where there is one, is not negative.
pub open spec fn request_is_valid(invocation: Invocation) -> bool {
    invocation.operation matches Operation::Scale { replicas } ==> replicas >= 0
}

/// What holds of every phase that a run reaches: past the start the request
/// is valid, a bundle is awaited only when one was given, a scale patch only
/// for a scale run, and a restart patch only for a restart run.
pub open spec fn phase_is_consistent(invocation: Invocation, phase: Phase) -> bool {
    match phase {
        Phase::AwaitConfig => request_is_valid(invocation),
        Phase::AwaitCaBundle { .. } => request_is_valid(invocation) && invocation.has_extra_ca_bundle,
        Phase::AwaitClient => request_is_valid(invocation),
        Phase::AwaitScale => invocation.operation matches Operation::Scale { replicas } && replicas
            >= 0,
        Phase::AwaitRestart { .. } => invocation.operation is Restart,
        _ => true,
    }
}

/// How far a phase stands in a run; a step never goes back.
pub open spec fn phase_rank(phase: Phase) -> int {
    match phase {
        Phase::Start => 0,
        Phase::AwaitConfig => 1,
        Phase::AwaitCaBundle { .. } => 2,
        Phase::AwaitClient => 3,
        Phase::AwaitScale => 4,
        Phase::AwaitRestart { .. } => 4,
        Phase::Done => 5,
        Phase::Failed => 5,
    }
}

/// `phases`, `events`, `clocks` and `actions` record a run from its start:
/// each event, with the clock reading of the same index, took the run from
/// one phase to the next and was answered by the action of that index.
pub open spec fn is_run_trace(
    invocation: Invocation,
    phases: Seq<Phase>,
    events: Seq<Event>,
    clocks: Seq<Option<Seq<char>>>,
    actions: Seq<Action>,
) -> bool {
    &&& phases.len() == events.len() + 1
    &&& actions.len() == events.len()
    &&& clocks.len() == events.len()
    &&& phases[0] == Phase::Start
    &&& forall|k: int|
        0 <= k < events.len() ==> step_relation(
            invocation,
            phases[k],
            #[trigger] events[k],
            clocks[k],
            phases[k + 1],
            actions[k],
        )
}

/// Every step keeps the run consistent and never moves it back; it sends a
/// patch only from `AwaitClient`, and then waits for that patch's answer.
pub proof fn lemma_step_keeps_consistency(
    invocation: Invocation,
    phase: Phase,
    event: Event,
    clock: Option<Seq<char>>,
    next: Phase,
    action: Action,
)
    requires
        phase_is_consistent(invocation, phase),
        step_relation(invocation, phase, event, clock, next, action),
    ensures
        phase_is_consistent(invocation, next),
        phase_rank(phase) <= phase_rank(next),
        action is SendPatch ==> phase == Phase::AwaitClient && phase_rank(next) == 4,
{
}

/// A finished run stays finished and sends nothing more.
pub proof fn lemma_finished_run_stays_finished(
    invocation: Invocation,
    phase: Phase,
    event: Event,
    clock: Option<Seq<char>>,
    next: Phase,
    action: Action,
)
    requires
        phase is Done || phase is Failed,
        step_relation(invocation, phase, event, clock, next, action),
    ensures
        next == phase,
        action == Action::Fail(RunError::OutOfOrder),
{
}

/// Every phase that a run reaches is consistent, and phases only move on.
pub proof fn lemma_trace_phases(
    invocation: Invocation,
    phases: Seq<Phase>,
    events: Seq<Event>,
    clocks: Seq<Option<Seq<char>>>,
    actions: Seq<Action>,
    i: int,
)
    requires
        is_run_trace(invocation, phases, events, clocks, actions),
        0 <= i < phases.len(),
    ensures
        phase_is_consistent(invocation, phases[i]),
        forall|j: int| 0 <= j <= i ==> phase_rank(#[trigger] phases[j]) <= phase_rank(phases[i]),
    decreases i,
{
    if i > 0 {
        lemma_trace_phases(invocation, phases, events, clocks, actions, i - 1);
        let k: int = i - 1;
        assert(step_relation(invocation, phases[k], events[k], clocks[k], phases[k + 1], actions[k]));
        lemma_step_keeps_consistency(invocation, phases[k], events[k], clocks[k], phases[k + 1], actions[k]);
    }
}

/// A scale run asked for a negative replica count does no outside work: its
/// first answer is the refusal, and every later one is a failure too.
pub proof fn lemma_negative_replicas_do_nothing(
    invocation: Invocation,
    phases: Seq<Phase>,
    events: Seq<Event>,
    clocks: Seq<Option<Seq<char>>>,
    actions: Seq<Action>,
)
    requires
        invocation.operation matches Operation::Scale { replicas } && replicas < 0,
        is_run_trace(invocation, phases, events, clocks, actions),
        events.len() > 0,
        events[0] == Event::Begin,
    ensures
        actions[0] == Action::Fail(
            RunError::NegativeReplicas { replicas: invocation.operation->replicas },
        ),
        forall|k: int| 0 <= k < actions.len() ==> #[trigger] actions[k] is Fail,
{
    assert(step_relation(invocation, phases[0], events[0], clocks[0], phases[1], actions[0]));
    assert forall|k: int| 0 <= k < actions.len() implies #[trigger] actions[k] is Fail by {
        lemma_trace_phases(invocation, phases, events, clocks, actions, k);
        assert(step_relation(invocation, phases[k], events[k], clocks[k], phases[k + 1], actions[k]));
        if k > 0 {
            assert(phase_rank(phases[1]) <= phase_rank(phases[k]));
            assert(phases[1] == Phase::Failed);
            assert(phase_is_consistent(invocation, phases[k]));
        }
    }
}

/// A run sends at most one patch, and the patch it sends is the one asked
/// for: to the scale subresource with `{"spec":{"replicas":N}}` for the
/// requested N, never below zero, or to the Deployment with the restart
/// annotation set to the clock reading of that step, which is also the time
/// the run remembers for its report; either way to the invocation's
/// Deployment and namespace, with its dry-run choice, the tool's field
/// manager, no forced ownership and the server's own field validation.
pub proof fn lemma_run_sends_one_requested_patch(
    invocation: Invocation,
    phases: Seq<Phase>,
    events: Seq<Event>,
    clocks: Seq<Option<Seq<char>>>,
    actions: Seq<Action>,
    k: int,
)
    requires
        is_run_trace(invocation, phases, events, clocks, actions),
        0 <= k < actions.len(),
        actions[k] is SendPatch,
    ensures
        forall|j: int| 0 <= j < actions.len() && j != k ==> !(#[trigger] actions[j] is SendPatch),
        ({
            let request = actions[k]->SendPatch_0;
            match invocation.operation {
                Operation::Scale { replicas } => replicas >= 0 && is_patch_for(
                    invocation,
                    request,
                    PatchTarget::ScaleSubresource,
                    crate::patch::scale_patch(replicas as int),
                ),
                Operation::Restart => {
                    &&& clocks[k] matches Some(now)
                    &&& phases[k + 1] matches Phase::AwaitRestart { restarted_at }
                    &&& restarted_at@ == now
                    &&& is_patch_for(
                        invocation,
                        request,
                        PatchTarget::Deployment,
                        crate::patch::restart_patch(vstd::utf8::encode_utf8(now)),
                    )
                },
            }
        }),
{
    lemma_trace_phases(invocation, phases, events, clocks, actions, k);
    assert(step_relation(invocation, phases[k], events[k], clocks[k], phases[k + 1], actions[k]));
    lemma_step_keeps_consistency(invocation, phases[k], events[k], clocks[k], phases[k + 1], actions[k]);
    assert forall|j: int| 0 <= j < actions.len() && j != k implies !(#[trigger] actions[j] is SendPatch) by {
        assert(step_relation(invocation, phases[j], events[j], clocks[j], phases[j + 1], actions[j]));
        lemma_trace_phases(invocation, phases, events, clocks, actions, j);
        lemma_trace_phases(invocation, phases, events, clocks, actions, j + 1);
        lemma_trace_phases(invocation, phases, events, clocks, actions, k + 1);
        if actions[j] is SendPatch {
            lemma_step_keeps_consistency(invocation, phases[j], events[j], clocks[j], phases[j + 1], actions[j]);
            if j < k {
                assert(phase_rank(phases[j + 1]) <= phase_rank(phases[k]));
            } else {
                assert(phase_rank(phases[k + 1]) <= phase_rank(phases[j]));
            }
        }
    }
}

/// Two restart runs whose clocks read different times send different
/// patches, each stamped with its own reading, which is the time each then
/// reports.
pub proof fn lemma_restarts_follow_the_clock(
    invocation: Invocation,
    first: Seq<char>,
    second: Seq<char>,
    first_next: Phase,
    first_action: Action,
    second_next: Phase,
    second_action: Action,
)
    requires
        invocation.operation is Restart,
        crate::clock::is_timestamp_text(first),
        crate::clock::is_timestamp_text(second),
        first != second,
        step_relation(
            invocation,
            Phase::AwaitClient,
            Event::ClientReady,
            Some(first),
            first_next,
            first_action,
        ),
        step_relation(
            invocation,
            Phase::AwaitClient,
            Event::ClientReady,
            Some(second),
            second_next,
            second_action,
        ),
    ensures
        first_action is SendPatch,
        second_action is SendPatch,
        first_action->SendPatch_0.body@ != second_action->SendPatch_0.body@,
        first_next->restarted_at@ == first,
        second_next->restarted_at@ == second,
{
    crate::clock::lemma_restart_patch_distinguishes_times(first, second);
}

/// A valid scale request is never refused once the client is ready: for any
/// replica count `n >= 0` the run sends one patch, to the scale subresource of
/// the invocation's Deployment, whose body is `{"spec":{"replicas":` then the
/// base-ten notation of `n` then `}}`, and then waits for its answer.
pub proof fn lemma_valid_scale_request_is_sent(
    invocation: Invocation,
    replicas: i32,
    clock: Option<Seq<char>>,
    next: Phase,
    action: Action,
)
    requires
        invocation.operation == (Operation::Scale { replicas }),
        replicas >= 0,
        step_relation(invocation, Phase::AwaitClient, Event::ClientReady, clock, next, action),
    ensures
        next == Phase::AwaitScale,
        action is SendPatch,
        action->SendPatch_0.target == PatchTarget::ScaleSubresource,
        action->SendPatch_0.name@ == invocation.deployment@,
        action->SendPatch_0.namespace@ == invocation.namespace@,
        action->SendPatch_0.options.dry_run == invocation.dry_run,
        exists|digits: Seq<u8>|
            crate::patch::is_decimal_notation(digits, replicas as nat)
                && #[trigger] action->SendPatch_0.body@ == "{\"spec\":{\"replicas\":".spec_bytes()
                + digits + "}}".spec_bytes(),
{
    crate::patch::lemma_scale_patch_denotes_count(replicas as int);
}

/// A scale run with a count `n >= 0` and no extra bundle, whose outside work
/// succeeds, goes straight through: it asks for the configuration, builds
/// the client with the configuration's own roots, and sends the scale patch
/// for `n`.
pub proof fn lemma_valid_scale_run_goes_through(
    invocation: Invocation,
    replicas: i32,
    root_cert: Option<Vec<Vec<u8>>>,
    phases: Seq<Phase>,
    events: Seq<Event>,
    clocks: Seq<Option<Seq<char>>>,
    actions: Seq<Action>,
)
    requires
        invocation.operation == (Operation::Scale { replicas }),
        replicas >= 0,
        !invocation.has_extra_ca_bundle,
        is_run_trace(invocation, phases, events, clocks, actions),
        events.len() >= 3,
        events[0] == Event::Begin,
        events[1] == (Event::ConfigInferred { root_cert }),
        events[2] == Event::ClientReady,
    ensures
        actions[0] == Action::InferConfig,
        actions[1] == (Action::BuildClient { root_cert, extra_certificates: 0 }),
        actions[2] is SendPatch,
        actions[2]->SendPatch_0.target == PatchTarget::ScaleSubresource,
        exists|digits: Seq<u8>|
            crate::patch::is_decimal_notation(digits, replicas as nat)
                && #[trigger] actions[2]->SendPatch_0.body@
                == "{\"spec\":{\"replicas\":".spec_bytes() + digits + "}}".spec_bytes(),
{
    assert(step_relation(invocation, phases[0], events[0], clocks[0], phases[1], actions[0]));
    assert(step_relation(invocation, phases[1], events[1], clocks[1], phases[2], actions[1]));
    assert(step_relation(invocation, phases[2], events[2], clocks[2], phases[3], actions[2]));
    lemma_valid_scale_request_is_sent(invocation, replicas, clocks[2], phases[3], actions[2]);
}

/// Reading an extra bundle with certificates in it never drops a root the
/// configuration held: the client is built with every held root, in its
/// place, followed by every certificate of the bundle in the bundle's order.
pub proof fn lemma_bundle_keeps_cluster_roots(
    invocation: Invocation,
    root_cert: Option<Vec<Vec<u8>>>,
    contents: Vec<u8>,
    blocks: Seq<(Seq<u8>, Seq<u8>)>,
    clock: Option<Seq<char>>,
    next: Phase,
    action: Action,
)
    requires
        crate::pem_bundle::pem_parse_many(contents@) == Some(blocks),
        crate::pem_bundle::certificate_contents(blocks).len() > 0,
        step_relation(
            invocation,
            Phase::AwaitCaBundle { root_cert },
            Event::CaBundleRead { contents },
            clock,
            next,
            action,
        ),
    ensures
        next == Phase::AwaitClient,
        action matches Action::BuildClient { root_cert: Some(roots), extra_certificates }
            && ({
            let held = match root_cert {
                Some(h) => crate::pem_bundle::bytes_view(h@),
                None => Seq::<Seq<u8>>::empty(),
            };
            let extra = crate::pem_bundle::certificate_contents(blocks);
            &&& roots@.len() == held.len() + extra.len()
            &&& forall|i: int| 0 <= i < held.len() ==> #[trigger] roots@[i]@ == held[i]
            &&& forall|j: int| 0 <= j < extra.len() ==> #[trigger] roots@[held.len() + j]@ == extra[j]
            &&& extra_certificates == extra.len()
        }),
{
    let extra = crate::pem_bundle::certificate_contents(blocks);
    crate::pem_bundle::lemma_merge_keeps_trusted_roots(
        crate::pem_bundle::roots_view(root_cert),
        extra,
    );
    let roots = action->BuildClient_root_cert->Some_0;
    let held = match root_cert {
        Some(h) => crate::pem_bundle::bytes_view(h@),
        None => Seq::<Seq<u8>>::empty(),
    };
    assert forall|i: int| 0 <= i < held.len() implies #[trigger] roots@[i]@ == held[i] by {
        assert(crate::pem_bundle::bytes_view(roots@)[i] == roots@[i]@);
    }
    assert forall|j: int| 0 <= j < extra.len() implies #[trigger] roots@[held.len() + j]@
        == extra[j] by {
        assert(crate::pem_bundle::bytes_view(roots@)[held.len() + j] == roots@[held.len() + j]@);
    }
}

impl Run {
    /// A run that has not started.
    pub fn new(invocation: Invocation) -> (run: Run)
        ensures
            run.invocation == invocation,
            run.phase == Phase::Start,
    {
        Run { invocation, phase: Phase::Start }
    }

    fn send_patch(&self, target: PatchTarget, body: Vec<u8>) -> (request: PatchRequest)
        ensures
            request.target == target,
            request.name@ == self.invocation.deployment@,
            request.namespace@ == self.invocation.namespace@,
            request.options.dry_run == self.invocation.dry_run,
            !request.options.force,
            request.options.field_manager@ == crate::patch::FIELD_MANAGER@,
            request.options.field_validation is None,
            request.body == body,
    {
        PatchRequest {
            target,
            name: self.invocation.deployment.clone(),
            namespace: self.invocation.namespace.clone(),
            options: patch_params(self.invocation.dry_run),
            body,
        }
    }

    /// Takes `event`, moves the run on and answers what to do next. The
    /// restart patch is stamped with the system clock, read when the client
    /// is ready.
    pub fn step(&mut self, event: Event) -> (action: Action)
        ensures
            final(self).invocation == old(self).invocation,
            exists|clock: Option<Seq<char>>|
                is_clock_reading(clock) && #[trigger] step_relation(
                    old(self).invocation,
                    old(self).phase,
                    event,
                    clock,
                    final(self).phase,
                    action,
                ),
    {
        let reads_clock: bool = match self.phase {
            Phase::AwaitClient => match event {
                Event::ClientReady => match self.invocation.operation {
                    Operation::Restart => true,
                    Operation::Scale { .. } => false,
                },
                _ => false,
            },
            _ => false,
        };
        let clock = if reads_clock {
            restart_time()
        } else {
            None
        };
        let ghost before = *self;
        let ghost read = text_of(clock);
        let action = self.step_with_clock(event, clock);
        assert(step_relation(before.invocation, before.phase, event, read, self.phase, action));
        action
    }

    /// Takes `event` with `clock`, the time to stamp a restart with (read
    /// only by the step that sends the restart patch; `None` where no time
    /// could be read), moves the run on and answers what to do next.
    pub fn step_with_clock(&mut self, event: Event, clock: Option<String>) -> (action: Action)
        ensures
            final(self).invocation == old(self).invocation,
            step_relation(
                old(self).invocation,
                old(self).phase,
                event,
                text_of(clock),
                final(self).phase,
                action,
            ),
    {
        let mut phase = Phase::Failed;
        std::mem::swap(&mut phase, &mut self.phase);
        match phase {
            Phase::Start => match event {
                Event::Begin => {
                    match self.invocation.operation {
                        Operation::Scale { replicas } => {
                            if replicas < 0 {
                                return Action::Fail(RunError::NegativeReplicas { replicas });
                            }
                        },
                        Operation::Restart => {},
                    }
                    self.phase = Phase::AwaitConfig;
                    Action::InferConfig
                },
                _ => Action::Fail(RunError::OutOfOrder),
            },
            Phase::AwaitConfig => match event {
                Event::ConfigInferred { root_cert } => {
                    if self.invocation.has_extra_ca_bundle {
                        self.phase = Phase::AwaitCaBundle { root_cert };
                        Action::ReadCaBundle
                    } else {
                        self.phase = Phase::AwaitClient;
                        Action::BuildClient { root_cert, extra_certificates: 0 }
                    }
                },
                Event::ConfigFailed => Action::Fail(RunError::ConfigUnavailable),
                _ => Action::Fail(RunError::OutOfOrder),
            },
            Phase::AwaitCaBundle { root_cert } => match event {
                Event::CaBundleRead { contents } => match extra_ca_certificates(
                    contents.as_slice(),
                ) {
                    Err(CaBundleError::Malformed { source }) => Action::Fail(
                        RunError::CaBundleMalformed { source },
                    ),
                    Err(CaBundleError::NoCertificates) => Action::Fail(RunError::CaBundleEmpty),
                    Ok(extra) => {
                        let count: usize = extra.len();
                        let ghost held = root_cert;
                        let ghost added = extra@;
                        let merged = merge_root_certs(root_cert, extra);
                        proof {
                            crate::pem_bundle::lemma_merged_roots_view(
                                match held {
                                    Some(h) => Some(h@),
                                    None => None,
                                },
                                added,
                            );
                        }
                        self.phase = Phase::AwaitClient;
                        Action::BuildClient { root_cert: Some(merged), extra_certificates: count }
                    },
                },
                Event::CaBundleFailed => Action::Fail(RunError::CaBundleUnreadable),
                _ => Action::Fail(RunError::OutOfOrder),
            },
            Phase::AwaitClient => match event {
                Event::ClientReady => match self.invocation.operation {
                    Operation::Scale { replicas } => {
                        let body = scale_patch_body(replicas);
                        let request = self.send_patch(PatchTarget::ScaleSubresource, body);
                        self.phase = Phase::AwaitScale;
                        Action::SendPatch(request)
                    },
                    Operation::Restart => match clock {
                        Some(restarted_at) => {
                            let body = restart_patch_body(restarted_at.as_str());
                            let request = self.send_patch(PatchTarget::Deployment, body);
                            self.phase = Phase::AwaitRestart { restarted_at };
                            Action::SendPatch(request)
                        },
                        None => Action::Fail(RunError::ClockUnavailable),
                    },
                },
                Event::ClientFailed => Action::Fail(RunError::ClientUnavailable),
                _ => Action::Fail(RunError::OutOfOrder),
            },
            Phase::AwaitScale => match event {
                Event::PatchApplied { reported_replicas } => match self.invocation.operation {
                    Operation::Scale { replicas } => {
                        let actual: i32 = match reported_replicas {
                            Some(Some(reported)) => reported,
                            _ => replicas,
                        };
                        self.phase = Phase::Done;
                        Action::Finish(Outcome::Scaled { replicas: actual })
                    },
                    Operation::Restart => Action::Fail(RunError::OutOfOrder),
                },
                Event::PatchFailed => Action::Fail(RunError::PatchRejected),
                _ => Action::Fail(RunError::OutOfOrder),
            },
            Phase::AwaitRestart { restarted_at } => match event {
                Event::PatchApplied { .. } => {
                    self.phase = Phase::Done;
                    Action::Finish(Outcome::Restarted { restarted_at })
                },
                Event::PatchFailed => Action::Fail(RunError::PatchRejected),
                _ => Action::Fail(RunError::OutOfOrder),
            },
            Phase::Done => {
                self.phase = Phase::Done;
                Action::Fail(RunError::OutOfOrder)
            },
            Phase::Failed => Action::Fail(RunError::OutOfOrder),
        }
    }
}

} // verus!
