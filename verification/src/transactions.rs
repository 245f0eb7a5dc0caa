//! The supervisor's transaction interface.
//!
//! Each method is one signed governance transaction. A method either
//! fails, leaving the context exactly as it was — the enclosing
//! transaction aborts atomically — or succeeds with the state change its
//! contract pins down.

use vstd::prelude::*;

use crate::confirms::{spec_tally, voters_of};
use crate::digest::{object_hash, spec_propose_hash};
use crate::state::{spec_get_validator, Caller, CoreStateView, CtxView, ExecutionContext,
    SchemaView};
use crate::tables::TableKey;
use crate::state::spec_initiate_outcome;
use crate::types::{actions_view, artifact_valid, Action, ActionView, AsyncEventState,
    ConfigPropose, ConfigProposalWithHash, ConfigProposalWithHashView, ConfigProposeView,
    ConfigVote, DeployRequest, DeployRequestView, DeployResult, DeployResultView, EventError,
    InstanceState,
    MigrationRequest, MigrationRequestView, MigrationResult, MigrationResultView, MigrationState,
    MigrationType, SupervisorError};
use crate::verify::{spec_verify_changes, verify_config_changes};

verus! {

/// The author recorded in a transaction caller; meaningful only when
/// the validator gate passed.
pub open spec fn spec_author(c: CtxView) -> u64 {
    match c.caller {
        Caller::Transaction { author } => author,
        Caller::Blockchain => 0,
    }
}

/// The approval threshold at the context's validator count.
pub open spec fn spec_quorum_of(c: CtxView) -> nat {
    c.mode.spec_quorum(c.core.consensus.validator_keys.len())
}

/// The confirmations recorded for `k` meet the approval threshold at
/// the current validator set.
pub open spec fn spec_approved<KV>(c: CtxView, m: Map<KV, Set<u64>>, k: KV) -> bool {
    spec_tally(c.core.consensus.validator_keys, voters_of(m, k)) >= spec_quorum_of(c)
}

/// The proposal with its effective height filled in: zero means "from
/// the next block".
pub open spec fn adjusted_propose(p: ConfigProposeView, h: u64) -> ConfigProposeView {
    ConfigProposeView {
        actual_from: if p.actual_from == 0 {
            (h + 1) as u64
        } else {
            p.actual_from
        },
        ..p
    }
}

/// Outcome of `propose_config_change`.
pub open spec fn propose_outcome(c: CtxView, p: ConfigProposeView) -> Result<
    (),
    SupervisorError,
> {
    match spec_get_validator(c) {
        Err(e) => Err(e),
        Ok(_) => if p.actual_from != 0 && c.height >= p.actual_from {
            Err(SupervisorError::ActualFromIsPast)
        } else if c.schema.pending_proposal matches Some(entry) && c.height
            < entry.config_propose.actual_from {
            Err(SupervisorError::ConfigProposeExists)
        } else {
            match spec_verify_changes(p.changes, c.core, c.env) {
                Err(e) => Err(e),
                Ok(_) => if p.configuration_number != c.schema.configuration_number {
                    Err(SupervisorError::IncorrectConfigurationNumber)
                } else {
                    Ok(())
                },
            }
        },
    }
}

/// State after a successful `propose_config_change`: the counter
/// advances by one, the author's implicit vote is recorded under the
/// proposal's digest, and the adjusted proposal becomes pending.
pub open spec fn propose_post(c: CtxView, p: ConfigProposeView) -> CtxView {
    let adj = adjusted_propose(p, c.height);
    let h = spec_propose_hash(adj);
    CtxView {
        schema: SchemaView {
            configuration_number: (c.schema.configuration_number + 1) as u64,
            pending_proposal: Some(
                ConfigProposalWithHashView { config_propose: adj, propose_hash: h },
            ),
            config_confirms: c.schema.config_confirms.insert(
                h,
                voters_of(c.schema.config_confirms, h).insert(spec_author(c)),
            ),
            ..c.schema
        },
        ..c
    }
}

/// Outcome of `confirm_config_change`.
pub open spec fn confirm_outcome(c: CtxView, vote: ConfigVote) -> Result<(), SupervisorError> {
    match spec_get_validator(c) {
        Err(e) => Err(e),
        Ok(author) => match c.schema.pending_proposal {
            None => Err(SupervisorError::ConfigProposeNotRegistered),
            Some(entry) => if entry.propose_hash != vote.propose_hash {
                Err(SupervisorError::ConfigProposeNotRegistered)
            } else if entry.config_propose.actual_from <= c.height {
                Err(SupervisorError::DeadlineExceeded)
            } else if voters_of(c.schema.config_confirms, entry.propose_hash).contains(author) {
                Err(SupervisorError::AttemptToVoteTwice)
            } else {
                Ok(())
            },
        },
    }
}

/// State after a successful `confirm_config_change`: exactly the
/// author's vote is added under the pending proposal's digest.
pub open spec fn confirm_post(c: CtxView, vote: ConfigVote) -> CtxView {
    CtxView {
        schema: SchemaView {
            config_confirms: c.schema.config_confirms.insert(
                vote.propose_hash,
                voters_of(c.schema.config_confirms, vote.propose_hash).insert(spec_author(c)),
            ),
            ..c.schema
        },
        ..c
    }
}

/// Outcome of `request_artifact_deploy`.
pub open spec fn request_deploy_outcome(c: CtxView, d: DeployRequestView) -> Result<
    (),
    SupervisorError,
> {
    match spec_get_validator(c) {
        Err(e) => Err(e),
        Ok(author) => if !artifact_valid(d.artifact) {
            Err(SupervisorError::InvalidArtifactId)
        } else if d.deadline_height < c.height {
            Err(SupervisorError::ActualFromIsPast)
        } else if c.core.artifacts.contains(d.artifact) {
            Err(SupervisorError::AlreadyDeployed)
        } else if c.schema.pending_deployments.contains_key(d.artifact) && voters_of(
            c.schema.deploy_requests,
            d,
        ).contains(author) {
            Err(SupervisorError::DeployRequestAlreadyRegistered)
        } else {
            Ok(())
        },
    }
}

/// State after a successful `request_artifact_deploy`: the author's
/// approval is recorded; the first time the approvals reach the
/// threshold, the request becomes pending and the local runtime is
/// signalled to start deploying.
pub open spec fn request_deploy_post(c: CtxView, d: DeployRequestView) -> CtxView {
    let requests2 = c.schema.deploy_requests.insert(
        d,
        voters_of(c.schema.deploy_requests, d).insert(spec_author(c)),
    );
    if c.schema.pending_deployments.contains_key(d.artifact) {
        CtxView { schema: SchemaView { deploy_requests: requests2, ..c.schema }, ..c }
    } else if spec_approved(c, requests2, d) {
        CtxView {
            schema: SchemaView {
                deploy_requests: requests2,
                deploy_states: c.schema.deploy_states.insert(d, AsyncEventState::Pending),
                pending_deployments: c.schema.pending_deployments.insert(d.artifact, d),
                ..c.schema
            },
            actions: c.actions.push(ActionView::StartDeploy { request: d }),
            ..c
        }
    } else {
        CtxView { schema: SchemaView { deploy_requests: requests2, ..c.schema }, ..c }
    }
}

/// Outcome of `report_deploy_result`. A report on a deploy that
/// already failed is accepted silently.
pub open spec fn report_deploy_outcome(c: CtxView, res_request: DeployRequestView) -> Result<
    (),
    SupervisorError,
> {
    match spec_get_validator(c) {
        Err(e) => Err(e),
        Ok(_) => if c.schema.deploy_states.contains_key(res_request)
            && c.schema.deploy_states[res_request].spec_is_failed() {
            Ok(())
        } else if !c.schema.pending_deployments.contains_key(res_request.artifact) {
            Err(SupervisorError::DeployRequestNotRegistered)
        } else if c.schema.pending_deployments[res_request.artifact] != res_request {
            Err(SupervisorError::DeployRequestNotRegistered)
        } else if res_request.deadline_height < c.height {
            Err(SupervisorError::DeadlineExceeded)
        } else {
            Ok(())
        },
    }
}

/// The report concerns a deploy that already failed, so it is dropped
/// without touching any state.
pub open spec fn report_deploy_is_silent(c: CtxView, res_request: DeployRequestView) -> bool {
    c.schema.deploy_states.contains_key(res_request)
        && c.schema.deploy_states[res_request].spec_is_failed()
}

/// State after a deploy is marked failed: the lifecycle records the
/// failure at the current height and the request leaves the pending
/// index.
pub open spec fn fail_deploy_post(c: CtxView, d: DeployRequestView, code: u64) -> CtxView {
    CtxView {
        schema: SchemaView {
            deploy_states: c.schema.deploy_states.insert(
                d,
                AsyncEventState::Failed {
                    height: c.height,
                    error: EventError::RuntimeFault { code },
                },
            ),
            pending_deployments: c.schema.pending_deployments.remove(d.artifact),
            ..c.schema
        },
        ..c
    }
}

/// State after one success report: the report is recorded; when the
/// reports reach the threshold, the request succeeds, leaves the
/// pending index, and the artifact is registered in the dispatcher.
pub open spec fn confirm_deploy_post(c: CtxView, d: DeployRequestView, author: u64) -> CtxView {
    let confirmations2 = c.schema.deploy_confirmations.insert(
        d,
        voters_of(c.schema.deploy_confirmations, d).insert(author),
    );
    if spec_approved(c, confirmations2, d) {
        CtxView {
            schema: SchemaView {
                deploy_confirmations: confirmations2,
                deploy_states: c.schema.deploy_states.insert(d, AsyncEventState::Succeed),
                pending_deployments: c.schema.pending_deployments.remove(d.artifact),
                ..c.schema
            },
            core: CoreStateView { artifacts: c.core.artifacts.insert(d.artifact), ..c.core },
            actions: c.actions.push(ActionView::RegisterArtifact { artifact: d.artifact }),
            ..c
        }
    } else {
        CtxView { schema: SchemaView { deploy_confirmations: confirmations2, ..c.schema }, ..c }
    }
}

/// State after a successful `report_deploy_result`: one node's failure
/// fails the whole deploy; a success report may complete it.
pub open spec fn report_deploy_post(c: CtxView, res: DeployResultView) -> CtxView {
    if report_deploy_is_silent(c, res.request) {
        c
    } else {
        match res.result {
            Err(code) => fail_deploy_post(c, res.request, code),
            Ok(_) => confirm_deploy_post(c, res.request, spec_author(c)),
        }
    }
}

/// Outcome of `request_migration`.
pub open spec fn request_migration_outcome(c: CtxView, m: MigrationRequestView) -> Result<
    (),
    SupervisorError,
> {
    match spec_get_validator(c) {
        Err(e) => Err(e),
        Ok(_) => if !c.core.has_instance_with_name(m.service) {
            Err(SupervisorError::MalformedConfigPropose)
        } else if m.deadline_height < c.height {
            Err(SupervisorError::ActualFromIsPast)
        } else {
            Ok(())
        },
    }
}

/// State after a migration is marked failed: the lifecycle records the
/// failure at the current height, the request leaves the pending set
/// and the flush schedule, and, when asked, the runtime is told to
/// roll the migration back.
pub open spec fn fail_migration_post(
    c: CtxView,
    m: MigrationRequestView,
    error: EventError,
    initiate_rollback: bool,
) -> CtxView {
    let st = c.schema.migration_states[m];
    let c2 = CtxView {
        schema: SchemaView {
            migration_states: c.schema.migration_states.insert(
                m,
                MigrationState {
                    phase: AsyncEventState::Failed { height: c.height, error },
                    version: st.version,
                    reference_hash: st.reference_hash,
                },
            ),
            pending_migrations: c.schema.pending_migrations.remove(m),
            migrations_to_flush: c.schema.migrations_to_flush.remove(m),
            ..c.schema
        },
        ..c
    };
    if initiate_rollback {
        CtxView {
            actions: c.actions.push(ActionView::RollbackMigration { service: m.service }),
            ..c2
        }
    } else {
        c2
    }
}

/// State after a successful `request_migration`: the author's approval
/// is recorded; when the approvals reach the threshold, the migration
/// starts: its state becomes pending and the runtime is asked to
/// migrate. A fast-forward migration completes at once; a failure to
/// start is recorded softly, with no rollback.
pub open spec fn request_migration_post(c: CtxView, m: MigrationRequestView) -> CtxView {
    let requests2 = c.schema.migration_requests.insert(
        m,
        voters_of(c.schema.migration_requests, m).insert(spec_author(c)),
    );
    let base = CtxView { schema: SchemaView { migration_requests: requests2, ..c.schema }, ..c };
    if !spec_approved(c, requests2, m) {
        base
    } else {
        let inst = c.core.instance_by_name(m.service);
        let started = CtxView {
            schema: SchemaView {
                migration_requests: requests2,
                migration_states: c.schema.migration_states.insert(
                    m,
                    MigrationState {
                        phase: AsyncEventState::Pending,
                        version: inst.data_version,
                        reference_hash: None,
                    },
                ),
                pending_migrations: c.schema.pending_migrations.insert(m),
                migrations_to_flush: c.schema.migrations_to_flush.remove(m),
                ..c.schema
            },
            actions: c.actions.push(ActionView::InitiateMigration { request: m }),
            ..c
        };
        match spec_initiate_outcome(c.env, m.new_artifact) {
            Err(code) => fail_migration_post(
                started,
                m,
                EventError::MigrationFailed { code },
                false,
            ),
            Ok(MigrationType::FastForward) => CtxView {
                schema: SchemaView {
                    migration_states: started.schema.migration_states.insert(
                        m,
                        MigrationState {
                            phase: AsyncEventState::Succeed,
                            version: m.new_artifact.version,
                            reference_hash: None,
                        },
                    ),
                    pending_migrations: started.schema.pending_migrations.remove(m),
                    ..started.schema
                },
                ..started
            },
            Ok(MigrationType::Async) => started,
        }
    }
}

/// State after one state-hash report: a hash that disagrees with the
/// recorded one fails the migration with a rollback; an agreeing hash
/// is recorded with the author's confirmation, and once the
/// confirmations reach the threshold the migration is scheduled for a
/// flush and committed to the runtime.
pub open spec fn confirm_migration_post(
    c: CtxView,
    m: MigrationRequestView,
    state_hash: u64,
    author: u64,
) -> CtxView {
    let st = c.schema.migration_states[m];
    if st.reference_hash matches Some(h0) && h0 != state_hash {
        fail_migration_post(c, m, EventError::StateHashDivergence, true)
    } else {
        let st2 = MigrationState {
            phase: st.phase,
            version: st.version,
            reference_hash: Some(state_hash),
        };
        let confirmations2 = c.schema.migration_confirmations.insert(
            m,
            voters_of(c.schema.migration_confirmations, m).insert(author),
        );
        if spec_approved(c, confirmations2, m) {
            CtxView {
                schema: SchemaView {
                    migration_states: c.schema.migration_states.insert(
                        m,
                        MigrationState {
                            phase: AsyncEventState::Succeed,
                            version: m.new_artifact.version,
                            reference_hash: Some(state_hash),
                        },
                    ),
                    migration_confirmations: confirmations2,
                    pending_migrations: c.schema.pending_migrations.remove(m),
                    migrations_to_flush: c.schema.migrations_to_flush.insert(m),
                    ..c.schema
                },
                actions: c.actions.push(
                    ActionView::CommitMigration { service: m.service, state_hash },
                ),
                ..c
            }
        } else {
            CtxView {
                schema: SchemaView {
                    migration_states: c.schema.migration_states.insert(m, st2),
                    migration_confirmations: confirmations2,
                    ..c.schema
                },
                ..c
            }
        }
    }
}

/// Outcome of `report_migration_result`. A report on a migration that
/// already failed is accepted silently.
pub open spec fn report_migration_outcome(c: CtxView, m: MigrationRequestView) -> Result<
    (),
    SupervisorError,
> {
    match spec_get_validator(c) {
        Err(e) => Err(e),
        Ok(_) => if !c.schema.migration_states.contains_key(m) {
            Err(SupervisorError::MigrationRequestNotRegistered)
        } else if c.schema.migration_states[m].phase.spec_is_failed() {
            Ok(())
        } else if m.deadline_height < c.height {
            Err(SupervisorError::DeadlineExceeded)
        } else {
            Ok(())
        },
    }
}

/// The report concerns a migration that already failed, so it is
/// dropped without touching any state.
pub open spec fn report_migration_is_silent(c: CtxView, m: MigrationRequestView) -> bool {
    c.schema.migration_states.contains_key(m)
        && c.schema.migration_states[m].phase.spec_is_failed()
}

/// State after a successful `report_migration_result`.
pub open spec fn report_migration_post(c: CtxView, res: MigrationResultView) -> CtxView {
    if report_migration_is_silent(c, res.request) {
        c
    } else {
        match res.status {
            Ok(state_hash) => confirm_migration_post(c, res.request, state_hash, spec_author(c)),
            Err(code) => fail_migration_post(
                c,
                res.request,
                EventError::MigrationFailed { code },
                true,
            ),
        }
    }
}

/// Returns the information about a service instance by its identifier.
pub fn get_instance(ctx: &ExecutionContext, instance_id: u32) -> (r: Result<
    InstanceState,
    SupervisorError,
>)
    requires
        ctx.wf(),
    ensures
        match r {
            Ok(inst) => ctx@.core.has_instance_with_id(instance_id) && inst@
                == ctx@.core.instance_by_id(instance_id),
            Err(e) => !ctx@.core.has_instance_with_id(instance_id) && e
                == SupervisorError::MalformedConfigPropose,
        },
{
    match ctx.core.find_instance_by_id(instance_id) {
        Some(i) => {
            proof {
                assert(ctx@.core.instances[i as int] == ctx.core.instances@[i as int]@);
            }
            Ok(ctx.core.instances[i].dup())
        },
        None => Err(SupervisorError::MalformedConfigPropose),
    }
}

/// Returns the information about a service instance by its name.
pub fn get_instance_by_name(ctx: &ExecutionContext, service: &str) -> (r: Result<
    InstanceState,
    SupervisorError,
>)
    requires
        ctx.wf(),
    ensures
        match r {
            Ok(inst) => ctx@.core.has_instance_with_name(service@) && inst@
                == ctx@.core.instance_by_name(service@),
            Err(e) => !ctx@.core.has_instance_with_name(service@) && e
                == SupervisorError::MalformedConfigPropose,
        },
{
    match ctx.core.find_instance_by_name(service) {
        Some(i) => {
            proof {
                assert(ctx@.core.instances[i as int] == ctx.core.instances@[i as int]@);
            }
            Ok(ctx.core.instances[i].dup())
        },
        None => Err(SupervisorError::MalformedConfigPropose),
    }
}

/// The supervisor service.
pub struct Supervisor;

impl Supervisor {
    /// Marks a migration as failed, discarding the further migration
    /// steps; rolls the runtime's half-done work back when asked to.
    fn fail_migration(
        ctx: &mut ExecutionContext,
        request: &MigrationRequest,
        error: EventError,
        initiate_rollback: bool,
    )
        requires
            old(ctx).wf(),
            old(ctx)@.schema.migration_states.contains_key(request@),
        ensures
            final(ctx).wf(),
            final(ctx)@ == fail_migration_post(old(ctx)@, request@, error, initiate_rollback),
    {
        let state = match ctx.schema.migration_states.get(request) {
            Some(state) => *state,
            None => vstd::pervasive::unreached(),
        };
        let height = ctx.height;
        ctx.schema.migration_states.insert(
            request.dup(),
            MigrationState {
                phase: AsyncEventState::Failed { height, error },
                version: state.version,
                reference_hash: state.reference_hash,
            },
        );
        ctx.schema.pending_migrations.remove(request);
        ctx.schema.migrations_to_flush.remove(request);
        if initiate_rollback {
            let ghost a0 = actions_view(ctx.actions@);
            ctx.actions.push(Action::RollbackMigration { service: request.service.clone() });
            proof {
                assert(actions_view(ctx.actions@) =~= a0.push(
                    ActionView::RollbackMigration { service: request@.service },
                ));
            }
        }
    }

    /// Records a state-hash report by `author`: a disagreeing hash
    /// fails the migration with a rollback; once agreeing reports meet
    /// the threshold, the migration is scheduled for a flush and
    /// committed to the runtime.
    fn confirm_migration(
        ctx: &mut ExecutionContext,
        request: &MigrationRequest,
        state_hash: u64,
        author: u64,
    )
        requires
            old(ctx).wf(),
            old(ctx)@.schema.migration_states.contains_key(request@),
        ensures
            final(ctx).wf(),
            final(ctx)@ == confirm_migration_post(old(ctx)@, request@, state_hash, author),
    {
        let state = match ctx.schema.migration_states.get(request) {
            Some(state) => *state,
            None => vstd::pervasive::unreached(),
        };

        // The reported hash must agree with the recorded one.
        if let Some(recorded) = state.reference_hash {
            if recorded != state_hash {
                Self::fail_migration(ctx, request, EventError::StateHashDivergence, true);
                return ;
            }
        }
        ctx.schema.migration_states.insert(
            request.dup(),
            MigrationState {
                phase: state.phase,
                version: state.version,
                reference_hash: Some(state_hash),
            },
        );
        ctx.schema.migration_confirmations.confirm(request, author);
        let n = ctx.core.consensus.validator_keys.len();
        let q = ctx.mode.quorum(n);
        if ctx.schema.migration_confirmations.has_quorum(
            request,
            &ctx.core.consensus.validator_keys,
            q,
        ) {
            // Enough confirmations: schedule the migration for a flush
            // on the next block and commit it to the runtime.
            ctx.schema.migration_states.insert(
                request.dup(),
                MigrationState {
                    phase: AsyncEventState::Succeed,
                    version: request.new_artifact.version,
                    reference_hash: Some(state_hash),
                },
            );
            ctx.schema.pending_migrations.remove(request);
            ctx.schema.migrations_to_flush.insert(request.dup());
            let ghost a0 = actions_view(ctx.actions@);
            ctx.actions.push(
                Action::CommitMigration { service: request.service.clone(), state_hash },
            );
            proof {
                assert(actions_view(ctx.actions@) =~= a0.push(
                    ActionView::CommitMigration { service: request@.service, state_hash },
                ));
                assert(ctx.schema.migration_states@ =~= old(
                    ctx,
                ).schema.migration_states@.insert(
                    request@,
                    MigrationState {
                        phase: AsyncEventState::Succeed,
                        version: request@.new_artifact.version,
                        reference_hash: Some(state_hash),
                    },
                ));
            }
        }
    }

    /// Marks a deployment as failed, discarding the further deployment
    /// steps: one node's failure means failure for the whole network.
    fn fail_deploy(ctx: &mut ExecutionContext, request: &DeployRequest, code: u64)
        requires
            old(ctx).wf(),
        ensures
            final(ctx).wf(),
            final(ctx)@ == fail_deploy_post(old(ctx)@, request@, code),
    {
        let height = ctx.height;
        ctx.schema.deploy_states.insert(
            request.dup(),
            AsyncEventState::Failed { height, error: EventError::RuntimeFault { code } },
        );
        ctx.schema.pending_deployments.remove(&request.artifact);
    }

    /// Records a success report by `author` and, once the reports meet
    /// the threshold, completes the deploy and registers the artifact
    /// in the dispatcher.
    fn confirm_deploy(ctx: &mut ExecutionContext, request: &DeployRequest, author: u64)
        requires
            old(ctx).wf(),
        ensures
            final(ctx).wf(),
            final(ctx)@ == confirm_deploy_post(old(ctx)@, request@, author),
    {
        let ghost c0 = ctx@;
        ctx.schema.deploy_confirmations.confirm(request, author);
        let n = ctx.core.consensus.validator_keys.len();
        let q = ctx.mode.quorum(n);
        if ctx.schema.deploy_confirmations.has_quorum(
            request,
            &ctx.core.consensus.validator_keys,
            q,
        ) {
            ctx.schema.deploy_states.insert(request.dup(), AsyncEventState::Succeed);
            ctx.schema.pending_deployments.remove(&request.artifact);
            ctx.core.artifacts.insert(request.artifact.dup());
            let ghost a0 = actions_view(ctx.actions@);
            ctx.actions.push(Action::RegisterArtifact { artifact: request.artifact.dup() });
            proof {
                assert(actions_view(ctx.actions@) =~= a0.push(
                    ActionView::RegisterArtifact { artifact: request@.artifact },
                ));
            }
        }
    }
}

/// Supervisor service transactions.
pub trait SupervisorInterface {
    /// Requests an artifact deploy.
    ///
    /// A validator initiates the request; depending on the mode,
    /// approval may need the same request from a majority of the other
    /// validators. Once approved, the supervisor asks the local runtime
    /// to deploy the artifact, and the runtime later reports through
    /// `report_deploy_result`.
    fn request_artifact_deploy(
        &self,
        ctx: &mut ExecutionContext,
        deploy: DeployRequest,
    ) -> (r: Result<(), SupervisorError>)
        requires
            old(ctx).wf(),
        ensures
            final(ctx).wf(),
            r == request_deploy_outcome(old(ctx)@, deploy@),
            r is Ok ==> final(ctx)@ == request_deploy_post(old(ctx)@, deploy@),
            r is Err ==> final(ctx)@ == old(ctx)@,
    ;

    /// Reports that the validator finished its local deployment.
    ///
    /// The artifact is registered in the dispatcher once the successful
    /// reports meet the approval threshold; a single failure report
    /// fails the whole deploy.
    fn report_deploy_result(
        &self,
        ctx: &mut ExecutionContext,
        deploy_result: DeployResult,
    ) -> (r: Result<(), SupervisorError>)
        requires
            old(ctx).wf(),
        ensures
            final(ctx).wf(),
            r == report_deploy_outcome(old(ctx)@, deploy_result@.request),
            r is Ok ==> final(ctx)@ == report_deploy_post(old(ctx)@, deploy_result@),
            r is Err ==> final(ctx)@ == old(ctx)@,
    ;

    /// Proposes a configuration change.
    ///
    /// One of the validators sends the proposition to change the
    /// current configuration; the other validators vote for it through
    /// `confirm_config_change`. Only one proposal at a time is
    /// possible.
    fn propose_config_change(
        &self,
        ctx: &mut ExecutionContext,
        propose: ConfigPropose,
    ) -> (r: Result<(), SupervisorError>)
        requires
            old(ctx).wf(),
            old(ctx).height < u64::MAX,
            old(ctx).schema.configuration_number < u64::MAX,
        ensures
            final(ctx).wf(),
            r == propose_outcome(old(ctx)@, propose@),
            r is Ok ==> final(ctx)@ == propose_post(old(ctx)@, propose@),
            r is Err ==> final(ctx)@ == old(ctx)@,
    ;

    /// Confirms a configuration change.
    ///
    /// Validators vote for the pending proposal by its digest. The vote
    /// of the proposal's author is taken into account automatically.
    fn confirm_config_change(&self, ctx: &mut ExecutionContext, vote: ConfigVote) -> (r: Result<
        (),
        SupervisorError,
    >)
        requires
            old(ctx).wf(),
        ensures
            final(ctx).wf(),
            r == confirm_outcome(old(ctx)@, vote),
            r is Ok ==> final(ctx)@ == confirm_post(old(ctx)@, vote),
            r is Err ==> final(ctx)@ == old(ctx)@,
    ;

    /// Requests a data migration.
    ///
    /// A validator initiates the request; depending on the mode,
    /// approval may need the same request from a majority of the other
    /// validators. Once approved, the runtime starts the migration and
    /// later reports through `report_migration_result`.
    fn request_migration(
        &self,
        ctx: &mut ExecutionContext,
        request: MigrationRequest,
    ) -> (r: Result<(), SupervisorError>)
        requires
            old(ctx).wf(),
        ensures
            final(ctx).wf(),
            r == request_migration_outcome(old(ctx)@, request@),
            r is Ok ==> final(ctx)@ == request_migration_post(old(ctx)@, request@),
            r is Err ==> final(ctx)@ == old(ctx)@,
    ;

    /// Reports that the validator finished its local migration.
    ///
    /// The migration is committed once agreeing state-hash reports meet
    /// the approval threshold; a failure report or a hash disagreement
    /// fails it and rolls it back.
    fn report_migration_result(
        &self,
        ctx: &mut ExecutionContext,
        result: MigrationResult,
    ) -> (r: Result<(), SupervisorError>)
        requires
            old(ctx).wf(),
        ensures
            final(ctx).wf(),
            r == report_migration_outcome(old(ctx)@, result@.request),
            r is Ok ==> final(ctx)@ == report_migration_post(old(ctx)@, result@),
            r is Err ==> final(ctx)@ == old(ctx)@,
    ;
}

impl SupervisorInterface for Supervisor {
    fn request_artifact_deploy(
        &self,
        ctx: &mut ExecutionContext,
        deploy: DeployRequest,
    ) -> (r: Result<(), SupervisorError>) {
        let author = match crate::state::get_validator(ctx) {
            Ok(a) => a,
            Err(e) => {
                return Err(e);
            },
        };
        if !deploy.artifact.validate() {
            return Err(SupervisorError::InvalidArtifactId);
        }

        // The deadline must not lie in the past.
        if deploy.deadline_height < ctx.height {
            return Err(SupervisorError::ActualFromIsPast);
        }

        // The artifact must not be deployed yet.
        if ctx.core.artifacts.contains(&deploy.artifact) {
            return Err(SupervisorError::AlreadyDeployed);
        }

        // If the deployment is already registered, the request can only
        // be a fresh confirmation.
        if ctx.schema.pending_deployments.contains_key(&deploy.artifact) {
            if ctx.schema.deploy_requests.confirmed_by(&deploy, author) {
                return Err(SupervisorError::DeployRequestAlreadyRegistered);
            }
            ctx.schema.deploy_requests.confirm(&deploy, author);
            return Ok(());
        }
        ctx.schema.deploy_requests.confirm(&deploy, author);
        let n = ctx.core.consensus.validator_keys.len();
        let q = ctx.mode.quorum(n);
        if ctx.schema.deploy_requests.has_quorum(&deploy, &ctx.core.consensus.validator_keys, q) {
            // The request is approved: record it as pending and signal
            // the local runtime to start deploying.
            ctx.schema.deploy_states.insert(deploy.dup(), AsyncEventState::Pending);
            ctx.schema.pending_deployments.insert(deploy.artifact.dup(), deploy.dup());
            let ghost a0 = actions_view(ctx.actions@);
            let ghost dv = deploy@;
            ctx.actions.push(Action::StartDeploy { request: deploy });
            proof {
                assert(actions_view(ctx.actions@) =~= a0.push(
                    ActionView::StartDeploy { request: dv },
                ));
            }
        }
        Ok(())
    }

    fn report_deploy_result(
        &self,
        ctx: &mut ExecutionContext,
        deploy_result: DeployResult,
    ) -> (r: Result<(), SupervisorError>) {
        let author = match crate::state::get_validator(ctx) {
            Ok(a) => a,
            Err(e) => {
                return Err(e);
            },
        };
        let request = &deploy_result.request;

        // A deploy that already failed accepts reports silently.
        let already_failed = match ctx.schema.deploy_states.get(request) {
            Some(state) => state.is_failed(),
            None => false,
        };
        if already_failed {
            return Ok(());
        }

        // The report must match the registered pending deployment.
        let registered = match ctx.schema.pending_deployments.get(&request.artifact) {
            Some(pending) => pending.key_eq(request),
            None => false,
        };
        if !registered {
            return Err(SupervisorError::DeployRequestNotRegistered);
        }

        // The deadline must not have been reached.
        if request.deadline_height < ctx.height {
            return Err(SupervisorError::DeadlineExceeded);
        }
        match deploy_result.result {
            Ok(_) => Self::confirm_deploy(ctx, request, author),
            Err(code) => Self::fail_deploy(ctx, request, code),
        }
        Ok(())
    }

    fn propose_config_change(
        &self,
        ctx: &mut ExecutionContext,
        propose: ConfigPropose,
    ) -> (r: Result<(), SupervisorError>) {
        let author = match crate::state::get_validator(ctx) {
            Ok(a) => a,
            Err(e) => {
                return Err(e);
            },
        };
        let current_height = ctx.height;

        // The effective height must lie in the future.
        if propose.actual_from != 0 && current_height >= propose.actual_from {
            return Err(SupervisorError::ActualFromIsPast);
        }

        // A pending proposal that is still actual blocks a new one; an
        // outdated leftover is evicted by the overwrite below.
        match &ctx.schema.pending_proposal {
            Some(entry) => {
                if current_height < entry.config_propose.actual_from {
                    return Err(SupervisorError::ConfigProposeExists);
                }
            },
            None => {},
        }

        // Verify the changes in the proposal.
        match verify_config_changes(&ctx.core, &ctx.env, &propose.changes) {
            Err(e) => {
                return Err(e);
            },
            Ok(_) => {},
        }

        // After all the checks, the configuration number must be the
        // expected one.
        if propose.configuration_number != ctx.schema.configuration_number {
            return Err(SupervisorError::IncorrectConfigurationNumber);
        }

        let adjusted = ConfigPropose {
            actual_from: if propose.actual_from == 0 {
                current_height + 1
            } else {
                propose.actual_from
            },
            configuration_number: propose.configuration_number,
            changes: propose.changes,
        };
        let hash = object_hash(&adjusted);
        ctx.schema.configuration_number = ctx.schema.configuration_number + 1;
        ctx.schema.config_confirms.confirm(&hash, author);
        ctx.schema.pending_proposal = Some(
            ConfigProposalWithHash { config_propose: adjusted, propose_hash: hash },
        );
        Ok(())
    }

    fn confirm_config_change(&self, ctx: &mut ExecutionContext, vote: ConfigVote) -> (r: Result<
        (),
        SupervisorError,
    >) {
        let author = match crate::state::get_validator(ctx) {
            Ok(a) => a,
            Err(e) => {
                return Err(e);
            },
        };
        let (entry_hash, entry_actual_from) = match &ctx.schema.pending_proposal {
            Some(entry) => (entry.propose_hash, entry.config_propose.actual_from),
            None => {
                return Err(SupervisorError::ConfigProposeNotRegistered);
            },
        };

        // The vote must reference the registered proposal.
        if entry_hash != vote.propose_hash {
            return Err(SupervisorError::ConfigProposeNotRegistered);
        }

        // Voting is impossible once the effective height is reached.
        if entry_actual_from <= ctx.height {
            return Err(SupervisorError::DeadlineExceeded);
        }

        // The author must not have voted yet; the proposer's implicit
        // vote blocks a second explicit one.
        if ctx.schema.config_confirms.confirmed_by(&entry_hash, author) {
            return Err(SupervisorError::AttemptToVoteTwice);
        }

        ctx.schema.config_confirms.confirm(&vote.propose_hash, author);
        Ok(())
    }

    fn request_migration(
        &self,
        ctx: &mut ExecutionContext,
        request: MigrationRequest,
    ) -> (r: Result<(), SupervisorError>) {
        let author = match crate::state::get_validator(ctx) {
            Ok(a) => a,
            Err(e) => {
                return Err(e);
            },
        };

        // The target instance must exist.
        let idx = match ctx.core.find_instance_by_name(request.service.as_str()) {
            Some(i) => i,
            None => {
                return Err(SupervisorError::MalformedConfigPropose);
            },
        };

        // The deadline must not lie in the past.
        if request.deadline_height < ctx.height {
            return Err(SupervisorError::ActualFromIsPast);
        }
        proof {
            assert(ctx@.core.instances[idx as int] == ctx.core.instances@[idx as int]@);
        }
        let data_version = ctx.core.instances[idx].data_version;
        ctx.schema.migration_requests.confirm(&request, author);
        let n = ctx.core.consensus.validator_keys.len();
        let q = ctx.mode.quorum(n);
        if ctx.schema.migration_requests.has_quorum(
            &request,
            &ctx.core.consensus.validator_keys,
            q,
        ) {
            // The request is approved: record its initial state and ask
            // the runtime to start the migration.
            ctx.schema.migration_states.insert(
                request.dup(),
                MigrationState {
                    phase: AsyncEventState::Pending,
                    version: data_version,
                    reference_hash: None,
                },
            );
            ctx.schema.pending_migrations.insert(request.dup());
            ctx.schema.migrations_to_flush.remove(&request);
            let ghost a0 = actions_view(ctx.actions@);
            ctx.actions.push(Action::InitiateMigration { request: request.dup() });
            proof {
                assert(actions_view(ctx.actions@) =~= a0.push(
                    ActionView::InitiateMigration { request: request@ },
                ));
            }
            match ctx.env.initiate_outcome(&request.new_artifact) {
                Err(code) => {
                    // The migration failed before it started: a soft
                    // failure, with no rollback.
                    Self::fail_migration(
                        ctx,
                        &request,
                        EventError::MigrationFailed { code },
                        false,
                    );
                },
                Ok(MigrationType::FastForward) => {
                    // No data transform is needed: complete at once. No
                    // agreement is required; a replica that computes a
                    // different outcome diverges on the state hash and
                    // leaves consensus naturally.
                    ctx.schema.migration_states.insert(
                        request.dup(),
                        MigrationState {
                            phase: AsyncEventState::Succeed,
                            version: request.new_artifact.version,
                            reference_hash: None,
                        },
                    );
                    ctx.schema.pending_migrations.remove(&request);
                },
                Ok(MigrationType::Async) => {},
            }
        }
        Ok(())
    }

    fn report_migration_result(
        &self,
        ctx: &mut ExecutionContext,
        result: MigrationResult,
    ) -> (r: Result<(), SupervisorError>) {
        let author = match crate::state::get_validator(ctx) {
            Ok(a) => a,
            Err(e) => {
                return Err(e);
            },
        };
        let request = &result.request;

        // The migration must be registered.
        let state = match ctx.schema.migration_states.get(request) {
            Some(state) => *state,
            None => {
                return Err(SupervisorError::MigrationRequestNotRegistered);
            },
        };

        // A migration that already failed accepts reports silently.
        if state.phase.is_failed() {
            return Ok(());
        }

        // The deadline must not have been reached.
        if request.deadline_height < ctx.height {
            return Err(SupervisorError::DeadlineExceeded);
        }
        match result.status {
            Ok(state_hash) => Self::confirm_migration(ctx, request, state_hash, author),
            Err(code) => Self::fail_migration(
                ctx,
                request,
                EventError::MigrationFailed { code },
                true,
            ),
        }
        Ok(())
    }
}

} // verus!
