//! Laws of the supervisor: properties that hold of every state the
//! transactions and the epoch hook can produce.

use vstd::prelude::*;

use crate::confirms::voters_of;
use crate::hook::{spec_apply_changes, spec_expire_deploys, spec_expire_migrations,
    spec_flush_fold, spec_flush_one, spec_flush_rel, spec_mature};
use crate::state::{spec_get_validator, CtxView};
use crate::transactions::{confirm_deploy_post, confirm_migration_post, confirm_outcome,
    confirm_post, fail_deploy_post, fail_migration_post, propose_outcome, propose_post,
    report_deploy_is_silent, report_deploy_outcome, report_deploy_post, report_migration_is_silent,
    report_migration_outcome, report_migration_post, request_deploy_outcome, request_deploy_post,
    request_migration_outcome, request_migration_post, spec_author};
use crate::types::{ActionView, AsyncEventState, ConfigProposeView, ConfigVote, DeployRequestView,
    DeployResultView, EventError, MigrationRequestView, MigrationResultView, MigrationType,
    SupervisorError};

verus! {

/// The deploy-index invariant: every entry of the pending-deployment
/// index is keyed by its request's artifact, its lifecycle is pending,
/// and its artifact is not yet in the dispatcher.
pub open spec fn deploy_index_inv(c: CtxView) -> bool {
    forall|a: crate::types::ArtifactIdView|
        #![auto]
        c.schema.pending_deployments.contains_key(a) ==> {
            let d = c.schema.pending_deployments[a];
            &&& d.artifact == a
            &&& c.schema.deploy_states.contains_key(d)
            &&& c.schema.deploy_states[d] == AsyncEventState::Pending
            &&& !c.core.artifacts.contains(a)
        }
}

/// The migration-lifecycle invariant: a succeeded migration stands at
/// its request's new version; every migration scheduled for a flush has
/// succeeded and is no longer pending; every pending migration is still
/// in its pending phase.
pub open spec fn migration_lifecycle_inv(c: CtxView) -> bool {
    &&& forall|m: MigrationRequestView|
        #![auto]
        c.schema.migration_states.contains_key(m) && c.schema.migration_states[m].phase
            == AsyncEventState::Succeed ==> c.schema.migration_states[m].version
            == m.new_artifact.version
    &&& forall|m: MigrationRequestView|
        #![auto]
        c.schema.migrations_to_flush.contains(m) ==> c.schema.migration_states.contains_key(m)
            && c.schema.migration_states[m].phase == AsyncEventState::Succeed
            && !c.schema.pending_migrations.contains(m)
    &&& forall|m: MigrationRequestView|
        #![auto]
        c.schema.pending_migrations.contains(m) ==> c.schema.migration_states.contains_key(m)
            && c.schema.migration_states[m].phase == AsyncEventState::Pending
}

/// Everything the supervisor maintains across blocks: the deploy index
/// and the migration lifecycle.
pub open spec fn state_inv(c: CtxView) -> bool {
    deploy_index_inv(c) && migration_lifecycle_inv(c)
}

/// `propose_config_change` preserves the state invariant.
#[verifier::spinoff_prover]
pub proof fn lemma_inv_propose(c: CtxView, p: ConfigProposeView)
    requires
        state_inv(c),
    ensures
        state_inv(propose_post(c, p)),
{
}

/// `confirm_config_change` preserves the state invariant.
pub proof fn lemma_inv_confirm(c: CtxView, vote: ConfigVote)
    requires
        state_inv(c),
    ensures
        state_inv(confirm_post(c, vote)),
{
}

/// `request_artifact_deploy` preserves the state invariant.
pub proof fn lemma_inv_request_deploy(c: CtxView, d: DeployRequestView)
    requires
        state_inv(c),
        request_deploy_outcome(c, d) is Ok,
    ensures
        state_inv(request_deploy_post(c, d)),
{
    let post = request_deploy_post(c, d);
    if !c.schema.pending_deployments.contains_key(d.artifact) {
        assert(!c.core.artifacts.contains(d.artifact));
    }
    assert(deploy_index_inv(post)) by {
        assert forall|a: crate::types::ArtifactIdView|
            #![auto]
            post.schema.pending_deployments.contains_key(a) implies {
            let e = post.schema.pending_deployments[a];
            &&& e.artifact == a
            &&& post.schema.deploy_states.contains_key(e)
            &&& post.schema.deploy_states[e] == AsyncEventState::Pending
            &&& !post.core.artifacts.contains(a)
        } by {
            if !(c.schema.pending_deployments.contains_key(a)
                && c.schema.pending_deployments[a] == post.schema.pending_deployments[a]) {
                assert(a == d.artifact);
            }
        }
    }
}

/// `report_deploy_result` preserves the state invariant.
pub proof fn lemma_inv_report_deploy(c: CtxView, res: DeployResultView)
    requires
        state_inv(c),
        report_deploy_outcome(c, res.request) is Ok,
    ensures
        state_inv(report_deploy_post(c, res)),
{
    let post = report_deploy_post(c, res);
    let d = res.request;
    assert(deploy_index_inv(post)) by {
        assert forall|a: crate::types::ArtifactIdView|
            #![auto]
            post.schema.pending_deployments.contains_key(a) implies {
            let e = post.schema.pending_deployments[a];
            &&& e.artifact == a
            &&& post.schema.deploy_states.contains_key(e)
            &&& post.schema.deploy_states[e] == AsyncEventState::Pending
            &&& !post.core.artifacts.contains(a)
        } by {
            if !report_deploy_is_silent(c, d) {
                let e = c.schema.pending_deployments[a];
                assert(e.artifact == a);
                if e == d {
                    assert(a == d.artifact);
                }
            }
        }
    }
}

/// `request_migration` preserves the state invariant.
pub proof fn lemma_inv_request_migration(c: CtxView, m: MigrationRequestView)
    requires
        state_inv(c),
        request_migration_outcome(c, m) is Ok,
    ensures
        state_inv(request_migration_post(c, m)),
{
    let post = request_migration_post(c, m);
    assert(migration_lifecycle_inv(post)) by {
        assert forall|m2: MigrationRequestView|
            #![auto]
            (post.schema.migrations_to_flush.contains(m2)
                ==> post.schema.migration_states.contains_key(m2)
                && post.schema.migration_states[m2].phase == AsyncEventState::Succeed
                && !post.schema.pending_migrations.contains(m2)) && (
            post.schema.pending_migrations.contains(m2)
                ==> post.schema.migration_states.contains_key(m2)
                && post.schema.migration_states[m2].phase == AsyncEventState::Pending) && (
            post.schema.migration_states.contains_key(m2)
                && post.schema.migration_states[m2].phase == AsyncEventState::Succeed
                ==> post.schema.migration_states[m2].version == m2.new_artifact.version) by {
            if m2 != m {
                assert(post.schema.migrations_to_flush.contains(m2)
                    == c.schema.migrations_to_flush.contains(m2));
            }
        }
    }
}

/// `report_migration_result` preserves the state invariant.
pub proof fn lemma_inv_report_migration(c: CtxView, res: MigrationResultView)
    requires
        state_inv(c),
        report_migration_outcome(c, res.request) is Ok,
    ensures
        state_inv(report_migration_post(c, res)),
{
    let post = report_migration_post(c, res);
    let m = res.request;
    assert(migration_lifecycle_inv(post)) by {
        assert forall|m2: MigrationRequestView|
            #![auto]
            (post.schema.migrations_to_flush.contains(m2)
                ==> post.schema.migration_states.contains_key(m2)
                && post.schema.migration_states[m2].phase == AsyncEventState::Succeed
                && !post.schema.pending_migrations.contains(m2)) && (
            post.schema.pending_migrations.contains(m2)
                ==> post.schema.migration_states.contains_key(m2)
                && post.schema.migration_states[m2].phase == AsyncEventState::Pending) && (
            post.schema.migration_states.contains_key(m2)
                && post.schema.migration_states[m2].phase == AsyncEventState::Succeed
                ==> post.schema.migration_states[m2].version == m2.new_artifact.version) by {
            if !report_migration_is_silent(c, m) && m2 == m {
                if c.schema.pending_migrations.contains(m) {
                    assert(c.schema.migration_states[m].phase == AsyncEventState::Pending);
                }
                if c.schema.migrations_to_flush.contains(m) {
                    assert(c.schema.migration_states[m].phase == AsyncEventState::Succeed);
                    assert(c.schema.migration_states[m].version == m.new_artifact.version);
                }
            }
        }
    }
}

/// Once a proposal is accepted, the configuration counter advances by
/// exactly one, and the accepted proposal carried the counter's old
/// value: accepted proposals carry strictly consecutive configuration
/// numbers.
#[verifier::spinoff_prover]
pub proof fn lemma_configuration_number_advances(c: CtxView, p: ConfigProposeView)
    requires
        c.schema.configuration_number < u64::MAX,
        propose_outcome(c, p) is Ok,
    ensures
        p.configuration_number == c.schema.configuration_number,
        propose_post(c, p).schema.configuration_number == c.schema.configuration_number + 1,
{
    assert(p.configuration_number == c.schema.configuration_number) by {
        match spec_get_validator(c) {
            Err(_) => {
                assert(false);
            },
            Ok(_) => {
                match crate::verify::spec_verify_changes(p.changes, c.core, c.env) {
                    Err(_) => {
                        assert(false);
                    },
                    Ok(_) => {},
                }
            },
        }
    }
}

/// Replaying a vote: when the author of a vote for the pending proposal
/// has already voted for it, the vote is rejected as a second attempt —
/// and, the vote failing, the recorded confirmations stay exactly as
/// they were.
pub proof fn lemma_replay_vote_rejected(c: CtxView, vote: ConfigVote)
    requires
        spec_get_validator(c) is Ok,
        c.schema.pending_proposal matches Some(entry) && entry.propose_hash == vote.propose_hash
            && c.height < entry.config_propose.actual_from,
    ensures
        confirm_outcome(c, vote) == Err::<(), SupervisorError>(SupervisorError::AttemptToVoteTwice)
            <==> voters_of(c.schema.config_confirms, vote.propose_hash).contains(
            spec_author(c),
        ),
{
    let entry = c.schema.pending_proposal->Some_0;
    match spec_get_validator(c) {
        Ok(author) => {
            assert(author == spec_author(c));
        },
        Err(_) => {},
    }
}

/// Hash agreement: when a validator reports a state hash that differs
/// from the hash already recorded for the same migration request, the
/// migration ends failed with a hash-divergence cause, leaves the
/// pending set, and a rollback is requested.
pub proof fn lemma_hash_divergence(c: CtxView, res: MigrationResultView, h1: u64, h2: u64)
    requires
        report_migration_outcome(c, res.request) is Ok,
        !report_migration_is_silent(c, res.request),
        c.schema.migration_states.contains_key(res.request),
        c.schema.migration_states[res.request].reference_hash == Some(h1),
        res.status == Ok::<u64, u64>(h2),
        h1 != h2,
    ensures
        report_migration_post(c, res).schema.migration_states[res.request].phase
            == (AsyncEventState::Failed {
            height: c.height,
            error: EventError::StateHashDivergence,
        }),
        !report_migration_post(c, res).schema.pending_migrations.contains(res.request),
        report_migration_post(c, res).actions == c.actions.push(
            ActionView::RollbackMigration { service: res.request.service },
        ),
{
}

/// Deadline safety for deploys: a report transaction never moves a
/// deploy lifecycle to success past its deadline height.
pub proof fn lemma_deploy_succeed_within_deadline(c: CtxView, res: DeployResultView)
    requires
        report_deploy_outcome(c, res.request) is Ok,
        report_deploy_post(c, res).schema.deploy_states.contains_key(res.request),
        report_deploy_post(c, res).schema.deploy_states[res.request]
            == AsyncEventState::Succeed,
        !(c.schema.deploy_states.contains_key(res.request) && c.schema.deploy_states[res.request]
            == AsyncEventState::Succeed),
    ensures
        c.height <= res.request.deadline_height,
{
}

/// Deadline safety for migrations: neither a migration request (via a
/// fast-forward) nor a report transaction moves a migration lifecycle
/// to success past the request's deadline height.
pub proof fn lemma_migration_succeed_within_deadline(
    c: CtxView,
    m: MigrationRequestView,
    res: MigrationResultView,
)
    requires
        res.request == m,
    ensures
        (request_migration_outcome(c, m) is Ok && request_migration_post(
            c,
            m,
        ).schema.migration_states.contains_key(m) && request_migration_post(
            c,
            m,
        ).schema.migration_states[m].phase == AsyncEventState::Succeed && !(
        c.schema.migration_states.contains_key(m) && c.schema.migration_states[m].phase
            == AsyncEventState::Succeed)) ==> c.height <= m.deadline_height,
        (report_migration_outcome(c, m) is Ok && report_migration_post(
            c,
            res,
        ).schema.migration_states.contains_key(m) && report_migration_post(
            c,
            res,
        ).schema.migration_states[m].phase == AsyncEventState::Succeed && !(
        c.schema.migration_states.contains_key(m) && c.schema.migration_states[m].phase
            == AsyncEventState::Succeed)) ==> c.height <= m.deadline_height,
{
}

/// A registration is fresh: when a success report completes a deploy,
/// the registered artifact was not in the dispatcher before the
/// transaction and is in it afterwards. Together with the outcome
/// conditions — a request for a registered artifact is rejected as
/// already deployed, and a report without a pending entry is rejected —
/// the dispatcher sees at most one registration per accepted request,
/// in the block in which the reports first meet the threshold.
pub proof fn lemma_registration_fresh(c: CtxView, res: DeployResultView)
    requires
        deploy_index_inv(c),
        report_deploy_outcome(c, res.request) is Ok,
        report_deploy_post(c, res).actions.len() > c.actions.len(),
        res.result is Ok,
    ensures
        report_deploy_post(c, res).actions == c.actions.push(
            ActionView::RegisterArtifact { artifact: res.request.artifact },
        ),
        !c.core.artifacts.contains(res.request.artifact),
        report_deploy_post(c, res).core.artifacts.contains(res.request.artifact),
        !report_deploy_post(c, res).schema.pending_deployments.contains_key(
            res.request.artifact,
        ),
{
    assert(!report_deploy_is_silent(c, res.request));
    assert(c.schema.pending_deployments.contains_key(res.request.artifact));
}

/// Flushing migrations touches only the instance records and the
/// recorded actions: the schema, the height and the rest of the world
/// stay as they were.
proof fn lemma_flush_fold_frame(c: CtxView, ms: Seq<MigrationRequestView>)
    ensures
        spec_flush_fold(c, ms).schema == c.schema,
        spec_flush_fold(c, ms).height == c.height,
        spec_flush_fold(c, ms).caller == c.caller,
        spec_flush_fold(c, ms).mode == c.mode,
        spec_flush_fold(c, ms).env == c.env,
        spec_flush_fold(c, ms).core.artifacts == c.core.artifacts,
        spec_flush_fold(c, ms).core.consensus == c.core.consensus,
    decreases ms.len(),
{
    if ms.len() > 0 {
        lemma_flush_fold_frame(spec_flush_one(c, ms[0]), ms.subrange(1, ms.len() as int));
    }
}

/// At most one proposal is ever pending — the schema holds an optional
/// proposal — and once the current height reaches its effective height
/// the epoch hook settles it: after the hook, a proposal is pending
/// only if it was pending before and its effective height is still in
/// the future.
pub proof fn lemma_pending_proposal_settled(pre: CtxView, mid: CtxView, post: CtxView)
    requires
        spec_flush_rel(spec_mature(pre), mid),
        post == spec_expire_migrations(spec_expire_deploys(mid)),
    ensures
        post.schema.pending_proposal matches Some(entry) ==> {
            &&& pre.schema.pending_proposal == Some(entry)
            &&& pre.height < entry.config_propose.actual_from
        },
{
    let c1 = spec_mature(pre);
    let ms = choose|ms: Seq<MigrationRequestView>|
        #![trigger spec_flush_fold(c1, ms)]
        {
            &&& (forall|i: int| 0 <= i < ms.len() ==> c1.schema.migrations_to_flush.contains(
                #[trigger] ms[i],
            ))
            &&& (forall|i: int, j: int| 0 <= i < j < ms.len() ==> ms[i] != ms[j])
            &&& (forall|m: MigrationRequestView| c1.schema.migrations_to_flush.contains(m)
                ==> #[trigger] ms.contains(m))
            &&& mid == (CtxView {
                schema: crate::state::SchemaView {
                    migrations_to_flush: Set::empty(),
                    ..spec_flush_fold(c1, ms).schema
                },
                ..spec_flush_fold(c1, ms)
            })
        };
    lemma_flush_fold_frame(c1, ms);
    assert(mid.schema.pending_proposal == c1.schema.pending_proposal);
    assert(post.schema.pending_proposal == mid.schema.pending_proposal);
}

/// The epoch hook never moves a lifecycle to success: a deploy or
/// migration that stands succeeded after the hook stood succeeded
/// before it. With the transaction-level deadline lemmas, no lifecycle
/// ever reaches success past its deadline height.
pub proof fn lemma_hook_no_new_success(pre: CtxView, mid: CtxView, post: CtxView)
    requires
        spec_flush_rel(spec_mature(pre), mid),
        post == spec_expire_migrations(spec_expire_deploys(mid)),
    ensures
        forall|d: DeployRequestView|
            #![auto]
            post.schema.deploy_states.contains_key(d) && post.schema.deploy_states[d]
                == AsyncEventState::Succeed ==> pre.schema.deploy_states.contains_key(d)
                && pre.schema.deploy_states[d] == AsyncEventState::Succeed,
        forall|m: MigrationRequestView|
            #![auto]
            post.schema.migration_states.contains_key(m) && post.schema.migration_states[m].phase
                == AsyncEventState::Succeed ==> pre.schema.migration_states.contains_key(m)
                && pre.schema.migration_states[m].phase == AsyncEventState::Succeed,
{
    let c1 = spec_mature(pre);
    let ms = choose|ms: Seq<MigrationRequestView>|
        #![trigger spec_flush_fold(c1, ms)]
        {
            &&& (forall|i: int| 0 <= i < ms.len() ==> c1.schema.migrations_to_flush.contains(
                #[trigger] ms[i],
            ))
            &&& (forall|i: int, j: int| 0 <= i < j < ms.len() ==> ms[i] != ms[j])
            &&& (forall|m: MigrationRequestView| c1.schema.migrations_to_flush.contains(m)
                ==> #[trigger] ms.contains(m))
            &&& mid == (CtxView {
                schema: crate::state::SchemaView {
                    migrations_to_flush: Set::empty(),
                    ..spec_flush_fold(c1, ms).schema
                },
                ..spec_flush_fold(c1, ms)
            })
        };
    lemma_flush_fold_frame(c1, ms);
    assert(mid.schema.deploy_states == pre.schema.deploy_states);
    assert(mid.schema.migration_states == pre.schema.migration_states);
    assert(mid.schema.pending_deployments == pre.schema.pending_deployments);
    assert(mid.schema.pending_migrations == pre.schema.pending_migrations);
}

/// A fresh supervisor — no pending deployments and no migrations —
/// satisfies the state invariant.
pub proof fn lemma_inv_initial(c: CtxView)
    requires
        c.schema.pending_deployments == Map::<
            crate::types::ArtifactIdView,
            DeployRequestView,
        >::empty(),
        c.schema.migration_states == Map::<
            MigrationRequestView,
            crate::types::MigrationState,
        >::empty(),
        c.schema.pending_migrations == Set::<MigrationRequestView>::empty(),
        c.schema.migrations_to_flush == Set::<MigrationRequestView>::empty(),
    ensures
        state_inv(c),
{
}

/// Applying config changes never adds an artifact to the dispatcher;
/// it can only unload artifacts.
proof fn lemma_apply_changes_shrink(
    core: crate::state::CoreStateView,
    env: crate::state::RuntimeEnvView,
    changes: Seq<crate::types::ConfigChangeView>,
    k: int,
)
    ensures
        match crate::hook::spec_apply_changes_from(core, env, changes, k) {
            Some(v) => forall|a: crate::types::ArtifactIdView| #[trigger]
                v.artifacts.contains(a) ==> core.artifacts.contains(a),
            None => true,
        },
    decreases changes.len() - k,
{
    if 0 <= k < changes.len() {
        match crate::hook::spec_apply_change(core, env, changes[k]) {
            None => {},
            Some(core2) => {
                lemma_apply_changes_shrink(core2, env, changes, k + 1);
            },
        }
    }
}

/// The epoch hook preserves the state invariant.
pub proof fn lemma_inv_hook(pre: CtxView, mid: CtxView, post: CtxView)
    requires
        state_inv(pre),
        spec_flush_rel(spec_mature(pre), mid),
        post == spec_expire_migrations(spec_expire_deploys(mid)),
    ensures
        state_inv(post),
{
    let c1 = spec_mature(pre);

    // Maturing a config proposal leaves the deploy and migration tables
    // alone and can only unload artifacts.
    assert(c1.schema.pending_deployments == pre.schema.pending_deployments);
    assert(c1.schema.deploy_states == pre.schema.deploy_states);
    assert(c1.schema.migration_states == pre.schema.migration_states);
    assert(c1.schema.pending_migrations == pre.schema.pending_migrations);
    assert(c1.schema.migrations_to_flush == pre.schema.migrations_to_flush);
    assert(forall|a: crate::types::ArtifactIdView| #[trigger]
        c1.core.artifacts.contains(a) ==> pre.core.artifacts.contains(a)) by {
        match pre.schema.pending_proposal {
            None => {},
            Some(entry) => {
                if pre.height >= entry.config_propose.actual_from {
                    lemma_apply_changes_shrink(
                        pre.core,
                        pre.env,
                        entry.config_propose.changes,
                        0,
                    );
                }
            },
        }
    }
    assert(state_inv(c1));

    // Flushing touches only instances and actions, and empties the
    // flush schedule.
    let ms = choose|ms: Seq<MigrationRequestView>|
        #![trigger spec_flush_fold(c1, ms)]
        {
            &&& (forall|i: int| 0 <= i < ms.len() ==> c1.schema.migrations_to_flush.contains(
                #[trigger] ms[i],
            ))
            &&& (forall|i: int, j: int| 0 <= i < j < ms.len() ==> ms[i] != ms[j])
            &&& (forall|m: MigrationRequestView| c1.schema.migrations_to_flush.contains(m)
                ==> #[trigger] ms.contains(m))
            &&& mid == (CtxView {
                schema: crate::state::SchemaView {
                    migrations_to_flush: Set::empty(),
                    ..spec_flush_fold(c1, ms).schema
                },
                ..spec_flush_fold(c1, ms)
            })
        };
    lemma_flush_fold_frame(c1, ms);
    assert(mid.schema.pending_deployments == c1.schema.pending_deployments);
    assert(mid.schema.deploy_states == c1.schema.deploy_states);
    assert(mid.schema.migration_states == c1.schema.migration_states);
    assert(mid.schema.pending_migrations == c1.schema.pending_migrations);
    assert(mid.core.artifacts == c1.core.artifacts);
    assert(mid.schema.migrations_to_flush == Set::<MigrationRequestView>::empty());
    assert(state_inv(mid));

    // Timing out deploys keeps exactly the unexpired pending entries,
    // whose lifecycles stay pending.
    let e1 = spec_expire_deploys(mid);
    assert(deploy_index_inv(e1)) by {
        assert forall|a: crate::types::ArtifactIdView|
            #![auto]
            e1.schema.pending_deployments.contains_key(a) implies {
            let e = e1.schema.pending_deployments[a];
            &&& e.artifact == a
            &&& e1.schema.deploy_states.contains_key(e)
            &&& e1.schema.deploy_states[e] == AsyncEventState::Pending
            &&& !e1.core.artifacts.contains(a)
        } by {
            let e = mid.schema.pending_deployments[a];
            assert(e.deadline_height >= mid.height);
            assert(!crate::hook::spec_expired_deploy(mid, e));
        }
    }
    assert(migration_lifecycle_inv(e1));

    // Timing out migrations keeps exactly the unexpired pending
    // entries, whose phases stay pending; nothing is scheduled for a
    // flush.
    assert(post.schema.migrations_to_flush == Set::<MigrationRequestView>::empty());
    assert(migration_lifecycle_inv(post)) by {
        assert forall|m: MigrationRequestView|
            #![auto]
            (post.schema.pending_migrations.contains(m)
                ==> post.schema.migration_states.contains_key(m)
                && post.schema.migration_states[m].phase == AsyncEventState::Pending) && (
            post.schema.migration_states.contains_key(m)
                && post.schema.migration_states[m].phase == AsyncEventState::Succeed
                ==> post.schema.migration_states[m].version == m.new_artifact.version) by {
            if post.schema.pending_migrations.contains(m) {
                assert(!crate::hook::spec_expired_migration(e1, m));
            }
        }
    }
    assert(deploy_index_inv(post));
}

} // verus!
