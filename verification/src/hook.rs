//! The epoch hook: deterministic per-block work run before any user
//! transaction of the block.
//!
//! The hook matures the pending config proposal, flushes agreed
//! migrations, and times out stale deploys and migrations.

use vstd::prelude::*;

use crate::confirms::voters_of;
use crate::state::{instances_view, CoreState, CoreStateView, CtxView, ExecutionContext,
    RuntimeEnv, RuntimeEnvView, SchemaView};
use crate::tables::TableKey;
use crate::transactions::spec_approved;
use crate::types::{actions_view, Action, ActionView, ArtifactId, AsyncEventState, ConfigChange,
    ConfigChangeView, ConfigPropose, EventError, InstanceState, InstanceStateView,
    InstanceStatus, MigrationRequest, MigrationRequestView, MigrationState};

verus! {

/// The largest instance identifier in use, zero when none is.
pub open spec fn spec_max_instance_id(s: Seq<InstanceStateView>) -> u32
    decreases s.len(),
{
    if s.len() == 0 {
        0
    } else {
        let rest = spec_max_instance_id(s.drop_last());
        if s.last().id > rest {
            s.last().id
        } else {
            rest
        }
    }
}

/// Every identifier in use is bounded by the maximum.
pub proof fn lemma_max_instance_id(s: Seq<InstanceStateView>, i: int)
    requires
        0 <= i < s.len(),
    ensures
        s[i].id <= spec_max_instance_id(s),
    decreases s.len(),
{
    if i < s.len() - 1 {
        lemma_max_instance_id(s.drop_last(), i);
    }
}

/// Effect of applying one config change to the core state, `None` when
/// the change cannot be applied.
pub open spec fn spec_apply_change(
    core: CoreStateView,
    env: RuntimeEnvView,
    c: ConfigChangeView,
) -> Option<CoreStateView> {
    match c {
        ConfigChangeView::Consensus { config } => if config.is_valid() && 2
            * config.validator_keys.len() <= usize::MAX {
            Some(CoreStateView { consensus: config, ..core })
        } else {
            None
        },
        ConfigChangeView::Service { instance_id, params } => if core.has_instance_with_id(
            instance_id,
        ) && !env.apply_rejects.contains(params) {
            let idx = choose|i: int|
                0 <= i < core.instances.len() && core.instances[i].id == instance_id;
            Some(
                CoreStateView {
                    instances: core.instances.update(
                        idx,
                        InstanceStateView { params: Some(params), ..core.instances[idx] },
                    ),
                    ..core
                },
            )
        } else {
            None
        },
        ConfigChangeView::StartService { artifact, name, config } => if core.artifacts.contains(
            artifact,
        ) && !core.has_instance_with_name(name) && spec_max_instance_id(core.instances)
            < u32::MAX {
            Some(
                CoreStateView {
                    instances: core.instances.push(
                        InstanceStateView {
                            id: (spec_max_instance_id(core.instances) + 1) as u32,
                            name,
                            artifact,
                            status: InstanceStatus::Active,
                            data_version: artifact.version,
                            params: Some(config),
                        },
                    ),
                    ..core
                },
            )
        } else {
            None
        },
        ConfigChangeView::StopService { instance_id } => spec_set_status(
            core,
            instance_id,
            InstanceStatus::Stopped,
            core.has_instance_with_id(instance_id) && core.instance_by_id(
                instance_id,
            ).status.can_be_stopped(),
        ),
        ConfigChangeView::FreezeService { instance_id } => spec_set_status(
            core,
            instance_id,
            InstanceStatus::Frozen,
            core.has_instance_with_id(instance_id) && core.instance_by_id(
                instance_id,
            ).status.can_be_frozen(),
        ),
        ConfigChangeView::ResumeService { instance_id, params } => if core.has_instance_with_id(
            instance_id,
        ) && core.instance_by_id(instance_id).status.can_be_resumed() {
            let idx = choose|i: int|
                0 <= i < core.instances.len() && core.instances[i].id == instance_id;
            Some(
                CoreStateView {
                    instances: core.instances.update(
                        idx,
                        InstanceStateView {
                            status: InstanceStatus::Active,
                            params: Some(params),
                            ..core.instances[idx]
                        },
                    ),
                    ..core
                },
            )
        } else {
            None
        },
        ConfigChangeView::UnloadArtifact { artifact_id } => if crate::verify::spec_unload_allowed(
            core,
            artifact_id,
        ) {
            Some(CoreStateView { artifacts: core.artifacts.remove(artifact_id), ..core })
        } else {
            None
        },
    }
}

/// The core with the status of instance `instance_id` replaced, when
/// the transition is allowed.
pub open spec fn spec_set_status(
    core: CoreStateView,
    instance_id: u32,
    status: InstanceStatus,
    allowed: bool,
) -> Option<CoreStateView> {
    if allowed {
        let idx = choose|i: int|
            0 <= i < core.instances.len() && core.instances[i].id == instance_id;
        Some(
            CoreStateView {
                instances: core.instances.update(
                    idx,
                    InstanceStateView { status, ..core.instances[idx] },
                ),
                ..core
            },
        )
    } else {
        None
    }
}

/// Effect of applying the changes from position `k` on, in order;
/// `None` as soon as one change cannot be applied.
pub open spec fn spec_apply_changes_from(
    core: CoreStateView,
    env: RuntimeEnvView,
    changes: Seq<ConfigChangeView>,
    k: int,
) -> Option<CoreStateView>
    decreases changes.len() - k,
{
    if k < 0 || k >= changes.len() {
        Some(core)
    } else {
        match spec_apply_change(core, env, changes[k]) {
            None => None,
            Some(core2) => spec_apply_changes_from(core2, env, changes, k + 1),
        }
    }
}

/// Effect of applying a whole change list, transactionally.
pub open spec fn spec_apply_changes(
    core: CoreStateView,
    env: RuntimeEnvView,
    changes: Seq<ConfigChangeView>,
) -> Option<CoreStateView> {
    spec_apply_changes_from(core, env, changes, 0)
}

/// Applies one change to the scratch core, reporting whether it could
/// be applied.
fn apply_change(core: &mut CoreState, env: &RuntimeEnv, change: &ConfigChange) -> (ok: bool)
    requires
        old(core).wf(),
    ensures
        final(core).wf(),
        match spec_apply_change(old(core)@, env@, change@) {
            Some(v) => ok && final(core)@ == v,
            None => !ok && final(core)@ == old(core)@,
        },
{
    match change {
        ConfigChange::Consensus(config) => {
            if !config.validate() {
                return false;
            }
            if config.validator_keys.len() > usize::MAX / 2 {
                return false;
            }
            core.consensus = config.dup();
            true
        },
        ConfigChange::Service(sc) => {
            let idx = match core.find_instance_by_id(sc.instance_id) {
                Some(i) => i,
                None => {
                    return false;
                },
            };
            if !env.apply_config_ok(&sc.params) {
                return false;
            }
            proof {
                assert(core@.instances[idx as int] == core.instances@[idx as int]@);
            }
            let mut inst = core.instances[idx].dup();
            inst.params = Some(sc.params.clone());
            core.replace_instance(idx, inst);
            true
        },
        ConfigChange::StartService(ss) => {
            if !core.artifacts.contains(&ss.artifact) {
                return false;
            }
            if core.find_instance_by_name(ss.name.as_str()).is_some() {
                return false;
            }
            let n = core.instances.len();
            let mut max_id: u32 = 0;
            let mut i: usize = 0;
            proof {
                assert(core@.instances.subrange(0, 0) =~= Seq::<InstanceStateView>::empty());
            }
            while i < n
                invariant
                    core.wf(),
                    n == core.instances@.len(),
                    i <= n,
                    max_id == spec_max_instance_id(core@.instances.subrange(0, i as int)),
                decreases n - i,
            {
                proof {
                    assert(core@.instances[i as int] == core.instances@[i as int]@);
                    let pre = core@.instances.subrange(0, i + 1);
                    assert(pre.drop_last() =~= core@.instances.subrange(0, i as int));
                    assert(pre.last() == core@.instances[i as int]);
                }
                if core.instances[i].id > max_id {
                    max_id = core.instances[i].id;
                }
                i += 1;
            }
            proof {
                assert(core@.instances.subrange(0, n as int) =~= core@.instances);
            }
            if max_id == u32::MAX {
                return false;
            }
            let inst = InstanceState {
                id: max_id + 1,
                name: ss.name.clone(),
                artifact: ss.artifact.dup(),
                status: InstanceStatus::Active,
                data_version: ss.artifact.version,
                params: Some(ss.config.clone()),
            };
            proof {
                assert forall|j: int| 0 <= j < core@.instances.len() implies core@.instances[j].id
                    != inst@.id && core@.instances[j].name != inst@.name by {
                    lemma_max_instance_id(core@.instances, j);
                }
            }
            core.push_instance(inst);
            true
        },
        ConfigChange::StopService(sc) => apply_status(
            core,
            sc.instance_id,
            InstanceStatus::Active,
            InstanceStatus::Stopped,
        ),
        ConfigChange::FreezeService(fc) => apply_status(
            core,
            fc.instance_id,
            InstanceStatus::Active,
            InstanceStatus::Frozen,
        ),
        ConfigChange::ResumeService(rc) => {
            let idx = match core.find_instance_by_id(rc.instance_id) {
                Some(i) => i,
                None => {
                    return false;
                },
            };
            proof {
                assert(core@.instances[idx as int] == core.instances@[idx as int]@);
            }
            if !(core.instances[idx].status == InstanceStatus::Frozen) {
                return false;
            }
            let mut inst = core.instances[idx].dup();
            inst.status = InstanceStatus::Active;
            inst.params = Some(rc.params.clone());
            core.replace_instance(idx, inst);
            true
        },
        ConfigChange::UnloadArtifact(uc) => {
            if !crate::verify::unload_allowed(core, &uc.artifact_id) {
                return false;
            }
            core.artifacts.remove(&uc.artifact_id);
            true
        },
    }
}

/// Applies a status transition whose only allowed source is `from`.
fn apply_status(
    core: &mut CoreState,
    instance_id: u32,
    from: InstanceStatus,
    to: InstanceStatus,
) -> (ok: bool)
    requires
        old(core).wf(),
        (from == InstanceStatus::Active && (to == InstanceStatus::Stopped || to
            == InstanceStatus::Frozen)),
    ensures
        final(core).wf(),
        match spec_set_status(
            old(core)@,
            instance_id,
            to,
            old(core)@.has_instance_with_id(instance_id) && old(core)@.instance_by_id(
                instance_id,
            ).status == from,
        ) {
            Some(v) => ok && final(core)@ == v,
            None => !ok && final(core)@ == old(core)@,
        },
{
    let idx = match core.find_instance_by_id(instance_id) {
        Some(i) => i,
        None => {
            return false;
        },
    };
    proof {
        assert(core@.instances[idx as int] == core.instances@[idx as int]@);
    }
    if !(core.instances[idx].status == from) {
        return false;
    }
    let mut inst = core.instances[idx].dup();
    inst.status = to;
    core.replace_instance(idx, inst);
    true
}

/// Applies a whole change list to the scratch core, stopping at the
/// first failure.
fn apply_changes(core: &mut CoreState, env: &RuntimeEnv, changes: &Vec<ConfigChange>) -> (ok:
    bool)
    requires
        old(core).wf(),
    ensures
        final(core).wf(),
        match spec_apply_changes(old(core)@, env@, crate::types::changes_view(changes@)) {
            Some(v) => ok && final(core)@ == v,
            None => !ok,
        },
{
    let ghost cv = crate::types::changes_view(changes@);
    let n = changes.len();
    let mut k: usize = 0;
    while k < n
        invariant
            core.wf(),
            n == changes@.len(),
            cv == crate::types::changes_view(changes@),
            cv.len() == n,
            forall|j: int| 0 <= j < n ==> cv[j] == changes@[j]@,
            k <= n,
            spec_apply_changes_from(core@, env@, cv, k as int) == spec_apply_changes(
                old(core)@,
                env@,
                cv,
            ),
        decreases n - k,
    {
        proof {
            assert(cv[k as int] == changes@[k as int]@);
        }
        if !apply_change(core, env, &changes[k]) {
            return false;
        }
        k += 1;
    }
    true
}

/// Effect of maturing the pending proposal at the current height: a
/// proposal whose effective height is reached is removed; if its votes
/// meet the threshold, its changes are applied in order, all of them or
/// none.
pub open spec fn spec_mature(c: CtxView) -> CtxView {
    match c.schema.pending_proposal {
        None => c,
        Some(entry) => if c.height < entry.config_propose.actual_from {
            c
        } else {
            let removed = CtxView {
                schema: SchemaView { pending_proposal: None, ..c.schema },
                ..c
            };
            if spec_approved(c, c.schema.config_confirms, entry.propose_hash) {
                match spec_apply_changes(c.core, c.env, entry.config_propose.changes) {
                    Some(core2) => CtxView { core: core2, ..removed },
                    None => removed,
                }
            } else {
                removed
            }
        },
    }
}

/// Matures the pending config proposal.
fn mature_config(ctx: &mut ExecutionContext)
    requires
        old(ctx).wf(),
    ensures
        final(ctx).wf(),
        final(ctx)@ == spec_mature(old(ctx)@),
{
    let (propose, hash) = match &ctx.schema.pending_proposal {
        Some(entry) => {
            if ctx.height < entry.config_propose.actual_from {
                return ;
            }
            (entry.config_propose.dup(), entry.propose_hash)
        },
        None => {
            return ;
        },
    };
    ctx.schema.pending_proposal = None;
    let n = ctx.core.consensus.validator_keys.len();
    let q = ctx.mode.quorum(n);
    if ctx.schema.config_confirms.has_quorum(&hash, &ctx.core.consensus.validator_keys, q) {
        // Apply the changes transactionally: work on a scratch copy and
        // commit it only when every change applied.
        let mut scratch = ctx.core.dup();
        if apply_changes(&mut scratch, &ctx.env, &propose.changes) {
            ctx.core = scratch;
        }
    }
}

/// Effect of flushing one agreed migration: the storage engine flush is
/// requested and the migrated instance reaches its new data version.
pub open spec fn spec_flush_one(c: CtxView, m: MigrationRequestView) -> CtxView {
    let c2 = if c.core.has_instance_with_name(m.service) {
        let idx = choose|i: int|
            0 <= i < c.core.instances.len() && c.core.instances[i].name == m.service;
        CtxView {
            core: CoreStateView {
                instances: c.core.instances.update(
                    idx,
                    InstanceStateView {
                        data_version: m.new_artifact.version,
                        ..c.core.instances[idx]
                    },
                ),
                ..c.core
            },
            ..c
        }
    } else {
        c
    };
    CtxView { actions: c2.actions.push(ActionView::FlushMigration { service: m.service }), ..c2 }
}

/// Effect of flushing the listed migrations, left to right.
pub open spec fn spec_flush_fold(c: CtxView, ms: Seq<MigrationRequestView>) -> CtxView
    decreases ms.len(),
{
    if ms.len() == 0 {
        c
    } else {
        spec_flush_fold(spec_flush_one(c, ms[0]), ms.subrange(1, ms.len() as int))
    }
}

/// Folding distributes over appending one element.
proof fn lemma_flush_fold_push(c: CtxView, ms: Seq<MigrationRequestView>, m: MigrationRequestView)
    ensures
        spec_flush_fold(c, ms.push(m)) == spec_flush_one(spec_flush_fold(c, ms), m),
    decreases ms.len(),
{
    let s = ms.push(m);
    if ms.len() == 0 {
        assert(s[0] == m);
        assert(s.subrange(1, s.len() as int) =~= Seq::<MigrationRequestView>::empty());
        assert(spec_flush_fold(c, ms) == c);
        assert(spec_flush_fold(
            spec_flush_one(c, s[0]),
            s.subrange(1, s.len() as int),
        ) == spec_flush_one(c, m));
    } else {
        assert(s[0] == ms[0]);
        assert(s.subrange(1, s.len() as int) =~= ms.subrange(1, ms.len() as int).push(m));
        lemma_flush_fold_push(spec_flush_one(c, ms[0]), ms.subrange(1, ms.len() as int), m);
        assert(spec_flush_fold(c, s) == spec_flush_fold(
            spec_flush_one(c, s[0]),
            s.subrange(1, s.len() as int),
        ));
        assert(spec_flush_fold(c, ms) == spec_flush_fold(
            spec_flush_one(c, ms[0]),
            ms.subrange(1, ms.len() as int),
        ));
    }
}

/// The flush step relates its pre- and post-state: some duplicate-free
/// enumeration of the flush set is folded over the state, and the flush
/// set ends empty.
pub open spec fn spec_flush_rel(pre: CtxView, post: CtxView) -> bool {
    exists|ms: Seq<MigrationRequestView>|
        #![trigger spec_flush_fold(pre, ms)]
        {
            &&& (forall|i: int| 0 <= i < ms.len() ==> pre.schema.migrations_to_flush.contains(
                #[trigger] ms[i],
            ))
            &&& (forall|i: int, j: int| 0 <= i < j < ms.len() ==> ms[i] != ms[j])
            &&& (forall|m: MigrationRequestView| pre.schema.migrations_to_flush.contains(m)
                ==> #[trigger] ms.contains(m))
            &&& post == (CtxView {
                schema: SchemaView {
                    migrations_to_flush: Set::empty(),
                    ..spec_flush_fold(pre, ms).schema
                },
                ..spec_flush_fold(pre, ms)
            })
        }
}

/// Flushes every agreed migration in the storage engine.
fn flush_migrations(ctx: &mut ExecutionContext)
    requires
        old(ctx).wf(),
    ensures
        final(ctx).wf(),
        spec_flush_rel(old(ctx)@, final(ctx)@),
{
    let ghost c0 = ctx@;
    let ms = ctx.schema.migrations_to_flush.elements();
    let ghost msv = ms@.map_values(|m: MigrationRequest| m@);
    let n = ms.len();
    proof {
        assert(msv.subrange(0, 0) =~= Seq::<MigrationRequestView>::empty());
    }
    let mut i: usize = 0;
    while i < n
        invariant
            ctx.wf(),
            n == ms@.len(),
            msv == ms@.map_values(|m: MigrationRequest| m@),
            msv.len() == n,
            forall|j: int| 0 <= j < n ==> msv[j] == ms@[j]@,
            i <= n,
            ctx@ == spec_flush_fold(c0, msv.subrange(0, i as int)),
        decreases n - i,
    {
        let ghost pre = ctx@;
        proof {
            assert(msv[i as int] == ms@[i as int]@);
        }
        match ctx.core.find_instance_by_name(ms[i].service.as_str()) {
            Some(idx) => {
                proof {
                    assert(ctx@.core.instances[idx as int] == ctx.core.instances@[idx as int]@);
                }
                let mut inst = ctx.core.instances[idx].dup();
                inst.data_version = ms[i].new_artifact.version;
                ctx.core.replace_instance(idx, inst);
            },
            None => {},
        }
        let ghost a0 = actions_view(ctx.actions@);
        ctx.actions.push(Action::FlushMigration { service: ms[i].service.clone() });
        proof {
            assert(actions_view(ctx.actions@) =~= a0.push(
                ActionView::FlushMigration { service: ms@[i as int]@.service },
            ));
            assert(ctx@ == spec_flush_one(pre, msv[i as int]));
            assert(msv.subrange(0, i + 1) =~= msv.subrange(0, i as int).push(msv[i as int]));
            lemma_flush_fold_push(c0, msv.subrange(0, i as int), msv[i as int]);
        }
        i += 1;
    }
    ctx.schema.migrations_to_flush = crate::tables::ListSet::new();
    proof {
        assert(msv.subrange(0, n as int) =~= msv);
        let folded = spec_flush_fold(c0, msv);
        assert forall|j: int|
            0 <= j < msv.len() implies c0.schema.migrations_to_flush.contains(
            #[trigger] msv[j],
        ) by {
            assert(msv[j] == ms@[j]@);
        }
        assert forall|m: MigrationRequestView|
            c0.schema.migrations_to_flush.contains(m) implies #[trigger] msv.contains(m) by {
            let j = choose|j: int| 0 <= j < ms@.len() && ms@[j]@ == m;
            assert(msv[j] == m);
        }
        assert(ctx@ == (CtxView {
            schema: SchemaView { migrations_to_flush: Set::empty(), ..folded.schema },
            ..folded
        }));
        assert(spec_flush_rel(c0, ctx@));
    }
}

/// A deploy request sits in the pending index with its deadline passed.
pub open spec fn spec_expired_deploy(c: CtxView, d: crate::types::DeployRequestView) -> bool {
    exists|a: crate::types::ArtifactIdView|
        #![auto]
        c.schema.pending_deployments.contains_key(a) && c.schema.pending_deployments[a] == d
            && d.deadline_height < c.height
}

/// Effect of timing out stale deploys: every pending request whose
/// deadline passed is marked failed and leaves the pending index.
pub open spec fn spec_expire_deploys(c: CtxView) -> CtxView {
    CtxView {
        schema: SchemaView {
            pending_deployments: Map::new(
                |a: crate::types::ArtifactIdView|
                    c.schema.pending_deployments.contains_key(a)
                        && c.schema.pending_deployments[a].deadline_height >= c.height,
                |a: crate::types::ArtifactIdView| c.schema.pending_deployments[a],
            ),
            deploy_states: Map::new(
                |d: crate::types::DeployRequestView|
                    c.schema.deploy_states.contains_key(d) || spec_expired_deploy(c, d),
                |d: crate::types::DeployRequestView|
                    if spec_expired_deploy(c, d) {
                        AsyncEventState::Failed {
                            height: c.height,
                            error: EventError::DeadlineExceeded,
                        }
                    } else {
                        c.schema.deploy_states[d]
                    },
            ),
            ..c.schema
        },
        ..c
    }
}

/// A migration sits in the pending set with its deadline passed.
pub open spec fn spec_expired_migration(c: CtxView, m: MigrationRequestView) -> bool {
    c.schema.pending_migrations.contains(m) && m.deadline_height < c.height
}

/// Effect of timing out stale migrations: every pending migration whose
/// deadline passed is marked failed and leaves the pending set.
pub open spec fn spec_expire_migrations(c: CtxView) -> CtxView {
    CtxView {
        schema: SchemaView {
            pending_migrations: Set::new(
                |m: MigrationRequestView|
                    c.schema.pending_migrations.contains(m) && m.deadline_height >= c.height,
            ),
            migration_states: Map::new(
                |m: MigrationRequestView| c.schema.migration_states.contains_key(m),
                |m: MigrationRequestView|
                    if spec_expired_migration(c, m) {
                        MigrationState {
                            phase: AsyncEventState::Failed {
                                height: c.height,
                                error: EventError::DeadlineExceeded,
                            },
                            version: c.schema.migration_states[m].version,
                            reference_hash: c.schema.migration_states[m].reference_hash,
                        }
                    } else {
                        c.schema.migration_states[m]
                    },
            ),
            ..c.schema
        },
        ..c
    }
}

/// The keys of `kv` up to `i` include one naming an expired pending
/// deploy equal to `d`.
pub open spec fn prefix_expired_deploy(
    c: CtxView,
    kv: Seq<crate::types::ArtifactIdView>,
    i: int,
    d: crate::types::DeployRequestView,
) -> bool {
    exists|j: int|
        #![auto]
        0 <= j < i && c.schema.pending_deployments.contains_key(kv[j])
            && c.schema.pending_deployments[kv[j]] == d && d.deadline_height < c.height
}

/// The keys of `kv` up to `i` include `a`, and its pending request has
/// expired.
pub open spec fn prefix_removed_deploy(
    c: CtxView,
    kv: Seq<crate::types::ArtifactIdView>,
    i: int,
    a: crate::types::ArtifactIdView,
) -> bool {
    exists|j: int|
        #![auto]
        0 <= j < i && kv[j] == a && c.schema.pending_deployments[a].deadline_height < c.height
}

/// Unfolds both prefix predicates by one position.
proof fn lemma_prefix_deploy_unfold(c: CtxView, kv: Seq<crate::types::ArtifactIdView>, i: int)
    requires
        0 <= i,
        c.schema.pending_deployments.contains_key(kv[i]),
    ensures
        forall|d: crate::types::DeployRequestView| #[trigger]
            prefix_expired_deploy(c, kv, i + 1, d) == (prefix_expired_deploy(c, kv, i, d) || (
            c.schema.pending_deployments[kv[i]] == d && d.deadline_height < c.height)),
        forall|a: crate::types::ArtifactIdView| #[trigger]
            prefix_removed_deploy(c, kv, i + 1, a) == (prefix_removed_deploy(c, kv, i, a) || (
            kv[i] == a && c.schema.pending_deployments[a].deadline_height < c.height)),
{
    assert forall|d: crate::types::DeployRequestView| #[trigger]
        prefix_expired_deploy(c, kv, i + 1, d) == (prefix_expired_deploy(c, kv, i, d) || (
        c.schema.pending_deployments[kv[i]] == d && d.deadline_height < c.height)) by {
        if prefix_expired_deploy(c, kv, i + 1, d) {
            let j = choose|j: int|
                #![auto]
                0 <= j < i + 1 && c.schema.pending_deployments.contains_key(kv[j])
                    && c.schema.pending_deployments[kv[j]] == d && d.deadline_height < c.height;
            if j < i {
                assert(prefix_expired_deploy(c, kv, i, d));
            }
        }
        if prefix_expired_deploy(c, kv, i, d) {
            let j = choose|j: int|
                #![auto]
                0 <= j < i && c.schema.pending_deployments.contains_key(kv[j])
                    && c.schema.pending_deployments[kv[j]] == d && d.deadline_height < c.height;
            assert(prefix_expired_deploy(c, kv, i + 1, d));
        }
        if c.schema.pending_deployments[kv[i]] == d && d.deadline_height < c.height {
            assert(prefix_expired_deploy(c, kv, i + 1, d));
        }
    }
    assert forall|a: crate::types::ArtifactIdView| #[trigger]
        prefix_removed_deploy(c, kv, i + 1, a) == (prefix_removed_deploy(c, kv, i, a) || (kv[i]
        == a && c.schema.pending_deployments[a].deadline_height < c.height)) by {
        if prefix_removed_deploy(c, kv, i + 1, a) {
            let j = choose|j: int|
                #![auto]
                0 <= j < i + 1 && kv[j] == a && c.schema.pending_deployments[a].deadline_height
                    < c.height;
            if j < i {
                assert(prefix_removed_deploy(c, kv, i, a));
            }
        }
        if prefix_removed_deploy(c, kv, i, a) {
            let j = choose|j: int|
                #![auto]
                0 <= j < i && kv[j] == a && c.schema.pending_deployments[a].deadline_height
                    < c.height;
            assert(prefix_removed_deploy(c, kv, i + 1, a));
        }
        if kv[i] == a && c.schema.pending_deployments[a].deadline_height < c.height {
            assert(prefix_removed_deploy(c, kv, i + 1, a));
        }
    }
}

/// The pending-deploy index after the sweep has processed the first
/// `i` keys.
pub open spec fn spec_pending_after(
    c: CtxView,
    kv: Seq<crate::types::ArtifactIdView>,
    i: int,
) -> Map<crate::types::ArtifactIdView, crate::types::DeployRequestView> {
    Map::new(
        |a: crate::types::ArtifactIdView|
            c.schema.pending_deployments.contains_key(a) && !prefix_removed_deploy(c, kv, i, a),
        |a: crate::types::ArtifactIdView| c.schema.pending_deployments[a],
    )
}

/// The deploy-lifecycle table after the sweep has processed the first
/// `i` keys.
pub open spec fn spec_states_after(
    c: CtxView,
    kv: Seq<crate::types::ArtifactIdView>,
    i: int,
) -> Map<crate::types::DeployRequestView, AsyncEventState> {
    Map::new(
        |d: crate::types::DeployRequestView|
            c.schema.deploy_states.contains_key(d) || prefix_expired_deploy(c, kv, i, d),
        |d: crate::types::DeployRequestView|
            if prefix_expired_deploy(c, kv, i, d) {
                AsyncEventState::Failed { height: c.height, error: EventError::DeadlineExceeded }
            } else {
                c.schema.deploy_states[d]
            },
    )
}

/// Times stale deploys out.
fn expire_deploys(ctx: &mut ExecutionContext)
    requires
        old(ctx).wf(),
    ensures
        final(ctx).wf(),
        final(ctx)@ == spec_expire_deploys(old(ctx)@),
{
    let ghost c0 = ctx@;
    let keys = ctx.schema.pending_deployments.keys();
    let ghost kv = keys@.map_values(|a: ArtifactId| a@);
    let n = keys.len();
    let h = ctx.height;
    proof {
        assert forall|a: crate::types::ArtifactIdView|
            c0.schema.pending_deployments.contains_key(a) implies exists|j: int|
            0 <= j < n && #[trigger] kv[j] == a by {
            let j = choose|j: int| 0 <= j < keys@.len() && #[trigger] keys@[j]@ == a;
            assert(kv[j] == a);
        }
        assert forall|j: int| 0 <= j < n implies c0.schema.pending_deployments.contains_key(
            #[trigger] kv[j],
        ) by {
            assert(kv[j] == keys@[j]@);
        }
        assert(ctx@.schema.pending_deployments =~= spec_pending_after(c0, kv, 0));
        assert(ctx@.schema.deploy_states =~= spec_states_after(c0, kv, 0));
    }
    let mut i: usize = 0;
    while i < n
        invariant
            ctx.wf(),
            h == c0.height,
            n == keys@.len(),
            kv == keys@.map_values(|a: ArtifactId| a@),
            kv.len() == n,
            forall|j: int| 0 <= j < n ==> kv[j] == keys@[j]@,
            forall|j: int| 0 <= j < n ==> c0.schema.pending_deployments.contains_key(
                #[trigger] kv[j],
            ),
            forall|a: int, b: int| 0 <= a < b < n ==> kv[a] != kv[b],
            forall|a: crate::types::ArtifactIdView|
                c0.schema.pending_deployments.contains_key(a) ==> exists|j: int|
                    0 <= j < n && #[trigger] kv[j] == a,
            i <= n,
            ctx@.height == c0.height,
            ctx@.caller == c0.caller,
            ctx@.mode == c0.mode,
            ctx@.core == c0.core,
            ctx@.env == c0.env,
            ctx@.actions == c0.actions,
            ctx@.schema == (SchemaView {
                pending_deployments: ctx@.schema.pending_deployments,
                deploy_states: ctx@.schema.deploy_states,
                ..c0.schema
            }),
            ctx@.schema.pending_deployments == spec_pending_after(c0, kv, i as int),
            ctx@.schema.deploy_states == spec_states_after(c0, kv, i as int),
        decreases n - i,
    {
        proof {
            assert(kv[i as int] == keys@[i as int]@);
            if prefix_removed_deploy(c0, kv, i as int, kv[i as int]) {
                let j = choose|j: int|
                    #![auto]
                    0 <= j < i && kv[j] == kv[i as int] && c0.schema.pending_deployments[
                        kv[i as int]
                    ].deadline_height < c0.height;
                assert(false);
            }
            assert(ctx@.schema.pending_deployments.contains_key(kv[i as int]));
        }
        let ghost pre = ctx@;
        let ghost ai = kv[i as int];
        let ghost ip = i as int + 1;
        let request = match ctx.schema.pending_deployments.get(&keys[i]) {
            Some(r) => r.dup(),
            None => vstd::pervasive::unreached(),
        };
        let ghost di = c0.schema.pending_deployments[ai];
        proof {
            assert(request@ == di);
        }
        let expired = request.deadline_height < h;
        if expired {
            ctx.schema.deploy_states.insert(
                request.dup(),
                AsyncEventState::Failed { height: h, error: EventError::DeadlineExceeded },
            );
            ctx.schema.pending_deployments.remove(&keys[i]);
        }
        proof {
            lemma_prefix_deploy_unfold(c0, kv, i as int);
            assert forall|a: crate::types::ArtifactIdView|
                #![auto]
                ctx@.schema.pending_deployments.contains_key(a) == spec_pending_after(
                    c0,
                    kv,
                    ip,
                ).contains_key(a) && (ctx@.schema.pending_deployments.contains_key(a)
                ==> ctx@.schema.pending_deployments[a] == spec_pending_after(c0, kv, ip)[a]) by {
                if a == ai {
                    if expired {
                        assert(prefix_removed_deploy(c0, kv, ip, a));
                        assert(!ctx@.schema.pending_deployments.contains_key(a));
                    } else {
                        assert(!prefix_removed_deploy(c0, kv, ip, a));
                    }
                } else {
                    assert(ctx@.schema.pending_deployments.contains_key(a)
                        == pre.schema.pending_deployments.contains_key(a));
                    assert(prefix_removed_deploy(c0, kv, ip, a) == prefix_removed_deploy(
                        c0,
                        kv,
                        i as int,
                        a,
                    ));
                    if ctx@.schema.pending_deployments.contains_key(a) {
                        assert(ctx@.schema.pending_deployments[a]
                            == pre.schema.pending_deployments[a]);
                    }
                }
            }
            assert(ctx@.schema.pending_deployments =~= spec_pending_after(c0, kv, ip));
            assert forall|d: crate::types::DeployRequestView|
                #![auto]
                ctx@.schema.deploy_states.contains_key(d) == spec_states_after(
                    c0,
                    kv,
                    ip,
                ).contains_key(d) && (ctx@.schema.deploy_states.contains_key(d)
                ==> ctx@.schema.deploy_states[d] == spec_states_after(c0, kv, ip)[d]) by {
                if d == di && expired {
                    assert(ctx@.schema.deploy_states.contains_key(d));
                    assert(prefix_expired_deploy(c0, kv, ip, d));
                    assert(ctx@.schema.deploy_states[d] == AsyncEventState::Failed {
                        height: h,
                        error: EventError::DeadlineExceeded,
                    });
                } else {
                    assert(ctx@.schema.deploy_states.contains_key(d)
                        == pre.schema.deploy_states.contains_key(d));
                    assert(prefix_expired_deploy(c0, kv, ip, d) == prefix_expired_deploy(
                        c0,
                        kv,
                        i as int,
                        d,
                    ));
                    if ctx@.schema.deploy_states.contains_key(d) {
                        assert(ctx@.schema.deploy_states[d] == pre.schema.deploy_states[d]);
                    }
                }
            }
            assert(ctx@.schema.deploy_states =~= spec_states_after(c0, kv, ip));
        }
        i += 1;
    }
    proof {
        assert forall|a: crate::types::ArtifactIdView|
            #![auto]
            prefix_removed_deploy(c0, kv, n as int, a) == (
            c0.schema.pending_deployments.contains_key(a)
                && c0.schema.pending_deployments[a].deadline_height < c0.height) || !(
            c0.schema.pending_deployments.contains_key(a)) by {
            if prefix_removed_deploy(c0, kv, n as int, a) {
                let j = choose|j: int|
                    #![auto]
                    0 <= j < n && kv[j] == a && c0.schema.pending_deployments[a].deadline_height
                        < c0.height;
                assert(c0.schema.pending_deployments.contains_key(kv[j]));
            }
            if c0.schema.pending_deployments.contains_key(a)
                && c0.schema.pending_deployments[a].deadline_height < c0.height {
                let j = choose|j: int| 0 <= j < n && #[trigger] kv[j] == a;
                assert(prefix_removed_deploy(c0, kv, n as int, a));
            }
        }
        assert forall|d: crate::types::DeployRequestView| #[trigger]
            prefix_expired_deploy(c0, kv, n as int, d) == spec_expired_deploy(c0, d) by {
            if prefix_expired_deploy(c0, kv, n as int, d) {
                let j = choose|j: int|
                    #![auto]
                    0 <= j < n && c0.schema.pending_deployments.contains_key(kv[j])
                        && c0.schema.pending_deployments[kv[j]] == d && d.deadline_height
                        < c0.height;
                assert(spec_expired_deploy(c0, d));
            }
            if spec_expired_deploy(c0, d) {
                let a = choose|a: crate::types::ArtifactIdView|
                    #![auto]
                    c0.schema.pending_deployments.contains_key(a)
                        && c0.schema.pending_deployments[a] == d && d.deadline_height < c0.height;
                let j = choose|j: int| 0 <= j < n && #[trigger] kv[j] == a;
                assert(prefix_expired_deploy(c0, kv, n as int, d));
            }
        }
        assert(spec_pending_after(c0, kv, n as int) =~= spec_expire_deploys(
            c0,
        ).schema.pending_deployments);
        assert(spec_states_after(c0, kv, n as int) =~= spec_expire_deploys(
            c0,
        ).schema.deploy_states);
        assert(ctx@.schema == spec_expire_deploys(c0).schema);
        assert(ctx@ == spec_expire_deploys(c0));
    }
}

/// The elements of `kv` up to `i` include `m`, with its deadline
/// passed.
pub open spec fn prefix_removed_migration(
    c: CtxView,
    kv: Seq<MigrationRequestView>,
    i: int,
    m: MigrationRequestView,
) -> bool {
    exists|j: int| #![auto] 0 <= j < i && kv[j] == m && m.deadline_height < c.height
}

/// Unfolds the prefix predicate by one position.
proof fn lemma_prefix_migration_unfold(c: CtxView, kv: Seq<MigrationRequestView>, i: int)
    requires
        0 <= i,
    ensures
        forall|m: MigrationRequestView| #[trigger]
            prefix_removed_migration(c, kv, i + 1, m) == (prefix_removed_migration(c, kv, i, m)
                || (kv[i] == m && m.deadline_height < c.height)),
{
    assert forall|m: MigrationRequestView| #[trigger]
        prefix_removed_migration(c, kv, i + 1, m) == (prefix_removed_migration(c, kv, i, m) || (
        kv[i] == m && m.deadline_height < c.height)) by {
        if prefix_removed_migration(c, kv, i + 1, m) {
            let j = choose|j: int|
                #![auto]
                0 <= j < i + 1 && kv[j] == m && m.deadline_height < c.height;
            if j < i {
                assert(prefix_removed_migration(c, kv, i, m));
            }
        }
        if prefix_removed_migration(c, kv, i, m) {
            let j = choose|j: int| #![auto] 0 <= j < i && kv[j] == m && m.deadline_height
                < c.height;
            assert(prefix_removed_migration(c, kv, i + 1, m));
        }
        if kv[i] == m && m.deadline_height < c.height {
            assert(prefix_removed_migration(c, kv, i + 1, m));
        }
    }
}

/// The pending-migration set after the sweep has processed the first
/// `i` elements.
pub open spec fn spec_pending_migrations_after(
    c: CtxView,
    kv: Seq<MigrationRequestView>,
    i: int,
) -> Set<MigrationRequestView> {
    Set::new(
        |m: MigrationRequestView|
            c.schema.pending_migrations.contains(m) && !prefix_removed_migration(c, kv, i, m),
    )
}

/// The migration-lifecycle table after the sweep has processed the
/// first `i` elements.
pub open spec fn spec_migration_states_after(
    c: CtxView,
    kv: Seq<MigrationRequestView>,
    i: int,
) -> Map<MigrationRequestView, MigrationState> {
    Map::new(
        |m: MigrationRequestView| c.schema.migration_states.contains_key(m),
        |m: MigrationRequestView|
            if prefix_removed_migration(c, kv, i, m) {
                MigrationState {
                    phase: AsyncEventState::Failed {
                        height: c.height,
                        error: EventError::DeadlineExceeded,
                    },
                    version: c.schema.migration_states[m].version,
                    reference_hash: c.schema.migration_states[m].reference_hash,
                }
            } else {
                c.schema.migration_states[m]
            },
    )
}

/// Times stale migrations out.
fn expire_migrations(ctx: &mut ExecutionContext)
    requires
        old(ctx).wf(),
    ensures
        final(ctx).wf(),
        final(ctx)@ == spec_expire_migrations(old(ctx)@),
{
    let ghost c0 = ctx@;
    let ms = ctx.schema.pending_migrations.elements();
    let ghost kv = ms@.map_values(|m: MigrationRequest| m@);
    let n = ms.len();
    let h = ctx.height;
    proof {
        assert forall|m: MigrationRequestView|
            c0.schema.pending_migrations.contains(m) implies exists|j: int|
            0 <= j < n && #[trigger] kv[j] == m by {
            let j = choose|j: int| 0 <= j < ms@.len() && #[trigger] ms@[j]@ == m;
            assert(kv[j] == m);
        }
        assert forall|j: int| 0 <= j < n implies c0.schema.pending_migrations.contains(
            #[trigger] kv[j],
        ) by {
            assert(kv[j] == ms@[j]@);
        }
        assert(ctx@.schema.pending_migrations =~= spec_pending_migrations_after(c0, kv, 0));
        assert(ctx@.schema.migration_states =~= spec_migration_states_after(c0, kv, 0));
    }
    let mut i: usize = 0;
    while i < n
        invariant
            ctx.wf(),
            h == c0.height,
            n == ms@.len(),
            kv == ms@.map_values(|m: MigrationRequest| m@),
            kv.len() == n,
            forall|j: int| 0 <= j < n ==> kv[j] == ms@[j]@,
            forall|j: int| 0 <= j < n ==> c0.schema.pending_migrations.contains(
                #[trigger] kv[j],
            ),
            forall|a: int, b: int| 0 <= a < b < n ==> kv[a] != kv[b],
            forall|m: MigrationRequestView|
                c0.schema.pending_migrations.contains(m) ==> exists|j: int|
                    0 <= j < n && #[trigger] kv[j] == m,
            i <= n,
            ctx@.height == c0.height,
            ctx@.caller == c0.caller,
            ctx@.mode == c0.mode,
            ctx@.core == c0.core,
            ctx@.env == c0.env,
            ctx@.actions == c0.actions,
            ctx@.schema == (SchemaView {
                pending_migrations: ctx@.schema.pending_migrations,
                migration_states: ctx@.schema.migration_states,
                ..c0.schema
            }),
            ctx@.schema.pending_migrations == spec_pending_migrations_after(c0, kv, i as int),
            ctx@.schema.migration_states == spec_migration_states_after(c0, kv, i as int),
        decreases n - i,
    {
        proof {
            assert(kv[i as int] == ms@[i as int]@);
        }
        let ghost pre = ctx@;
        let ghost mi = kv[i as int];
        let ghost ip = i as int + 1;
        let expired = ms[i].deadline_height < h;
        if expired {
            match ctx.schema.migration_states.get(&ms[i]) {
                Some(state) => {
                    let updated = MigrationState {
                        phase: AsyncEventState::Failed {
                            height: h,
                            error: EventError::DeadlineExceeded,
                        },
                        version: state.version,
                        reference_hash: state.reference_hash,
                    };
                    ctx.schema.migration_states.insert(ms[i].dup(), updated);
                },
                None => {},
            }
            ctx.schema.pending_migrations.remove(&ms[i]);
        }
        proof {
            lemma_prefix_migration_unfold(c0, kv, i as int);
            assert forall|m: MigrationRequestView|
                #![auto]
                ctx@.schema.pending_migrations.contains(m) == spec_pending_migrations_after(
                    c0,
                    kv,
                    ip,
                ).contains(m) by {
                if m == mi {
                    if expired {
                        assert(prefix_removed_migration(c0, kv, ip, m));
                        assert(!ctx@.schema.pending_migrations.contains(m));
                    } else {
                        assert(!prefix_removed_migration(c0, kv, ip, m));
                    }
                } else {
                    assert(ctx@.schema.pending_migrations.contains(m)
                        == pre.schema.pending_migrations.contains(m));
                    assert(prefix_removed_migration(c0, kv, ip, m) == prefix_removed_migration(
                        c0,
                        kv,
                        i as int,
                        m,
                    ));
                }
            }
            assert(ctx@.schema.pending_migrations =~= spec_pending_migrations_after(
                c0,
                kv,
                ip,
            ));
            assert forall|m: MigrationRequestView|
                #![auto]
                ctx@.schema.migration_states.contains_key(m) == spec_migration_states_after(
                    c0,
                    kv,
                    ip,
                ).contains_key(m) && (ctx@.schema.migration_states.contains_key(m)
                ==> ctx@.schema.migration_states[m] == spec_migration_states_after(
                    c0,
                    kv,
                    ip,
                )[m]) by {
                assert(pre.schema.migration_states.contains_key(m)
                    == c0.schema.migration_states.contains_key(m));
                if m == mi && expired {
                    assert(prefix_removed_migration(c0, kv, ip, m));
                    if c0.schema.migration_states.contains_key(m) {
                        assert(pre.schema.migration_states[m]
                            == spec_migration_states_after(c0, kv, i as int)[m]);
                        assert(pre.schema.migration_states[m].version
                            == c0.schema.migration_states[m].version);
                        assert(pre.schema.migration_states[m].reference_hash
                            == c0.schema.migration_states[m].reference_hash);
                    }
                } else {
                    assert(ctx@.schema.migration_states.contains_key(m)
                        == pre.schema.migration_states.contains_key(m));
                    assert(prefix_removed_migration(c0, kv, ip, m) == prefix_removed_migration(
                        c0,
                        kv,
                        i as int,
                        m,
                    ));
                    if ctx@.schema.migration_states.contains_key(m) {
                        assert(ctx@.schema.migration_states[m] == pre.schema.migration_states[m]);
                    }
                }
            }
            assert(ctx@.schema.migration_states =~= spec_migration_states_after(c0, kv, ip));
        }
        i += 1;
    }
    proof {
        assert forall|m: MigrationRequestView| #[trigger]
            prefix_removed_migration(c0, kv, n as int, m) == spec_expired_migration(c0, m) by {
            if prefix_removed_migration(c0, kv, n as int, m) {
                let j = choose|j: int| #![auto] 0 <= j < n && kv[j] == m && m.deadline_height
                    < c0.height;
                assert(c0.schema.pending_migrations.contains(kv[j]));
            }
            if spec_expired_migration(c0, m) {
                let j = choose|j: int| 0 <= j < n && #[trigger] kv[j] == m;
                assert(prefix_removed_migration(c0, kv, n as int, m));
            }
        }
        assert(spec_pending_migrations_after(c0, kv, n as int) =~= spec_expire_migrations(
            c0,
        ).schema.pending_migrations);
        assert(spec_migration_states_after(c0, kv, n as int) =~= spec_expire_migrations(
            c0,
        ).schema.migration_states);
        assert(ctx@.schema == spec_expire_migrations(c0).schema);
        assert(ctx@ == spec_expire_migrations(c0));
    }
}

/// Runs the epoch hook for the context's height, strictly before any
/// user transaction of the block: matures the pending config proposal,
/// flushes agreed migrations, and times out stale deploys and
/// migrations.
pub fn before_transactions(ctx: &mut ExecutionContext)
    requires
        old(ctx).wf(),
    ensures
        final(ctx).wf(),
        exists|mid: CtxView|
            #![auto]
            spec_flush_rel(spec_mature(old(ctx)@), mid) && final(ctx)@ == spec_expire_migrations(
                spec_expire_deploys(mid),
            ),
{
    mature_config(ctx);
    flush_migrations(ctx);
    let ghost mid = ctx@;
    expire_deploys(ctx);
    expire_migrations(ctx);
    proof {
        assert(spec_flush_rel(spec_mature(old(ctx)@), mid) && ctx@ == spec_expire_migrations(
            spec_expire_deploys(mid),
        ));
    }
}

} // verus!
