use supervisor::hook::before_transactions;
use supervisor::state::{Caller, CoreState, ExecutionContext, RuntimeEnv, SupervisorSchema};
use supervisor::tables::ListSet;
use supervisor::transactions::{Supervisor, SupervisorInterface};
use supervisor::types::{
    Action, ArtifactId, AsyncEventState, ConsensusConfig, EventError, InstanceState,
    InstanceStatus, MigrationRequest, MigrationResult, SupervisorError, Version,
};
use supervisor::SupervisorMode;

fn old_artifact() -> ArtifactId {
    ArtifactId {
        runtime_id: 0,
        name: "migratable-service".to_string(),
        version: Version { major: 0, minor: 1, patch: 0 },
    }
}

fn new_artifact() -> ArtifactId {
    ArtifactId {
        runtime_id: 0,
        name: "migratable-service".to_string(),
        version: Version { major: 0, minor: 2, patch: 0 },
    }
}

fn migration_testkit(n: u64) -> ExecutionContext {
    let mut ctx = ExecutionContext {
        height: 1,
        caller: Caller::Blockchain,
        mode: SupervisorMode::Decentralized,
        core: CoreState {
            consensus: ConsensusConfig { validator_keys: (0..n).map(|i| 100 + i).collect() },
            artifacts: ListSet::new(),
            instances: vec![InstanceState {
                id: 2,
                name: "migrated-service".to_string(),
                artifact: old_artifact(),
                status: InstanceStatus::Stopped,
                data_version: Version { major: 0, minor: 1, patch: 0 },
                params: None,
            }],
        },
        schema: SupervisorSchema::new(),
        env: RuntimeEnv {
            freezing_runtimes: Vec::new(),
            verify_rejects: Vec::new(),
            apply_rejects: Vec::new(),
            fast_forward_artifacts: Vec::new(),
            failing_migrations: Vec::new(),
        },
        actions: Vec::new(),
    };
    before_transactions(&mut ctx);
    ctx
}

fn validator(i: u64) -> u64 {
    100 + i
}

fn migration_request(deadline: u64) -> MigrationRequest {
    MigrationRequest {
        new_artifact: new_artifact(),
        service: "migrated-service".to_string(),
        deadline_height: deadline,
        seed: 0,
    }
}

fn request_migration(
    ctx: &mut ExecutionContext,
    author: u64,
    request: MigrationRequest,
) -> Result<(), SupervisorError> {
    ctx.caller = Caller::Transaction { author };
    Supervisor.request_migration(ctx, request)
}

fn report_hash(
    ctx: &mut ExecutionContext,
    author: u64,
    deadline: u64,
    state_hash: u64,
) -> Result<(), SupervisorError> {
    ctx.caller = Caller::Transaction { author };
    Supervisor.report_migration_result(
        ctx,
        MigrationResult { request: migration_request(deadline), status: Ok(state_hash) },
    )
}

fn report_failure(
    ctx: &mut ExecutionContext,
    author: u64,
    deadline: u64,
    code: u64,
) -> Result<(), SupervisorError> {
    ctx.caller = Caller::Transaction { author };
    Supervisor.report_migration_result(
        ctx,
        MigrationResult { request: migration_request(deadline), status: Err(code) },
    )
}

fn rollback_count(ctx: &ExecutionContext) -> usize {
    ctx.actions
        .iter()
        .filter(|a| matches!(a, Action::RollbackMigration { .. }))
        .count()
}

fn commit_count(ctx: &ExecutionContext) -> usize {
    ctx.actions
        .iter()
        .filter(|a| matches!(a, Action::CommitMigration { .. }))
        .count()
}

fn approve_by_all(ctx: &mut ExecutionContext, n: u64, deadline: u64) {
    for i in 0..n {
        request_migration(ctx, validator(i), migration_request(deadline)).unwrap();
    }
}

#[test]
fn migration_hash_mismatch() {
    // Two validators report different hashes for the same migration:
    // after the second report the migration is failed with a
    // hash-divergence cause, exactly one rollback was requested, and
    // the migration is no longer pending.
    let mut ctx = migration_testkit(4);
    let deadline = 10;
    approve_by_all(&mut ctx, 4, deadline);
    assert!(ctx.schema.pending_migrations.contains(&migration_request(deadline)));

    report_hash(&mut ctx, validator(0), deadline, 0xaaaa).unwrap();
    report_hash(&mut ctx, validator(1), deadline, 0xbbbb).unwrap();

    let state = ctx
        .schema
        .migration_states
        .get(&migration_request(deadline))
        .copied()
        .unwrap();
    assert_eq!(
        state.phase,
        AsyncEventState::Failed { height: 1, error: EventError::StateHashDivergence }
    );
    assert_eq!(rollback_count(&ctx), 1);
    assert!(!ctx.schema.pending_migrations.contains(&migration_request(deadline)));
}

#[test]
fn fast_forward_migration() {
    // The runtime answers that no data transform is needed: the
    // migration succeeds immediately at the new version, and no commit
    // is ever required.
    let mut ctx = migration_testkit(4);
    ctx.env.fast_forward_artifacts.push(new_artifact());
    let deadline = 10;
    approve_by_all(&mut ctx, 4, deadline);

    let state = ctx
        .schema
        .migration_states
        .get(&migration_request(deadline))
        .copied()
        .unwrap();
    assert_eq!(state.phase, AsyncEventState::Succeed);
    assert_eq!(state.version, Version { major: 0, minor: 2, patch: 0 });
    assert!(!ctx.schema.pending_migrations.contains(&migration_request(deadline)));
    assert_eq!(commit_count(&ctx), 0);
}

#[test]
fn agreed_migration_is_committed_and_flushed() {
    let mut ctx = migration_testkit(4);
    let deadline = 10;
    approve_by_all(&mut ctx, 4, deadline);

    for i in 0..3 {
        report_hash(&mut ctx, validator(i), deadline, 0xcccc).unwrap();
    }
    assert_eq!(commit_count(&ctx), 1);
    assert!(ctx.schema.migrations_to_flush.contains(&migration_request(deadline)));
    let state = ctx
        .schema
        .migration_states
        .get(&migration_request(deadline))
        .copied()
        .unwrap();
    assert_eq!(state.phase, AsyncEventState::Succeed);
    assert_eq!(state.version, Version { major: 0, minor: 2, patch: 0 });

    // The next block flushes the migration and the instance reaches
    // its new data version.
    ctx.height += 1;
    ctx.caller = Caller::Blockchain;
    before_transactions(&mut ctx);
    assert!(!ctx.schema.migrations_to_flush.contains(&migration_request(deadline)));
    assert!(ctx
        .actions
        .iter()
        .any(|a| matches!(a, Action::FlushMigration { .. })));
    assert_eq!(
        ctx.core.instances[0].data_version,
        Version { major: 0, minor: 2, patch: 0 }
    );
}

#[test]
fn failed_initiation_is_a_soft_failure() {
    // The runtime refuses to start the migration: the migration is
    // marked failed without any rollback.
    let mut ctx = migration_testkit(4);
    ctx.env.failing_migrations.push(new_artifact());
    let deadline = 10;
    approve_by_all(&mut ctx, 4, deadline);

    let state = ctx
        .schema
        .migration_states
        .get(&migration_request(deadline))
        .copied()
        .unwrap();
    assert!(matches!(state.phase, AsyncEventState::Failed { .. }));
    assert_eq!(rollback_count(&ctx), 0);
    assert!(!ctx.schema.pending_migrations.contains(&migration_request(deadline)));
}

#[test]
fn reported_failure_rolls_the_migration_back() {
    let mut ctx = migration_testkit(4);
    let deadline = 10;
    approve_by_all(&mut ctx, 4, deadline);

    report_failure(&mut ctx, validator(0), deadline, 5).unwrap();
    let state = ctx
        .schema
        .migration_states
        .get(&migration_request(deadline))
        .copied()
        .unwrap();
    assert_eq!(
        state.phase,
        AsyncEventState::Failed { height: 1, error: EventError::MigrationFailed { code: 5 } }
    );
    assert_eq!(rollback_count(&ctx), 1);

    // A later report is accepted silently.
    assert_eq!(report_hash(&mut ctx, validator(1), deadline, 0xdddd), Ok(()));
    assert_eq!(rollback_count(&ctx), 1);
}

#[test]
fn migration_request_for_unknown_service_is_rejected() {
    let mut ctx = migration_testkit(4);
    let mut request = migration_request(10);
    request.service = "no-such-service".to_string();
    let status = request_migration(&mut ctx, validator(0), request);
    assert_eq!(status, Err(SupervisorError::MalformedConfigPropose));
}

#[test]
fn migration_report_without_request_is_rejected() {
    let mut ctx = migration_testkit(4);
    let status = report_hash(&mut ctx, validator(0), 10, 0xeeee);
    assert_eq!(status, Err(SupervisorError::MigrationRequestNotRegistered));
}

#[test]
fn migration_request_past_deadline_is_rejected() {
    let mut ctx = migration_testkit(4);
    while ctx.height < 11 {
        ctx.height += 1;
        ctx.caller = Caller::Blockchain;
        before_transactions(&mut ctx);
    }
    let status = request_migration(&mut ctx, validator(0), migration_request(10));
    assert_eq!(status, Err(SupervisorError::ActualFromIsPast));
}

#[test]
fn migration_report_past_deadline_is_rejected() {
    let mut ctx = migration_testkit(4);
    let deadline = 2;
    approve_by_all(&mut ctx, 4, deadline);

    // Reach the deadline without reports; the report itself is now
    // rejected (the hook has not yet swept the request away when the
    // transaction runs first in the block).
    ctx.height = 3;
    ctx.caller = Caller::Transaction { author: validator(0) };
    let status = Supervisor.report_migration_result(
        &mut ctx,
        MigrationResult { request: migration_request(deadline), status: Ok(1) },
    );
    assert_eq!(status, Err(SupervisorError::DeadlineExceeded));
}

#[test]
fn stale_migration_is_timed_out_by_the_hook() {
    let mut ctx = migration_testkit(4);
    let deadline = 2;
    approve_by_all(&mut ctx, 4, deadline);
    assert!(ctx.schema.pending_migrations.contains(&migration_request(deadline)));

    while ctx.height < 3 {
        ctx.height += 1;
        ctx.caller = Caller::Blockchain;
        before_transactions(&mut ctx);
    }
    assert!(!ctx.schema.pending_migrations.contains(&migration_request(deadline)));
    let state = ctx
        .schema
        .migration_states
        .get(&migration_request(deadline))
        .copied()
        .unwrap();
    assert_eq!(
        state.phase,
        AsyncEventState::Failed { height: 3, error: EventError::DeadlineExceeded }
    );
}
