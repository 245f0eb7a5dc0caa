use supervisor::hook::before_transactions;
use supervisor::state::{Caller, CoreState, ExecutionContext, RuntimeEnv, SupervisorSchema};
use supervisor::tables::ListSet;
use supervisor::transactions::{Supervisor, SupervisorInterface};
use supervisor::types::{
    Action, ArtifactId, AsyncEventState, ConsensusConfig, DeployRequest, DeployResult, EventError,
    SupervisorError, Version,
};
use supervisor::SupervisorMode;

fn deploy_testkit(n: u64) -> ExecutionContext {
    let mut ctx = ExecutionContext {
        height: 1,
        caller: Caller::Blockchain,
        mode: SupervisorMode::Decentralized,
        core: CoreState {
            consensus: ConsensusConfig { validator_keys: (0..n).map(|i| 100 + i).collect() },
            artifacts: ListSet::new(),
            instances: Vec::new(),
        },
        schema: SupervisorSchema::new(),
        env: RuntimeEnv {
            freezing_runtimes: Vec::new(),
            verify_rejects: Vec::new(),
            apply_rejects: Vec::new(),
            fast_forward_artifacts: Vec::new(),
            failing_migrations: Vec::new(),
        },
        actions: Vec::new(),
    };
    before_transactions(&mut ctx);
    ctx
}

fn validator(i: u64) -> u64 {
    100 + i
}

fn sample_artifact() -> ArtifactId {
    ArtifactId {
        runtime_id: 0,
        name: "sample-runtime/sample-artifact".to_string(),
        version: Version { major: 0, minor: 1, patch: 0 },
    }
}

fn sample_request(deadline: u64) -> DeployRequest {
    DeployRequest {
        artifact: sample_artifact(),
        spec_bytes: vec![1, 2, 3],
        deadline_height: deadline,
    }
}

fn request_deploy(
    ctx: &mut ExecutionContext,
    author: u64,
    deploy: DeployRequest,
) -> Result<(), SupervisorError> {
    ctx.caller = Caller::Transaction { author };
    Supervisor.request_artifact_deploy(ctx, deploy)
}

fn report_ok(ctx: &mut ExecutionContext, author: u64, deadline: u64) -> Result<(), SupervisorError> {
    ctx.caller = Caller::Transaction { author };
    Supervisor.report_deploy_result(
        ctx,
        DeployResult { request: sample_request(deadline), result: Ok(()) },
    )
}

fn report_err(
    ctx: &mut ExecutionContext,
    author: u64,
    deadline: u64,
    code: u64,
) -> Result<(), SupervisorError> {
    ctx.caller = Caller::Transaction { author };
    Supervisor.report_deploy_result(
        ctx,
        DeployResult { request: sample_request(deadline), result: Err(code) },
    )
}

fn registration_count(ctx: &ExecutionContext) -> usize {
    ctx.actions
        .iter()
        .filter(|a| matches!(a, Action::RegisterArtifact { .. }))
        .count()
}

#[test]
fn deploy_two_phase() {
    // Every validator requests the deploy, then every validator reports
    // a local success; the dispatcher receives exactly one
    // registration and the lifecycle ends succeeded.
    let mut ctx = deploy_testkit(4);
    let deadline = 10;

    for i in 0..4 {
        request_deploy(&mut ctx, validator(i), sample_request(deadline)).unwrap();
    }
    assert!(ctx.schema.pending_deployments.contains_key(&sample_artifact()));
    assert!(ctx.actions.iter().any(|a| matches!(a, Action::StartDeploy { .. })));

    ctx.height += 1;
    before_transactions(&mut ctx);
    for i in 0..4 {
        let _ = report_ok(&mut ctx, validator(i), deadline);
    }
    assert_eq!(registration_count(&ctx), 1);
    assert!(ctx.core.artifacts.contains(&sample_artifact()));
    assert_eq!(
        ctx.schema.deploy_states.get(&sample_request(deadline)).copied(),
        Some(AsyncEventState::Succeed)
    );
}

#[test]
fn deploy_request_by_non_validator_is_rejected() {
    let mut ctx = deploy_testkit(4);
    let status = request_deploy(&mut ctx, 999, sample_request(10));
    assert_eq!(status, Err(SupervisorError::UnknownAuthor));
}

#[test]
fn deploy_request_with_invalid_artifact_is_rejected() {
    let mut ctx = deploy_testkit(4);
    let mut request = sample_request(10);
    request.artifact.name = String::new();
    let status = request_deploy(&mut ctx, validator(0), request);
    assert_eq!(status, Err(SupervisorError::InvalidArtifactId));
}

#[test]
fn deploy_request_past_deadline_is_rejected() {
    let mut ctx = deploy_testkit(4);
    while ctx.height < 11 {
        ctx.height += 1;
        before_transactions(&mut ctx);
    }
    let status = request_deploy(&mut ctx, validator(0), sample_request(10));
    assert_eq!(status, Err(SupervisorError::ActualFromIsPast));
}

#[test]
fn duplicate_deploy_request_is_rejected() {
    let mut ctx = deploy_testkit(4);
    let deadline = 10;
    for i in 0..3 {
        request_deploy(&mut ctx, validator(i), sample_request(deadline)).unwrap();
    }
    // The deployment is registered; the same validator asking again is
    // a duplicate.
    let status = request_deploy(&mut ctx, validator(0), sample_request(deadline));
    assert_eq!(status, Err(SupervisorError::DeployRequestAlreadyRegistered));
}

#[test]
fn deploy_of_registered_artifact_is_rejected() {
    let mut ctx = deploy_testkit(4);
    let deadline = 10;
    for i in 0..4 {
        request_deploy(&mut ctx, validator(i), sample_request(deadline)).unwrap();
    }
    for i in 0..4 {
        let _ = report_ok(&mut ctx, validator(i), deadline);
    }
    assert!(ctx.core.artifacts.contains(&sample_artifact()));
    let status = request_deploy(&mut ctx, validator(0), sample_request(deadline));
    assert_eq!(status, Err(SupervisorError::AlreadyDeployed));
}

#[test]
fn one_failure_fails_the_deploy() {
    let mut ctx = deploy_testkit(4);
    let deadline = 10;
    for i in 0..4 {
        request_deploy(&mut ctx, validator(i), sample_request(deadline)).unwrap();
    }
    report_ok(&mut ctx, validator(0), deadline).unwrap();
    report_err(&mut ctx, validator(1), deadline, 17).unwrap();

    assert_eq!(
        ctx.schema.deploy_states.get(&sample_request(deadline)).copied(),
        Some(AsyncEventState::Failed {
            height: 1,
            error: EventError::RuntimeFault { code: 17 }
        })
    );
    assert!(!ctx.schema.pending_deployments.contains_key(&sample_artifact()));
    // Later reports on the failed deploy are accepted silently, with no
    // state change.
    assert_eq!(report_ok(&mut ctx, validator(2), deadline), Ok(()));
    assert_eq!(registration_count(&ctx), 0);
}

#[test]
fn report_without_registered_request_is_rejected() {
    let mut ctx = deploy_testkit(4);
    let status = report_ok(&mut ctx, validator(0), 10);
    assert_eq!(status, Err(SupervisorError::DeployRequestNotRegistered));
}

#[test]
fn stale_deploy_is_timed_out_by_the_hook() {
    let mut ctx = deploy_testkit(4);
    let deadline = 3;
    for i in 0..4 {
        request_deploy(&mut ctx, validator(i), sample_request(deadline)).unwrap();
    }
    assert!(ctx.schema.pending_deployments.contains_key(&sample_artifact()));

    while ctx.height < 4 {
        ctx.height += 1;
        before_transactions(&mut ctx);
    }
    assert!(!ctx.schema.pending_deployments.contains_key(&sample_artifact()));
    assert_eq!(
        ctx.schema.deploy_states.get(&sample_request(deadline)).copied(),
        Some(AsyncEventState::Failed {
            height: 4,
            error: EventError::DeadlineExceeded
        })
    );
}

#[test]
fn deploy_report_past_deadline_is_rejected() {
    let mut ctx = deploy_testkit(4);
    let deadline = 2;
    for i in 0..4 {
        request_deploy(&mut ctx, validator(i), sample_request(deadline)).unwrap();
    }
    // Reach the deadline without reports; a report sent now, before the
    // hook of the block has swept the request, is rejected.
    ctx.height = 3;
    let status = report_ok(&mut ctx, validator(0), deadline);
    assert_eq!(status, Err(SupervisorError::DeadlineExceeded));
}
