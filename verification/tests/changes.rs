use supervisor::hook::before_transactions;
use supervisor::state::{Caller, CoreState, ExecutionContext, RuntimeEnv, SupervisorSchema};
use supervisor::tables::ListSet;
use supervisor::transactions::{Supervisor, SupervisorInterface};
use supervisor::types::{
    ArtifactId, ConfigChange, ConfigPropose, ConsensusConfig, FreezeService, InstanceState,
    InstanceStatus, ResumeService, StartService, StopService, SupervisorError, UnloadArtifact,
    Version,
};
use supervisor::SupervisorMode;

fn artifact_a() -> ArtifactId {
    ArtifactId {
        runtime_id: 0,
        name: "artifact-a".to_string(),
        version: Version { major: 1, minor: 0, patch: 0 },
    }
}

fn artifact_b() -> ArtifactId {
    ArtifactId {
        runtime_id: 0,
        name: "artifact-b".to_string(),
        version: Version { major: 1, minor: 0, patch: 0 },
    }
}

fn changes_testkit() -> ExecutionContext {
    let mut artifacts = ListSet::new();
    artifacts.insert(artifact_a());
    artifacts.insert(artifact_b());
    let mut ctx = ExecutionContext {
        height: 1,
        caller: Caller::Blockchain,
        mode: SupervisorMode::Decentralized,
        core: CoreState {
            consensus: ConsensusConfig { validator_keys: vec![100] },
            artifacts,
            instances: vec![
                InstanceState {
                    id: 2,
                    name: "running-service".to_string(),
                    artifact: artifact_b(),
                    status: InstanceStatus::Active,
                    data_version: Version { major: 1, minor: 0, patch: 0 },
                    params: None,
                },
                InstanceState {
                    id: 3,
                    name: "frozen-service".to_string(),
                    artifact: artifact_b(),
                    status: InstanceStatus::Frozen,
                    data_version: Version { major: 1, minor: 0, patch: 0 },
                    params: None,
                },
            ],
        },
        schema: SupervisorSchema::new(),
        env: RuntimeEnv {
            freezing_runtimes: vec![0],
            verify_rejects: Vec::new(),
            apply_rejects: Vec::new(),
            fast_forward_artifacts: Vec::new(),
            failing_migrations: Vec::new(),
        },
        actions: Vec::new(),
    };
    before_transactions(&mut ctx);
    ctx
}

fn propose(ctx: &mut ExecutionContext, changes: Vec<ConfigChange>) -> Result<(), SupervisorError> {
    let p = ConfigPropose {
        actual_from: ctx.height + 3,
        configuration_number: ctx.schema.configuration_number,
        changes,
    };
    ctx.caller = Caller::Transaction { author: 100 };
    Supervisor.propose_config_change(ctx, p)
}

fn run_until(ctx: &mut ExecutionContext, height: u64) {
    while ctx.height < height {
        ctx.height += 1;
        ctx.caller = Caller::Blockchain;
        before_transactions(ctx);
    }
}

fn start_new_service() -> ConfigChange {
    ConfigChange::StartService(StartService {
        artifact: artifact_a(),
        name: "new-service".to_string(),
        config: "seed".to_string(),
    })
}

#[test]
fn start_conflicts_with_unload() {
    // A proposal that both starts a service from an artifact and
    // unloads that artifact is malformed, and nothing changes.
    let mut ctx = changes_testkit();
    let status = propose(
        &mut ctx,
        vec![
            start_new_service(),
            ConfigChange::UnloadArtifact(UnloadArtifact { artifact_id: artifact_a() }),
        ],
    );
    assert_eq!(status, Err(SupervisorError::MalformedConfigPropose));
    assert!(ctx.schema.pending_proposal.is_none());
    assert_eq!(ctx.schema.configuration_number, 0);
}

#[test]
fn start_service_is_applied() {
    let mut ctx = changes_testkit();
    let apply_at = ctx.height + 3;
    propose(&mut ctx, vec![start_new_service()]).unwrap();
    run_until(&mut ctx, apply_at);

    let inst = ctx
        .core
        .instances
        .iter()
        .find(|i| i.name == "new-service")
        .expect("the started instance exists");
    assert_eq!(inst.status, InstanceStatus::Active);
    assert_eq!(inst.id, 4);
    assert_eq!(inst.params.as_deref(), Some("seed"));
}

#[test]
fn start_of_unknown_artifact_is_rejected() {
    let mut ctx = changes_testkit();
    let status = propose(
        &mut ctx,
        vec![ConfigChange::StartService(StartService {
            artifact: ArtifactId {
                runtime_id: 0,
                name: "artifact-c".to_string(),
                version: Version { major: 1, minor: 0, patch: 0 },
            },
            name: "new-service".to_string(),
            config: String::new(),
        })],
    );
    assert_eq!(status, Err(SupervisorError::UnknownArtifact));
}

#[test]
fn start_with_invalid_name_is_rejected() {
    let mut ctx = changes_testkit();
    let status = propose(
        &mut ctx,
        vec![ConfigChange::StartService(StartService {
            artifact: artifact_a(),
            name: "bad name!".to_string(),
            config: String::new(),
        })],
    );
    assert_eq!(status, Err(SupervisorError::InvalidInstanceName));
}

#[test]
fn start_of_existing_instance_is_rejected() {
    let mut ctx = changes_testkit();
    let status = propose(
        &mut ctx,
        vec![ConfigChange::StartService(StartService {
            artifact: artifact_a(),
            name: "running-service".to_string(),
            config: String::new(),
        })],
    );
    assert_eq!(status, Err(SupervisorError::InstanceExists));
}

#[test]
fn stop_and_freeze_require_an_active_service() {
    let mut ctx = changes_testkit();
    // Stopping the frozen instance is rejected: only an active service
    // may be stopped.
    let status = propose(
        &mut ctx,
        vec![ConfigChange::StopService(StopService { instance_id: 3 })],
    );
    assert_eq!(status, Err(SupervisorError::MalformedConfigPropose));

    let apply_at = ctx.height + 3;
    propose(
        &mut ctx,
        vec![ConfigChange::StopService(StopService { instance_id: 2 })],
    )
    .unwrap();
    run_until(&mut ctx, apply_at);
    assert_eq!(ctx.core.instances[0].status, InstanceStatus::Stopped);
}

#[test]
fn freeze_requires_the_runtime_capability() {
    let mut ctx = changes_testkit();
    ctx.env.freezing_runtimes.clear();
    let status = propose(
        &mut ctx,
        vec![ConfigChange::FreezeService(FreezeService { instance_id: 2 })],
    );
    assert_eq!(status, Err(SupervisorError::MalformedConfigPropose));
}

#[test]
fn resume_requires_a_frozen_service_with_its_artifact() {
    let mut ctx = changes_testkit();
    // Resuming the active instance is rejected.
    let status = propose(
        &mut ctx,
        vec![ConfigChange::ResumeService(ResumeService {
            instance_id: 2,
            params: String::new(),
        })],
    );
    assert_eq!(status, Err(SupervisorError::MalformedConfigPropose));

    // A frozen instance whose data version differs from its artifact
    // version has lost its artifact association and cannot be resumed.
    ctx.core.instances[1].data_version = Version { major: 0, minor: 9, patch: 0 };
    let status = propose(
        &mut ctx,
        vec![ConfigChange::ResumeService(ResumeService {
            instance_id: 3,
            params: String::new(),
        })],
    );
    assert_eq!(status, Err(SupervisorError::MalformedConfigPropose));

    // An intact frozen instance resumes.
    ctx.core.instances[1].data_version = Version { major: 1, minor: 0, patch: 0 };
    let apply_at = ctx.height + 3;
    propose(
        &mut ctx,
        vec![ConfigChange::ResumeService(ResumeService {
            instance_id: 3,
            params: "resumed".to_string(),
        })],
    )
    .unwrap();
    run_until(&mut ctx, apply_at);
    assert_eq!(ctx.core.instances[1].status, InstanceStatus::Active);
}

#[test]
fn unload_of_used_artifact_is_rejected() {
    let mut ctx = changes_testkit();
    let status = propose(
        &mut ctx,
        vec![ConfigChange::UnloadArtifact(UnloadArtifact { artifact_id: artifact_b() })],
    );
    assert_eq!(status, Err(SupervisorError::MalformedConfigPropose));
}

#[test]
fn unload_of_unused_artifact_is_applied() {
    let mut ctx = changes_testkit();
    let apply_at = ctx.height + 3;
    propose(
        &mut ctx,
        vec![ConfigChange::UnloadArtifact(UnloadArtifact { artifact_id: artifact_a() })],
    )
    .unwrap();
    run_until(&mut ctx, apply_at);
    assert!(!ctx.core.artifacts.contains(&artifact_a()));
}

#[test]
fn duplicate_instance_change_is_rejected() {
    let mut ctx = changes_testkit();
    let status = propose(
        &mut ctx,
        vec![
            ConfigChange::StopService(StopService { instance_id: 2 }),
            ConfigChange::FreezeService(FreezeService { instance_id: 2 }),
        ],
    );
    assert_eq!(status, Err(SupervisorError::MalformedConfigPropose));
}

#[test]
fn duplicate_start_of_one_name_is_rejected() {
    let mut ctx = changes_testkit();
    let status = propose(&mut ctx, vec![start_new_service(), start_new_service()]);
    assert_eq!(status, Err(SupervisorError::MalformedConfigPropose));
}

#[test]
fn duplicate_unload_of_one_artifact_is_rejected() {
    let mut ctx = changes_testkit();
    let status = propose(
        &mut ctx,
        vec![
            ConfigChange::UnloadArtifact(UnloadArtifact { artifact_id: artifact_a() }),
            ConfigChange::UnloadArtifact(UnloadArtifact { artifact_id: artifact_a() }),
        ],
    );
    assert_eq!(status, Err(SupervisorError::MalformedConfigPropose));
}

#[test]
fn invalid_consensus_config_is_rejected() {
    let mut ctx = changes_testkit();
    let status = propose(
        &mut ctx,
        vec![ConfigChange::Consensus(ConsensusConfig { validator_keys: vec![7, 7] })],
    );
    assert_eq!(status, Err(SupervisorError::MalformedConfigPropose));
}
