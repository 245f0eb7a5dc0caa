use supervisor::digest::object_hash;
use supervisor::hook::before_transactions;
use supervisor::state::{Caller, CoreState, ExecutionContext, RuntimeEnv, SupervisorSchema};
use supervisor::tables::ListSet;
use supervisor::transactions::{Supervisor, SupervisorInterface};
use supervisor::types::{
    ArtifactId, ConfigChange, ConfigPropose, ConfigVote, ConsensusConfig, InstanceState,
    InstanceStatus, ServiceConfig, SupervisorError, Version,
};
use supervisor::SupervisorMode;

const CFG_CHANGE_HEIGHT: u64 = 4;

fn validator_keys(n: u64) -> Vec<u64> {
    (0..n).map(|i| 100 + i).collect()
}

fn validator(i: u64) -> u64 {
    100 + i
}

fn service_artifact() -> ArtifactId {
    ArtifactId {
        runtime_id: 0,
        name: "config-change-service".to_string(),
        version: Version { major: 1, minor: 0, patch: 0 },
    }
}

fn empty_env() -> RuntimeEnv {
    RuntimeEnv {
        freezing_runtimes: Vec::new(),
        verify_rejects: vec!["error".to_string(), "panic".to_string()],
        apply_rejects: vec!["apply_error".to_string(), "apply_panic".to_string()],
        fast_forward_artifacts: Vec::new(),
        failing_migrations: Vec::new(),
    }
}

fn testkit_with_supervisor(n: u64) -> ExecutionContext {
    let mut ctx = ExecutionContext {
        height: 1,
        caller: Caller::Blockchain,
        mode: SupervisorMode::Decentralized,
        core: CoreState {
            consensus: ConsensusConfig { validator_keys: validator_keys(n) },
            artifacts: ListSet::new(),
            instances: Vec::new(),
        },
        schema: SupervisorSchema::new(),
        env: empty_env(),
        actions: Vec::new(),
    };
    before_transactions(&mut ctx);
    ctx
}

fn service_instance(id: u32, name: &str) -> InstanceState {
    InstanceState {
        id,
        name: name.to_string(),
        artifact: service_artifact(),
        status: InstanceStatus::Active,
        data_version: Version { major: 1, minor: 0, patch: 0 },
        params: None,
    }
}

fn testkit_with_supervisor_and_service(n: u64) -> ExecutionContext {
    let mut ctx = testkit_with_supervisor(n);
    ctx.core.instances.push(service_instance(2, "config-change"));
    ctx
}

fn testkit_with_supervisor_and_2_services(n: u64) -> ExecutionContext {
    let mut ctx = testkit_with_supervisor_and_service(n);
    ctx.core.instances.push(service_instance(3, "second-service"));
    ctx
}

fn create_block(ctx: &mut ExecutionContext) {
    ctx.height += 1;
    ctx.caller = Caller::Blockchain;
    before_transactions(ctx);
}

fn create_blocks_until(ctx: &mut ExecutionContext, height: u64) {
    while ctx.height < height {
        create_block(ctx);
    }
}

fn consensus_config_propose_first_variant(ctx: &ExecutionContext) -> ConsensusConfig {
    let mut keys = ctx.core.consensus.validator_keys.clone();
    keys.rotate_left(1);
    ConsensusConfig { validator_keys: keys }
}

fn consensus_config_propose_second_variant(ctx: &ExecutionContext) -> ConsensusConfig {
    let mut keys = ctx.core.consensus.validator_keys.clone();
    keys.reverse();
    ConsensusConfig { validator_keys: keys }
}

fn config_propose(ctx: &ExecutionContext, actual_from: u64, changes: Vec<ConfigChange>) -> ConfigPropose {
    ConfigPropose {
        actual_from,
        configuration_number: ctx.schema.configuration_number,
        changes,
    }
}

fn service_config_change(params: &str) -> ConfigChange {
    ConfigChange::Service(ServiceConfig { instance_id: 2, params: params.to_string() })
}

fn second_service_config_change(params: &str) -> ConfigChange {
    ConfigChange::Service(ServiceConfig { instance_id: 3, params: params.to_string() })
}

fn send_propose(
    ctx: &mut ExecutionContext,
    author: u64,
    propose: ConfigPropose,
) -> Result<(), SupervisorError> {
    ctx.caller = Caller::Transaction { author };
    Supervisor.propose_config_change(ctx, propose)
}

fn send_confirm(
    ctx: &mut ExecutionContext,
    author: u64,
    propose_hash: u64,
) -> Result<(), SupervisorError> {
    ctx.caller = Caller::Transaction { author };
    Supervisor.confirm_config_change(ctx, ConfigVote { propose_hash })
}

fn config_propose_entry(ctx: &ExecutionContext) -> Option<u64> {
    ctx.schema.pending_proposal.as_ref().map(|e| e.propose_hash)
}

fn service_actual_param(ctx: &ExecutionContext) -> Option<String> {
    ctx.core
        .instances
        .iter()
        .find(|i| i.name == "config-change")
        .and_then(|i| i.params.clone())
}

fn second_service_actual_param(ctx: &ExecutionContext) -> Option<String> {
    ctx.core
        .instances
        .iter()
        .find(|i| i.name == "second-service")
        .and_then(|i| i.params.clone())
}

#[test]
fn test_multiple_consensus_change_proposes() {
    let mut testkit = testkit_with_supervisor(1);

    let propose = config_propose(
        &testkit,
        CFG_CHANGE_HEIGHT,
        vec![
            ConfigChange::Consensus(consensus_config_propose_first_variant(&testkit)),
            ConfigChange::Consensus(consensus_config_propose_second_variant(&testkit)),
        ],
    );
    let status = send_propose(&mut testkit, validator(0), propose);
    assert_eq!(status, Err(SupervisorError::MalformedConfigPropose));

    assert_eq!(config_propose_entry(&testkit), None);
}

#[test]
fn test_deadline_config_exceeded() {
    let mut testkit = testkit_with_supervisor(4);
    let consensus_config = testkit.core.consensus.validator_keys.clone();
    let new_consensus_config = consensus_config_propose_first_variant(&testkit);

    let propose = config_propose(
        &testkit,
        CFG_CHANGE_HEIGHT,
        vec![ConfigChange::Consensus(new_consensus_config)],
    );
    send_propose(&mut testkit, validator(0), propose)
        .expect("Transaction with change propose discarded.");
    create_blocks_until(&mut testkit, CFG_CHANGE_HEIGHT + 1);

    assert_eq!(config_propose_entry(&testkit), None);
    assert_eq!(testkit.core.consensus.validator_keys, consensus_config);
}

#[test]
fn test_sent_new_config_after_expired_one() {
    let mut testkit = testkit_with_supervisor(4);

    let first_consensus_config = consensus_config_propose_first_variant(&testkit);
    let propose = config_propose(
        &testkit,
        CFG_CHANGE_HEIGHT,
        vec![ConfigChange::Consensus(first_consensus_config)],
    );
    send_propose(&mut testkit, validator(0), propose)
        .expect("Transaction with change propose discarded.");
    create_blocks_until(&mut testkit, CFG_CHANGE_HEIGHT + 1);
    assert_eq!(config_propose_entry(&testkit), None);

    // Send config one more time and vote for it.
    let cfg_change_height = testkit.height + 3;
    let second_consensus_config = consensus_config_propose_second_variant(&testkit);
    let propose = config_propose(
        &testkit,
        cfg_change_height,
        vec![ConfigChange::Consensus(second_consensus_config.dup())],
    );
    let proposal_hash = object_hash(&propose);
    send_propose(&mut testkit, validator(0), propose)
        .expect("Transaction with change propose discarded.");

    create_block(&mut testkit);
    send_confirm(&mut testkit, validator(1), proposal_hash)
        .expect("Transaction with confirmations discarded.");
    send_confirm(&mut testkit, validator(2), proposal_hash)
        .expect("Transaction with confirmations discarded.");
    create_blocks_until(&mut testkit, cfg_change_height);

    assert_eq!(config_propose_entry(&testkit), None);
    assert_eq!(
        testkit.core.consensus.validator_keys,
        second_consensus_config.validator_keys
    );
}

#[test]
fn test_discard_config_with_not_enough_confirms() {
    let mut testkit = testkit_with_supervisor(4);

    testkit.height += 1;
    before_transactions(&mut testkit);
    let base_consensus_config = testkit.core.consensus.validator_keys.clone();

    let cfg_change_height = 5;
    let consensus_config = consensus_config_propose_first_variant(&testkit);
    let propose = config_propose(
        &testkit,
        cfg_change_height,
        vec![ConfigChange::Consensus(consensus_config)],
    );
    let proposal_hash = object_hash(&propose);
    send_propose(&mut testkit, validator(0), propose)
        .expect("Transaction with change propose discarded.");

    // Sign the confirmation transaction by the second validator only.
    create_block(&mut testkit);
    send_confirm(&mut testkit, validator(1), proposal_hash)
        .expect("Transaction with confirmations discarded.");

    create_blocks_until(&mut testkit, cfg_change_height + 1);
    assert_eq!(config_propose_entry(&testkit), None);
    assert_eq!(testkit.core.consensus.validator_keys, base_consensus_config);
}

#[test]
fn test_apply_config_by_min_required_majority() {
    let mut testkit = testkit_with_supervisor(4);

    let cfg_change_height = CFG_CHANGE_HEIGHT;
    let consensus_config = consensus_config_propose_first_variant(&testkit);
    let propose = config_propose(
        &testkit,
        cfg_change_height,
        vec![ConfigChange::Consensus(consensus_config.dup())],
    );
    let proposal_hash = object_hash(&propose);

    send_propose(&mut testkit, validator(0), propose)
        .expect("Transaction with change propose discarded.");

    // Confirmation by the second validator.
    create_block(&mut testkit);
    send_confirm(&mut testkit, validator(1), proposal_hash)
        .expect("Transaction with confirmations discarded.");

    // Confirmation by the third validator reaches the majority of
    // 2/3+1 out of 4.
    create_block(&mut testkit);
    send_confirm(&mut testkit, validator(2), proposal_hash)
        .expect("Transaction with confirmation discarded.");

    create_blocks_until(&mut testkit, cfg_change_height);
    assert_eq!(config_propose_entry(&testkit), None);
    assert_eq!(
        testkit.core.consensus.validator_keys,
        consensus_config.validator_keys
    );
}

#[test]
fn test_send_confirmation_by_initiator() {
    let mut testkit = testkit_with_supervisor(4);

    let consensus_config = consensus_config_propose_first_variant(&testkit);
    let propose = config_propose(
        &testkit,
        CFG_CHANGE_HEIGHT,
        vec![ConfigChange::Consensus(consensus_config)],
    );
    let proposal_hash = object_hash(&propose);
    send_propose(&mut testkit, validator(0), propose)
        .expect("Transaction with change propose discarded.");

    // The initiator's vote was counted automatically: an explicit one
    // is a second vote.
    let status = send_confirm(&mut testkit, validator(0), proposal_hash);
    assert_eq!(status, Err(SupervisorError::AttemptToVoteTwice));
}

#[test]
fn test_propose_config_change_by_incorrect_validator() {
    let mut testkit = testkit_with_supervisor(1);

    let consensus_config = consensus_config_propose_first_variant(&testkit);
    let propose = config_propose(
        &testkit,
        CFG_CHANGE_HEIGHT,
        vec![ConfigChange::Consensus(consensus_config)],
    );

    let status = send_propose(&mut testkit, 777, propose);
    assert_eq!(status, Err(SupervisorError::UnknownAuthor));
}

#[test]
fn test_confirm_config_by_incorrect_validator() {
    let mut testkit = testkit_with_supervisor(1);

    let consensus_config = consensus_config_propose_first_variant(&testkit);
    let propose = config_propose(
        &testkit,
        CFG_CHANGE_HEIGHT,
        vec![ConfigChange::Consensus(consensus_config)],
    );
    let proposal_hash = object_hash(&propose);
    send_propose(&mut testkit, validator(0), propose)
        .expect("Transaction with change propose discarded.");

    let status = send_confirm(&mut testkit, 777, proposal_hash);
    assert_eq!(status, Err(SupervisorError::UnknownAuthor));
}

#[test]
fn test_try_confirm_non_existing_proposal() {
    let mut testkit = testkit_with_supervisor(4);

    let consensus_config = consensus_config_propose_first_variant(&testkit);
    let propose = config_propose(
        &testkit,
        CFG_CHANGE_HEIGHT,
        vec![ConfigChange::Consensus(consensus_config)],
    );
    send_propose(&mut testkit, validator(0), propose)
        .expect("Transaction with change propose discarded.");

    let wrong_hash = object_hash(&ConfigPropose {
        actual_from: 0,
        configuration_number: 999,
        changes: Vec::new(),
    });
    let status = send_confirm(&mut testkit, validator(1), wrong_hash);
    assert_eq!(status, Err(SupervisorError::ConfigProposeNotRegistered));
}

#[test]
fn test_service_config_change() {
    let mut testkit = testkit_with_supervisor_and_service(4);

    let params = "I am a new parameter".to_owned();
    let propose = config_propose(
        &testkit,
        CFG_CHANGE_HEIGHT,
        vec![service_config_change(&params)],
    );
    let proposal_hash = object_hash(&propose);

    send_propose(&mut testkit, validator(0), propose)
        .expect("Transaction with change propose discarded.");
    create_block(&mut testkit);
    send_confirm(&mut testkit, validator(1), proposal_hash)
        .expect("Transaction with confirmations discarded.");
    send_confirm(&mut testkit, validator(2), proposal_hash)
        .expect("Transaction with confirmations discarded.");

    create_blocks_until(&mut testkit, CFG_CHANGE_HEIGHT);

    assert_eq!(config_propose_entry(&testkit), None);
    assert_eq!(service_actual_param(&testkit), Some(params));
}

#[test]
fn test_discard_errored_service_config_change() {
    let mut testkit = testkit_with_supervisor_and_service(4);

    let params = "I am a discarded parameter".to_owned();
    let new_consensus_config = consensus_config_propose_first_variant(&testkit);

    let propose = config_propose(
        &testkit,
        CFG_CHANGE_HEIGHT,
        vec![
            service_config_change(&params),
            service_config_change("error"),
            ConfigChange::Consensus(new_consensus_config),
        ],
    );
    let status = send_propose(&mut testkit, validator(0), propose);
    assert_eq!(status, Err(SupervisorError::MalformedConfigPropose));

    assert_eq!(config_propose_entry(&testkit), None);
}

#[test]
fn test_discard_panicked_service_config_change() {
    let mut testkit = testkit_with_supervisor_and_service(4);

    let params = "I am a discarded parameter".to_owned();
    let new_consensus_config = consensus_config_propose_first_variant(&testkit);

    let propose = config_propose(
        &testkit,
        CFG_CHANGE_HEIGHT,
        vec![
            service_config_change(&params),
            service_config_change("panic"),
            ConfigChange::Consensus(new_consensus_config),
        ],
    );
    let status = send_propose(&mut testkit, validator(0), propose);
    assert_eq!(status, Err(SupervisorError::MalformedConfigPropose));

    assert_eq!(config_propose_entry(&testkit), None);
}

#[test]
fn test_incorrect_actual_from_field() {
    let mut testkit = testkit_with_supervisor_and_service(1);

    let params = "I am a new parameter".to_owned();
    create_blocks_until(&mut testkit, CFG_CHANGE_HEIGHT);

    let propose = config_propose(
        &testkit,
        CFG_CHANGE_HEIGHT,
        vec![service_config_change(&params)],
    );
    let status = send_propose(&mut testkit, validator(0), propose);
    assert_eq!(status, Err(SupervisorError::ActualFromIsPast));
}

#[test]
fn test_another_configuration_change_proposal() {
    let mut testkit = testkit_with_supervisor_and_service(4);
    let params = "I am a new parameter".to_owned();

    let cfg_change_height = CFG_CHANGE_HEIGHT;
    let propose = config_propose(
        &testkit,
        cfg_change_height,
        vec![service_config_change(&params)],
    );
    let proposal_hash = object_hash(&propose);
    send_propose(&mut testkit, validator(0), propose)
        .expect("Transaction with change propose discarded.");

    // Try to commit the second config change proposal.
    let second_propose = config_propose(
        &testkit,
        cfg_change_height,
        vec![service_config_change("I am an overridden parameter")],
    );
    let status = send_propose(&mut testkit, validator(0), second_propose);
    assert_eq!(status, Err(SupervisorError::ConfigProposeExists));

    create_block(&mut testkit);
    send_confirm(&mut testkit, validator(1), proposal_hash)
        .expect("Transaction with confirmations discarded.");
    send_confirm(&mut testkit, validator(2), proposal_hash)
        .expect("Transaction with confirmations discarded.");
    create_blocks_until(&mut testkit, cfg_change_height);

    assert_eq!(config_propose_entry(&testkit), None);
    assert_eq!(service_actual_param(&testkit), Some(params));
}

#[test]
fn test_service_config_discard_fake_supervisor() {
    let mut testkit = testkit_with_supervisor_and_service(1);
    let params = "I am a new parameter".to_owned();

    // A spoofed supervisor signs with a key outside the validator set.
    let propose = config_propose(
        &testkit,
        CFG_CHANGE_HEIGHT,
        vec![service_config_change(&params)],
    );
    let status = send_propose(&mut testkit, 424242, propose);
    assert_eq!(status, Err(SupervisorError::UnknownAuthor));
}

#[test]
fn test_test_configuration_and_rollbacks() {
    let mut testkit = testkit_with_supervisor(4);
    create_blocks_until(&mut testkit, CFG_CHANGE_HEIGHT);

    let cfg_change_height = testkit.height + 3;
    let old_config = testkit.core.consensus.validator_keys.clone();

    // Checkpoint: remember where the chain stood.
    let checkpoint_height = testkit.height;

    let new_config = consensus_config_propose_first_variant(&testkit);
    let propose = config_propose(
        &testkit,
        cfg_change_height,
        vec![ConfigChange::Consensus(new_config.dup())],
    );
    let proposal_hash = object_hash(&propose);
    send_propose(&mut testkit, validator(0), propose)
        .expect("Transaction with change propose discarded.");
    create_block(&mut testkit);
    send_confirm(&mut testkit, validator(1), proposal_hash)
        .expect("Transaction with confirmations discarded.");
    send_confirm(&mut testkit, validator(2), proposal_hash)
        .expect("Transaction with confirmations discarded.");

    create_blocks_until(&mut testkit, cfg_change_height);
    assert_eq!(config_propose_entry(&testkit), None);
    assert_eq!(testkit.core.consensus.validator_keys, new_config.validator_keys);

    // Creating one more block changes nothing.
    create_block(&mut testkit);
    assert_eq!(testkit.core.consensus.validator_keys, new_config.validator_keys);
    assert_eq!(config_propose_entry(&testkit), None);

    // Replaying the chain from the checkpoint without the proposal:
    // the proposal is effectively forgotten.
    let mut replay = testkit_with_supervisor(4);
    create_blocks_until(&mut replay, checkpoint_height);
    create_blocks_until(&mut replay, cfg_change_height);
    assert_eq!(replay.core.consensus.validator_keys, old_config);
    assert_eq!(config_propose_entry(&replay), None);
}

#[test]
fn test_service_config_discard_single_apply_error() {
    let mut testkit = testkit_with_supervisor_and_service(1);

    let params = "apply_error".to_owned();
    let propose = config_propose(
        &testkit,
        CFG_CHANGE_HEIGHT,
        vec![service_config_change(&params)],
    );
    send_propose(&mut testkit, validator(0), propose)
        .expect("Transaction with change propose discarded.");

    create_blocks_until(&mut testkit, CFG_CHANGE_HEIGHT + 1);
    assert_eq!(config_propose_entry(&testkit), None);
    assert_eq!(service_actual_param(&testkit), None);
}

#[test]
fn test_service_config_discard_single_apply_panic() {
    let mut testkit = testkit_with_supervisor_and_service(1);

    let params = "apply_panic".to_owned();
    let propose = config_propose(
        &testkit,
        CFG_CHANGE_HEIGHT,
        vec![service_config_change(&params)],
    );
    send_propose(&mut testkit, validator(0), propose)
        .expect("Transaction with change propose discarded.");
    create_blocks_until(&mut testkit, CFG_CHANGE_HEIGHT + 1);

    assert_eq!(config_propose_entry(&testkit), None);
    assert_eq!(service_actual_param(&testkit), None);
}

#[test]
fn test_services_config_apply_multiple_configs() {
    let mut testkit = testkit_with_supervisor_and_2_services(4);

    let params = "I am a new parameter".to_owned();
    let propose = config_propose(
        &testkit,
        CFG_CHANGE_HEIGHT,
        vec![
            service_config_change(&params),
            second_service_config_change(&params),
        ],
    );
    let proposal_hash = object_hash(&propose);

    send_propose(&mut testkit, validator(0), propose)
        .expect("Transaction with change propose discarded.");
    create_block(&mut testkit);
    send_confirm(&mut testkit, validator(1), proposal_hash)
        .expect("Transaction with confirmations discarded.");
    send_confirm(&mut testkit, validator(2), proposal_hash)
        .expect("Transaction with confirmations discarded.");
    create_blocks_until(&mut testkit, CFG_CHANGE_HEIGHT);

    assert_eq!(service_actual_param(&testkit), Some(params.clone()));
    assert_eq!(second_service_actual_param(&testkit), Some(params));
}

#[test]
fn test_services_config_discard_multiple_configs() {
    let mut testkit = testkit_with_supervisor_and_2_services(1);

    let params = "I am a new parameter".to_owned();
    let propose = config_propose(
        &testkit,
        CFG_CHANGE_HEIGHT,
        vec![
            service_config_change(&params),
            second_service_config_change(&params),
            second_service_config_change("I am a extra proposal"),
        ],
    );
    let status = send_propose(&mut testkit, validator(0), propose);
    assert_eq!(status, Err(SupervisorError::MalformedConfigPropose));

    assert_eq!(config_propose_entry(&testkit), None);
}

#[test]
fn test_several_service_config_changes() {
    let mut testkit = testkit_with_supervisor_and_service(4);

    for i in 1..5u64 {
        let cfg_change_height = testkit.height + 3;
        let params = format!("Change {}", i);

        let propose = config_propose(
            &testkit,
            cfg_change_height,
            vec![service_config_change(&params)],
        );
        let proposal_hash = object_hash(&propose);
        send_propose(&mut testkit, validator(0), propose)
            .expect("Transaction with change propose discarded.");

        create_block(&mut testkit);
        send_confirm(&mut testkit, validator(1), proposal_hash).unwrap();
        send_confirm(&mut testkit, validator(2), proposal_hash).unwrap();

        create_blocks_until(&mut testkit, cfg_change_height);
        assert_eq!(config_propose_entry(&testkit), None);
    }

    assert_eq!(service_actual_param(&testkit), Some("Change 4".to_string()));
}

#[test]
fn actual_from_zero_takes_next_height() {
    let mut testkit = testkit_with_supervisor(1);
    let consensus_config = consensus_config_propose_first_variant(&testkit);

    let propose = config_propose(&testkit, 0, vec![ConfigChange::Consensus(consensus_config)]);
    send_propose(&mut testkit, validator(0), propose).unwrap();

    let entry = testkit.schema.pending_proposal.as_ref().unwrap();
    assert_eq!(entry.config_propose.actual_from, testkit.height + 1);
}

#[test]
fn incorrect_configuration_number_is_rejected() {
    let mut testkit = testkit_with_supervisor(1);
    let consensus_config = consensus_config_propose_first_variant(&testkit);

    let propose = ConfigPropose {
        actual_from: CFG_CHANGE_HEIGHT,
        configuration_number: testkit.schema.configuration_number + 1,
        changes: vec![ConfigChange::Consensus(consensus_config)],
    };
    let status = send_propose(&mut testkit, validator(0), propose);
    assert_eq!(status, Err(SupervisorError::IncorrectConfigurationNumber));
}

#[test]
fn configuration_number_advances_per_accepted_proposal() {
    let mut testkit = testkit_with_supervisor(1);

    assert_eq!(testkit.schema.configuration_number, 0);
    let first = config_propose(
        &testkit,
        0,
        vec![ConfigChange::Consensus(consensus_config_propose_first_variant(&testkit))],
    );
    send_propose(&mut testkit, validator(0), first).unwrap();
    assert_eq!(testkit.schema.configuration_number, 1);

    let target = testkit.height + 2;
    create_blocks_until(&mut testkit, target);
    let second = config_propose(
        &testkit,
        0,
        vec![ConfigChange::Consensus(consensus_config_propose_second_variant(&testkit))],
    );
    assert_eq!(second.configuration_number, 1);
    send_propose(&mut testkit, validator(0), second).unwrap();
    assert_eq!(testkit.schema.configuration_number, 2);
}

#[test]
fn propose_hash_is_deterministic() {
    let testkit = testkit_with_supervisor(2);
    let change = ConfigChange::Consensus(consensus_config_propose_first_variant(&testkit));
    let copy = match &change {
        ConfigChange::Consensus(c) => ConfigChange::Consensus(ConsensusConfig {
            validator_keys: c.validator_keys.clone(),
        }),
        _ => unreachable!(),
    };
    let a = config_propose(&testkit, 7, vec![change]);
    let b = config_propose(&testkit, 7, vec![copy]);
    assert_eq!(object_hash(&a), object_hash(&b));

    let other = config_propose(&testkit, 8, Vec::new());
    assert_ne!(object_hash(&a), object_hash(&other));
}

#[test]
fn hook_caller_cannot_send_transactions() {
    let mut testkit = testkit_with_supervisor(1);
    let consensus_config = consensus_config_propose_first_variant(&testkit);

    let propose = config_propose(
        &testkit,
        CFG_CHANGE_HEIGHT,
        vec![ConfigChange::Consensus(consensus_config)],
    );
    testkit.caller = Caller::Blockchain;
    let status = Supervisor.propose_config_change(&mut testkit, propose);
    assert_eq!(status, Err(SupervisorError::UnauthorizedCaller));
}

#[test]
fn vote_at_the_effective_height_is_too_late() {
    let mut testkit = testkit_with_supervisor(4);
    let consensus_config = consensus_config_propose_first_variant(&testkit);

    let propose = config_propose(
        &testkit,
        CFG_CHANGE_HEIGHT,
        vec![ConfigChange::Consensus(consensus_config)],
    );
    let proposal_hash = object_hash(&propose);
    send_propose(&mut testkit, validator(0), propose).unwrap();

    // Reach the effective height; the proposal is settled by the hook
    // and a vote sent in the same block is too late. The vote runs
    // before the hook here, against the still-pending proposal.
    testkit.height = CFG_CHANGE_HEIGHT;
    let status = send_confirm(&mut testkit, validator(1), proposal_hash);
    assert_eq!(status, Err(SupervisorError::DeadlineExceeded));
}

#[test]
fn instances_are_found_by_id_and_name() {
    let testkit = testkit_with_supervisor_and_service(1);

    let by_id = supervisor::transactions::get_instance(&testkit, 2).unwrap();
    assert_eq!(by_id.name, "config-change");
    let by_name = supervisor::transactions::get_instance_by_name(&testkit, "config-change").unwrap();
    assert_eq!(by_name.id, 2);

    assert_eq!(
        supervisor::transactions::get_instance(&testkit, 9).unwrap_err(),
        SupervisorError::MalformedConfigPropose
    );
    assert_eq!(
        supervisor::transactions::get_instance_by_name(&testkit, "missing").unwrap_err(),
        SupervisorError::MalformedConfigPropose
    );
}
