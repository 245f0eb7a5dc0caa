//! The supervisor's world state: the consensus core and dispatcher
//! view, the runtime host's observable behaviour, the supervisor's own
//! persistent schema, and the execution context a transaction runs in.

use vstd::prelude::*;

use crate::confirms::Confirmations;
use crate::tables::{ListMap, ListSet, TableKey};
use crate::types::{ArtifactId, ArtifactIdView, AsyncEventState, ConfigProposalWithHash,
    ConfigProposalWithHashView, ConsensusConfig, ConsensusConfigView, DeployRequest,
    DeployRequestView, InstanceState, InstanceStateView, MigrationRequest, MigrationRequestView,
    MigrationState, MigrationType, SupervisorError, Action, ActionView, actions_view};

verus! {

/// The abstract values of the instance list.
pub open spec fn instances_view(s: Seq<InstanceState>) -> Seq<InstanceStateView> {
    s.map_values(|i: InstanceState| i@)
}

/// Consensus state and dispatcher registry as the supervisor reads
/// them at the current height.
pub struct CoreState {
    /// Current consensus parameters, with the validator key list.
    pub consensus: ConsensusConfig,
    /// Artifacts registered and active in the dispatcher.
    pub artifacts: ListSet<ArtifactId>,
    /// Service instances known to the dispatcher.
    pub instances: Vec<InstanceState>,
}

/// Abstract value of a [`CoreState`].
pub ghost struct CoreStateView {
    pub consensus: ConsensusConfigView,
    pub artifacts: Set<ArtifactIdView>,
    pub instances: Seq<InstanceStateView>,
}

impl View for CoreState {
    type V = CoreStateView;

    open spec fn view(&self) -> CoreStateView {
        CoreStateView {
            consensus: self.consensus@,
            artifacts: self.artifacts@,
            instances: instances_view(self.instances@),
        }
    }
}

impl CoreStateView {
    /// Some instance carries the identifier `id`.
    pub open spec fn has_instance_with_id(self, id: u32) -> bool {
        exists|i: int| 0 <= i < self.instances.len() && self.instances[i].id == id
    }

    /// The instance carrying the identifier `id`.
    pub open spec fn instance_by_id(self, id: u32) -> InstanceStateView {
        self.instances[choose|i: int| 0 <= i < self.instances.len() && self.instances[i].id == id]
    }

    /// Some instance carries the name `name`.
    pub open spec fn has_instance_with_name(self, name: Seq<char>) -> bool {
        exists|i: int| 0 <= i < self.instances.len() && self.instances[i].name == name
    }

    /// The instance carrying the name `name`.
    pub open spec fn instance_by_name(self, name: Seq<char>) -> InstanceStateView {
        self.instances[choose|i: int|
            0 <= i < self.instances.len() && self.instances[i].name == name]
    }

    /// Well-formedness: valid consensus parameters small enough for
    /// threshold arithmetic, and instances with distinct identifiers
    /// and names.
    pub open spec fn wf(self) -> bool {
        &&& self.consensus.is_valid()
        &&& 2 * self.consensus.validator_keys.len() <= usize::MAX
        &&& forall|i: int, j: int| 0 <= i < j < self.instances.len() ==> self.instances[i].id
            != self.instances[j].id
        &&& forall|i: int, j: int| 0 <= i < j < self.instances.len() ==> self.instances[i].name
            != self.instances[j].name
    }
}

/// The unique index of the instance carrying `id`.
pub proof fn lemma_instance_by_id(c: CoreStateView, i: int)
    requires
        c.wf(),
        0 <= i < c.instances.len(),
    ensures
        c.has_instance_with_id(c.instances[i].id),
        c.instance_by_id(c.instances[i].id) == c.instances[i],
{
    let id = c.instances[i].id;
    assert(c.has_instance_with_id(id));
    let j = choose|j: int| 0 <= j < c.instances.len() && c.instances[j].id == id;
    if i < j {
        assert(c.instances[i].id != c.instances[j].id);
    } else if j < i {
        assert(c.instances[j].id != c.instances[i].id);
    }
}

/// The unique index of the instance carrying `name`.
pub proof fn lemma_instance_by_name(c: CoreStateView, i: int)
    requires
        c.wf(),
        0 <= i < c.instances.len(),
    ensures
        c.has_instance_with_name(c.instances[i].name),
        c.instance_by_name(c.instances[i].name) == c.instances[i],
{
    let name = c.instances[i].name;
    assert(c.has_instance_with_name(name));
    let j = choose|j: int| 0 <= j < c.instances.len() && c.instances[j].name == name;
    if i < j {
        assert(c.instances[i].name != c.instances[j].name);
    } else if j < i {
        assert(c.instances[j].name != c.instances[i].name);
    }
}

impl CoreState {
    /// Well-formedness of the core state and its backing tables.
    pub open spec fn wf(&self) -> bool {
        self@.wf() && self.artifacts.wf()
    }

    /// Duplicates the core state.
    pub fn dup(&self) -> (r: Self)
        requires
            self.wf(),
        ensures
            r.wf(),
            r@ == self@,
    {
        let n = self.instances.len();
        let mut instances: Vec<InstanceState> = Vec::new();
        let mut i: usize = 0;
        while i < n
            invariant
                n == self.instances@.len(),
                i <= n,
                instances@.len() == i,
                forall|j: int| 0 <= j < i ==> #[trigger] instances@[j]@ == self.instances@[j]@,
            decreases n - i,
        {
            instances.push(self.instances[i].dup());
            i += 1;
        }
        let r = CoreState {
            consensus: self.consensus.dup(),
            artifacts: self.artifacts.dup(),
            instances,
        };
        proof {
            assert(instances_view(r.instances@) =~= instances_view(self.instances@));
        }
        r
    }

    /// Index of the instance carrying `id`.
    pub fn find_instance_by_id(&self, id: u32) -> (r: Option<usize>)
        requires
            self@.wf(),
        ensures
            match r {
                Some(i) => i < self@.instances.len() && self@.instances[i as int].id == id
                    && self@.has_instance_with_id(id) && self@.instance_by_id(id)
                    == self@.instances[i as int],
                None => !self@.has_instance_with_id(id),
            },
    {
        let n = self.instances.len();
        let mut i: usize = 0;
        while i < n
            invariant
                n == self.instances@.len(),
                i <= n,
                self@.wf(),
                forall|j: int| 0 <= j < i ==> self@.instances[j].id != id,
            decreases n - i,
        {
            proof {
                assert(self@.instances[i as int] == self.instances@[i as int]@);
            }
            if self.instances[i].id == id {
                proof {
                    lemma_instance_by_id(self@, i as int);
                }
                return Some(i);
            }
            i += 1;
        }
        None
    }

    /// Replaces the instance at `idx` with a record carrying the same
    /// identifier and name.
    pub fn replace_instance(&mut self, idx: usize, inst: InstanceState)
        requires
            old(self).wf(),
            idx < old(self)@.instances.len(),
            inst@.id == old(self)@.instances[idx as int].id,
            inst@.name == old(self)@.instances[idx as int].name,
        ensures
            final(self).wf(),
            final(self)@ == (CoreStateView {
                instances: old(self)@.instances.update(idx as int, inst@),
                ..old(self)@
            }),
    {
        let ghost s0 = self.instances@;
        let ghost iv = inst@;
        self.instances.remove(idx);
        self.instances.insert(idx, inst);
        proof {
            assert(self.instances@ =~= s0.update(idx as int, self.instances@[idx as int]));
            assert(instances_view(self.instances@) =~= instances_view(s0).update(
                idx as int,
                iv,
            ));
            assert forall|i: int, j: int|
                0 <= i < j < self@.instances.len() implies self@.instances[i].id
                != self@.instances[j].id && self@.instances[i].name != self@.instances[j].name by {
                assert(old(self)@.instances[i].id != old(self)@.instances[j].id);
                assert(old(self)@.instances[i].name != old(self)@.instances[j].name);
            }
        }
    }

    /// Appends an instance whose identifier and name are fresh.
    pub fn push_instance(&mut self, inst: InstanceState)
        requires
            old(self).wf(),
            forall|i: int| 0 <= i < old(self)@.instances.len() ==> old(self)@.instances[i].id
                != inst@.id && old(self)@.instances[i].name != inst@.name,
        ensures
            final(self).wf(),
            final(self)@ == (CoreStateView {
                instances: old(self)@.instances.push(inst@),
                ..old(self)@
            }),
    {
        let ghost s0 = self.instances@;
        let ghost iv = inst@;
        self.instances.push(inst);
        proof {
            assert(instances_view(self.instances@) =~= instances_view(s0).push(iv));
        }
    }

    /// Index of the instance carrying `name`.
    pub fn find_instance_by_name(&self, name: &str) -> (r: Option<usize>)
        requires
            self@.wf(),
        ensures
            match r {
                Some(i) => i < self@.instances.len() && self@.instances[i as int].name == name@
                    && self@.has_instance_with_name(name@) && self@.instance_by_name(name@)
                    == self@.instances[i as int],
                None => !self@.has_instance_with_name(name@),
            },
    {
        let n = self.instances.len();
        let mut i: usize = 0;
        while i < n
            invariant
                n == self.instances@.len(),
                i <= n,
                self@.wf(),
                forall|j: int| 0 <= j < i ==> self@.instances[j].name != name@,
            decreases n - i,
        {
            proof {
                assert(self@.instances[i as int] == self.instances@[i as int]@);
            }
            if crate::types::str_eq(self.instances[i].name.as_str(), name) {
                proof {
                    lemma_instance_by_name(self@, i as int);
                }
                return Some(i);
            }
            i += 1;
        }
        None
    }
}

/// Observable behaviour of the runtime host and the services, carried
/// as data so that every decision the supervisor takes is a function
/// of its inputs.
pub struct RuntimeEnv {
    /// Runtimes advertising the service-freezing capability.
    pub freezing_runtimes: Vec<u32>,
    /// Service parameters the target service rejects when verified.
    pub verify_rejects: Vec<String>,
    /// Service parameters the target service rejects when applied.
    pub apply_rejects: Vec<String>,
    /// Artifacts whose migrations need no data transform.
    pub fast_forward_artifacts: Vec<ArtifactId>,
    /// Artifacts whose migrations fail to start.
    pub failing_migrations: Vec<ArtifactId>,
}

/// Abstract value of a [`RuntimeEnv`].
pub ghost struct RuntimeEnvView {
    pub freezing_runtimes: Seq<u32>,
    pub verify_rejects: Seq<Seq<char>>,
    pub apply_rejects: Seq<Seq<char>>,
    pub fast_forward_artifacts: Seq<ArtifactIdView>,
    pub failing_migrations: Seq<ArtifactIdView>,
}

impl View for RuntimeEnv {
    type V = RuntimeEnvView;

    open spec fn view(&self) -> RuntimeEnvView {
        RuntimeEnvView {
            freezing_runtimes: self.freezing_runtimes@,
            verify_rejects: self.verify_rejects@.map_values(|s: String| s@),
            apply_rejects: self.apply_rejects@.map_values(|s: String| s@),
            fast_forward_artifacts: self.fast_forward_artifacts@.map_values(
                |a: ArtifactId| a@,
            ),
            failing_migrations: self.failing_migrations@.map_values(|a: ArtifactId| a@),
        }
    }
}

/// Failure code the model reports when a migration cannot start.
pub const INITIATE_FAILURE_CODE: u64 = 1;

/// What the runtime answers when asked to start the migration of
/// `artifact`.
pub open spec fn spec_initiate_outcome(env: RuntimeEnvView, artifact: ArtifactIdView) -> Result<
    MigrationType,
    u64,
> {
    if env.failing_migrations.contains(artifact) {
        Err(INITIATE_FAILURE_CODE)
    } else if env.fast_forward_artifacts.contains(artifact) {
        Ok(MigrationType::FastForward)
    } else {
        Ok(MigrationType::Async)
    }
}

impl RuntimeEnv {
    /// True when the runtime `runtime_id` supports freezing services.
    pub fn supports_freezing(&self, runtime_id: u32) -> (b: bool)
        ensures
            b == self@.freezing_runtimes.contains(runtime_id),
    {
        let n = self.freezing_runtimes.len();
        let mut i: usize = 0;
        while i < n
            invariant
                n == self.freezing_runtimes@.len(),
                i <= n,
                forall|j: int| 0 <= j < i ==> self.freezing_runtimes@[j] != runtime_id,
            decreases n - i,
        {
            if self.freezing_runtimes[i] == runtime_id {
                return true;
            }
            i += 1;
        }
        false
    }

    /// True when the target service accepts `params` at verification.
    pub fn verify_config_ok(&self, params: &String) -> (b: bool)
        ensures
            b == !self@.verify_rejects.contains(params@),
    {
        let n = self.verify_rejects.len();
        let mut i: usize = 0;
        while i < n
            invariant
                n == self.verify_rejects@.len(),
                i <= n,
                forall|j: int| 0 <= j < i ==> self@.verify_rejects[j] != params@,
            decreases n - i,
        {
            proof {
                assert(self@.verify_rejects[i as int] == self.verify_rejects@[i as int]@);
            }
            if crate::types::str_eq(self.verify_rejects[i].as_str(), params.as_str()) {
                return false;
            }
            i += 1;
        }
        true
    }

    /// True when the target service accepts `params` when they are
    /// applied.
    pub fn apply_config_ok(&self, params: &String) -> (b: bool)
        ensures
            b == !self@.apply_rejects.contains(params@),
    {
        let n = self.apply_rejects.len();
        let mut i: usize = 0;
        while i < n
            invariant
                n == self.apply_rejects@.len(),
                i <= n,
                forall|j: int| 0 <= j < i ==> self@.apply_rejects[j] != params@,
            decreases n - i,
        {
            proof {
                assert(self@.apply_rejects[i as int] == self.apply_rejects@[i as int]@);
            }
            if crate::types::str_eq(self.apply_rejects[i].as_str(), params.as_str()) {
                return false;
            }
            i += 1;
        }
        true
    }

    /// Asks the runtime to start the migration of `artifact`.
    pub fn initiate_outcome(&self, artifact: &ArtifactId) -> (r: Result<MigrationType, u64>)
        ensures
            r == spec_initiate_outcome(self@, artifact@),
    {
        let mut n = self.failing_migrations.len();
        let mut i: usize = 0;
        while i < n
            invariant
                n == self.failing_migrations@.len(),
                i <= n,
                forall|j: int| 0 <= j < i ==> self@.failing_migrations[j] != artifact@,
            decreases n - i,
        {
            proof {
                assert(self@.failing_migrations[i as int] == self.failing_migrations@[i as int]@);
            }
            if self.failing_migrations[i].key_eq(artifact) {
                return Err(INITIATE_FAILURE_CODE);
            }
            i += 1;
        }
        n = self.fast_forward_artifacts.len();
        i = 0;
        while i < n
            invariant
                n == self.fast_forward_artifacts@.len(),
                i <= n,
                !self@.failing_migrations.contains(artifact@),
                forall|j: int| 0 <= j < i ==> self@.fast_forward_artifacts[j] != artifact@,
            decreases n - i,
        {
            proof {
                assert(self@.fast_forward_artifacts[i as int]
                    == self.fast_forward_artifacts@[i as int]@);
            }
            if self.fast_forward_artifacts[i].key_eq(artifact) {
                return Ok(MigrationType::FastForward);
            }
            i += 1;
        }
        Ok(MigrationType::Async)
    }
}

/// The supervisor's persistent schema: one value per table of the
/// service's storage partition.
pub struct SupervisorSchema {
    /// The at-most-one active proposal.
    pub pending_proposal: Option<ConfigProposalWithHash>,
    /// Monotone counter of accepted proposals.
    pub configuration_number: u64,
    /// Votes for config proposals, keyed by proposal digest.
    pub config_confirms: Confirmations<u64>,
    /// Approvals of deploy requests.
    pub deploy_requests: Confirmations<DeployRequest>,
    /// Local-success reports of deploy requests.
    pub deploy_confirmations: Confirmations<DeployRequest>,
    /// Lifecycle of deploy requests.
    pub deploy_states: ListMap<DeployRequest, AsyncEventState>,
    /// Approved in-flight deployments, keyed by artifact.
    pub pending_deployments: ListMap<ArtifactId, DeployRequest>,
    /// Approvals of migration requests.
    pub migration_requests: Confirmations<MigrationRequest>,
    /// Local state-hash reports of migration requests.
    pub migration_confirmations: Confirmations<MigrationRequest>,
    /// Lifecycle and agreed hash of migration requests.
    pub migration_states: ListMap<MigrationRequest, MigrationState>,
    /// Migrations still running somewhere.
    pub pending_migrations: ListSet<MigrationRequest>,
    /// Agreed migrations to flush on the next block.
    pub migrations_to_flush: ListSet<MigrationRequest>,
}

/// Abstract value of a [`SupervisorSchema`].
pub ghost struct SchemaView {
    pub pending_proposal: Option<ConfigProposalWithHashView>,
    pub configuration_number: u64,
    pub config_confirms: Map<u64, Set<u64>>,
    pub deploy_requests: Map<DeployRequestView, Set<u64>>,
    pub deploy_confirmations: Map<DeployRequestView, Set<u64>>,
    pub deploy_states: Map<DeployRequestView, AsyncEventState>,
    pub pending_deployments: Map<ArtifactIdView, DeployRequestView>,
    pub migration_requests: Map<MigrationRequestView, Set<u64>>,
    pub migration_confirmations: Map<MigrationRequestView, Set<u64>>,
    pub migration_states: Map<MigrationRequestView, MigrationState>,
    pub pending_migrations: Set<MigrationRequestView>,
    pub migrations_to_flush: Set<MigrationRequestView>,
}

impl View for SupervisorSchema {
    type V = SchemaView;

    open spec fn view(&self) -> SchemaView {
        SchemaView {
            pending_proposal: match self.pending_proposal {
                Some(ref p) => Some(p@),
                None => None,
            },
            configuration_number: self.configuration_number,
            config_confirms: self.config_confirms@,
            deploy_requests: self.deploy_requests@,
            deploy_confirmations: self.deploy_confirmations@,
            deploy_states: self.deploy_states@,
            pending_deployments: self.pending_deployments@,
            migration_requests: self.migration_requests@,
            migration_confirmations: self.migration_confirmations@,
            migration_states: self.migration_states@,
            pending_migrations: self.pending_migrations@,
            migrations_to_flush: self.migrations_to_flush@,
        }
    }
}

impl SupervisorSchema {
    /// All backing tables are well formed.
    pub open spec fn wf(&self) -> bool {
        &&& self.config_confirms.wf()
        &&& self.deploy_requests.wf()
        &&& self.deploy_confirmations.wf()
        &&& self.deploy_states.wf()
        &&& self.pending_deployments.wf()
        &&& self.migration_requests.wf()
        &&& self.migration_confirmations.wf()
        &&& self.migration_states.wf()
        &&& self.pending_migrations.wf()
        &&& self.migrations_to_flush.wf()
    }

    /// Creates the schema of a fresh supervisor: no proposal, counter
    /// at zero, all tables empty.
    pub fn new() -> (r: Self)
        ensures
            r.wf(),
            r@.pending_proposal is None,
            r@.configuration_number == 0,
            r@.config_confirms == Map::<u64, Set<u64>>::empty(),
            r@.deploy_requests == Map::<DeployRequestView, Set<u64>>::empty(),
            r@.deploy_confirmations == Map::<DeployRequestView, Set<u64>>::empty(),
            r@.deploy_states == Map::<DeployRequestView, AsyncEventState>::empty(),
            r@.pending_deployments == Map::<ArtifactIdView, DeployRequestView>::empty(),
            r@.migration_requests == Map::<MigrationRequestView, Set<u64>>::empty(),
            r@.migration_confirmations == Map::<MigrationRequestView, Set<u64>>::empty(),
            r@.migration_states == Map::<MigrationRequestView, MigrationState>::empty(),
            r@.pending_migrations == Set::<MigrationRequestView>::empty(),
            r@.migrations_to_flush == Set::<MigrationRequestView>::empty(),
    {
        SupervisorSchema {
            pending_proposal: None,
            configuration_number: 0,
            config_confirms: Confirmations::new(),
            deploy_requests: Confirmations::new(),
            deploy_confirmations: Confirmations::new(),
            deploy_states: ListMap::new(),
            pending_deployments: ListMap::new(),
            migration_requests: Confirmations::new(),
            migration_confirmations: Confirmations::new(),
            migration_states: ListMap::new(),
            pending_migrations: ListSet::new(),
            migrations_to_flush: ListSet::new(),
        }
    }
}

/// Who invokes a supervisor method.
#[derive(Clone, Copy, PartialEq, Eq, Structural, Debug)]
pub enum Caller {
    /// A signed transaction from the given author.
    Transaction { author: u64 },
    /// The blockchain core itself (the epoch hook).
    Blockchain,
}

/// Everything one supervisor call can read and write: the block height,
/// the caller, the mode, the core and dispatcher view, the supervisor's
/// schema, the runtime's observable behaviour, and the calls made into
/// the collaborators so far.
pub struct ExecutionContext {
    /// Height of the block being executed.
    pub height: u64,
    /// Who makes the call.
    pub caller: Caller,
    /// The supervisor's approval mode.
    pub mode: crate::SupervisorMode,
    /// Consensus and dispatcher state.
    pub core: CoreState,
    /// The supervisor's schema.
    pub schema: SupervisorSchema,
    /// The runtime host's observable behaviour.
    pub env: RuntimeEnv,
    /// Calls made into the collaborators, oldest first.
    pub actions: Vec<Action>,
}

/// Abstract value of an [`ExecutionContext`].
pub ghost struct CtxView {
    pub height: u64,
    pub caller: Caller,
    pub mode: crate::SupervisorMode,
    pub core: CoreStateView,
    pub schema: SchemaView,
    pub env: RuntimeEnvView,
    pub actions: Seq<ActionView>,
}

impl View for ExecutionContext {
    type V = CtxView;

    open spec fn view(&self) -> CtxView {
        CtxView {
            height: self.height,
            caller: self.caller,
            mode: self.mode,
            core: self.core@,
            schema: self.schema@,
            env: self.env@,
            actions: actions_view(self.actions@),
        }
    }
}

impl ExecutionContext {
    /// Well-formedness of the whole context.
    pub open spec fn wf(&self) -> bool {
        self.core.wf() && self.schema.wf()
    }
}

/// Outcome of the validator gate over an abstract context.
pub open spec fn spec_get_validator(c: CtxView) -> Result<u64, SupervisorError> {
    match c.caller {
        Caller::Blockchain => Err(SupervisorError::UnauthorizedCaller),
        Caller::Transaction { author } => if c.core.consensus.validator_keys.contains(author) {
            Ok(author)
        } else {
            Err(SupervisorError::UnknownAuthor)
        },
    }
}

/// Checks that the method was called by a transaction whose author is a
/// current validator, and hands the author back.
pub fn get_validator(ctx: &ExecutionContext) -> (r: Result<u64, SupervisorError>)
    ensures
        r == spec_get_validator(ctx@),
{
    let author = match ctx.caller {
        Caller::Transaction { author } => author,
        Caller::Blockchain => {
            return Err(SupervisorError::UnauthorizedCaller);
        },
    };
    let n = ctx.core.consensus.validator_keys.len();
    let mut i: usize = 0;
    while i < n
        invariant
            n == ctx.core.consensus.validator_keys@.len(),
            i <= n,
            ctx.caller == (Caller::Transaction { author }),
            forall|j: int| 0 <= j < i ==> ctx.core.consensus.validator_keys@[j] != author,
        decreases n - i,
    {
        if ctx.core.consensus.validator_keys[i] == author {
            proof {
                assert(ctx.core.consensus.validator_keys@.contains(author));
                assert(ctx@.core.consensus.validator_keys
                    == ctx.core.consensus.validator_keys@);
                assert(ctx@.caller == Caller::Transaction { author });
            }
            return Ok(author);
        }
        i += 1;
    }
    proof {
        assert(!ctx@.core.consensus.validator_keys.contains(author));
    }
    Err(SupervisorError::UnknownAuthor)
}

} // verus!
