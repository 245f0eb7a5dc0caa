//! Plain data model of the supervisor's world: artifacts, service
//! instances, governance requests, lifecycle states and errors.
//!
//! Validators are identified by their stable service keys, modeled as
//! integers; hashes are modeled as 64-bit digests. Every compound type
//! carries a view so that contracts speak of abstract values.

use vstd::prelude::*;
use vstd::string::StrSliceExecFns;

use crate::tables::TableKey;

verus! {

/// A totally ordered artifact version.
#[derive(Clone, Copy, PartialEq, Eq, Structural, Debug)]
pub struct Version {
    pub major: u64,
    pub minor: u64,
    pub patch: u64,
}

impl View for Version {
    type V = Version;

    open spec fn view(&self) -> Version {
        *self
    }
}

/// A character accepted in artifact and instance names.
pub open spec fn is_allowed_name_char(c: char) -> bool {
    ('a' <= c && c <= 'z') || ('A' <= c && c <= 'Z') || ('0' <= c && c <= '9') || c == '-' || c
        == '_' || c == '.' || c == ':' || c == '/'
}

/// A valid name: non-empty, at most 255 characters, all from the
/// allowed set.
pub open spec fn is_valid_name(s: Seq<char>) -> bool {
    1 <= s.len() <= 255 && forall|i: int| 0 <= i < s.len() ==> is_allowed_name_char(s[i])
}

/// Decides name validity.
pub fn check_valid_name(s: &str) -> (r: bool)
    ensures
        r == is_valid_name(s@),
{
    let n = s.unicode_len();
    if n == 0 || n > 255 {
        return false;
    }
    let mut i: usize = 0;
    while i < n
        invariant
            n == s@.len(),
            1 <= n <= 255,
            i <= n,
            forall|j: int| 0 <= j < i ==> is_allowed_name_char(s@[j]),
        decreases n - i,
    {
        let c = s.get_char(i);
        let ok = ('a' <= c && c <= 'z') || ('A' <= c && c <= 'Z') || ('0' <= c && c <= '9') || c
            == '-' || c == '_' || c == '.' || c == ':' || c == '/';
        if !ok {
            return false;
        }
        i += 1;
    }
    true
}

/// Identifier of an executable artifact.
#[derive(Debug)]
pub struct ArtifactId {
    pub runtime_id: u32,
    pub name: String,
    pub version: Version,
}

/// Abstract value of an [`ArtifactId`].
pub ghost struct ArtifactIdView {
    pub runtime_id: u32,
    pub name: Seq<char>,
    pub version: Version,
}

impl View for ArtifactId {
    type V = ArtifactIdView;

    open spec fn view(&self) -> ArtifactIdView {
        ArtifactIdView { runtime_id: self.runtime_id, name: self.name@, version: self.version }
    }
}

impl TableKey for ArtifactId {
    fn key_eq(&self, other: &Self) -> (b: bool)
        ensures
            b == (self@ == other@),
    {
        self.runtime_id == other.runtime_id && self.name == other.name && self.version.major
            == other.version.major && self.version.minor == other.version.minor
            && self.version.patch == other.version.patch
    }

    fn dup(&self) -> (r: Self)
        ensures
            r@ == self@,
    {
        ArtifactId { runtime_id: self.runtime_id, name: self.name.clone(), version: self.version }
    }
}

/// A well-formed artifact identifier: its name is a valid name.
pub open spec fn artifact_valid(a: ArtifactIdView) -> bool {
    is_valid_name(a.name)
}

impl ArtifactId {
    /// A well-formed identifier: its name is a valid name.
    pub open spec fn is_valid(self) -> bool {
        artifact_valid(self@)
    }

    /// Decides identifier validity.
    pub fn validate(&self) -> (r: bool)
        ensures
            r == self.is_valid(),
    {
        check_valid_name(self.name.as_str())
    }
}

/// Lifecycle status of a service instance.
#[derive(Clone, Copy, PartialEq, Eq, Structural, Debug)]
pub enum InstanceStatus {
    Active,
    Stopped,
    Frozen,
    Migrating,
}

impl InstanceStatus {
    /// Only an active service may be stopped.
    pub open spec fn can_be_stopped(self) -> bool {
        self is Active
    }

    /// Only an active service may be frozen.
    pub open spec fn can_be_frozen(self) -> bool {
        self is Active
    }

    /// Only a frozen service may be resumed.
    pub open spec fn can_be_resumed(self) -> bool {
        self is Frozen
    }
}

/// A service instance as the dispatcher sees it.
#[derive(Debug)]
pub struct InstanceState {
    pub id: u32,
    pub name: String,
    pub artifact: ArtifactId,
    pub status: InstanceStatus,
    pub data_version: Version,
    pub params: Option<String>,
}

/// Abstract value of an [`InstanceState`].
pub ghost struct InstanceStateView {
    pub id: u32,
    pub name: Seq<char>,
    pub artifact: ArtifactIdView,
    pub status: InstanceStatus,
    pub data_version: Version,
    pub params: Option<Seq<char>>,
}

impl View for InstanceState {
    type V = InstanceStateView;

    open spec fn view(&self) -> InstanceStateView {
        InstanceStateView {
            id: self.id,
            name: self.name@,
            artifact: self.artifact@,
            status: self.status,
            data_version: self.data_version,
            params: match self.params {
                Some(ref p) => Some(p@),
                None => None,
            },
        }
    }
}

impl InstanceStateView {
    /// The instance's artifact association is intact: its data version
    /// matches its artifact's version.
    pub open spec fn has_associated_artifact(self) -> bool {
        self.data_version == self.artifact.version
    }
}

impl InstanceState {
    /// Duplicates the instance record.
    pub fn dup(&self) -> (r: Self)
        ensures
            r@ == self@,
    {
        InstanceState {
            id: self.id,
            name: self.name.clone(),
            artifact: self.artifact.dup(),
            status: self.status,
            data_version: self.data_version,
            params: match &self.params {
                Some(p) => Some(p.clone()),
                None => None,
            },
        }
    }
}

/// Error classes of the supervisor's transactions.
#[derive(Clone, Copy, PartialEq, Eq, Structural, Debug)]
pub enum SupervisorError {
    /// The call does not come from a signed transaction.
    UnauthorizedCaller,
    /// The author is not a validator in the current consensus view.
    UnknownAuthor,
    /// A config-change proposal breaks one of the verification rules.
    MalformedConfigPropose,
    /// Another proposal is already pending.
    ConfigProposeExists,
    /// No proposal with the referenced hash is pending.
    ConfigProposeNotRegistered,
    /// The proposal's configuration number is not the expected one.
    IncorrectConfigurationNumber,
    /// The author has already voted for the pending proposal.
    AttemptToVoteTwice,
    /// The effective height of the request is not in the future.
    ActualFromIsPast,
    /// The deadline height was reached.
    DeadlineExceeded,
    /// The artifact identifier is malformed.
    InvalidArtifactId,
    /// The artifact is already registered in the dispatcher.
    AlreadyDeployed,
    /// The author has already confirmed this deploy request.
    DeployRequestAlreadyRegistered,
    /// No matching deploy request is registered.
    DeployRequestNotRegistered,
    /// The instance name is malformed.
    InvalidInstanceName,
    /// An instance with that name already exists.
    InstanceExists,
    /// The artifact is unknown to the dispatcher.
    UnknownArtifact,
    /// No matching migration request is registered.
    MigrationRequestNotRegistered,
}

/// Cause recorded with a failed asynchronous event.
#[derive(Clone, Copy, PartialEq, Eq, Structural, Debug)]
pub enum EventError {
    /// The deadline height passed before completion.
    DeadlineExceeded,
    /// Two validators reported different state hashes.
    StateHashDivergence,
    /// The runtime reported a failed deploy with the given code.
    RuntimeFault { code: u64 },
    /// The migration failed, at start or on the runtime's worker, with
    /// the given code.
    MigrationFailed { code: u64 },
}

/// Lifecycle tag of an asynchronous event (deploy or migration).
#[derive(Clone, Copy, PartialEq, Eq, Structural, Debug)]
pub enum AsyncEventState {
    Pending,
    Succeed,
    Failed { height: u64, error: EventError },
}

impl View for AsyncEventState {
    type V = AsyncEventState;

    open spec fn view(&self) -> AsyncEventState {
        *self
    }
}

impl AsyncEventState {
    /// The event ended in failure.
    pub open spec fn spec_is_failed(self) -> bool {
        self is Failed
    }

    /// Decides whether the event ended in failure.
    pub fn is_failed(&self) -> (r: bool)
        ensures
            r == self.spec_is_failed(),
    {
        match self {
            AsyncEventState::Failed { .. } => true,
            _ => false,
        }
    }
}

/// State of one migration: lifecycle tag, the data version reached, and
/// the state hash agreed so far.
#[derive(Clone, Copy, PartialEq, Eq, Structural, Debug)]
pub struct MigrationState {
    pub phase: AsyncEventState,
    pub version: Version,
    pub reference_hash: Option<u64>,
}

impl View for MigrationState {
    type V = MigrationState;

    open spec fn view(&self) -> MigrationState {
        *self
    }
}

/// Kind of migration the runtime starts for a request.
#[derive(Clone, Copy, PartialEq, Eq, Structural, Debug)]
pub enum MigrationType {
    /// No data transform is needed; the migration completes at once.
    FastForward,
    /// A data migration runs asynchronously on the runtime's worker.
    Async,
}

/// Decides equality of two character strings.
pub fn str_eq(a: &str, b: &str) -> (r: bool)
    ensures
        r == (a@ == b@),
{
    let n = a.unicode_len();
    if n != b.unicode_len() {
        return false;
    }
    let mut i: usize = 0;
    while i < n
        invariant
            n == a@.len(),
            n == b@.len(),
            i <= n,
            forall|j: int| 0 <= j < i ==> a@[j] == b@[j],
        decreases n - i,
    {
        if a.get_char(i) != b.get_char(i) {
            return false;
        }
        i += 1;
    }
    proof {
        assert(a@ =~= b@);
    }
    true
}

/// Decides equality of two byte strings.
pub fn bytes_eq(a: &Vec<u8>, b: &Vec<u8>) -> (r: bool)
    ensures
        r == (a@ == b@),
{
    let n = a.len();
    if n != b.len() {
        return false;
    }
    let mut i: usize = 0;
    while i < n
        invariant
            n == a@.len(),
            n == b@.len(),
            i <= n,
            forall|j: int| 0 <= j < i ==> a@[j] == b@[j],
        decreases n - i,
    {
        if a[i] != b[i] {
            return false;
        }
        i += 1;
    }
    proof {
        assert(a@ =~= b@);
    }
    true
}

/// Duplicates a byte string.
pub fn bytes_dup(a: &Vec<u8>) -> (r: Vec<u8>)
    ensures
        r@ == a@,
{
    let n = a.len();
    let mut r: Vec<u8> = Vec::new();
    let mut i: usize = 0;
    while i < n
        invariant
            n == a@.len(),
            i <= n,
            r@.len() == i,
            forall|j: int| 0 <= j < i ==> r@[j] == a@[j],
        decreases n - i,
    {
        r.push(a[i]);
        i += 1;
    }
    proof {
        assert(r@ =~= a@);
    }
    r
}

/// A request to deploy an artifact on every validator.
#[derive(Debug)]
pub struct DeployRequest {
    pub artifact: ArtifactId,
    pub spec_bytes: Vec<u8>,
    pub deadline_height: u64,
}

/// Abstract value of a [`DeployRequest`].
pub ghost struct DeployRequestView {
    pub artifact: ArtifactIdView,
    pub spec_bytes: Seq<u8>,
    pub deadline_height: u64,
}

impl View for DeployRequest {
    type V = DeployRequestView;

    open spec fn view(&self) -> DeployRequestView {
        DeployRequestView {
            artifact: self.artifact@,
            spec_bytes: self.spec_bytes@,
            deadline_height: self.deadline_height,
        }
    }
}

impl TableKey for DeployRequest {
    fn key_eq(&self, other: &Self) -> (b: bool)
        ensures
            b == (self@ == other@),
    {
        self.artifact.key_eq(&other.artifact) && bytes_eq(&self.spec_bytes, &other.spec_bytes)
            && self.deadline_height == other.deadline_height
    }

    fn dup(&self) -> (r: Self)
        ensures
            r@ == self@,
    {
        DeployRequest {
            artifact: self.artifact.dup(),
            spec_bytes: bytes_dup(&self.spec_bytes),
            deadline_height: self.deadline_height,
        }
    }
}

/// The runtime's report on a locally finished deploy: success, or a
/// failure code.
#[derive(Debug)]
pub struct DeployResult {
    pub request: DeployRequest,
    pub result: Result<(), u64>,
}

/// Abstract value of a [`DeployResult`].
pub ghost struct DeployResultView {
    pub request: DeployRequestView,
    pub result: Result<(), u64>,
}

impl View for DeployResult {
    type V = DeployResultView;

    open spec fn view(&self) -> DeployResultView {
        DeployResultView { request: self.request@, result: self.result }
    }
}

/// A request to migrate a service's data to a newer artifact.
#[derive(Debug)]
pub struct MigrationRequest {
    pub new_artifact: ArtifactId,
    pub service: String,
    pub deadline_height: u64,
    pub seed: u64,
}

/// Abstract value of a [`MigrationRequest`].
pub ghost struct MigrationRequestView {
    pub new_artifact: ArtifactIdView,
    pub service: Seq<char>,
    pub deadline_height: u64,
    pub seed: u64,
}

impl View for MigrationRequest {
    type V = MigrationRequestView;

    open spec fn view(&self) -> MigrationRequestView {
        MigrationRequestView {
            new_artifact: self.new_artifact@,
            service: self.service@,
            deadline_height: self.deadline_height,
            seed: self.seed,
        }
    }
}

impl TableKey for MigrationRequest {
    fn key_eq(&self, other: &Self) -> (b: bool)
        ensures
            b == (self@ == other@),
    {
        self.new_artifact.key_eq(&other.new_artifact) && self.service == other.service
            && self.deadline_height == other.deadline_height && self.seed == other.seed
    }

    fn dup(&self) -> (r: Self)
        ensures
            r@ == self@,
    {
        MigrationRequest {
            new_artifact: self.new_artifact.dup(),
            service: self.service.clone(),
            deadline_height: self.deadline_height,
            seed: self.seed,
        }
    }
}

/// The runtime's report on a locally finished migration: the resulting
/// state hash, or a failure code.
#[derive(Debug)]
pub struct MigrationResult {
    pub request: MigrationRequest,
    pub status: Result<u64, u64>,
}

/// Abstract value of a [`MigrationResult`].
pub ghost struct MigrationResultView {
    pub request: MigrationRequestView,
    pub status: Result<u64, u64>,
}

impl View for MigrationResult {
    type V = MigrationResultView;

    open spec fn view(&self) -> MigrationResultView {
        MigrationResultView { request: self.request@, status: self.status }
    }
}

/// Consensus parameters; the model carries the validator key list.
#[derive(Debug)]
pub struct ConsensusConfig {
    pub validator_keys: Vec<u64>,
}

/// Abstract value of a [`ConsensusConfig`].
pub ghost struct ConsensusConfigView {
    pub validator_keys: Seq<u64>,
}

impl View for ConsensusConfig {
    type V = ConsensusConfigView;

    open spec fn view(&self) -> ConsensusConfigView {
        ConsensusConfigView { validator_keys: self.validator_keys@ }
    }
}

impl ConsensusConfigView {
    /// Self-validation of consensus parameters: at least one validator,
    /// and no key listed twice.
    pub open spec fn is_valid(self) -> bool {
        self.validator_keys.len() > 0 && forall|i: int, j: int|
            0 <= i < j < self.validator_keys.len() ==> self.validator_keys[i]
                != self.validator_keys[j]
    }
}

impl ConsensusConfig {
    /// Decides self-validity of the parameters.
    pub fn validate(&self) -> (r: bool)
        ensures
            r == self@.is_valid(),
    {
        let n = self.validator_keys.len();
        if n == 0 {
            return false;
        }
        let mut i: usize = 0;
        while i < n
            invariant
                n == self.validator_keys@.len(),
                i <= n,
                forall|a: int, b: int| 0 <= a < b < n && a < i ==> self.validator_keys@[a]
                    != self.validator_keys@[b],
            decreases n - i,
        {
            let mut j: usize = i + 1;
            while j < n
                invariant
                    n == self.validator_keys@.len(),
                    i < j <= n,
                    forall|b: int| i < b < j ==> self.validator_keys@[i as int]
                        != self.validator_keys@[b],
                decreases n - j,
            {
                if self.validator_keys[i] == self.validator_keys[j] {
                    return false;
                }
                j += 1;
            }
            i += 1;
        }
        true
    }

    /// Duplicates the parameters.
    pub fn dup(&self) -> (r: Self)
        ensures
            r@ == self@,
    {
        let n = self.validator_keys.len();
        let mut keys: Vec<u64> = Vec::new();
        let mut i: usize = 0;
        while i < n
            invariant
                n == self.validator_keys@.len(),
                i <= n,
                keys@.len() == i,
                forall|j: int| 0 <= j < i ==> keys@[j] == self.validator_keys@[j],
            decreases n - i,
        {
            keys.push(self.validator_keys[i]);
            i += 1;
        }
        proof {
            assert(keys@ =~= self.validator_keys@);
        }
        ConsensusConfig { validator_keys: keys }
    }
}

/// New parameters for a running service instance.
#[derive(Debug)]
pub struct ServiceConfig {
    pub instance_id: u32,
    pub params: String,
}

/// A change starting a new service instance.
#[derive(Debug)]
pub struct StartService {
    pub artifact: ArtifactId,
    pub name: String,
    pub config: String,
}

/// A change stopping a service instance.
#[derive(Clone, Copy, PartialEq, Eq, Structural, Debug)]
pub struct StopService {
    pub instance_id: u32,
}

/// A change freezing a service instance.
#[derive(Clone, Copy, PartialEq, Eq, Structural, Debug)]
pub struct FreezeService {
    pub instance_id: u32,
}

/// A change resuming a frozen service instance.
#[derive(Debug)]
pub struct ResumeService {
    pub instance_id: u32,
    pub params: String,
}

/// A change unloading an artifact from the dispatcher.
#[derive(Debug)]
pub struct UnloadArtifact {
    pub artifact_id: ArtifactId,
}

/// One atomic change inside a config proposal.
#[derive(Debug)]
pub enum ConfigChange {
    Consensus(ConsensusConfig),
    Service(ServiceConfig),
    StartService(StartService),
    StopService(StopService),
    FreezeService(FreezeService),
    ResumeService(ResumeService),
    UnloadArtifact(UnloadArtifact),
}

/// Abstract value of a [`ConfigChange`].
#[allow(inconsistent_fields)]
pub ghost enum ConfigChangeView {
    Consensus { config: ConsensusConfigView },
    Service { instance_id: u32, params: Seq<char> },
    StartService { artifact: ArtifactIdView, name: Seq<char>, config: Seq<char> },
    StopService { instance_id: u32 },
    FreezeService { instance_id: u32 },
    ResumeService { instance_id: u32, params: Seq<char> },
    UnloadArtifact { artifact_id: ArtifactIdView },
}

impl View for ConfigChange {
    type V = ConfigChangeView;

    open spec fn view(&self) -> ConfigChangeView {
        match self {
            ConfigChange::Consensus(c) => ConfigChangeView::Consensus { config: c@ },
            ConfigChange::Service(c) => ConfigChangeView::Service {
                instance_id: c.instance_id,
                params: c.params@,
            },
            ConfigChange::StartService(c) => ConfigChangeView::StartService {
                artifact: c.artifact@,
                name: c.name@,
                config: c.config@,
            },
            ConfigChange::StopService(c) => ConfigChangeView::StopService {
                instance_id: c.instance_id,
            },
            ConfigChange::FreezeService(c) => ConfigChangeView::FreezeService {
                instance_id: c.instance_id,
            },
            ConfigChange::ResumeService(c) => ConfigChangeView::ResumeService {
                instance_id: c.instance_id,
                params: c.params@,
            },
            ConfigChange::UnloadArtifact(c) => ConfigChangeView::UnloadArtifact {
                artifact_id: c.artifact_id@,
            },
        }
    }
}

impl ConfigChange {
    /// Duplicates the change.
    pub fn dup(&self) -> (r: Self)
        ensures
            r@ == self@,
    {
        match self {
            ConfigChange::Consensus(c) => ConfigChange::Consensus(c.dup()),
            ConfigChange::Service(c) => ConfigChange::Service(
                ServiceConfig { instance_id: c.instance_id, params: c.params.clone() },
            ),
            ConfigChange::StartService(c) => ConfigChange::StartService(
                StartService {
                    artifact: c.artifact.dup(),
                    name: c.name.clone(),
                    config: c.config.clone(),
                },
            ),
            ConfigChange::StopService(c) => ConfigChange::StopService(*c),
            ConfigChange::FreezeService(c) => ConfigChange::FreezeService(*c),
            ConfigChange::ResumeService(c) => ConfigChange::ResumeService(
                ResumeService { instance_id: c.instance_id, params: c.params.clone() },
            ),
            ConfigChange::UnloadArtifact(c) => ConfigChange::UnloadArtifact(
                UnloadArtifact { artifact_id: c.artifact_id.dup() },
            ),
        }
    }
}

/// The abstract values of a list of changes.
pub open spec fn changes_view(changes: Seq<ConfigChange>) -> Seq<ConfigChangeView> {
    changes.map_values(|c: ConfigChange| c@)
}

/// A proposed bundle of configuration changes.
#[derive(Debug)]
pub struct ConfigPropose {
    pub actual_from: u64,
    pub configuration_number: u64,
    pub changes: Vec<ConfigChange>,
}

/// Abstract value of a [`ConfigPropose`].
pub ghost struct ConfigProposeView {
    pub actual_from: u64,
    pub configuration_number: u64,
    pub changes: Seq<ConfigChangeView>,
}

impl View for ConfigPropose {
    type V = ConfigProposeView;

    open spec fn view(&self) -> ConfigProposeView {
        ConfigProposeView {
            actual_from: self.actual_from,
            configuration_number: self.configuration_number,
            changes: changes_view(self.changes@),
        }
    }
}

impl ConfigPropose {
    /// Duplicates the proposal.
    pub fn dup(&self) -> (r: Self)
        ensures
            r@ == self@,
    {
        let n = self.changes.len();
        let mut changes: Vec<ConfigChange> = Vec::new();
        let mut i: usize = 0;
        while i < n
            invariant
                n == self.changes@.len(),
                i <= n,
                changes@.len() == i,
                forall|j: int| 0 <= j < i ==> #[trigger] changes@[j]@ == self.changes@[j]@,
            decreases n - i,
        {
            changes.push(self.changes[i].dup());
            i += 1;
        }
        proof {
            assert(changes_view(changes@) =~= changes_view(self.changes@));
        }
        ConfigPropose {
            actual_from: self.actual_from,
            configuration_number: self.configuration_number,
            changes,
        }
    }
}

/// A validator's vote for a pending proposal.
#[derive(Clone, Copy, PartialEq, Eq, Structural, Debug)]
pub struct ConfigVote {
    pub propose_hash: u64,
}

/// The pending proposal together with its digest.
#[derive(Debug)]
pub struct ConfigProposalWithHash {
    pub config_propose: ConfigPropose,
    pub propose_hash: u64,
}

/// Abstract value of a [`ConfigProposalWithHash`].
pub ghost struct ConfigProposalWithHashView {
    pub config_propose: ConfigProposeView,
    pub propose_hash: u64,
}

impl View for ConfigProposalWithHash {
    type V = ConfigProposalWithHashView;

    open spec fn view(&self) -> ConfigProposalWithHashView {
        ConfigProposalWithHashView {
            config_propose: self.config_propose@,
            propose_hash: self.propose_hash,
        }
    }
}

/// A call the supervisor makes into the dispatcher, the runtime host or
/// the storage engine during a transaction or the epoch hook.
#[derive(Debug)]
#[allow(inconsistent_fields)]
pub enum Action {
    /// Ask the local runtime to start deploying the approved request.
    StartDeploy { request: DeployRequest },
    /// Register the deployed artifact in the dispatcher.
    RegisterArtifact { artifact: ArtifactId },
    /// Ask the runtime to start migrating the service.
    InitiateMigration { request: MigrationRequest },
    /// Commit the agreed migration outcome to the runtime.
    CommitMigration { service: String, state_hash: u64 },
    /// Roll the service's half-done migration back.
    RollbackMigration { service: String },
    /// Flush the completed data migration in the storage engine.
    FlushMigration { service: String },
}

/// Abstract value of an [`Action`].
#[allow(inconsistent_fields)]
pub ghost enum ActionView {
    StartDeploy { request: DeployRequestView },
    RegisterArtifact { artifact: ArtifactIdView },
    InitiateMigration { request: MigrationRequestView },
    CommitMigration { service: Seq<char>, state_hash: u64 },
    RollbackMigration { service: Seq<char> },
    FlushMigration { service: Seq<char> },
}

impl View for Action {
    type V = ActionView;

    open spec fn view(&self) -> ActionView {
        match self {
            Action::StartDeploy { request } => ActionView::StartDeploy { request: request@ },
            Action::RegisterArtifact { artifact } => ActionView::RegisterArtifact {
                artifact: artifact@,
            },
            Action::InitiateMigration { request } => ActionView::InitiateMigration {
                request: request@,
            },
            Action::CommitMigration { service, state_hash } => ActionView::CommitMigration {
                service: service@,
                state_hash: *state_hash,
            },
            Action::RollbackMigration { service } => ActionView::RollbackMigration {
                service: service@,
            },
            Action::FlushMigration { service } => ActionView::FlushMigration { service: service@ },
        }
    }
}

/// The abstract values of a list of actions.
pub open spec fn actions_view(actions: Seq<Action>) -> Seq<ActionView> {
    actions.map_values(|a: Action| a@)
}

} // verus!
