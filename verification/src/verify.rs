//! Verification of a proposed bundle of configuration changes.
//!
//! Validation is all-or-nothing: the first rule a change breaks decides
//! the error of the whole proposal, and a proposal that both starts a
//! service from an artifact and unloads that artifact is rejected after
//! the per-change pass.

use vstd::prelude::*;

use crate::state::{CoreState, CoreStateView, RuntimeEnv, RuntimeEnvView};
use crate::tables::TableKey;
use crate::types::{check_valid_name, is_valid_name, ArtifactId, ArtifactIdView, ConfigChange,
    ConfigChangeView, InstanceStatus, SupervisorError};

verus! {

/// The instance a change targets, for the one-change-per-instance rule.
pub open spec fn spec_instance_target(c: ConfigChangeView) -> Option<u32> {
    match c {
        ConfigChangeView::Service { instance_id, .. } => Some(instance_id),
        ConfigChangeView::StopService { instance_id } => Some(instance_id),
        ConfigChangeView::FreezeService { instance_id } => Some(instance_id),
        ConfigChangeView::ResumeService { instance_id, .. } => Some(instance_id),
        _ => None,
    }
}

/// The dispatcher permits unloading `a`: the artifact is registered and
/// no instance is associated with it.
pub open spec fn spec_unload_allowed(core: CoreStateView, a: ArtifactIdView) -> bool {
    core.artifacts.contains(a) && forall|i: int|
        0 <= i < core.instances.len() ==> core.instances[i].artifact != a
}

/// Outcome of checking the changes from position `k` on, given what the
/// earlier changes already claimed.
pub open spec fn spec_check_from(
    changes: Seq<ConfigChangeView>,
    core: CoreStateView,
    env: RuntimeEnvView,
    k: int,
    seen_consensus: bool,
    seen_ids: Seq<u32>,
    seen_names: Seq<Seq<char>>,
    seen_unloads: Seq<ArtifactIdView>,
) -> Result<(), SupervisorError>
    decreases changes.len() - k,
{
    if k < 0 || k >= changes.len() {
        Ok(())
    } else {
        let c = changes[k];
        let dup_target = match spec_instance_target(c) {
            Some(id) => seen_ids.contains(id),
            None => false,
        };
        if dup_target {
            Err(SupervisorError::MalformedConfigPropose)
        } else {
            let ids2 = match spec_instance_target(c) {
                Some(id) => seen_ids.push(id),
                None => seen_ids,
            };
            match c {
                ConfigChangeView::Consensus { config } => if seen_consensus {
                    Err(SupervisorError::MalformedConfigPropose)
                } else if !config.is_valid() {
                    Err(SupervisorError::MalformedConfigPropose)
                } else {
                    spec_check_from(changes, core, env, k + 1, true, ids2, seen_names, seen_unloads)
                },
                ConfigChangeView::Service { instance_id, params } => if !core.has_instance_with_id(
                    instance_id,
                ) {
                    Err(SupervisorError::MalformedConfigPropose)
                } else if env.verify_rejects.contains(params) {
                    Err(SupervisorError::MalformedConfigPropose)
                } else {
                    spec_check_from(
                        changes,
                        core,
                        env,
                        k + 1,
                        seen_consensus,
                        ids2,
                        seen_names,
                        seen_unloads,
                    )
                },
                ConfigChangeView::StartService { artifact, name, .. } => if seen_names.contains(
                    name,
                ) {
                    Err(SupervisorError::MalformedConfigPropose)
                } else if !is_valid_name(name) {
                    Err(SupervisorError::InvalidInstanceName)
                } else if !core.artifacts.contains(artifact) {
                    Err(SupervisorError::UnknownArtifact)
                } else if core.has_instance_with_name(name) {
                    Err(SupervisorError::InstanceExists)
                } else {
                    spec_check_from(
                        changes,
                        core,
                        env,
                        k + 1,
                        seen_consensus,
                        ids2,
                        seen_names.push(name),
                        seen_unloads,
                    )
                },
                ConfigChangeView::StopService { instance_id } => if !(core.has_instance_with_id(
                    instance_id,
                ) && core.instance_by_id(instance_id).status.can_be_stopped()) {
                    Err(SupervisorError::MalformedConfigPropose)
                } else {
                    spec_check_from(
                        changes,
                        core,
                        env,
                        k + 1,
                        seen_consensus,
                        ids2,
                        seen_names,
                        seen_unloads,
                    )
                },
                ConfigChangeView::FreezeService { instance_id } => if !(core.has_instance_with_id(
                    instance_id,
                ) && core.instance_by_id(instance_id).status.can_be_frozen()) {
                    Err(SupervisorError::MalformedConfigPropose)
                } else if !env.freezing_runtimes.contains(
                    core.instance_by_id(instance_id).artifact.runtime_id,
                ) {
                    Err(SupervisorError::MalformedConfigPropose)
                } else {
                    spec_check_from(
                        changes,
                        core,
                        env,
                        k + 1,
                        seen_consensus,
                        ids2,
                        seen_names,
                        seen_unloads,
                    )
                },
                ConfigChangeView::ResumeService { instance_id, .. } => if !(
                core.has_instance_with_id(instance_id) && core.instance_by_id(
                    instance_id,
                ).status.can_be_resumed()) {
                    Err(SupervisorError::MalformedConfigPropose)
                } else if !core.instance_by_id(instance_id).has_associated_artifact() {
                    Err(SupervisorError::MalformedConfigPropose)
                } else {
                    spec_check_from(
                        changes,
                        core,
                        env,
                        k + 1,
                        seen_consensus,
                        ids2,
                        seen_names,
                        seen_unloads,
                    )
                },
                ConfigChangeView::UnloadArtifact { artifact_id } => if seen_unloads.contains(
                    artifact_id,
                ) {
                    Err(SupervisorError::MalformedConfigPropose)
                } else if !spec_unload_allowed(core, artifact_id) {
                    Err(SupervisorError::MalformedConfigPropose)
                } else {
                    spec_check_from(
                        changes,
                        core,
                        env,
                        k + 1,
                        seen_consensus,
                        ids2,
                        seen_names,
                        seen_unloads.push(artifact_id),
                    )
                },
            }
        }
    }
}

/// Change `i` starts a service from the very artifact change `j`
/// unloads.
pub open spec fn spec_conflicting_pair(changes: Seq<ConfigChangeView>, i: int, j: int) -> bool {
    match (changes[i], changes[j]) {
        (
            ConfigChangeView::StartService { artifact, .. },
            ConfigChangeView::UnloadArtifact { artifact_id },
        ) => artifact == artifact_id,
        _ => false,
    }
}

/// Some change starts a service from an artifact that another change of
/// the same proposal unloads.
pub open spec fn spec_starts_unloaded_artifact(changes: Seq<ConfigChangeView>) -> bool {
    exists|i: int, j: int|
        0 <= i < changes.len() && 0 <= j < changes.len() && #[trigger] spec_conflicting_pair(
            changes,
            i,
            j,
        )
}

/// Outcome of verifying a whole change list.
pub open spec fn spec_verify_changes(
    changes: Seq<ConfigChangeView>,
    core: CoreStateView,
    env: RuntimeEnvView,
) -> Result<(), SupervisorError> {
    match spec_check_from(
        changes,
        core,
        env,
        0,
        false,
        Seq::empty(),
        Seq::empty(),
        Seq::empty(),
    ) {
        Err(e) => Err(e),
        Ok(_) => if spec_starts_unloaded_artifact(changes) {
            Err(SupervisorError::MalformedConfigPropose)
        } else {
            Ok(())
        },
    }
}

/// Verifies that each change introduced within a config proposal is
/// valid, and that the changes are consistent with one another.
pub fn verify_config_changes(
    core: &CoreState,
    env: &RuntimeEnv,
    changes: &Vec<ConfigChange>,
) -> (r: Result<(), SupervisorError>)
    requires
        core.wf(),
    ensures
        r == spec_verify_changes(crate::types::changes_view(changes@), core@, env@),
{
    let ghost cv = crate::types::changes_view(changes@);
    let n = changes.len();
    let mut seen_consensus = false;
    let mut seen_ids: Vec<u32> = Vec::new();
    let mut seen_names: Vec<String> = Vec::new();
    let mut seen_unloads: Vec<ArtifactId> = Vec::new();
    let mut k: usize = 0;
    proof {
        assert(seen_names@.map_values(|s: String| s@) =~= Seq::<Seq<char>>::empty());
        assert(seen_unloads@.map_values(|a: ArtifactId| a@) =~= Seq::<ArtifactIdView>::empty());
        assert(seen_ids@ =~= Seq::<u32>::empty());
    }
    while k < n
        invariant
            core.wf(),
            n == changes@.len(),
            cv == crate::types::changes_view(changes@),
            cv.len() == n,
            forall|j: int| 0 <= j < n ==> cv[j] == changes@[j]@,
            k <= n,
            spec_check_from(
                cv,
                core@,
                env@,
                k as int,
                seen_consensus,
                seen_ids@,
                seen_names@.map_values(|s: String| s@),
                seen_unloads@.map_values(|a: ArtifactId| a@),
            ) == spec_verify_first_pass(cv, core@, env@),
        decreases n - k,
    {
        let ghost ids0 = seen_ids@;
        let ghost names0 = seen_names@.map_values(|s: String| s@);
        let ghost unloads0 = seen_unloads@.map_values(|a: ArtifactId| a@);
        let change = &changes[k];
        proof {
            assert(cv[k as int] == changes@[k as int]@);
        }
        // One change per instance across the whole proposal.
        let target: Option<u32> = match change {
            ConfigChange::Service(c) => Some(c.instance_id),
            ConfigChange::StopService(c) => Some(c.instance_id),
            ConfigChange::FreezeService(c) => Some(c.instance_id),
            ConfigChange::ResumeService(c) => Some(c.instance_id),
            _ => None,
        };
        if let Some(id) = target {
            proof {
                assert(spec_instance_target(cv[k as int]) == Some(id));
            }
            if contains_u32(&seen_ids, id) {
                return Err(SupervisorError::MalformedConfigPropose);
            }
            seen_ids.push(id);
        } else {
            proof {
                assert(spec_instance_target(cv[k as int]) is None);
            }
        }
        match change {
            ConfigChange::Consensus(config) => {
                if seen_consensus {
                    return Err(SupervisorError::MalformedConfigPropose);
                }
                if !config.validate() {
                    return Err(SupervisorError::MalformedConfigPropose);
                }
                seen_consensus = true;
            },
            ConfigChange::Service(c) => {
                if core.find_instance_by_id(c.instance_id).is_none() {
                    return Err(SupervisorError::MalformedConfigPropose);
                }
                if !env.verify_config_ok(&c.params) {
                    return Err(SupervisorError::MalformedConfigPropose);
                }
            },
            ConfigChange::StartService(c) => {
                if contains_name(&seen_names, &c.name) {
                    return Err(SupervisorError::MalformedConfigPropose);
                }
                if !check_valid_name(c.name.as_str()) {
                    return Err(SupervisorError::InvalidInstanceName);
                }
                if !core.artifacts.contains(&c.artifact) {
                    return Err(SupervisorError::UnknownArtifact);
                }
                if core.find_instance_by_name(c.name.as_str()).is_some() {
                    return Err(SupervisorError::InstanceExists);
                }
                let ghost pushed = c.name@;
                seen_names.push(c.name.clone());
                proof {
                    assert(seen_names@.map_values(|s: String| s@) =~= names0.push(pushed));
                }
            },
            ConfigChange::StopService(c) => {
                let ok = match core.find_instance_by_id(c.instance_id) {
                    Some(i) => {
                        proof {
                            assert(core@.instances[i as int] == core.instances@[i as int]@);
                        }
                        core.instances[i].status == InstanceStatus::Active
                    },
                    None => false,
                };
                if !ok {
                    return Err(SupervisorError::MalformedConfigPropose);
                }
            },
            ConfigChange::FreezeService(c) => {
                let idx = match core.find_instance_by_id(c.instance_id) {
                    Some(i) => i,
                    None => {
                        return Err(SupervisorError::MalformedConfigPropose);
                    },
                };
                proof {
                    assert(core@.instances[idx as int] == core.instances@[idx as int]@);
                }
                if !(core.instances[idx].status == InstanceStatus::Active) {
                    return Err(SupervisorError::MalformedConfigPropose);
                }
                if !env.supports_freezing(core.instances[idx].artifact.runtime_id) {
                    return Err(SupervisorError::MalformedConfigPropose);
                }
            },
            ConfigChange::ResumeService(c) => {
                let idx = match core.find_instance_by_id(c.instance_id) {
                    Some(i) => i,
                    None => {
                        return Err(SupervisorError::MalformedConfigPropose);
                    },
                };
                proof {
                    assert(core@.instances[idx as int] == core.instances@[idx as int]@);
                }
                if !(core.instances[idx].status == InstanceStatus::Frozen) {
                    return Err(SupervisorError::MalformedConfigPropose);
                }
                if !(core.instances[idx].data_version == core.instances[idx].artifact.version) {
                    return Err(SupervisorError::MalformedConfigPropose);
                }
            },
            ConfigChange::UnloadArtifact(c) => {
                if contains_artifact(&seen_unloads, &c.artifact_id) {
                    return Err(SupervisorError::MalformedConfigPropose);
                }
                if !unload_allowed(core, &c.artifact_id) {
                    return Err(SupervisorError::MalformedConfigPropose);
                }
                let ghost pushed = c.artifact_id@;
                seen_unloads.push(c.artifact_id.dup());
                proof {
                    assert(seen_unloads@.map_values(|a: ArtifactId| a@) =~= unloads0.push(pushed));
                }
            },
        }
        k += 1;
    }
    // The artifacts being unloaded must be disjoint from the artifacts
    // the proposal starts services from.
    let mut i: usize = 0;
    while i < n
        invariant
            n == changes@.len(),
            cv == crate::types::changes_view(changes@),
            cv.len() == n,
            forall|j: int| 0 <= j < n ==> cv[j] == changes@[j]@,
            i <= n,
            spec_verify_first_pass(cv, core@, env@) is Ok,
            forall|a: int, b: int| 0 <= a < i && 0 <= b < n ==> !spec_conflicting_pair(cv, a, b),
        decreases n - i,
    {
        if let ConfigChange::StartService(start) = &changes[i] {
            let mut j: usize = 0;
            while j < n
                invariant
                    n == changes@.len(),
                    cv == crate::types::changes_view(changes@),
                    cv.len() == n,
                    forall|jj: int| 0 <= jj < n ==> cv[jj] == changes@[jj]@,
                    i < n,
                    j <= n,
                    spec_verify_first_pass(cv, core@, env@) is Ok,
                    changes@[i as int]@ matches ConfigChangeView::StartService { artifact, .. }
                        && artifact == start.artifact@,
                    forall|b: int| 0 <= b < j ==> !spec_conflicting_pair(cv, i as int, b),
                decreases n - j,
            {
                if let ConfigChange::UnloadArtifact(unload) = &changes[j] {
                    if start.artifact.key_eq(&unload.artifact_id) {
                        proof {
                            assert(spec_conflicting_pair(cv, i as int, j as int));
                            assert(spec_starts_unloaded_artifact(cv));
                        }
                        return Err(SupervisorError::MalformedConfigPropose);
                    }
                }
                j += 1;
            }
        }
        i += 1;
    }
    proof {
        assert forall|a: int, b: int|
            0 <= a < n && 0 <= b < n implies !spec_conflicting_pair(cv, a, b) by {}
        assert(!spec_starts_unloaded_artifact(cv));
    }
    Ok(())
}

/// Outcome of the per-change pass alone, from the start.
pub open spec fn spec_verify_first_pass(
    changes: Seq<ConfigChangeView>,
    core: CoreStateView,
    env: RuntimeEnvView,
) -> Result<(), SupervisorError> {
    spec_check_from(changes, core, env, 0, false, Seq::empty(), Seq::empty(), Seq::empty())
}

/// Membership scan over recorded instance identifiers.
fn contains_u32(s: &Vec<u32>, x: u32) -> (b: bool)
    ensures
        b == s@.contains(x),
{
    let n = s.len();
    let mut i: usize = 0;
    while i < n
        invariant
            n == s@.len(),
            i <= n,
            forall|j: int| 0 <= j < i ==> s@[j] != x,
        decreases n - i,
    {
        if s[i] == x {
            proof {
                assert(s@.contains(x));
            }
            return true;
        }
        i += 1;
    }
    false
}

/// Membership scan over recorded service names.
fn contains_name(s: &Vec<String>, x: &String) -> (b: bool)
    ensures
        b == s@.map_values(|t: String| t@).contains(x@),
{
    let ghost sv = s@.map_values(|t: String| t@);
    let n = s.len();
    let mut i: usize = 0;
    while i < n
        invariant
            sv == s@.map_values(|t: String| t@),
            n == s@.len(),
            i <= n,
            forall|j: int| 0 <= j < i ==> sv[j] != x@,
        decreases n - i,
    {
        proof {
            assert(sv[i as int] == s@[i as int]@);
        }
        if crate::types::str_eq(s[i].as_str(), x.as_str()) {
            proof {
                assert(sv.contains(x@));
            }
            return true;
        }
        i += 1;
    }
    false
}

/// Membership scan over recorded artifact identifiers.
fn contains_artifact(s: &Vec<ArtifactId>, x: &ArtifactId) -> (b: bool)
    ensures
        b == s@.map_values(|a: ArtifactId| a@).contains(x@),
{
    let ghost sv = s@.map_values(|a: ArtifactId| a@);
    let n = s.len();
    let mut i: usize = 0;
    while i < n
        invariant
            sv == s@.map_values(|a: ArtifactId| a@),
            n == s@.len(),
            i <= n,
            forall|j: int| 0 <= j < i ==> sv[j] != x@,
        decreases n - i,
    {
        proof {
            assert(sv[i as int] == s@[i as int]@);
        }
        if s[i].key_eq(x) {
            proof {
                assert(sv.contains(x@));
            }
            return true;
        }
        i += 1;
    }
    false
}

/// Decides whether the dispatcher permits unloading `a`.
pub fn unload_allowed(core: &CoreState, a: &ArtifactId) -> (b: bool)
    requires
        core.wf(),
    ensures
        b == spec_unload_allowed(core@, a@),
{
    if !core.artifacts.contains(a) {
        return false;
    }
    let n = core.instances.len();
    let mut i: usize = 0;
    while i < n
        invariant
            core.wf(),
            core@.artifacts.contains(a@),
            n == core.instances@.len(),
            i <= n,
            forall|j: int| 0 <= j < i ==> core@.instances[j].artifact != a@,
        decreases n - i,
    {
        proof {
            assert(core@.instances[i as int] == core.instances@[i as int]@);
        }
        if core.instances[i].artifact.key_eq(a) {
            return false;
        }
        i += 1;
    }
    true
}

} // verus!
