//! A deterministic digest of config proposals.
//!
//! Every replica computes the same digest for the same proposal, so a
//! vote can reference the pending proposal by its digest alone. The
//! digest folds every field of the proposal, tagging each change variant,
//! with 64-bit wrapping arithmetic.

use vstd::prelude::*;
use vstd::string::StrSliceExecFns;
use vstd::wrapping::u64_specs;

use crate::types::{ArtifactId, ArtifactIdView, ConfigChange, ConfigChangeView, ConfigPropose,
    ConfigProposeView, ConsensusConfig, ConsensusConfigView, Version};

verus! {

/// Multiplier of the folding step.
pub const DIGEST_PRIME: u64 = 1099511628211;

/// One folding step: the running digest absorbs one 64-bit word.
pub open spec fn spec_mix(h: u64, x: u64) -> u64 {
    u64_specs::wrapping_add(u64_specs::wrapping_mul(h, DIGEST_PRIME), x)
}

/// Absorbs one word into the digest.
pub fn mix(h: u64, x: u64) -> (r: u64)
    ensures
        r == spec_mix(h, x),
{
    h.wrapping_mul(DIGEST_PRIME).wrapping_add(x)
}

/// Digest of a character sequence, folded left to right.
pub open spec fn spec_digest_chars(h: u64, s: Seq<char>) -> u64
    decreases s.len(),
{
    if s.len() == 0 {
        h
    } else {
        spec_digest_chars(spec_mix(h, s[0] as u64), s.subrange(1, s.len() as int))
    }
}

/// Absorbs a string's characters into the digest.
pub fn digest_str(h: u64, s: &str) -> (r: u64)
    ensures
        r == spec_digest_chars(h, s@),
{
    let n = s.unicode_len();
    proof {
        assert(s@.subrange(0, n as int) =~= s@);
    }
    let mut acc = h;
    let mut i: usize = 0;
    while i < n
        invariant
            n == s@.len(),
            i <= n,
            spec_digest_chars(acc, s@.subrange(i as int, n as int)) == spec_digest_chars(h, s@),
        decreases n - i,
    {
        let c = s.get_char(i);
        proof {
            let tail = s@.subrange(i as int, n as int);
            assert(tail.subrange(1, tail.len() as int) =~= s@.subrange(i + 1, n as int));
        }
        acc = mix(acc, c as u64);
        i += 1;
    }
    proof {
        assert(s@.subrange(n as int, n as int) =~= Seq::<char>::empty());
    }
    acc
}

/// Digest of a word sequence, folded left to right.
pub open spec fn spec_digest_words(h: u64, s: Seq<u64>) -> u64
    decreases s.len(),
{
    if s.len() == 0 {
        h
    } else {
        spec_digest_words(spec_mix(h, s[0]), s.subrange(1, s.len() as int))
    }
}

/// Absorbs a word list into the digest.
pub fn digest_words(h: u64, s: &Vec<u64>) -> (r: u64)
    ensures
        r == spec_digest_words(h, s@),
{
    let n = s.len();
    proof {
        assert(s@.subrange(0, n as int) =~= s@);
    }
    let mut acc = h;
    let mut i: usize = 0;
    while i < n
        invariant
            n == s@.len(),
            i <= n,
            spec_digest_words(acc, s@.subrange(i as int, n as int)) == spec_digest_words(h, s@),
        decreases n - i,
    {
        proof {
            let tail = s@.subrange(i as int, n as int);
            assert(tail.subrange(1, tail.len() as int) =~= s@.subrange(i + 1, n as int));
        }
        acc = mix(acc, s[i]);
        i += 1;
    }
    proof {
        assert(s@.subrange(n as int, n as int) =~= Seq::<u64>::empty());
    }
    acc
}

/// Digest of an artifact identifier.
pub open spec fn spec_digest_artifact(h: u64, a: ArtifactIdView) -> u64 {
    spec_mix(
        spec_mix(
            spec_mix(
                spec_digest_chars(spec_mix(h, a.runtime_id as u64), a.name),
                a.version.major,
            ),
            a.version.minor,
        ),
        a.version.patch,
    )
}

/// Absorbs an artifact identifier into the digest.
pub fn digest_artifact(h: u64, a: &ArtifactId) -> (r: u64)
    ensures
        r == spec_digest_artifact(h, a@),
{
    let acc = mix(h, a.runtime_id as u64);
    let acc = digest_str(acc, a.name.as_str());
    let acc = mix(acc, a.version.major);
    let acc = mix(acc, a.version.minor);
    mix(acc, a.version.patch)
}

/// Digest of a single change, tagged by its variant.
pub open spec fn spec_digest_change(h: u64, c: ConfigChangeView) -> u64 {
    match c {
        ConfigChangeView::Consensus { config } => spec_digest_words(
            spec_mix(h, 1),
            config.validator_keys,
        ),
        ConfigChangeView::Service { instance_id, params } => spec_digest_chars(
            spec_mix(spec_mix(h, 2), instance_id as u64),
            params,
        ),
        ConfigChangeView::StartService { artifact, name, config } => spec_digest_chars(
            spec_digest_chars(spec_digest_artifact(spec_mix(h, 3), artifact), name),
            config,
        ),
        ConfigChangeView::StopService { instance_id } => spec_mix(
            spec_mix(h, 4),
            instance_id as u64,
        ),
        ConfigChangeView::FreezeService { instance_id } => spec_mix(
            spec_mix(h, 5),
            instance_id as u64,
        ),
        ConfigChangeView::ResumeService { instance_id, params } => spec_digest_chars(
            spec_mix(spec_mix(h, 6), instance_id as u64),
            params,
        ),
        ConfigChangeView::UnloadArtifact { artifact_id } => spec_digest_artifact(
            spec_mix(h, 7),
            artifact_id,
        ),
    }
}

/// Absorbs one change into the digest.
pub fn digest_change(h: u64, c: &ConfigChange) -> (r: u64)
    ensures
        r == spec_digest_change(h, c@),
{
    match c {
        ConfigChange::Consensus(config) => digest_words(mix(h, 1), &config.validator_keys),
        ConfigChange::Service(sc) => digest_str(
            mix(mix(h, 2), sc.instance_id as u64),
            sc.params.as_str(),
        ),
        ConfigChange::StartService(ss) => {
            let acc = digest_artifact(mix(h, 3), &ss.artifact);
            let acc = digest_str(acc, ss.name.as_str());
            digest_str(acc, ss.config.as_str())
        },
        ConfigChange::StopService(sc) => mix(mix(h, 4), sc.instance_id as u64),
        ConfigChange::FreezeService(fc) => mix(mix(h, 5), fc.instance_id as u64),
        ConfigChange::ResumeService(rc) => digest_str(
            mix(mix(h, 6), rc.instance_id as u64),
            rc.params.as_str(),
        ),
        ConfigChange::UnloadArtifact(uc) => digest_artifact(mix(h, 7), &uc.artifact_id),
    }
}

/// Digest of a change list, folded left to right.
pub open spec fn spec_digest_changes(h: u64, s: Seq<ConfigChangeView>) -> u64
    decreases s.len(),
{
    if s.len() == 0 {
        h
    } else {
        spec_digest_changes(spec_digest_change(h, s[0]), s.subrange(1, s.len() as int))
    }
}

/// Digest of a whole proposal.
pub open spec fn spec_propose_hash(p: ConfigProposeView) -> u64 {
    spec_digest_changes(spec_mix(spec_mix(17, p.actual_from), p.configuration_number), p.changes)
}

/// Computes the proposal's digest. Replicas that hold equal proposals
/// compute equal digests.
pub fn object_hash(p: &ConfigPropose) -> (r: u64)
    ensures
        r == spec_propose_hash(p@),
{
    let acc = mix(mix(17, p.actual_from), p.configuration_number);
    let n = p.changes.len();
    let ghost cv = crate::types::changes_view(p.changes@);
    proof {
        assert(cv.subrange(0, n as int) =~= cv);
    }
    let mut acc = acc;
    let mut i: usize = 0;
    while i < n
        invariant
            n == p.changes@.len(),
            cv == crate::types::changes_view(p.changes@),
            cv.len() == n,
            forall|j: int| 0 <= j < n ==> cv[j] == p.changes@[j]@,
            i <= n,
            spec_digest_changes(acc, cv.subrange(i as int, n as int)) == spec_propose_hash(p@),
        decreases n - i,
    {
        proof {
            let tail = cv.subrange(i as int, n as int);
            assert(tail.subrange(1, tail.len() as int) =~= cv.subrange(i + 1, n as int));
            assert(tail[0] == p.changes@[i as int]@);
        }
        acc = digest_change(acc, &p.changes[i]);
        i += 1;
    }
    proof {
        assert(cv.subrange(n as int, n as int) =~= Seq::<ConfigChangeView>::empty());
    }
    acc
}

} // verus!
