//! Validation and canonical ordering of sandbox inputs, outputs, secret leases,
//! mount paths and policy allowlists.

use vstd::prelude::*;
use vstd::utf8::{encode_utf8, decode_utf8};
use crate::order::{Keyed, key_lt, same_key, strictly_sorted, distinct_keys, sort_by_keys, lemma_sorted_unique, lemma_key_lt_irreflexive};
use crate::sandbox_types::{
    SandboxAdmissionPolicy, SandboxBackend, SandboxDigest, SandboxExecutionError, SandboxFault,
    SandboxInputArtifact, SandboxOutputContract, SandboxSecretLeaseRef, zero_bytes,
    lemma_digest_view_injective,
};
use crate::sandbox_checks::{identifier_fault, guest_path_ok, paths_overlap, validate_identifier, is_guest_path, paths_overlap_exec};

verus! {

broadcast use vstd::seq_lib::group_to_multiset_ensures;

/// The unique strictly ascending arrangement of the items of `s`.
pub open spec fn canonical<T: Keyed>(s: Seq<T>) -> Seq<T> {
    choose|c: Seq<T>| strictly_sorted(c) && c.to_multiset() == s.to_multiset()
}

/// The unique strictly ascending sequence holding the members of `s` once each.
pub open spec fn canonical_set<T: Keyed>(s: Seq<T>) -> Seq<T> {
    choose|c: Seq<T>| strictly_sorted(c) && c.to_set() == s.to_set()
}

/// A strictly ascending arrangement of `s` is `canonical(s)`.
pub proof fn lemma_canonical_is<T: Keyed>(s: Seq<T>, c: Seq<T>)
    requires
        strictly_sorted(c),
        c.to_multiset() == s.to_multiset(),
    ensures
        canonical(s) == c,
{
    let d = canonical(s);
    assert(strictly_sorted(d) && d.to_multiset() == s.to_multiset());
    lemma_sorted_unique(c, d);
}

proof fn lemma_sorted_no_duplicates<T: Keyed>(c: Seq<T>)
    requires
        strictly_sorted(c),
    ensures
        c.no_duplicates(),
{
    assert forall|i: int, j: int| 0 <= i < c.len() && 0 <= j < c.len() && i != j implies c[i]
        != c[j] by {
        if c[i] == c[j] {
            lemma_key_lt_irreflexive(c[i]);
            if i < j {
                assert(key_lt(c[i], c[j]));
            } else {
                assert(key_lt(c[j], c[i]));
            }
        }
    }
}

proof fn lemma_set_to_multiset<T>(a: Seq<T>, b: Seq<T>)
    requires
        a.no_duplicates(),
        b.no_duplicates(),
        a.to_set() == b.to_set(),
    ensures
        a.to_multiset() == b.to_multiset(),
{
    a.lemma_multiset_has_no_duplicates();
    b.lemma_multiset_has_no_duplicates();
    assert forall|x: T| a.to_multiset().count(x) == b.to_multiset().count(x) by {
        assert(a.contains(x) == a.to_set().contains(x));
        assert(b.contains(x) == b.to_set().contains(x));
        if a.contains(x) {
            assert(a.to_multiset().contains(x));
            assert(b.to_multiset().contains(x));
        }
    }
    assert(a.to_multiset() =~= b.to_multiset());
}

/// A strictly ascending sequence with the members of `s` is `canonical_set(s)`.
pub proof fn lemma_canonical_set_is<T: Keyed>(s: Seq<T>, c: Seq<T>)
    requires
        strictly_sorted(c),
        c.to_set() == s.to_set(),
    ensures
        canonical_set(s) == c,
{
    let d = canonical_set(s);
    assert(strictly_sorted(d) && d.to_set() == s.to_set());
    lemma_sorted_no_duplicates(c);
    lemma_sorted_no_duplicates(d);
    lemma_set_to_multiset(c, d);
    lemma_sorted_unique(c, d);
}

proof fn lemma_utf8_injective(a: Seq<char>, b: Seq<char>)
    requires
        encode_utf8(a) == encode_utf8(b),
    ensures
        a == b,
{
    vstd::utf8::encode_utf8_decode_utf8(a);
    vstd::utf8::encode_utf8_decode_utf8(b);
}

/// Some earlier input (before `i`) has the artifact id of `x`.
pub open spec fn input_id_seen(s: Seq<SandboxInputArtifact>, i: int, x: Seq<char>) -> bool {
    exists|j: int| 0 <= j < i && (#[trigger] s[j]).artifact_id@ == x
}

/// Some earlier input (before `i`) has the guest path `x`.
pub open spec fn input_path_seen(s: Seq<SandboxInputArtifact>, i: int, x: Seq<char>) -> bool {
    exists|j: int| 0 <= j < i && (#[trigger] s[j]).guest_path@ == x
}

/// The failure of the inputs from `i` on, with `total` declared bytes counted so far.
pub open spec fn input_scan(
    max_id: nat,
    max_bytes: nat,
    s: Seq<SandboxInputArtifact>,
    i: int,
    total: int,
) -> Option<SandboxFault>
    decreases s.len() - i,
{
    if i < 0 || i >= s.len() {
        if total > max_bytes {
            Some(SandboxFault::InputBytesExceeded { actual: total as nat, max: max_bytes })
        } else {
            None
        }
    } else {
        let x = s[i];
        match identifier_fault("input.artifact_id"@, x.artifact_id@, max_id) {
            Some(f) => Some(f),
            None => if x.content_hash@ == zero_bytes() {
                Some(SandboxFault::ZeroDigest { field: "input.content_hash"@ })
            } else if !guest_path_ok(x.guest_path@, false) {
                Some(
                    SandboxFault::InvalidGuestPath {
                        field: "input.guest_path"@,
                        path: x.guest_path@,
                    },
                )
            } else if x.size_bytes == 0 {
                Some(SandboxFault::EmptyInput(x.artifact_id@))
            } else if input_id_seen(s, i, x.artifact_id@) {
                Some(SandboxFault::DuplicateInput(x.artifact_id@))
            } else if input_path_seen(s, i, x.guest_path@) {
                Some(SandboxFault::DuplicateInput(x.guest_path@))
            } else if total + x.size_bytes > u64::MAX {
                Some(SandboxFault::InputBytesExceeded { actual: u64::MAX as nat, max: max_bytes })
            } else {
                input_scan(max_id, max_bytes, s, i + 1, total + x.size_bytes)
            },
        }
    }
}

/// The first failure of the inputs under `policy`, if any.
pub open spec fn inputs_fault(policy: SandboxAdmissionPolicy, s: Seq<SandboxInputArtifact>) -> Option<
    SandboxFault,
> {
    if s.len() > policy.max_inputs {
        Some(SandboxFault::TooManyInputs { actual: s.len(), max: policy.max_inputs as nat })
    } else {
        input_scan(policy.max_argv_bytes as nat, policy.max_input_bytes as nat, s, 0, 0)
    }
}

/// Validates the inputs and arranges them in ascending guest-path order.
#[verifier::loop_isolation(false)]
pub fn canonicalize_inputs(policy: &SandboxAdmissionPolicy, inputs: Vec<SandboxInputArtifact>) -> (r:
    Result<Vec<SandboxInputArtifact>, SandboxExecutionError>)
    ensures
        match r {
            Ok(v) => inputs_fault(*policy, inputs@) is None && v@ == canonical(inputs@) && v@.len() == inputs@.len()
                && strictly_sorted(v@) && v@.to_multiset() == inputs@.to_multiset(),
            Err(e) => inputs_fault(*policy, inputs@) == Some(e@),
        },
{
    if inputs.len() > policy.max_inputs {
        return Err(
            SandboxExecutionError::TooManyInputs { actual: inputs.len(), max: policy.max_inputs },
        );
    }
    let ghost s = inputs@;
    let mut total: u64 = 0;
    let mut i: usize = 0;
    while i < inputs.len()
        invariant
            s == inputs@,
            i <= s.len(),
            s.len() <= policy.max_inputs,
            inputs_fault(*policy, s) == input_scan(
                policy.max_argv_bytes as nat,
                policy.max_input_bytes as nat,
                s,
                i as int,
                total as int,
            ),
            forall|a: int, b: int|
                0 <= a < i && 0 <= b < i && a != b ==> (#[trigger] s[a]).guest_path@ != (
                #[trigger] s[b]).guest_path@,
        decreases s.len() - i,
    {
        let x = &inputs[i];
        validate_identifier("input.artifact_id", x.artifact_id.as_str(), policy.max_argv_bytes)?;
        if x.content_hash.is_zero() {
            return Err(SandboxExecutionError::ZeroDigest { field: "input.content_hash" });
        }
        if !is_guest_path(x.guest_path.as_str(), false) {
            return Err(
                SandboxExecutionError::InvalidGuestPath {
                    field: "input.guest_path",
                    path: crate::text::copy_string(&x.guest_path),
                },
            );
        }
        if x.size_bytes == 0 {
            return Err(SandboxExecutionError::EmptyInput(crate::text::copy_string(&x.artifact_id)));
        }
        let mut j: usize = 0;
        while j < i
            invariant
                s == inputs@,
                i < s.len(),
                j <= i,
                *x == s[i as int],
                forall|k: int| 0 <= k < j ==> (#[trigger] s[k]).artifact_id@ != x.artifact_id@,
            decreases i - j,
        {
            if inputs[j].artifact_id == x.artifact_id {
                assert(s[j as int].artifact_id@ == x.artifact_id@);
                return Err(
                    SandboxExecutionError::DuplicateInput(crate::text::copy_string(&x.artifact_id)),
                );
            }
            j = j + 1;
        }
        let mut j: usize = 0;
        while j < i
            invariant
                s == inputs@,
                i < s.len(),
                j <= i,
                *x == s[i as int],
                forall|k: int| 0 <= k < j ==> (#[trigger] s[k]).guest_path@ != x.guest_path@,
            decreases i - j,
        {
            if inputs[j].guest_path == x.guest_path {
                assert(s[j as int].guest_path@ == x.guest_path@);
                return Err(
                    SandboxExecutionError::DuplicateInput(crate::text::copy_string(&x.guest_path)),
                );
            }
            j = j + 1;
        }
        if x.size_bytes > u64::MAX - total {
            return Err(
                SandboxExecutionError::InputBytesExceeded {
                    actual: u64::MAX,
                    max: policy.max_input_bytes,
                },
            );
        }
        total = total + x.size_bytes;
        i = i + 1;
    }
    if total > policy.max_input_bytes {
        return Err(
            SandboxExecutionError::InputBytesExceeded {
                actual: total,
                max: policy.max_input_bytes,
            },
        );
    }
    proof {
        assert forall|a: int, b: int|
            0 <= a < s.len() && 0 <= b < s.len() && a != b implies !same_key(
            #[trigger] s[a],
            #[trigger] s[b],
        ) by {
            if encode_utf8(s[a].guest_path@) == encode_utf8(s[b].guest_path@) {
                lemma_utf8_injective(s[a].guest_path@, s[b].guest_path@);
            }
        }
    }
    let sorted = sort_by_keys(inputs);
    proof {
        lemma_canonical_is(s, sorted@);
        assert(sorted@.to_multiset().len() == s.len());
    }
    Ok(sorted)
}

/// Some earlier output (before `i`) has the output id `x`.
pub open spec fn output_id_seen(s: Seq<SandboxOutputContract>, i: int, x: Seq<char>) -> bool {
    exists|j: int| 0 <= j < i && (#[trigger] s[j]).output_id@ == x
}

/// Some earlier output (before `i`) has the guest path `x`.
pub open spec fn output_path_seen(s: Seq<SandboxOutputContract>, i: int, x: Seq<char>) -> bool {
    exists|j: int| 0 <= j < i && (#[trigger] s[j]).guest_path@ == x
}

/// The failure of the outputs from `i` on.
pub open spec fn output_scan(max_id: nat, s: Seq<SandboxOutputContract>, i: int) -> Option<
    SandboxFault,
>
    decreases s.len() - i,
{
    if i < 0 || i >= s.len() {
        None
    } else {
        let x = s[i];
        match identifier_fault("output.output_id"@, x.output_id@, max_id) {
            Some(f) => Some(f),
            None => if !guest_path_ok(x.guest_path@, false) {
                Some(
                    SandboxFault::InvalidGuestPath {
                        field: "output.guest_path"@,
                        path: x.guest_path@,
                    },
                )
            } else if x.max_bytes == 0 {
                Some(SandboxFault::EmptyOutputBudget(x.output_id@))
            } else if output_id_seen(s, i, x.output_id@) {
                Some(SandboxFault::DuplicateOutput(x.output_id@))
            } else if output_path_seen(s, i, x.guest_path@) {
                Some(SandboxFault::DuplicateOutput(x.guest_path@))
            } else {
                output_scan(max_id, s, i + 1)
            },
        }
    }
}

/// The first failure of the outputs under `policy`, if any.
pub open spec fn outputs_fault(policy: SandboxAdmissionPolicy, s: Seq<SandboxOutputContract>) -> Option<
    SandboxFault,
> {
    if s.len() > policy.max_outputs {
        Some(SandboxFault::TooManyOutputs { actual: s.len(), max: policy.max_outputs as nat })
    } else {
        output_scan(policy.max_argv_bytes as nat, s, 0)
    }
}

/// Validates the outputs and arranges them in ascending guest-path order.
#[verifier::loop_isolation(false)]
pub fn canonicalize_outputs(policy: &SandboxAdmissionPolicy, outputs: Vec<SandboxOutputContract>) -> (r:
    Result<Vec<SandboxOutputContract>, SandboxExecutionError>)
    ensures
        match r {
            Ok(v) => outputs_fault(*policy, outputs@) is None && v@ == canonical(outputs@) && v@.len() == outputs@.len()
                && strictly_sorted(v@) && v@.to_multiset() == outputs@.to_multiset(),
            Err(e) => outputs_fault(*policy, outputs@) == Some(e@),
        },
{
    if outputs.len() > policy.max_outputs {
        return Err(
            SandboxExecutionError::TooManyOutputs {
                actual: outputs.len(),
                max: policy.max_outputs,
            },
        );
    }
    let ghost s = outputs@;
    let mut i: usize = 0;
    while i < outputs.len()
        invariant
            s == outputs@,
            i <= s.len(),
            s.len() <= policy.max_outputs,
            outputs_fault(*policy, s) == output_scan(policy.max_argv_bytes as nat, s, i as int),
            forall|a: int, b: int|
                0 <= a < i && 0 <= b < i && a != b ==> (#[trigger] s[a]).guest_path@ != (
                #[trigger] s[b]).guest_path@,
        decreases s.len() - i,
    {
        let x = &outputs[i];
        validate_identifier("output.output_id", x.output_id.as_str(), policy.max_argv_bytes)?;
        if !is_guest_path(x.guest_path.as_str(), false) {
            return Err(
                SandboxExecutionError::InvalidGuestPath {
                    field: "output.guest_path",
                    path: crate::text::copy_string(&x.guest_path),
                },
            );
        }
        if x.max_bytes == 0 {
            return Err(
                SandboxExecutionError::EmptyOutputBudget(crate::text::copy_string(&x.output_id)),
            );
        }
        let mut j: usize = 0;
        while j < i
            invariant
                s == outputs@,
                i < s.len(),
                j <= i,
                *x == s[i as int],
                forall|k: int| 0 <= k < j ==> (#[trigger] s[k]).output_id@ != x.output_id@,
            decreases i - j,
        {
            if outputs[j].output_id == x.output_id {
                assert(s[j as int].output_id@ == x.output_id@);
                return Err(
                    SandboxExecutionError::DuplicateOutput(crate::text::copy_string(&x.output_id)),
                );
            }
            j = j + 1;
        }
        let mut j: usize = 0;
        while j < i
            invariant
                s == outputs@,
                i < s.len(),
                j <= i,
                *x == s[i as int],
                forall|k: int| 0 <= k < j ==> (#[trigger] s[k]).guest_path@ != x.guest_path@,
            decreases i - j,
        {
            if outputs[j].guest_path == x.guest_path {
                assert(s[j as int].guest_path@ == x.guest_path@);
                return Err(
                    SandboxExecutionError::DuplicateOutput(crate::text::copy_string(&x.guest_path)),
                );
            }
            j = j + 1;
        }
        i = i + 1;
    }
    proof {
        assert forall|a: int, b: int|
            0 <= a < s.len() && 0 <= b < s.len() && a != b implies !same_key(
            #[trigger] s[a],
            #[trigger] s[b],
        ) by {
            if encode_utf8(s[a].guest_path@) == encode_utf8(s[b].guest_path@) {
                lemma_utf8_injective(s[a].guest_path@, s[b].guest_path@);
            }
        }
    }
    let sorted = sort_by_keys(outputs);
    proof {
        lemma_canonical_is(s, sorted@);
        assert(sorted@.to_multiset().len() == s.len());
    }
    Ok(sorted)
}

/// Some earlier lease (before `i`) has the same provider and purpose as `x`, or the same lease commitment.
pub open spec fn lease_seen(s: Seq<SandboxSecretLeaseRef>, i: int, x: SandboxSecretLeaseRef) -> bool {
    exists|j: int|
        0 <= j < i && (((#[trigger] s[j]).provider_id@ == x.provider_id@ && s[j].purpose@
            == x.purpose@) || s[j].lease_hash@ == x.lease_hash@)
}

/// The failure of the secret leases from `i` on.
pub open spec fn lease_scan(max_id: nat, s: Seq<SandboxSecretLeaseRef>, i: int) -> Option<
    SandboxFault,
>
    decreases s.len() - i,
{
    if i < 0 || i >= s.len() {
        None
    } else {
        let x = s[i];
        match identifier_fault("secret.provider_id"@, x.provider_id@, max_id) {
            Some(f) => Some(f),
            None => match identifier_fault("secret.purpose"@, x.purpose@, max_id) {
                Some(f) => Some(f),
                None => if x.lease_hash@ == zero_bytes() {
                    Some(SandboxFault::ZeroDigest { field: "secret.lease_hash"@ })
                } else if lease_seen(s, i, x) {
                    Some(
                        SandboxFault::DuplicateSecretLease(
                            x.provider_id@ + seq!['/'] + x.purpose@,
                        ),
                    )
                } else {
                    lease_scan(max_id, s, i + 1)
                },
            },
        }
    }
}

/// The first failure of the secret leases under `policy`, if any.
pub open spec fn leases_fault(policy: SandboxAdmissionPolicy, s: Seq<SandboxSecretLeaseRef>) -> Option<
    SandboxFault,
> {
    if s.len() > 0 && !policy.allow_secret_leases {
        Some(SandboxFault::SecretLeasesDenied)
    } else if s.len() > policy.max_secret_leases {
        Some(
            SandboxFault::TooManySecretLeases {
                actual: s.len(),
                max: policy.max_secret_leases as nat,
            },
        )
    } else {
        lease_scan(policy.max_argv_bytes as nat, s, 0)
    }
}

/// Validates the secret leases and arranges them by provider, then purpose.
#[verifier::loop_isolation(false)]
pub fn canonicalize_secret_leases(
    policy: &SandboxAdmissionPolicy,
    leases: Vec<SandboxSecretLeaseRef>,
) -> (r: Result<Vec<SandboxSecretLeaseRef>, SandboxExecutionError>)
    ensures
        match r {
            Ok(v) => leases_fault(*policy, leases@) is None && v@ == canonical(leases@) && v@.len() == leases@.len()
                && strictly_sorted(v@) && v@.to_multiset() == leases@.to_multiset(),
            Err(e) => leases_fault(*policy, leases@) == Some(e@),
        },
{
    if leases.len() > 0 && !policy.allow_secret_leases {
        return Err(SandboxExecutionError::SecretLeasesDenied);
    }
    if leases.len() > policy.max_secret_leases {
        return Err(
            SandboxExecutionError::TooManySecretLeases {
                actual: leases.len(),
                max: policy.max_secret_leases,
            },
        );
    }
    let ghost s = leases@;
    let mut i: usize = 0;
    while i < leases.len()
        invariant
            s == leases@,
            i <= s.len(),
            !(s.len() > 0 && !policy.allow_secret_leases),
            s.len() <= policy.max_secret_leases,
            leases_fault(*policy, s) == lease_scan(policy.max_argv_bytes as nat, s, i as int),
            forall|a: int, b: int|
                0 <= a < i && 0 <= b < i && a != b ==> !((#[trigger] s[a]).provider_id@ == (
                #[trigger] s[b]).provider_id@ && s[a].purpose@ == s[b].purpose@),
        decreases s.len() - i,
    {
        let x = &leases[i];
        validate_identifier("secret.provider_id", x.provider_id.as_str(), policy.max_argv_bytes)?;
        validate_identifier("secret.purpose", x.purpose.as_str(), policy.max_argv_bytes)?;
        if x.lease_hash.is_zero() {
            return Err(SandboxExecutionError::ZeroDigest { field: "secret.lease_hash" });
        }
        let mut j: usize = 0;
        while j < i
            invariant
                s == leases@,
                i < s.len(),
                j <= i,
                *x == s[i as int],
                forall|k: int|
                    0 <= k < j ==> !(((#[trigger] s[k]).provider_id@ == x.provider_id@
                        && s[k].purpose@ == x.purpose@) || s[k].lease_hash@ == x.lease_hash@),
            decreases i - j,
        {
            let y = &leases[j];
            if (y.provider_id == x.provider_id && y.purpose == x.purpose) || y.lease_hash.same_as(
                &x.lease_hash,
            ) {
                assert(s[j as int] == *y);
                assert(lease_seen(s, i as int, *x));
                let mut m = crate::text::copy_string(&x.provider_id);
                crate::text::push_char(&mut m, '/');
                crate::text::push_str(&mut m, x.purpose.as_str());
                assert(m@ =~= x.provider_id@ + seq!['/'] + x.purpose@);
                return Err(SandboxExecutionError::DuplicateSecretLease(m));
            }
            j = j + 1;
        }
        i = i + 1;
    }
    proof {
        assert forall|a: int, b: int|
            0 <= a < s.len() && 0 <= b < s.len() && a != b implies !same_key(
            #[trigger] s[a],
            #[trigger] s[b],
        ) by {
            if same_key(s[a], s[b]) {
                lemma_utf8_injective(s[a].provider_id@, s[b].provider_id@);
                lemma_utf8_injective(s[a].purpose@, s[b].purpose@);
            }
        }
    }
    let sorted = sort_by_keys(leases);
    proof {
        lemma_canonical_is(s, sorted@);
        assert(sorted@.to_multiset().len() == s.len());
    }
    Ok(sorted)
}

/// The guest paths of the inputs followed by those of the outputs.
pub open spec fn mount_paths(inputs: Seq<SandboxInputArtifact>, outputs: Seq<SandboxOutputContract>) -> Seq<
    Seq<char>,
> {
    inputs.map_values(|x: SandboxInputArtifact| x.guest_path@) + outputs.map_values(
        |o: SandboxOutputContract| o.guest_path@,
    )
}

/// The first overlapping pair of paths at or after position (`i`, `j`) in row order.
pub open spec fn overlap_scan(p: Seq<Seq<char>>, i: int, j: int) -> Option<SandboxFault>
    decreases p.len() - i, p.len() - j,
{
    if i < 0 || i >= p.len() {
        None
    } else if j >= p.len() {
        overlap_scan(p, i + 1, i + 2)
    } else if j >= 0 && paths_overlap(p[i], p[j]) {
        Some(SandboxFault::OverlappingGuestPaths { left: p[i], right: p[j] })
    } else {
        overlap_scan(p, i, j + 1)
    }
}

/// The first pair of overlapping mount paths, if any.
pub open spec fn overlap_fault(inputs: Seq<SandboxInputArtifact>, outputs: Seq<SandboxOutputContract>) -> Option<
    SandboxFault,
> {
    overlap_scan(mount_paths(inputs, outputs), 0, 1)
}

fn mount_path<'a>(
    inputs: &'a Vec<SandboxInputArtifact>,
    outputs: &'a Vec<SandboxOutputContract>,
    k: usize,
) -> (r: &'a str)
    requires
        k < inputs@.len() + outputs@.len(),
    ensures
        r@ == mount_paths(inputs@, outputs@)[k as int],
{
    if k < inputs.len() {
        inputs[k].guest_path.as_str()
    } else {
        outputs[k - inputs.len()].guest_path.as_str()
    }
}

/// Checks that no mount path equals or lies beneath another.
pub fn validate_mount_path_disjointness(
    inputs: &Vec<SandboxInputArtifact>,
    outputs: &Vec<SandboxOutputContract>,
) -> (r: Result<(), SandboxExecutionError>)
    requires
        inputs@.len() + outputs@.len() < usize::MAX,
    ensures
        crate::sandbox_checks::outcome(r, overlap_fault(inputs@, outputs@)),
{
    let ghost p = mount_paths(inputs@, outputs@);
    let n = inputs.len() + outputs.len();
    let mut i: usize = 0;
    while i < n
        invariant
            p == mount_paths(inputs@, outputs@),
            n == p.len(),
            i <= n,
            overlap_fault(inputs@, outputs@) == overlap_scan(p, i as int, i as int + 1),
        decreases n - i,
    {
        let mut j: usize = i + 1;
        while j < n
            invariant
                p == mount_paths(inputs@, outputs@),
                n == p.len(),
                i < n,
                i < j <= n,
                overlap_fault(inputs@, outputs@) == overlap_scan(p, i as int, j as int),
            decreases n - j,
        {
            let left = mount_path(inputs, outputs, i);
            let right = mount_path(inputs, outputs, j);
            if paths_overlap_exec(left, right) {
                return Err(
                    SandboxExecutionError::OverlappingGuestPaths {
                        left: String::from_str(left),
                        right: String::from_str(right),
                    },
                );
            }
            j = j + 1;
        }
        i = i + 1;
    }
    Ok(())
}

/// The backends of `v` once each, in declaration order.
pub open spec fn backend_set_seq(v: Seq<SandboxBackend>) -> Seq<SandboxBackend> {
    (if v.contains(SandboxBackend::Firecracker) {
        seq![SandboxBackend::Firecracker]
    } else {
        Seq::empty()
    }) + (if v.contains(SandboxBackend::Qemu) {
        seq![SandboxBackend::Qemu]
    } else {
        Seq::empty()
    }) + (if v.contains(SandboxBackend::Kata) {
        seq![SandboxBackend::Kata]
    } else {
        Seq::empty()
    }) + (if v.contains(SandboxBackend::AppleVirtualization) {
        seq![SandboxBackend::AppleVirtualization]
    } else {
        Seq::empty()
    }) + (if v.contains(SandboxBackend::HyperV) {
        seq![SandboxBackend::HyperV]
    } else {
        Seq::empty()
    })
}

/// Whether `v` lists `b`.
pub fn backend_listed(v: &Vec<SandboxBackend>, b: SandboxBackend) -> (r: bool)
    ensures
        r == v@.contains(b),
{
    let mut i: usize = 0;
    while i < v.len()
        invariant
            i <= v@.len(),
            forall|k: int| 0 <= k < i ==> v@[k] != b,
        decreases v@.len() - i,
    {
        if v[i] == b {
            assert(v@[i as int] == b);
            return true;
        }
        i = i + 1;
    }
    false
}

fn push_if_listed(out: &mut Vec<SandboxBackend>, v: &Vec<SandboxBackend>, b: SandboxBackend)
    ensures
        final(out)@ == old(out)@ + (if v@.contains(b) {
            seq![b]
        } else {
            Seq::<SandboxBackend>::empty()
        }),
{
    if backend_listed(v, b) {
        out.push(b);
        assert(final(out)@ =~= old(out)@ + seq![b]);
    } else {
        assert(out@ =~= out@ + Seq::<SandboxBackend>::empty());
    }
}

/// The backends of `v` once each, in declaration order.
pub fn canonical_backends(v: &Vec<SandboxBackend>) -> (r: Vec<SandboxBackend>)
    ensures
        r@ == backend_set_seq(v@),
{
    let mut out: Vec<SandboxBackend> = Vec::new();
    push_if_listed(&mut out, v, SandboxBackend::Firecracker);
    push_if_listed(&mut out, v, SandboxBackend::Qemu);
    push_if_listed(&mut out, v, SandboxBackend::Kata);
    push_if_listed(&mut out, v, SandboxBackend::AppleVirtualization);
    push_if_listed(&mut out, v, SandboxBackend::HyperV);
    assert(out@ =~= backend_set_seq(v@));
    out
}

/// Whether `v` lists a digest with the bytes of `d`.
pub fn digest_listed(v: &Vec<SandboxDigest>, d: &SandboxDigest) -> (r: bool)
    ensures
        r == v@.contains(*d),
{
    let mut i: usize = 0;
    while i < v.len()
        invariant
            i <= v@.len(),
            forall|k: int| 0 <= k < i ==> v@[k] != *d,
        decreases v@.len() - i,
    {
        if v[i].same_as(d) {
            assert(v@[i as int] == *d);
            return true;
        }
        i = i + 1;
    }
    false
}

/// The digests of `v` once each, in ascending byte order.
pub fn canonical_digests(v: &Vec<SandboxDigest>) -> (r: Vec<SandboxDigest>)
    ensures
        r@ == canonical_set(v@),
{
    let mut uniq: Vec<SandboxDigest> = Vec::new();
    let mut i: usize = 0;
    while i < v.len()
        invariant
            i <= v@.len(),
            uniq@.to_set() == v@.subrange(0, i as int).to_set(),
            uniq@.no_duplicates(),
        decreases v@.len() - i,
    {
        let d = v[i];
        let seen = digest_listed(&uniq, &d);
        let ghost before = uniq@;
        if !seen {
            uniq.push(d);
        }
        proof {
            let pre = v@.subrange(0, i as int);
            let post = v@.subrange(0, i as int + 1);
            assert(post =~= pre.push(d));
            assert forall|x: SandboxDigest| post.to_set().contains(x) <==> uniq@.to_set().contains(x) by {
                assert(post.contains(x) <==> (pre.contains(x) || x == d)) by {
                    if post.contains(x) {
                        let k = choose|k: int| 0 <= k < post.len() && post[k] == x;
                        if k < pre.len() {
                            assert(pre[k] == x);
                        }
                    }
                    if pre.contains(x) {
                        let k = choose|k: int| 0 <= k < pre.len() && pre[k] == x;
                        assert(post[k] == x);
                    }
                    if x == d {
                        assert(post[pre.len() as int] == x);
                    }
                }
                if !seen {
                    assert(uniq@ =~= before.push(d));
                    assert(uniq@.contains(x) <==> (before.contains(x) || x == d)) by {
                        if uniq@.contains(x) {
                            let k = choose|k: int| 0 <= k < uniq@.len() && uniq@[k] == x;
                            if k < before.len() {
                                assert(before[k] == x);
                            }
                        }
                        if before.contains(x) {
                            let k = choose|k: int| 0 <= k < before.len() && before[k] == x;
                            assert(uniq@[k] == x);
                        }
                        if x == d {
                            assert(uniq@[before.len() as int] == x);
                        }
                    }
                }
                assert(before.to_set().contains(x) == pre.to_set().contains(x));
            }
            assert(post.to_set() =~= uniq@.to_set());
            if !seen {
                assert forall|a: int, b: int|
                    0 <= a < uniq@.len() && 0 <= b < uniq@.len() && a != b implies uniq@[a]
                    != uniq@[b] by {
                    if a < before.len() && b < before.len() {
                    } else if a == before.len() {
                        assert(before.contains(before[b]));
                    } else {
                        assert(before.contains(before[a]));
                    }
                }
            }
        }
        i = i + 1;
    }
    proof {
        assert(v@.subrange(0, v@.len() as int) =~= v@);
        assert forall|a: int, b: int|
            0 <= a < uniq@.len() && 0 <= b < uniq@.len() && a != b implies !same_key(
            #[trigger] uniq@[a],
            #[trigger] uniq@[b],
        ) by {
            if same_key(uniq@[a], uniq@[b]) {
                lemma_digest_view_injective(uniq@[a], uniq@[b]);
            }
        }
    }
    let ghost u = uniq@;
    let sorted = sort_by_keys(uniq);
    proof {
        assert forall|x: SandboxDigest| sorted@.contains(x) <==> u.contains(x) by {
            assert(sorted@.contains(x) <==> sorted@.to_multiset().count(x) > 0);
            assert(u.contains(x) <==> u.to_multiset().count(x) > 0);
        }
        assert(sorted@.to_set() =~= u.to_set());
        lemma_canonical_set_is(v@, sorted@);
    }
    sorted
}

} // verus!
