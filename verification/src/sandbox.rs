//! Pure admission and receipt validation for policy-bound VM sandboxes.
//!
//! Nothing here launches a runtime. Admission checks an exact execution plan
//! against a deterministic policy and commits to it; receipt validation checks
//! what a runtime shell reports against the admitted plan. A runtime adapter
//! consumes only [`AdmittedSandboxExecution`], and downstream code only
//! [`ValidatedSandboxReceipt`]: both are built by this module alone.

use vstd::prelude::*;
use crate::hashing::sha256_spec;
use crate::sandbox_types::{
    SandboxAdmissionPolicy, SandboxBackend, SandboxDigest, SandboxExecutionError,
    SandboxExecutionReceipt, SandboxExecutionRequest, SandboxFault, SandboxOutputContract,
    SandboxTermination, zero_bytes,
};
use crate::sandbox_checks::{
    identifier_fault, resources_fault, isolation_fault, argv_fault, guest_path_fault,
    validate_identifier, validate_resources, validate_isolation, validate_argv,
    validate_guest_path, HARD_MAX_IDENTIFIER_BYTES, HARD_MAX_ARG_COUNT, HARD_MAX_ARG_BYTES,
    HARD_MAX_MOUNTS, HARD_MAX_SECRET_LEASES, HARD_MAX_ALLOWLIST_ITEMS,
};
use crate::sandbox_canon::{
    canonical, canonical_set, backend_set_seq, inputs_fault, outputs_fault, leases_fault,
    overlap_fault, canonicalize_inputs, canonicalize_outputs, canonicalize_secret_leases,
    validate_mount_path_disjointness, canonical_backends, canonical_digests, digest_listed,
    backend_listed,
};
use crate::sandbox_hash::{policy_preimage, plan_preimage, receipt_preimage, hash_policy, hash_plan, hash_receipt};
use crate::text::push_str;
use crate::order::strictly_sorted;

verus! {

/// `a` if it is a fault, else `b`.
pub open spec fn first_fault(a: Option<SandboxFault>, b: Option<SandboxFault>) -> Option<
    SandboxFault,
> {
    if a is Some {
        a
    } else {
        b
    }
}

/// `f` when `bad` holds.
pub open spec fn fault_if(bad: bool, f: SandboxFault) -> Option<SandboxFault> {
    if bad {
        Some(f)
    } else {
        None
    }
}

/// A required commitment is the all-zero sentinel.
pub open spec fn zero_fault(field: Seq<char>, d: SandboxDigest) -> Option<SandboxFault> {
    fault_if(d@ == zero_bytes(), SandboxFault::ZeroDigest { field })
}

/// The first failure of a digest allowlist of the policy, if any.
pub open spec fn allowlist_fault(field: Seq<char>, v: Seq<SandboxDigest>) -> Option<SandboxFault> {
    let c = canonical_set(v);
    if c.len() == 0 {
        Some(SandboxFault::InvalidPolicy(field + " must not be empty"@))
    } else if c.len() > 4096 {
        Some(SandboxFault::InvalidPolicy(field + " must not exceed 4096 entries"@))
    } else if exists|i: int| 0 <= i < v.len() && (#[trigger] v[i])@ == zero_bytes() {
        Some(SandboxFault::InvalidPolicy(field + " must not contain the all-zero digest"@))
    } else {
        None
    }
}

/// A policy count outside `1..=hard_max`.
pub open spec fn count_fault(field: Seq<char>, value: nat, hard_max: nat, hard_text: Seq<char>) -> Option<
    SandboxFault,
> {
    fault_if(
        value == 0 || value > hard_max,
        SandboxFault::InvalidPolicy(field + " must be between 1 and "@ + hard_text),
    )
}

/// The first failure of a policy's own consistency, if any.
pub open spec fn policy_fault(p: SandboxAdmissionPolicy) -> Option<SandboxFault> {
    first_fault(
        identifier_fault("policy_id"@, p.policy_id@, 1024),
        first_fault(
            fault_if(
                p.policy_epoch == 0,
                SandboxFault::InvalidPolicy("policy_epoch must be greater than zero"@),
            ),
            first_fault(
                fault_if(
                    p.allowed_backends@.len() == 0,
                    SandboxFault::InvalidPolicy("allowed_backends must not be empty"@),
                ),
                first_fault(
                    allowlist_fault("allowed_runtime_digests"@, p.allowed_runtime_digests@),
                    first_fault(
                        allowlist_fault("allowed_kernel_digests"@, p.allowed_kernel_digests@),
                        first_fault(
                            allowlist_fault("allowed_rootfs_digests"@, p.allowed_rootfs_digests@),
                            first_fault(
                                allowlist_fault(
                                    "allowed_network_policy_hashes"@,
                                    p.allowed_network_policy_hashes@,
                                ),
                                policy_limits_fault(p),
                            ),
                        ),
                    ),
                ),
            ),
        ),
    )
}

/// The first failure among the policy's budget, counts and lease settings, if any.
pub open spec fn policy_limits_fault(p: SandboxAdmissionPolicy) -> Option<SandboxFault> {
    first_fault(
        resources_fault(p.max_resources, p.max_resources),
        first_fault(
            count_fault("max_argv"@, p.max_argv as nat, 4096, "4096"@),
            first_fault(
                count_fault("max_argv_bytes"@, p.max_argv_bytes as nat, 65536, "65536"@),
                first_fault(
                    count_fault("max_inputs"@, p.max_inputs as nat, 1024, "1024"@),
                    first_fault(
                        count_fault("max_outputs"@, p.max_outputs as nat, 1024, "1024"@),
                        first_fault(
                            fault_if(
                                p.max_input_bytes == 0,
                                SandboxFault::InvalidPolicy(
                                    "max_input_bytes must be greater than zero"@,
                                ),
                            ),
                            first_fault(
                                fault_if(
                                    p.max_secret_leases > 256,
                                    SandboxFault::InvalidPolicy(
                                        "max_secret_leases must not exceed 256"@,
                                    ),
                                ),
                                first_fault(
                                    fault_if(
                                        !p.allow_secret_leases && p.max_secret_leases != 0,
                                        SandboxFault::InvalidPolicy(
                                            "max_secret_leases must be zero when secret leases are disabled"@,
                                        ),
                                    ),
                                    fault_if(
                                        p.allow_secret_leases && p.max_secret_leases == 0,
                                        SandboxFault::InvalidPolicy(
                                            "max_secret_leases must be positive when secret leases are enabled"@,
                                        ),
                                    ),
                                ),
                            ),
                        ),
                    ),
                ),
            ),
        ),
    )
}

/// The commitment to a policy: SHA-256 over its canonical encoding, with each
/// allowlist taken once per member in ascending order.
pub open spec fn policy_commitment(p: SandboxAdmissionPolicy) -> Seq<u8> {
    sha256_spec(
        policy_preimage(
            p,
            backend_set_seq(p.allowed_backends@),
            canonical_set(p.allowed_runtime_digests@),
            canonical_set(p.allowed_kernel_digests@),
            canonical_set(p.allowed_rootfs_digests@),
            canonical_set(p.allowed_network_policy_hashes@),
        ),
    )
}

/// The first reason to refuse `r` under `p`, if any, in the order the checks are made.
pub open spec fn admit_fault(p: SandboxAdmissionPolicy, r: SandboxExecutionRequest) -> Option<
    SandboxFault,
> {
    first_fault(
        policy_fault(p),
        first_fault(
            identifier_fault("request_id"@, r.request_id@, p.max_argv_bytes as nat),
            first_fault(
                fault_if(r.execution_epoch == 0, SandboxFault::InvalidExecutionEpoch),
                first_fault(
                    zero_fault("runtime_digest"@, r.runtime_digest),
                    first_fault(
                        zero_fault("kernel_digest"@, r.kernel_digest),
                        first_fault(
                            zero_fault("rootfs_digest"@, r.rootfs_digest),
                            first_fault(
                                zero_fault("execution_nonce"@, r.execution_nonce),
                                admit_allowlist_fault(p, r),
                            ),
                        ),
                    ),
                ),
            ),
        ),
    )
}

/// The first allowlist, budget or shape failure of `r` under `p`, if any.
pub open spec fn admit_allowlist_fault(p: SandboxAdmissionPolicy, r: SandboxExecutionRequest) -> Option<
    SandboxFault,
> {
    first_fault(
        fault_if(
            !p.allowed_backends@.contains(r.backend),
            SandboxFault::BackendDenied(r.backend),
        ),
        first_fault(
            fault_if(
                !p.allowed_runtime_digests@.contains(r.runtime_digest),
                SandboxFault::RuntimeDigestDenied,
            ),
            first_fault(
                fault_if(
                    !p.allowed_kernel_digests@.contains(r.kernel_digest),
                    SandboxFault::KernelDigestDenied,
                ),
                first_fault(
                    fault_if(
                        !p.allowed_rootfs_digests@.contains(r.rootfs_digest),
                        SandboxFault::RootfsDigestDenied,
                    ),
                    first_fault(
                        identifier_fault(
                            "network.policy_id"@,
                            r.network.policy_id@,
                            p.max_argv_bytes as nat,
                        ),
                        first_fault(
                            zero_fault("network.policy_hash"@, r.network.policy_hash),
                            first_fault(
                                fault_if(
                                    !p.allowed_network_policy_hashes@.contains(
                                        r.network.policy_hash,
                                    ),
                                    SandboxFault::NetworkPolicyDenied,
                                ),
                                admit_shape_fault(p, r),
                            ),
                        ),
                    ),
                ),
            ),
        ),
    )
}

/// The first budget, isolation, argv, path or mount failure of `r` under `p`, if any.
pub open spec fn admit_shape_fault(p: SandboxAdmissionPolicy, r: SandboxExecutionRequest) -> Option<
    SandboxFault,
> {
    first_fault(
        resources_fault(r.resources, p.max_resources),
        first_fault(
            isolation_fault(r.isolation, p.required_isolation),
            first_fault(
                argv_fault(r.argv@, p.max_argv as nat, p.max_argv_bytes as nat),
                first_fault(
                    guest_path_fault("working_dir"@, r.working_dir@, true),
                    first_fault(
                        inputs_fault(p, r.inputs@),
                        first_fault(
                            outputs_fault(p, r.outputs@),
                            first_fault(
                                leases_fault(p, r.secret_leases@),
                                overlap_fault(canonical(r.inputs@), canonical(r.outputs@)),
                            ),
                        ),
                    ),
                ),
            ),
        ),
    )
}

/// `a` is `r` with inputs, outputs and secret leases in canonical order and
/// every other field unchanged.
pub open spec fn canonical_form_of(a: SandboxExecutionRequest, r: SandboxExecutionRequest) -> bool {
    &&& a.request_id == r.request_id
    &&& a.execution_epoch == r.execution_epoch
    &&& a.backend == r.backend
    &&& a.runtime_digest == r.runtime_digest
    &&& a.kernel_digest == r.kernel_digest
    &&& a.rootfs_digest == r.rootfs_digest
    &&& a.execution_nonce == r.execution_nonce
    &&& a.argv == r.argv
    &&& a.working_dir == r.working_dir
    &&& a.inputs@ == canonical(r.inputs@)
    &&& a.outputs@ == canonical(r.outputs@)
    &&& a.secret_leases@ == canonical(r.secret_leases@)
    &&& strictly_sorted(a.inputs@) && a.inputs@.to_multiset() == r.inputs@.to_multiset()
    &&& strictly_sorted(a.outputs@) && a.outputs@.to_multiset() == r.outputs@.to_multiset()
    &&& strictly_sorted(a.secret_leases@) && a.secret_leases@.to_multiset()
        == r.secret_leases@.to_multiset()
    &&& a.network == r.network
    &&& a.resources == r.resources
    &&& a.isolation == r.isolation
}

/// What a successful admission of `r` under `p` returns: the canonical form
/// of `r`, the policy commitment, and the plan commitment over both.
pub open spec fn admitted_from(
    a: AdmittedSandboxExecution,
    p: SandboxAdmissionPolicy,
    r: SandboxExecutionRequest,
) -> bool {
    &&& admit_fault(p, r) is None
    &&& canonical_form_of(a.spec_request(), r)
    &&& a.spec_policy_hash()@ == policy_commitment(p)
    &&& a.spec_plan_hash()@ == sha256_spec(plan_preimage(a.spec_policy_hash()@, a.spec_request()))
}

/// Constructor-gated plan consumable by a VM runtime shell.
///
/// Only [`admit_sandbox_execution`] builds one, so holding one means the plan
/// passed admission.
#[derive(Debug, Clone, PartialEq, Eq)]
pub struct AdmittedSandboxExecution {
    request: SandboxExecutionRequest,
    policy_hash: SandboxDigest,
    plan_hash: SandboxDigest,
}

impl AdmittedSandboxExecution {
    /// The canonicalized admitted request.
    pub closed spec fn spec_request(&self) -> SandboxExecutionRequest {
        self.request
    }

    /// The policy commitment used for admission.
    pub closed spec fn spec_policy_hash(&self) -> SandboxDigest {
        self.policy_hash
    }

    /// The plan commitment.
    pub closed spec fn spec_plan_hash(&self) -> SandboxDigest {
        self.plan_hash
    }

    /// Return the canonicalized admitted request.
    pub fn request(&self) -> (r: &SandboxExecutionRequest)
        ensures
            *r == self.spec_request(),
    {
        &self.request
    }

    /// Return the exact policy commitment used for admission.
    pub fn policy_hash(&self) -> (d: &SandboxDigest)
        ensures
            *d == self.spec_policy_hash(),
    {
        &self.policy_hash
    }

    /// Return the commitment the runtime and receipt must preserve.
    pub fn plan_hash(&self) -> (d: &SandboxDigest)
        ensures
            *d == self.spec_plan_hash(),
    {
        &self.plan_hash
    }
}

struct CanonicalAllowlists {
    backends: Vec<SandboxBackend>,
    runtime: Vec<SandboxDigest>,
    kernel: Vec<SandboxDigest>,
    rootfs: Vec<SandboxDigest>,
    network: Vec<SandboxDigest>,
}

fn policy_message(head: &str, tail: &str) -> (e: SandboxExecutionError)
    ensures
        e@ == SandboxFault::InvalidPolicy(head@ + tail@),
{
    let mut m = String::from_str(head);
    push_str(&mut m, tail);
    SandboxExecutionError::InvalidPolicy(m)
}

#[verifier::loop_isolation(false)]
fn validate_digest_allowlist(field: &'static str, values: &Vec<SandboxDigest>) -> (r: Result<
    Vec<SandboxDigest>,
    SandboxExecutionError,
>)
    ensures
        match r {
            Ok(c) => allowlist_fault(field@, values@) is None && c@ == canonical_set(values@),
            Err(e) => allowlist_fault(field@, values@) == Some(e@),
        },
{
    let c = canonical_digests(values);
    if c.len() == 0 {
        return Err(policy_message(field, " must not be empty"));
    }
    if c.len() > HARD_MAX_ALLOWLIST_ITEMS {
        return Err(policy_message(field, " must not exceed 4096 entries"));
    }
    let mut i: usize = 0;
    while i < values.len()
        invariant
            i <= values@.len(),
            forall|k: int| 0 <= k < i ==> (#[trigger] values@[k])@ != zero_bytes(),
        decreases values@.len() - i,
    {
        if values[i].is_zero() {
            assert((values@[i as int])@ == zero_bytes());
            return Err(policy_message(field, " must not contain the all-zero digest"));
        }
        i = i + 1;
    }
    Ok(c)
}

fn validate_policy_count(field: &'static str, value: usize, hard_max: usize, hard_text: &'static str) -> (r:
    Result<(), SandboxExecutionError>)
    ensures
        crate::sandbox_checks::outcome(
            r,
            count_fault(field@, value as nat, hard_max as nat, hard_text@),
        ),
{
    if value == 0 || value > hard_max {
        let mut m = String::from_str(field);
        push_str(&mut m, " must be between 1 and ");
        push_str(&mut m, hard_text);
        return Err(SandboxExecutionError::InvalidPolicy(m));
    }
    Ok(())
}

fn validate_policy_limits(policy: &SandboxAdmissionPolicy) -> (r: Result<(), SandboxExecutionError>)
    ensures
        crate::sandbox_checks::outcome(r, policy_limits_fault(*policy)),
{
    validate_resources(&policy.max_resources, &policy.max_resources)?;
    validate_policy_count("max_argv", policy.max_argv, HARD_MAX_ARG_COUNT, "4096")?;
    validate_policy_count("max_argv_bytes", policy.max_argv_bytes, HARD_MAX_ARG_BYTES, "65536")?;
    validate_policy_count("max_inputs", policy.max_inputs, HARD_MAX_MOUNTS, "1024")?;
    validate_policy_count("max_outputs", policy.max_outputs, HARD_MAX_MOUNTS, "1024")?;
    if policy.max_input_bytes == 0 {
        return Err(
            SandboxExecutionError::InvalidPolicy(
                String::from_str("max_input_bytes must be greater than zero"),
            ),
        );
    }
    if policy.max_secret_leases > HARD_MAX_SECRET_LEASES {
        return Err(
            SandboxExecutionError::InvalidPolicy(
                String::from_str("max_secret_leases must not exceed 256"),
            ),
        );
    }
    if !policy.allow_secret_leases && policy.max_secret_leases != 0 {
        return Err(
            SandboxExecutionError::InvalidPolicy(
                String::from_str("max_secret_leases must be zero when secret leases are disabled"),
            ),
        );
    }
    if policy.allow_secret_leases && policy.max_secret_leases == 0 {
        return Err(
            SandboxExecutionError::InvalidPolicy(
                String::from_str("max_secret_leases must be positive when secret leases are enabled"),
            ),
        );
    }
    Ok(())
}

fn validate_policy(policy: &SandboxAdmissionPolicy) -> (r: Result<
    CanonicalAllowlists,
    SandboxExecutionError,
>)
    ensures
        match r {
            Ok(c) => {
                &&& policy_fault(*policy) is None
                &&& c.backends@ == backend_set_seq(policy.allowed_backends@)
                &&& c.runtime@ == canonical_set(policy.allowed_runtime_digests@)
                &&& c.kernel@ == canonical_set(policy.allowed_kernel_digests@)
                &&& c.rootfs@ == canonical_set(policy.allowed_rootfs_digests@)
                &&& c.network@ == canonical_set(policy.allowed_network_policy_hashes@)
            },
            Err(e) => policy_fault(*policy) == Some(e@),
        },
{
    validate_identifier("policy_id", policy.policy_id.as_str(), HARD_MAX_IDENTIFIER_BYTES)?;
    if policy.policy_epoch == 0 {
        return Err(
            SandboxExecutionError::InvalidPolicy(
                String::from_str("policy_epoch must be greater than zero"),
            ),
        );
    }
    if policy.allowed_backends.len() == 0 {
        return Err(
            SandboxExecutionError::InvalidPolicy(
                String::from_str("allowed_backends must not be empty"),
            ),
        );
    }
    let runtime = validate_digest_allowlist(
        "allowed_runtime_digests",
        &policy.allowed_runtime_digests,
    )?;
    let kernel = validate_digest_allowlist("allowed_kernel_digests", &policy.allowed_kernel_digests)?;
    let rootfs = validate_digest_allowlist("allowed_rootfs_digests", &policy.allowed_rootfs_digests)?;
    let network = validate_digest_allowlist(
        "allowed_network_policy_hashes",
        &policy.allowed_network_policy_hashes,
    )?;
    validate_policy_limits(policy)?;
    let backends = canonical_backends(&policy.allowed_backends);
    Ok(CanonicalAllowlists { backends, runtime, kernel, rootfs, network })
}

fn require_non_zero(field: &'static str, digest: &SandboxDigest) -> (r: Result<
    (),
    SandboxExecutionError,
>)
    ensures
        crate::sandbox_checks::outcome(r, zero_fault(field@, *digest)),
{
    if digest.is_zero() {
        return Err(SandboxExecutionError::ZeroDigest { field });
    }
    Ok(())
}

/// Compute the canonical commitment to a validated sandbox policy.
pub fn sandbox_policy_hash(policy: &SandboxAdmissionPolicy) -> (r: Result<
    SandboxDigest,
    SandboxExecutionError,
>)
    ensures
        match r {
            Ok(d) => policy_fault(*policy) is None && d@ == policy_commitment(*policy),
            Err(e) => policy_fault(*policy) == Some(e@),
        },
{
    let c = validate_policy(policy)?;
    Ok(hash_policy(policy, &c.backends, &c.runtime, &c.kernel, &c.rootfs, &c.network))
}

/// Admit an exact sandbox plan under a deterministic policy.
///
/// On success the returned plan holds `request` with its inputs, outputs and
/// secret leases in canonical order, the policy commitment, and the plan
/// commitment over both.
pub fn admit_sandbox_execution(
    policy: &SandboxAdmissionPolicy,
    request: SandboxExecutionRequest,
) -> (r: Result<AdmittedSandboxExecution, SandboxExecutionError>)
    ensures
        match r {
            Ok(a) => admitted_from(a, *policy, request),
            Err(e) => admit_fault(*policy, request) == Some(e@),
        },
{
    let lists = validate_policy(policy)?;
    validate_identifier("request_id", request.request_id.as_str(), policy.max_argv_bytes)?;
    if request.execution_epoch == 0 {
        return Err(SandboxExecutionError::InvalidExecutionEpoch);
    }
    require_non_zero("runtime_digest", &request.runtime_digest)?;
    require_non_zero("kernel_digest", &request.kernel_digest)?;
    require_non_zero("rootfs_digest", &request.rootfs_digest)?;
    require_non_zero("execution_nonce", &request.execution_nonce)?;

    if !backend_listed(&policy.allowed_backends, request.backend) {
        return Err(SandboxExecutionError::BackendDenied(request.backend));
    }
    if !digest_listed(&policy.allowed_runtime_digests, &request.runtime_digest) {
        return Err(SandboxExecutionError::RuntimeDigestDenied);
    }
    if !digest_listed(&policy.allowed_kernel_digests, &request.kernel_digest) {
        return Err(SandboxExecutionError::KernelDigestDenied);
    }
    if !digest_listed(&policy.allowed_rootfs_digests, &request.rootfs_digest) {
        return Err(SandboxExecutionError::RootfsDigestDenied);
    }
    validate_identifier(
        "network.policy_id",
        request.network.policy_id.as_str(),
        policy.max_argv_bytes,
    )?;
    require_non_zero("network.policy_hash", &request.network.policy_hash)?;
    if !digest_listed(&policy.allowed_network_policy_hashes, &request.network.policy_hash) {
        return Err(SandboxExecutionError::NetworkPolicyDenied);
    }

    validate_resources(&request.resources, &policy.max_resources)?;
    validate_isolation(&request.isolation, &policy.required_isolation)?;
    validate_argv(&request.argv, policy.max_argv, policy.max_argv_bytes)?;
    validate_guest_path("working_dir", request.working_dir.as_str(), true)?;

    let ghost original = request;
    let SandboxExecutionRequest {
        request_id,
        execution_epoch,
        backend,
        runtime_digest,
        kernel_digest,
        rootfs_digest,
        execution_nonce,
        argv,
        working_dir,
        inputs,
        outputs,
        secret_leases,
        network,
        resources,
        isolation,
    } = request;
    let inputs = canonicalize_inputs(policy, inputs)?;
    let outputs = canonicalize_outputs(policy, outputs)?;
    let secret_leases = canonicalize_secret_leases(policy, secret_leases)?;
    validate_mount_path_disjointness(&inputs, &outputs)?;

    let request = SandboxExecutionRequest {
        request_id,
        execution_epoch,
        backend,
        runtime_digest,
        kernel_digest,
        rootfs_digest,
        execution_nonce,
        argv,
        working_dir,
        inputs,
        outputs,
        secret_leases,
        network,
        resources,
        isolation,
    };
    let policy_hash = hash_policy(
        policy,
        &lists.backends,
        &lists.runtime,
        &lists.kernel,
        &lists.rootfs,
        &lists.network,
    );
    let plan_hash = hash_plan(&policy_hash, &request);
    Ok(AdmittedSandboxExecution { request, policy_hash, plan_hash })
}

/// Sum of the byte limits of the outputs.
pub open spec fn declared_output_bytes(s: Seq<SandboxOutputContract>) -> int
    decreases s.len(),
{
    if s.len() == 0 {
        0
    } else {
        declared_output_bytes(s.drop_last()) + s.last().max_bytes
    }
}

proof fn lemma_declared_monotone(s: Seq<SandboxOutputContract>, i: int)
    requires
        0 <= i <= s.len(),
    ensures
        declared_output_bytes(s.subrange(0, i)) <= declared_output_bytes(s),
    decreases s.len() - i,
{
    if i < s.len() {
        lemma_declared_monotone(s, i + 1);
        let p = s.subrange(0, i + 1);
        assert(p.drop_last() =~= s.subrange(0, i));
    } else {
        assert(s.subrange(0, i) =~= s);
    }
}

/// The attestation a receipt reports is missing or the zero sentinel where it must not be.
pub open spec fn attestation_fault(required: bool, att: Option<SandboxDigest>) -> Option<
    SandboxFault,
> {
    if required {
        match att {
            Some(v) => fault_if(v@ == zero_bytes(), SandboxFault::MissingRuntimeAttestation),
            None => Some(SandboxFault::MissingRuntimeAttestation),
        }
    } else {
        match att {
            Some(v) => fault_if(v@ == zero_bytes(), SandboxFault::MissingRuntimeAttestation),
            None => None,
        }
    }
}

/// The exit code is absent for a normal exit or present for any other termination.
pub open spec fn exit_code_fault(t: SandboxTermination, code: Option<i32>) -> Option<SandboxFault> {
    fault_if(
        (t == SandboxTermination::Exited) != (code is Some),
        SandboxFault::InvalidExitCode,
    )
}

/// The first reason to reject receipt `rc` for the plan `req` committed as `plan_hash`, if any.
pub open spec fn receipt_fault(
    req: SandboxExecutionRequest,
    plan_hash: SandboxDigest,
    rc: SandboxExecutionReceipt,
) -> Option<SandboxFault> {
    first_fault(
        fault_if(rc.request_id@ != req.request_id@, SandboxFault::ReceiptRequestMismatch),
        first_fault(
            fault_if(rc.plan_hash@ != plan_hash@, SandboxFault::ReceiptPlanMismatch),
            first_fault(
                fault_if(
                    rc.backend != req.backend,
                    SandboxFault::ReceiptRuntimeMismatch("backend"@),
                ),
                first_fault(
                    fault_if(
                        rc.runtime_digest@ != req.runtime_digest@,
                        SandboxFault::ReceiptRuntimeMismatch("runtime_digest"@),
                    ),
                    first_fault(
                        fault_if(
                            rc.kernel_digest@ != req.kernel_digest@,
                            SandboxFault::ReceiptRuntimeMismatch("kernel_digest"@),
                        ),
                        first_fault(
                            fault_if(
                                rc.rootfs_digest@ != req.rootfs_digest@,
                                SandboxFault::ReceiptRuntimeMismatch("rootfs_digest"@),
                            ),
                            receipt_bounds_fault(req, rc),
                        ),
                    ),
                ),
            ),
        ),
    )
}

/// The bound on collected output bytes: the declared total, capped by the budget.
pub open spec fn output_byte_cap(req: SandboxExecutionRequest) -> int {
    let declared = declared_output_bytes(req.outputs@);
    if declared < req.resources.max_output_bytes {
        declared
    } else {
        req.resources.max_output_bytes as int
    }
}

/// The first attestation, exit, budget or commitment failure of a receipt, if any.
pub open spec fn receipt_bounds_fault(req: SandboxExecutionRequest, rc: SandboxExecutionReceipt) -> Option<
    SandboxFault,
> {
    first_fault(
        attestation_fault(req.isolation.runtime_attestation_required, rc.runtime_attestation_hash),
        first_fault(
            exit_code_fault(rc.termination, rc.exit_code),
            first_fault(
                fault_if(
                    rc.wall_time_ms > req.resources.wall_time_ms,
                    SandboxFault::ReceiptWallTimeExceeded {
                        actual: rc.wall_time_ms as nat,
                        max: req.resources.wall_time_ms as nat,
                    },
                ),
                first_fault(
                    fault_if(
                        rc.peak_memory_mib > req.resources.memory_mib,
                        SandboxFault::ReceiptMemoryExceeded {
                            actual: rc.peak_memory_mib as nat,
                            max: req.resources.memory_mib as nat,
                        },
                    ),
                    first_fault(
                        fault_if(
                            req.outputs@.len() > u32::MAX,
                            SandboxFault::InvalidPolicy("output count does not fit u32"@),
                        ),
                        first_fault(
                            fault_if(
                                rc.produced_output_count > req.outputs@.len(),
                                SandboxFault::ReceiptOutputCountExceeded {
                                    actual: rc.produced_output_count as nat,
                                    max: req.outputs@.len(),
                                },
                            ),
                            first_fault(
                                fault_if(
                                    declared_output_bytes(req.outputs@) > u64::MAX,
                                    SandboxFault::InvalidPolicy(
                                        "declared output byte total overflows u64"@,
                                    ),
                                ),
                                first_fault(
                                    fault_if(
                                        rc.total_output_bytes > output_byte_cap(req),
                                        SandboxFault::ReceiptOutputBytesExceeded {
                                            actual: rc.total_output_bytes as nat,
                                            max: output_byte_cap(req) as nat,
                                        },
                                    ),
                                    first_fault(
                                        zero_fault("receipt.stdout_hash"@, rc.stdout_hash),
                                        first_fault(
                                            zero_fault("receipt.stderr_hash"@, rc.stderr_hash),
                                            zero_fault(
                                                "receipt.output_manifest_hash"@,
                                                rc.output_manifest_hash,
                                            ),
                                        ),
                                    ),
                                ),
                            ),
                        ),
                    ),
                ),
            ),
        ),
    )
}

/// Constructor-gated receipt safe for audit, cache, and downstream acceptance logic.
///
/// Validation proves binding and bounds, not semantic correctness of the guest's output.
#[derive(Debug, Clone, PartialEq, Eq)]
pub struct ValidatedSandboxReceipt {
    receipt: SandboxExecutionReceipt,
    policy_hash: SandboxDigest,
    receipt_hash: SandboxDigest,
}

impl ValidatedSandboxReceipt {
    /// The validated runtime receipt.
    pub closed spec fn spec_receipt(&self) -> SandboxExecutionReceipt {
        self.receipt
    }

    /// The policy commitment inherited from the admitted plan.
    pub closed spec fn spec_policy_hash(&self) -> SandboxDigest {
        self.policy_hash
    }

    /// The commitment to the validated receipt.
    pub closed spec fn spec_receipt_hash(&self) -> SandboxDigest {
        self.receipt_hash
    }

    /// Return the validated runtime receipt.
    pub fn receipt(&self) -> (r: &SandboxExecutionReceipt)
        ensures
            *r == self.spec_receipt(),
    {
        &self.receipt
    }

    /// Return the policy commitment inherited from the admitted plan.
    pub fn policy_hash(&self) -> (d: &SandboxDigest)
        ensures
            *d == self.spec_policy_hash(),
    {
        &self.policy_hash
    }

    /// Return the canonical commitment to the validated receipt.
    pub fn receipt_hash(&self) -> (d: &SandboxDigest)
        ensures
            *d == self.spec_receipt_hash(),
    {
        &self.receipt_hash
    }

    /// True only for a normal zero exit. Other termination classes remain valid receipts,
    /// but are not successful executions.
    pub fn succeeded(&self) -> (b: bool)
        ensures
            b == (self.spec_receipt().termination == SandboxTermination::Exited
                && self.spec_receipt().exit_code == Some(0i32)),
    {
        match (self.receipt.termination, self.receipt.exit_code) {
            (SandboxTermination::Exited, Some(code)) => code == 0,
            _ => false,
        }
    }
}

fn runtime_mismatch(field: &'static str) -> (e: SandboxExecutionError)
    ensures
        e == SandboxExecutionError::ReceiptRuntimeMismatch(field),
{
    SandboxExecutionError::ReceiptRuntimeMismatch(field)
}

/// Validate a runtime receipt against an admitted plan.
#[verifier::loop_isolation(false)]
pub fn validate_sandbox_receipt(
    admitted: &AdmittedSandboxExecution,
    receipt: SandboxExecutionReceipt,
) -> (r: Result<ValidatedSandboxReceipt, SandboxExecutionError>)
    ensures
        match r {
            Ok(v) => {
                &&& receipt_fault(admitted.spec_request(), admitted.spec_plan_hash(), receipt) is None
                &&& v.spec_receipt() == receipt
                &&& v.spec_policy_hash() == admitted.spec_policy_hash()
                &&& v.spec_receipt_hash()@ == sha256_spec(
                    receipt_preimage(admitted.spec_policy_hash()@, receipt),
                )
            },
            Err(e) => receipt_fault(admitted.spec_request(), admitted.spec_plan_hash(), receipt)
                == Some(e@),
        },
{
    let req = &admitted.request;
    if receipt.request_id != req.request_id {
        return Err(SandboxExecutionError::ReceiptRequestMismatch);
    }
    if !receipt.plan_hash.same_as(&admitted.plan_hash) {
        return Err(SandboxExecutionError::ReceiptPlanMismatch);
    }
    if receipt.backend != req.backend {
        return Err(runtime_mismatch("backend"));
    }
    if !receipt.runtime_digest.same_as(&req.runtime_digest) {
        return Err(runtime_mismatch("runtime_digest"));
    }
    if !receipt.kernel_digest.same_as(&req.kernel_digest) {
        return Err(runtime_mismatch("kernel_digest"));
    }
    if !receipt.rootfs_digest.same_as(&req.rootfs_digest) {
        return Err(runtime_mismatch("rootfs_digest"));
    }

    match &receipt.runtime_attestation_hash {
        Some(v) => {
            if v.is_zero() {
                return Err(SandboxExecutionError::MissingRuntimeAttestation);
            }
        },
        None => {
            if req.isolation.runtime_attestation_required {
                return Err(SandboxExecutionError::MissingRuntimeAttestation);
            }
        },
    }

    let exited = match receipt.termination {
        SandboxTermination::Exited => true,
        _ => false,
    };
    let has_code = match receipt.exit_code {
        Some(_) => true,
        None => false,
    };
    if exited != has_code {
        return Err(SandboxExecutionError::InvalidExitCode);
    }

    if receipt.wall_time_ms > req.resources.wall_time_ms {
        return Err(
            SandboxExecutionError::ReceiptWallTimeExceeded {
                actual: receipt.wall_time_ms,
                max: req.resources.wall_time_ms,
            },
        );
    }
    if receipt.peak_memory_mib > req.resources.memory_mib {
        return Err(
            SandboxExecutionError::ReceiptMemoryExceeded {
                actual: receipt.peak_memory_mib,
                max: req.resources.memory_mib,
            },
        );
    }

    let output_count = req.outputs.len();
    if output_count > 0xffff_ffffusize {
        return Err(
            SandboxExecutionError::InvalidPolicy(String::from_str("output count does not fit u32")),
        );
    }
    let max_output_count = output_count as u32;
    if receipt.produced_output_count > max_output_count {
        return Err(
            SandboxExecutionError::ReceiptOutputCountExceeded {
                actual: receipt.produced_output_count,
                max: max_output_count,
            },
        );
    }

    let mut declared: u64 = 0;
    let mut i: usize = 0;
    while i < req.outputs.len()
        invariant
            i <= req.outputs@.len(),
            declared as int == declared_output_bytes(req.outputs@.subrange(0, i as int)),
        decreases req.outputs@.len() - i,
    {
        let b = req.outputs[i].max_bytes;
        proof {
            let p = req.outputs@.subrange(0, i as int + 1);
            assert(p.drop_last() =~= req.outputs@.subrange(0, i as int));
        }
        if b > u64::MAX - declared {
            proof {
                lemma_declared_monotone(req.outputs@, i as int + 1);
            }
            return Err(
                SandboxExecutionError::InvalidPolicy(
                    String::from_str("declared output byte total overflows u64"),
                ),
            );
        }
        declared = declared + b;
        i = i + 1;
    }
    proof {
        assert(req.outputs@.subrange(0, req.outputs@.len() as int) =~= req.outputs@);
    }
    let max_output_bytes = if declared < req.resources.max_output_bytes {
        declared
    } else {
        req.resources.max_output_bytes
    };
    if receipt.total_output_bytes > max_output_bytes {
        return Err(
            SandboxExecutionError::ReceiptOutputBytesExceeded {
                actual: receipt.total_output_bytes,
                max: max_output_bytes,
            },
        );
    }

    require_non_zero("receipt.stdout_hash", &receipt.stdout_hash)?;
    require_non_zero("receipt.stderr_hash", &receipt.stderr_hash)?;
    require_non_zero("receipt.output_manifest_hash", &receipt.output_manifest_hash)?;

    let receipt_hash = hash_receipt(&admitted.policy_hash, &receipt);
    Ok(ValidatedSandboxReceipt { receipt, policy_hash: admitted.policy_hash, receipt_hash })
}

} // verus!
