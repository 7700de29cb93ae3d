//! Properties of sandbox admission and receipt validation that hold for every input.

use vstd::prelude::*;
use crate::order::lemma_sorted_unique;
use crate::sandbox_types::{
    SandboxAdmissionPolicy, SandboxExecutionReceipt, SandboxExecutionRequest, SandboxDigest,
    SandboxTermination, zero_bytes,
};
use crate::sandbox::{AdmittedSandboxExecution, admitted_from, admit_fault, policy_fault, receipt_fault, output_byte_cap};
use crate::sandbox_canon::{canonical, mount_paths, overlap_scan};
use crate::sandbox_checks::{law_path_overlaps_what_lies_beneath, law_paths_overlap_symmetric, paths_overlap};

verus! {

/// `r1` and `r2` are the same request except, possibly, for the order in which
/// their inputs, outputs and secret leases are listed.
pub open spec fn same_up_to_listing_order(r1: SandboxExecutionRequest, r2: SandboxExecutionRequest) -> bool {
    &&& r1.request_id == r2.request_id
    &&& r1.execution_epoch == r2.execution_epoch
    &&& r1.backend == r2.backend
    &&& r1.runtime_digest == r2.runtime_digest
    &&& r1.kernel_digest == r2.kernel_digest
    &&& r1.rootfs_digest == r2.rootfs_digest
    &&& r1.execution_nonce == r2.execution_nonce
    &&& r1.argv == r2.argv
    &&& r1.working_dir == r2.working_dir
    &&& r1.inputs@.to_multiset() == r2.inputs@.to_multiset()
    &&& r1.outputs@.to_multiset() == r2.outputs@.to_multiset()
    &&& r1.secret_leases@.to_multiset() == r2.secret_leases@.to_multiset()
    &&& r1.network == r2.network
    &&& r1.resources == r2.resources
    &&& r1.isolation == r2.isolation
}

/// Listing order does not matter: two requests that differ only in the order of
/// their inputs, outputs and secret leases, once admitted under one policy, give
/// the same canonical lists and the same plan commitment.
pub proof fn law_plan_independent_of_listing_order(
    p: SandboxAdmissionPolicy,
    r1: SandboxExecutionRequest,
    r2: SandboxExecutionRequest,
    a1: AdmittedSandboxExecution,
    a2: AdmittedSandboxExecution,
)
    requires
        same_up_to_listing_order(r1, r2),
        admitted_from(a1, p, r1),
        admitted_from(a2, p, r2),
    ensures
        a1.spec_request().inputs@ == a2.spec_request().inputs@,
        a1.spec_request().outputs@ == a2.spec_request().outputs@,
        a1.spec_request().secret_leases@ == a2.spec_request().secret_leases@,
        a1.spec_policy_hash()@ == a2.spec_policy_hash()@,
        a1.spec_plan_hash()@ == a2.spec_plan_hash()@,
{
    let q1 = a1.spec_request();
    let q2 = a2.spec_request();
    lemma_sorted_unique(q1.inputs@, q2.inputs@);
    lemma_sorted_unique(q1.outputs@, q2.outputs@);
    lemma_sorted_unique(q1.secret_leases@, q2.secret_leases@);
}

/// An admitted request stays within its policy: the policy is consistent, the
/// runtime identity is allowlisted, every commitment is non-zero, the budget is
/// within the maximum, every required isolation assertion is present, and the
/// argv, input, output and lease counts are within bounds.
pub proof fn law_admitted_request_within_policy(p: SandboxAdmissionPolicy, r: SandboxExecutionRequest)
    requires
        admit_fault(p, r) is None,
    ensures
        policy_fault(p) is None,
        r.execution_epoch > 0,
        p.allowed_backends@.contains(r.backend),
        p.allowed_runtime_digests@.contains(r.runtime_digest),
        p.allowed_kernel_digests@.contains(r.kernel_digest),
        p.allowed_rootfs_digests@.contains(r.rootfs_digest),
        p.allowed_network_policy_hashes@.contains(r.network.policy_hash),
        r.runtime_digest@ != zero_bytes(),
        r.kernel_digest@ != zero_bytes(),
        r.rootfs_digest@ != zero_bytes(),
        r.execution_nonce@ != zero_bytes(),
        r.network.policy_hash@ != zero_bytes(),
        0 < r.resources.vcpus <= p.max_resources.vcpus,
        0 < r.resources.memory_mib <= p.max_resources.memory_mib,
        0 < r.resources.disk_mib <= p.max_resources.disk_mib,
        0 < r.resources.wall_time_ms <= p.max_resources.wall_time_ms,
        0 < r.resources.process_limit <= p.max_resources.process_limit,
        0 < r.resources.max_output_bytes <= p.max_resources.max_output_bytes,
        p.required_isolation.ephemeral_root ==> r.isolation.ephemeral_root,
        p.required_isolation.destroy_after_run ==> r.isolation.destroy_after_run,
        p.required_isolation.device_passthrough_disabled ==> r.isolation.device_passthrough_disabled,
        p.required_isolation.host_path_mounts_disabled ==> r.isolation.host_path_mounts_disabled,
        p.required_isolation.runtime_attestation_required
            ==> r.isolation.runtime_attestation_required,
        1 <= r.argv@.len() <= p.max_argv,
        r.inputs@.len() <= p.max_inputs,
        r.outputs@.len() <= p.max_outputs,
        r.secret_leases@.len() <= p.max_secret_leases,
        r.secret_leases@.len() > 0 ==> p.allow_secret_leases,
{
}

/// A validated receipt is bound to its plan: same request, same plan
/// commitment, same runtime identity; it stays within the admitted time,
/// memory, output-count and output-byte budgets; a required attestation is
/// present and non-zero; and an exit code is reported exactly for a normal exit.
pub proof fn law_validated_receipt_bound_to_plan(
    req: SandboxExecutionRequest,
    plan_hash: SandboxDigest,
    rc: SandboxExecutionReceipt,
)
    requires
        receipt_fault(req, plan_hash, rc) is None,
    ensures
        rc.request_id@ == req.request_id@,
        rc.plan_hash@ == plan_hash@,
        rc.backend == req.backend,
        rc.runtime_digest@ == req.runtime_digest@,
        rc.kernel_digest@ == req.kernel_digest@,
        rc.rootfs_digest@ == req.rootfs_digest@,
        rc.wall_time_ms <= req.resources.wall_time_ms,
        rc.peak_memory_mib <= req.resources.memory_mib,
        rc.produced_output_count <= req.outputs@.len(),
        rc.total_output_bytes <= output_byte_cap(req),
        rc.total_output_bytes <= req.resources.max_output_bytes,
        req.isolation.runtime_attestation_required ==> (rc.runtime_attestation_hash is Some
            && rc.runtime_attestation_hash->0@ != zero_bytes()),
        (rc.termination == SandboxTermination::Exited) == (rc.exit_code is Some),
        rc.stdout_hash@ != zero_bytes(),
        rc.stderr_hash@ != zero_bytes(),
        rc.output_manifest_hash@ != zero_bytes(),
{
}

proof fn lemma_overlap_scan_none(p: Seq<Seq<char>>, i: int, j: int)
    requires
        0 <= i < j,
        overlap_scan(p, i, j) is None,
    ensures
        forall|a: int, b: int|
            ((a == i && j <= b < p.len()) || (i < a && a < b < p.len())) ==> !paths_overlap(#[trigger] p[a], #[trigger] p[b]),
    decreases p.len() - i, p.len() - j,
{
    if i >= p.len() {
    } else if j >= p.len() {
        lemma_overlap_scan_none(p, i + 1, i + 2);
    } else {
        lemma_overlap_scan_none(p, i, j + 1);
    }
}

/// An admitted request mounts no guest path twice and none beneath another:
/// among its input and output paths, no two distinct entries overlap, and no
/// entry is another entry followed by `/` and more.
pub proof fn law_admitted_mount_paths_disjoint(pol: SandboxAdmissionPolicy, r: SandboxExecutionRequest)
    requires
        admit_fault(pol, r) is None,
    ensures
        ({
            let m = mount_paths(canonical(r.inputs@), canonical(r.outputs@));
            &&& forall|a: int, b: int|
                0 <= a < m.len() && 0 <= b < m.len() && a != b ==> !paths_overlap(#[trigger] m[a], #[trigger] m[b])
            &&& forall|a: int, b: int, t: Seq<char>|
                0 <= a < m.len() && 0 <= b < m.len() && a != b ==> #[trigger] m[b] != #[trigger] (m[a] + seq!['/'] + t)
        }),
{
    let m = mount_paths(canonical(r.inputs@), canonical(r.outputs@));
    assert(overlap_scan(m, 0, 1) is None);
    lemma_overlap_scan_none(m, 0, 1);
    assert forall|a: int, b: int| 0 <= a < m.len() && 0 <= b < m.len() && a != b implies !paths_overlap(
        #[trigger] m[a],
        #[trigger] m[b],
    ) by {
        if a > b {
            law_paths_overlap_symmetric(m[a], m[b]);
            assert(!paths_overlap(m[b], m[a]));
        }
    }
    assert forall|a: int, b: int, t: Seq<char>| 0 <= a < m.len() && 0 <= b < m.len() && a != b implies #[trigger] m[b]
        != #[trigger] (m[a] + seq!['/'] + t) by {
        law_path_overlaps_what_lies_beneath(m[a], t);
        assert(!paths_overlap(m[a], m[b]));
    }
}

} // verus!
