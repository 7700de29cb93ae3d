//! Canonical byte encodings committed by sandbox policy, plan and receipt hashes.

use vstd::prelude::*;
use vstd::utf8::encode_utf8;
use crate::hashing::{sha256, sha256_spec};
use crate::sandbox_types::{
    SandboxAdmissionPolicy, SandboxBackend, SandboxDigest, SandboxExecutionReceipt,
    SandboxExecutionRequest, SandboxInputArtifact, SandboxIsolationRequirements,
    SandboxOutputContract, SandboxResourceBudget, SandboxSecretLeaseRef, backend_tag,
    network_mode_tag, termination_tag, lemma_digest_len,
};

verus! {

broadcast use lemma_digest_len;

/// Little-endian bytes of a `u64`.
pub open spec fn u64_le(x: u64) -> Seq<u8> {
    seq![
        (x & 0xff) as u8,
        ((x >> 8u64) & 0xff) as u8,
        ((x >> 16u64) & 0xff) as u8,
        ((x >> 24u64) & 0xff) as u8,
        ((x >> 32u64) & 0xff) as u8,
        ((x >> 40u64) & 0xff) as u8,
        ((x >> 48u64) & 0xff) as u8,
        ((x >> 56u64) & 0xff) as u8,
    ]
}

/// Little-endian bytes of a `u32`.
pub open spec fn u32_le(x: u32) -> Seq<u8> {
    seq![
        (x & 0xff) as u8,
        ((x >> 8u32) & 0xff) as u8,
        ((x >> 16u32) & 0xff) as u8,
        ((x >> 24u32) & 0xff) as u8,
    ]
}

/// Little-endian bytes of a `u16`.
pub open spec fn u16_le(x: u16) -> Seq<u8> {
    seq![(x & 0xff) as u8, ((x >> 8u16) & 0xff) as u8]
}

/// One byte for a flag.
pub open spec fn flag(b: bool) -> u8 {
    if b {
        1
    } else {
        0
    }
}

/// A length as it is committed: eight little-endian bytes.
pub open spec fn len_enc(n: nat) -> Seq<u8> {
    u64_le(n as u64)
}

/// A text as it is committed: its byte length, then its UTF-8 bytes.
pub open spec fn str_enc(s: Seq<char>) -> Seq<u8> {
    len_enc(encode_utf8(s).len()) + encode_utf8(s)
}

pub open spec fn policy_domain() -> Seq<u8> {
    seq![104u8, 101, 108, 105, 120, 58, 115, 97, 110, 100, 98, 111, 120, 45, 112, 111, 108, 105, 99, 121, 58, 118, 49]
}

pub open spec fn plan_domain() -> Seq<u8> {
    seq![104u8, 101, 108, 105, 120, 58, 115, 97, 110, 100, 98, 111, 120, 45, 112, 108, 97, 110, 58, 118, 49]
}

pub open spec fn receipt_domain() -> Seq<u8> {
    seq![104u8, 101, 108, 105, 120, 58, 115, 97, 110, 100, 98, 111, 120, 45, 114, 101, 99, 101, 105, 112, 116, 58, 118, 49]
}

/// The bytes of each digest in turn.
pub open spec fn digests_enc(s: Seq<SandboxDigest>) -> Seq<u8>
    decreases s.len(),
{
    if s.len() == 0 {
        Seq::empty()
    } else {
        digests_enc(s.drop_last()) + s.last()@
    }
}

/// The tag of each backend in turn.
pub open spec fn backends_enc(s: Seq<SandboxBackend>) -> Seq<u8>
    decreases s.len(),
{
    if s.len() == 0 {
        Seq::empty()
    } else {
        backends_enc(s.drop_last()).push(backend_tag(s.last()))
    }
}

/// Each argument as committed text.
pub open spec fn args_enc(s: Seq<String>) -> Seq<u8>
    decreases s.len(),
{
    if s.len() == 0 {
        Seq::empty()
    } else {
        args_enc(s.drop_last()) + str_enc(s.last()@)
    }
}

pub open spec fn input_enc(x: SandboxInputArtifact) -> Seq<u8> {
    str_enc(x.artifact_id@) + x.content_hash@ + str_enc(x.guest_path@) + u64_le(x.size_bytes)
}

pub open spec fn inputs_enc(s: Seq<SandboxInputArtifact>) -> Seq<u8>
    decreases s.len(),
{
    if s.len() == 0 {
        Seq::empty()
    } else {
        inputs_enc(s.drop_last()) + input_enc(s.last())
    }
}

pub open spec fn output_enc(x: SandboxOutputContract) -> Seq<u8> {
    str_enc(x.output_id@) + str_enc(x.guest_path@) + u64_le(x.max_bytes)
}

pub open spec fn outputs_enc(s: Seq<SandboxOutputContract>) -> Seq<u8>
    decreases s.len(),
{
    if s.len() == 0 {
        Seq::empty()
    } else {
        outputs_enc(s.drop_last()) + output_enc(s.last())
    }
}

pub open spec fn lease_enc(x: SandboxSecretLeaseRef) -> Seq<u8> {
    str_enc(x.provider_id@) + str_enc(x.purpose@) + x.lease_hash@
}

pub open spec fn leases_enc(s: Seq<SandboxSecretLeaseRef>) -> Seq<u8>
    decreases s.len(),
{
    if s.len() == 0 {
        Seq::empty()
    } else {
        leases_enc(s.drop_last()) + lease_enc(s.last())
    }
}

pub open spec fn resources_enc(r: SandboxResourceBudget) -> Seq<u8> {
    u16_le(r.vcpus) + u32_le(r.memory_mib) + u32_le(r.disk_mib) + u64_le(r.wall_time_ms) + u32_le(
        r.process_limit,
    ) + u64_le(r.max_output_bytes)
}

pub open spec fn isolation_enc(i: SandboxIsolationRequirements) -> Seq<u8> {
    seq![
        flag(i.ephemeral_root),
        flag(i.destroy_after_run),
        flag(i.device_passthrough_disabled),
        flag(i.host_path_mounts_disabled),
        flag(i.runtime_attestation_required),
    ]
}

/// The bytes committed by a policy hash, over the policy's allowlists taken
/// once each in ascending order.
pub open spec fn policy_preimage(
    p: SandboxAdmissionPolicy,
    backends: Seq<SandboxBackend>,
    runtime: Seq<SandboxDigest>,
    kernel: Seq<SandboxDigest>,
    rootfs: Seq<SandboxDigest>,
    network: Seq<SandboxDigest>,
) -> Seq<u8> {
    policy_domain() + str_enc(p.policy_id@) + u64_le(p.policy_epoch) + len_enc(backends.len())
        + backends_enc(backends) + len_enc(runtime.len()) + digests_enc(runtime) + len_enc(
        kernel.len(),
    ) + digests_enc(kernel) + len_enc(rootfs.len()) + digests_enc(rootfs) + len_enc(network.len())
        + digests_enc(network) + resources_enc(p.max_resources) + len_enc(p.max_argv as nat)
        + len_enc(p.max_argv_bytes as nat) + len_enc(p.max_inputs as nat) + u64_le(
        p.max_input_bytes,
    ) + len_enc(p.max_outputs as nat) + len_enc(p.max_secret_leases as nat) + seq![
        flag(p.allow_secret_leases),
    ] + isolation_enc(p.required_isolation)
}

/// The bytes committed by a plan hash.
pub open spec fn plan_preimage(policy_hash: Seq<u8>, r: SandboxExecutionRequest) -> Seq<u8> {
    plan_domain() + policy_hash + str_enc(r.request_id@) + u64_le(r.execution_epoch) + seq![
        backend_tag(r.backend),
    ] + r.runtime_digest@ + r.kernel_digest@ + r.rootfs_digest@ + r.execution_nonce@ + len_enc(
        r.argv@.len(),
    ) + args_enc(r.argv@) + str_enc(r.working_dir@) + len_enc(r.inputs@.len()) + inputs_enc(
        r.inputs@,
    ) + len_enc(r.outputs@.len()) + outputs_enc(r.outputs@) + len_enc(r.secret_leases@.len())
        + leases_enc(r.secret_leases@) + str_enc(r.network.policy_id@) + r.network.policy_hash@
        + seq![network_mode_tag(r.network.mode)] + resources_enc(r.resources) + isolation_enc(
        r.isolation,
    )
}

pub open spec fn opt_digest_enc(d: Option<SandboxDigest>) -> Seq<u8> {
    match d {
        Some(v) => seq![1u8] + v@,
        None => seq![0u8],
    }
}

pub open spec fn opt_i32_enc(x: Option<i32>) -> Seq<u8> {
    match x {
        Some(v) => seq![1u8] + u32_le(v as u32),
        None => seq![0u8],
    }
}

/// The bytes committed by a receipt hash.
pub open spec fn receipt_preimage(policy_hash: Seq<u8>, rc: SandboxExecutionReceipt) -> Seq<u8> {
    receipt_domain() + policy_hash + str_enc(rc.request_id@) + rc.plan_hash@ + seq![
        backend_tag(rc.backend),
    ] + rc.runtime_digest@ + rc.kernel_digest@ + rc.rootfs_digest@ + opt_digest_enc(
        rc.runtime_attestation_hash,
    ) + seq![termination_tag(rc.termination)] + opt_i32_enc(rc.exit_code) + u64_le(rc.wall_time_ms)
        + u32_le(rc.peak_memory_mib) + u32_le(rc.produced_output_count) + u64_le(
        rc.total_output_bytes,
    ) + rc.stdout_hash@ + rc.stderr_hash@ + rc.output_manifest_hash@
}

pub(crate) fn put_byte(out: &mut Vec<u8>, b: u8)
    ensures
        final(out)@ == old(out)@ + seq![b],
{
    out.push(b);
    assert(final(out)@ =~= old(out)@ + seq![b]);
}

fn put_u64(out: &mut Vec<u8>, x: u64)
    ensures
        final(out)@ == old(out)@ + u64_le(x),
{
    out.push((x & 0xff) as u8);
    out.push(((x >> 8u64) & 0xff) as u8);
    out.push(((x >> 16u64) & 0xff) as u8);
    out.push(((x >> 24u64) & 0xff) as u8);
    out.push(((x >> 32u64) & 0xff) as u8);
    out.push(((x >> 40u64) & 0xff) as u8);
    out.push(((x >> 48u64) & 0xff) as u8);
    out.push(((x >> 56u64) & 0xff) as u8);
    assert(final(out)@ =~= old(out)@ + u64_le(x));
}

fn put_u32(out: &mut Vec<u8>, x: u32)
    ensures
        final(out)@ == old(out)@ + u32_le(x),
{
    out.push((x & 0xff) as u8);
    out.push(((x >> 8u32) & 0xff) as u8);
    out.push(((x >> 16u32) & 0xff) as u8);
    out.push(((x >> 24u32) & 0xff) as u8);
    assert(final(out)@ =~= old(out)@ + u32_le(x));
}

fn put_u16(out: &mut Vec<u8>, x: u16)
    ensures
        final(out)@ == old(out)@ + u16_le(x),
{
    out.push((x & 0xff) as u8);
    out.push(((x >> 8u16) & 0xff) as u8);
    assert(final(out)@ =~= old(out)@ + u16_le(x));
}

fn put_len(out: &mut Vec<u8>, n: usize)
    ensures
        final(out)@ == old(out)@ + len_enc(n as nat),
{
    put_u64(out, n as u64);
}

pub(crate) fn put_bytes(out: &mut Vec<u8>, b: &[u8])
    ensures
        final(out)@ == old(out)@ + b@,
{
    let ghost start = out@;
    let mut i: usize = 0;
    while i < b.len()
        invariant
            i <= b@.len(),
            out@ == start + b@.subrange(0, i as int),
        decreases b@.len() - i,
    {
        out.push(b[i]);
        i = i + 1;
        assert(out@ =~= start + b@.subrange(0, i as int));
    }
    assert(b@.subrange(0, b@.len() as int) =~= b@);
}

fn put_str(out: &mut Vec<u8>, s: &str)
    ensures
        final(out)@ == old(out)@ + str_enc(s@),
{
    let b = s.as_bytes();
    put_len(out, b.len());
    put_bytes(out, b);
    assert(final(out)@ =~= old(out)@ + str_enc(s@));
}

fn put_digest(out: &mut Vec<u8>, d: &SandboxDigest)
    ensures
        final(out)@ == old(out)@ + d@,
{
    put_bytes(out, d.as_bytes());
}

fn put_digests(out: &mut Vec<u8>, v: &Vec<SandboxDigest>)
    ensures
        final(out)@ == old(out)@ + len_enc(v@.len()) + digests_enc(v@),
{
    put_len(out, v.len());
    let ghost start = out@;
    let mut i: usize = 0;
    while i < v.len()
        invariant
            i <= v@.len(),
            out@ == start + digests_enc(v@.subrange(0, i as int)),
        decreases v@.len() - i,
    {
        put_digest(out, &v[i]);
        proof {
            let p = v@.subrange(0, i as int + 1);
            assert(p.drop_last() =~= v@.subrange(0, i as int));
        }
        i = i + 1;
        assert(out@ =~= start + digests_enc(v@.subrange(0, i as int)));
    }
    assert(v@.subrange(0, v@.len() as int) =~= v@);
}

fn put_backends(out: &mut Vec<u8>, v: &Vec<SandboxBackend>)
    ensures
        final(out)@ == old(out)@ + len_enc(v@.len()) + backends_enc(v@),
{
    put_len(out, v.len());
    let ghost start = out@;
    let mut i: usize = 0;
    while i < v.len()
        invariant
            i <= v@.len(),
            out@ == start + backends_enc(v@.subrange(0, i as int)),
        decreases v@.len() - i,
    {
        out.push(v[i].tag());
        proof {
            let p = v@.subrange(0, i as int + 1);
            assert(p.drop_last() =~= v@.subrange(0, i as int));
        }
        i = i + 1;
        assert(out@ =~= start + backends_enc(v@.subrange(0, i as int)));
    }
    assert(v@.subrange(0, v@.len() as int) =~= v@);
}

fn put_args(out: &mut Vec<u8>, v: &Vec<String>)
    ensures
        final(out)@ == old(out)@ + len_enc(v@.len()) + args_enc(v@),
{
    put_len(out, v.len());
    let ghost start = out@;
    let mut i: usize = 0;
    while i < v.len()
        invariant
            i <= v@.len(),
            out@ == start + args_enc(v@.subrange(0, i as int)),
        decreases v@.len() - i,
    {
        put_str(out, v[i].as_str());
        proof {
            let p = v@.subrange(0, i as int + 1);
            assert(p.drop_last() =~= v@.subrange(0, i as int));
        }
        i = i + 1;
        assert(out@ =~= start + args_enc(v@.subrange(0, i as int)));
    }
    assert(v@.subrange(0, v@.len() as int) =~= v@);
}

fn put_inputs(out: &mut Vec<u8>, v: &Vec<SandboxInputArtifact>)
    ensures
        final(out)@ == old(out)@ + len_enc(v@.len()) + inputs_enc(v@),
{
    put_len(out, v.len());
    let ghost start = out@;
    let mut i: usize = 0;
    while i < v.len()
        invariant
            i <= v@.len(),
            out@ == start + inputs_enc(v@.subrange(0, i as int)),
        decreases v@.len() - i,
    {
        let ghost before = out@;
        let x = &v[i];
        put_str(out, x.artifact_id.as_str());
        put_digest(out, &x.content_hash);
        put_str(out, x.guest_path.as_str());
        put_u64(out, x.size_bytes);
        proof {
            let p = v@.subrange(0, i as int + 1);
            assert(p.drop_last() =~= v@.subrange(0, i as int));
            assert(out@ =~= before + input_enc(*x));
        }
        i = i + 1;
        assert(out@ =~= start + inputs_enc(v@.subrange(0, i as int)));
    }
    assert(v@.subrange(0, v@.len() as int) =~= v@);
}

fn put_outputs(out: &mut Vec<u8>, v: &Vec<SandboxOutputContract>)
    ensures
        final(out)@ == old(out)@ + len_enc(v@.len()) + outputs_enc(v@),
{
    put_len(out, v.len());
    let ghost start = out@;
    let mut i: usize = 0;
    while i < v.len()
        invariant
            i <= v@.len(),
            out@ == start + outputs_enc(v@.subrange(0, i as int)),
        decreases v@.len() - i,
    {
        let ghost before = out@;
        let x = &v[i];
        put_str(out, x.output_id.as_str());
        put_str(out, x.guest_path.as_str());
        put_u64(out, x.max_bytes);
        proof {
            let p = v@.subrange(0, i as int + 1);
            assert(p.drop_last() =~= v@.subrange(0, i as int));
            assert(out@ =~= before + output_enc(*x));
        }
        i = i + 1;
        assert(out@ =~= start + outputs_enc(v@.subrange(0, i as int)));
    }
    assert(v@.subrange(0, v@.len() as int) =~= v@);
}

fn put_leases(out: &mut Vec<u8>, v: &Vec<SandboxSecretLeaseRef>)
    ensures
        final(out)@ == old(out)@ + len_enc(v@.len()) + leases_enc(v@),
{
    put_len(out, v.len());
    let ghost start = out@;
    let mut i: usize = 0;
    while i < v.len()
        invariant
            i <= v@.len(),
            out@ == start + leases_enc(v@.subrange(0, i as int)),
        decreases v@.len() - i,
    {
        let ghost before = out@;
        let x = &v[i];
        put_str(out, x.provider_id.as_str());
        put_str(out, x.purpose.as_str());
        put_digest(out, &x.lease_hash);
        proof {
            let p = v@.subrange(0, i as int + 1);
            assert(p.drop_last() =~= v@.subrange(0, i as int));
            assert(out@ =~= before + lease_enc(*x));
        }
        i = i + 1;
        assert(out@ =~= start + leases_enc(v@.subrange(0, i as int)));
    }
    assert(v@.subrange(0, v@.len() as int) =~= v@);
}

fn put_resources(out: &mut Vec<u8>, r: &SandboxResourceBudget)
    ensures
        final(out)@ == old(out)@ + resources_enc(*r),
{
    put_u16(out, r.vcpus);
    put_u32(out, r.memory_mib);
    put_u32(out, r.disk_mib);
    put_u64(out, r.wall_time_ms);
    put_u32(out, r.process_limit);
    put_u64(out, r.max_output_bytes);
    assert(final(out)@ =~= old(out)@ + resources_enc(*r));
}

fn flag_byte(b: bool) -> (r: u8)
    ensures
        r == flag(b),
{
    if b {
        1
    } else {
        0
    }
}

fn put_isolation(out: &mut Vec<u8>, i: &SandboxIsolationRequirements)
    ensures
        final(out)@ == old(out)@ + isolation_enc(*i),
{
    out.push(flag_byte(i.ephemeral_root));
    out.push(flag_byte(i.destroy_after_run));
    out.push(flag_byte(i.device_passthrough_disabled));
    out.push(flag_byte(i.host_path_mounts_disabled));
    out.push(flag_byte(i.runtime_attestation_required));
    assert(final(out)@ =~= old(out)@ + isolation_enc(*i));
}

fn domain_bytes(which: u8) -> (r: Vec<u8>)
    ensures
        which == 0 ==> r@ == policy_domain(),
        which == 1 ==> r@ == plan_domain(),
        which == 2 ==> r@ == receipt_domain(),
{
    let v: Vec<u8> = if which == 0 {
        vec![104u8, 101, 108, 105, 120, 58, 115, 97, 110, 100, 98, 111, 120, 45, 112, 111, 108, 105, 99, 121, 58, 118, 49]
    } else if which == 1 {
        vec![104u8, 101, 108, 105, 120, 58, 115, 97, 110, 100, 98, 111, 120, 45, 112, 108, 97, 110, 58, 118, 49]
    } else {
        vec![104u8, 101, 108, 105, 120, 58, 115, 97, 110, 100, 98, 111, 120, 45, 114, 101, 99, 101, 105, 112, 116, 58, 118, 49]
    };
    assert(which == 0 ==> v@ =~= policy_domain());
    assert(which == 1 ==> v@ =~= plan_domain());
    assert(which == 2 ==> v@ =~= receipt_domain());
    v
}

/// The policy hash over allowlists already taken once each in ascending order.
pub fn hash_policy(
    p: &SandboxAdmissionPolicy,
    backends: &Vec<SandboxBackend>,
    runtime: &Vec<SandboxDigest>,
    kernel: &Vec<SandboxDigest>,
    rootfs: &Vec<SandboxDigest>,
    network: &Vec<SandboxDigest>,
) -> (d: SandboxDigest)
    ensures
        d@ == sha256_spec(
            policy_preimage(*p, backends@, runtime@, kernel@, rootfs@, network@),
        ),
{
    let mut out = domain_bytes(0);
    put_str(&mut out, p.policy_id.as_str());
    put_u64(&mut out, p.policy_epoch);
    put_backends(&mut out, backends);
    put_digests(&mut out, runtime);
    put_digests(&mut out, kernel);
    put_digests(&mut out, rootfs);
    put_digests(&mut out, network);
    put_resources(&mut out, &p.max_resources);
    put_len(&mut out, p.max_argv);
    put_len(&mut out, p.max_argv_bytes);
    put_len(&mut out, p.max_inputs);
    put_u64(&mut out, p.max_input_bytes);
    put_len(&mut out, p.max_outputs);
    put_len(&mut out, p.max_secret_leases);
    put_byte(&mut out, flag_byte(p.allow_secret_leases));
    put_isolation(&mut out, &p.required_isolation);
    let bytes = sha256(out.as_slice());
    SandboxDigest::from_bytes(bytes)
}

/// The plan hash of a canonical request under a policy hash.
pub fn hash_plan(policy_hash: &SandboxDigest, r: &SandboxExecutionRequest) -> (d: SandboxDigest)
    ensures
        d@ == sha256_spec(plan_preimage(policy_hash@, *r)),
{
    let mut out = domain_bytes(1);
    put_digest(&mut out, policy_hash);
    put_str(&mut out, r.request_id.as_str());
    put_u64(&mut out, r.execution_epoch);
    put_byte(&mut out, r.backend.tag());
    put_digest(&mut out, &r.runtime_digest);
    put_digest(&mut out, &r.kernel_digest);
    put_digest(&mut out, &r.rootfs_digest);
    put_digest(&mut out, &r.execution_nonce);
    put_args(&mut out, &r.argv);
    put_str(&mut out, r.working_dir.as_str());
    put_inputs(&mut out, &r.inputs);
    put_outputs(&mut out, &r.outputs);
    put_leases(&mut out, &r.secret_leases);
    put_str(&mut out, r.network.policy_id.as_str());
    put_digest(&mut out, &r.network.policy_hash);
    put_byte(&mut out, r.network.mode.tag());
    put_resources(&mut out, &r.resources);
    put_isolation(&mut out, &r.isolation);
    let bytes = sha256(out.as_slice());
    SandboxDigest::from_bytes(bytes)
}

/// The receipt hash of a receipt under a policy hash.
pub fn hash_receipt(policy_hash: &SandboxDigest, rc: &SandboxExecutionReceipt) -> (d: SandboxDigest)
    ensures
        d@ == sha256_spec(receipt_preimage(policy_hash@, *rc)),
{
    let mut out = domain_bytes(2);
    put_digest(&mut out, policy_hash);
    put_str(&mut out, rc.request_id.as_str());
    put_digest(&mut out, &rc.plan_hash);
    put_byte(&mut out, rc.backend.tag());
    put_digest(&mut out, &rc.runtime_digest);
    put_digest(&mut out, &rc.kernel_digest);
    put_digest(&mut out, &rc.rootfs_digest);
    let ghost before_att = out@;
    match &rc.runtime_attestation_hash {
        Some(v) => {
            out.push(1u8);
            put_digest(&mut out, v);
        },
        None => {
            out.push(0u8);
        },
    }
    assert(out@ =~= before_att + opt_digest_enc(rc.runtime_attestation_hash));
    put_byte(&mut out, rc.termination.tag());
    let ghost before_exit = out@;
    match rc.exit_code {
        Some(v) => {
            out.push(1u8);
            put_u32(&mut out, v as u32);
        },
        None => {
            out.push(0u8);
        },
    }
    assert(out@ =~= before_exit + opt_i32_enc(rc.exit_code));
    put_u64(&mut out, rc.wall_time_ms);
    put_u32(&mut out, rc.peak_memory_mib);
    put_u32(&mut out, rc.produced_output_count);
    put_u64(&mut out, rc.total_output_bytes);
    put_digest(&mut out, &rc.stdout_hash);
    put_digest(&mut out, &rc.stderr_hash);
    put_digest(&mut out, &rc.output_manifest_hash);
    let bytes = sha256(out.as_slice());
    SandboxDigest::from_bytes(bytes)
}

} // verus!
