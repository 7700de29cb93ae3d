//! Data types of policy-bound VM sandbox admission: digests, requests,
//! policies, receipts and the typed failures.

use vstd::prelude::*;
use vstd::utf8::encode_utf8;
use crate::order::Keyed;

verus! {

broadcast use vstd::array::group_array_axioms;

/// A typed 32-byte commitment used by sandbox policies, plans, artifacts, and receipts.
#[derive(Debug, Clone, Copy, PartialEq, Eq, PartialOrd, Ord, Hash)]
pub struct SandboxDigest([u8; 32]);

impl View for SandboxDigest {
    type V = Seq<u8>;

    closed spec fn view(&self) -> Seq<u8> {
        self.0@
    }
}

/// The 32 zero bytes of the all-zero sentinel.
pub open spec fn zero_bytes() -> Seq<u8> {
    Seq::new(32, |i: int| 0u8)
}

/// A digest always holds 32 bytes.
pub broadcast proof fn lemma_digest_len(d: SandboxDigest)
    ensures
        #[trigger] d@.len() == 32,
{
}

/// Digests with the same bytes are the same digest.
pub proof fn lemma_digest_view_injective(a: SandboxDigest, b: SandboxDigest)
    requires
        a@ == b@,
    ensures
        a == b,
{
    assert(a.0 == b.0);
}

impl SandboxDigest {
    /// The all-zero sentinel. Admission rejects it wherever a real commitment is required.
    pub fn zero() -> (d: SandboxDigest)
        ensures
            d@ == zero_bytes(),
    {
        let d = SandboxDigest([0u8; 32]);
        proof {
            assert(d.0@ =~= zero_bytes());
        }
        d
    }

    /// Construct a digest from exact bytes.
    pub fn from_bytes(bytes: [u8; 32]) -> (d: SandboxDigest)
        ensures
            d@ == bytes@,
    {
        SandboxDigest(bytes)
    }

    /// Return the committed bytes.
    pub fn as_bytes(&self) -> (b: &[u8; 32])
        ensures
            b@ == self@,
    {
        &self.0
    }

    /// Whether both digests hold the same bytes.
    pub fn same_as(&self, other: &SandboxDigest) -> (b: bool)
        ensures
            b == (self@ == other@),
            b == (*self == *other),
    {
        let mut i: usize = 0;
        while i < 32
            invariant
                i <= 32,
                forall|k: int| 0 <= k < i ==> self.0@[k] == other.0@[k],
            decreases 32 - i,
        {
            if self.0[i] != other.0[i] {
                return false;
            }
            i = i + 1;
        }
        assert(self.0@ =~= other.0@);
        proof {
            lemma_digest_view_injective(*self, *other);
        }
        true
    }

    /// Whether this is the all-zero sentinel.
    pub fn is_zero(&self) -> (b: bool)
        ensures
            b == (self@ == zero_bytes()),
    {
        let mut i: usize = 0;
        while i < 32
            invariant
                i <= 32,
                forall|k: int| 0 <= k < i ==> self.0@[k] == 0u8,
            decreases 32 - i,
        {
            if self.0[i] != 0 {
                return false;
            }
            i = i + 1;
        }
        assert(self.0@ =~= zero_bytes());
        true
    }

    /// Return canonical lowercase hexadecimal.
    pub fn to_hex(self) -> (s: String)
        ensures
            s@ == crate::hashing::hex_chars(self@),
    {
        crate::hashing::hex_string(&self.0)
    }
}

impl Keyed for SandboxDigest {
    open spec fn key1(&self) -> Seq<u8> {
        self@
    }

    open spec fn key2(&self) -> Seq<u8> {
        Seq::empty()
    }

    fn key1_bytes(&self) -> (r: &[u8]) {
        vstd::array::array_as_slice(&self.0)
    }

    fn key2_bytes(&self) -> (r: &[u8]) {
        let e: &[u8] = &[];
        assert(e@ =~= Seq::<u8>::empty());
        e
    }
}

/// Runtime family selected by the policy-bound execution plan.
#[derive(Debug, Clone, Copy, PartialEq, Eq, Structural, PartialOrd, Ord, Hash)]
pub enum SandboxBackend {
    /// Linux KVM microVM using Firecracker and its jailer (or stronger isolation).
    Firecracker,
    /// Cross-platform full-system VM using QEMU.
    Qemu,
    /// Kata Containers VM-backed runtime.
    Kata,
    /// Apple's Virtualization.framework backend.
    AppleVirtualization,
    /// Microsoft Hyper-V backend.
    HyperV,
}

/// The byte that commits to a backend.
pub open spec fn backend_tag(b: SandboxBackend) -> u8 {
    match b {
        SandboxBackend::Firecracker => 0,
        SandboxBackend::Qemu => 1,
        SandboxBackend::Kata => 2,
        SandboxBackend::AppleVirtualization => 3,
        SandboxBackend::HyperV => 4,
    }
}

impl SandboxBackend {
    /// The byte that commits to this backend.
    pub fn tag(self) -> (t: u8)
        ensures
            t == backend_tag(self),
    {
        match self {
            SandboxBackend::Firecracker => 0,
            SandboxBackend::Qemu => 1,
            SandboxBackend::Kata => 2,
            SandboxBackend::AppleVirtualization => 3,
            SandboxBackend::HyperV => 4,
        }
    }
}

/// Network posture whose complete rules are committed by `policy_hash`.
#[derive(Debug, Clone, Copy, PartialEq, Eq, Structural, PartialOrd, Ord, Hash)]
pub enum SandboxNetworkMode {
    /// No guest network egress.
    DenyAll,
    /// Only the policy-controlled inference gateway is reachable.
    InferenceGatewayOnly,
    /// Egress is allowed only through an external policy-enforcing gateway.
    AllowlistedGateway,
}

/// The byte that commits to a network mode.
pub open spec fn network_mode_tag(m: SandboxNetworkMode) -> u8 {
    match m {
        SandboxNetworkMode::DenyAll => 0,
        SandboxNetworkMode::InferenceGatewayOnly => 1,
        SandboxNetworkMode::AllowlistedGateway => 2,
    }
}

impl SandboxNetworkMode {
    /// The byte that commits to this mode.
    pub fn tag(self) -> (t: u8)
        ensures
            t == network_mode_tag(self),
    {
        match self {
            SandboxNetworkMode::DenyAll => 0,
            SandboxNetworkMode::InferenceGatewayOnly => 1,
            SandboxNetworkMode::AllowlistedGateway => 2,
        }
    }
}

/// Reference to a complete externally enforced network policy.
#[derive(Debug, Clone, PartialEq, Eq)]
pub struct SandboxNetworkPolicyRef {
    /// Stable policy identifier for audit and operator display.
    pub policy_id: String,
    /// Canonical commitment to destinations, ports, methods, paths, DNS, and proxy behavior.
    pub policy_hash: SandboxDigest,
    /// Coarse posture interpreted by the pure admission kernel.
    pub mode: SandboxNetworkMode,
}

/// Hard resource budget enforced outside the guest.
#[derive(Debug, Clone, Copy, PartialEq, Eq, Structural)]
pub struct SandboxResourceBudget {
    /// Maximum virtual CPUs exposed to the guest.
    pub vcpus: u16,
    /// Maximum guest memory in MiB.
    pub memory_mib: u32,
    /// Maximum writable overlay disk in MiB.
    pub disk_mib: u32,
    /// Hard wall-clock execution limit supplied to the runtime shell.
    pub wall_time_ms: u64,
    /// Maximum process count, enforced by the runtime/cgroup boundary.
    pub process_limit: u32,
    /// Maximum aggregate bytes admitted from declared outputs.
    pub max_output_bytes: u64,
}

/// Read-only artifact copied or attached into the guest by identity, never by caller host path.
#[derive(Debug, Clone, PartialEq, Eq)]
pub struct SandboxInputArtifact {
    /// Stable artifact-registry identity.
    pub artifact_id: String,
    /// Exact artifact content commitment.
    pub content_hash: SandboxDigest,
    /// Absolute canonical path visible inside the guest.
    pub guest_path: String,
    /// Declared input size used for deterministic admission bounds.
    pub size_bytes: u64,
}

impl Keyed for SandboxInputArtifact {
    open spec fn key1(&self) -> Seq<u8> {
        encode_utf8(self.guest_path@)
    }

    open spec fn key2(&self) -> Seq<u8> {
        encode_utf8(self.artifact_id@)
    }

    fn key1_bytes(&self) -> (r: &[u8]) {
        self.guest_path.as_str().as_bytes()
    }

    fn key2_bytes(&self) -> (r: &[u8]) {
        self.artifact_id.as_str().as_bytes()
    }
}

/// Writable guest path whose collected result becomes a content-addressed artifact.
#[derive(Debug, Clone, PartialEq, Eq)]
pub struct SandboxOutputContract {
    /// Stable output name used in manifests and UI.
    pub output_id: String,
    /// Absolute canonical guest path. No host path is accepted by this API.
    pub guest_path: String,
    /// Maximum bytes collected from this output.
    pub max_bytes: u64,
}

impl Keyed for SandboxOutputContract {
    open spec fn key1(&self) -> Seq<u8> {
        encode_utf8(self.guest_path@)
    }

    open spec fn key2(&self) -> Seq<u8> {
        encode_utf8(self.output_id@)
    }

    fn key1_bytes(&self) -> (r: &[u8]) {
        self.guest_path.as_str().as_bytes()
    }

    fn key2_bytes(&self) -> (r: &[u8]) {
        self.output_id.as_str().as_bytes()
    }
}

/// Opaque reference to a short-lived credential capability held by a gateway.
///
/// The sandbox request never contains the credential value. The gateway may use
/// this commitment to inject credentials for one approved request without writing
/// them into the guest filesystem.
#[derive(Debug, Clone, PartialEq, Eq)]
pub struct SandboxSecretLeaseRef {
    /// Stable provider identity, such as `github-readonly`.
    pub provider_id: String,
    /// Narrow purpose shown to policy and operators.
    pub purpose: String,
    /// Commitment to the externally issued, short-lived lease.
    pub lease_hash: SandboxDigest,
}

impl Keyed for SandboxSecretLeaseRef {
    open spec fn key1(&self) -> Seq<u8> {
        encode_utf8(self.provider_id@)
    }

    open spec fn key2(&self) -> Seq<u8> {
        encode_utf8(self.purpose@)
    }

    fn key1_bytes(&self) -> (r: &[u8]) {
        self.provider_id.as_str().as_bytes()
    }

    fn key2_bytes(&self) -> (r: &[u8]) {
        self.purpose.as_str().as_bytes()
    }
}

/// Explicit isolation assertions that a runtime adapter must enforce.
#[derive(Debug, Clone, Copy, PartialEq, Eq, Structural)]
pub struct SandboxIsolationRequirements {
    /// The writable root/overlay is discarded after the run.
    pub ephemeral_root: bool,
    /// The VM is destroyed after receipt collection.
    pub destroy_after_run: bool,
    /// No host device, socket, or GPU is passed through unless a future policy language says so.
    pub device_passthrough_disabled: bool,
    /// No arbitrary host directory is shared into the guest.
    pub host_path_mounts_disabled: bool,
    /// The runtime must return a non-zero attestation commitment.
    pub runtime_attestation_required: bool,
}

impl SandboxIsolationRequirements {
    /// Strict production defaults: every assertion is required.
    pub fn strict() -> (r: SandboxIsolationRequirements)
        ensures
            r.ephemeral_root && r.destroy_after_run && r.device_passthrough_disabled
                && r.host_path_mounts_disabled && r.runtime_attestation_required,
    {
        SandboxIsolationRequirements {
            ephemeral_root: true,
            destroy_after_run: true,
            device_passthrough_disabled: true,
            host_path_mounts_disabled: true,
            runtime_attestation_required: true,
        }
    }
}

/// Complete untrusted sandbox request proposed by a model or orchestration shell.
#[derive(Debug, Clone, PartialEq, Eq)]
pub struct SandboxExecutionRequest {
    /// Stable idempotency identity for this request.
    pub request_id: String,
    /// Monotonic externally supplied execution epoch.
    pub execution_epoch: u64,
    /// Selected runtime family.
    pub backend: SandboxBackend,
    /// Commitment to the VMM/runtime adapter and its security configuration.
    pub runtime_digest: SandboxDigest,
    /// Commitment to the guest kernel.
    pub kernel_digest: SandboxDigest,
    /// Commitment to the immutable base root filesystem.
    pub rootfs_digest: SandboxDigest,
    /// Non-zero anti-replay nonce committed into the plan.
    pub execution_nonce: SandboxDigest,
    /// Exact argv vector. No shell interpolation is implied.
    pub argv: Vec<String>,
    /// Canonical absolute working directory inside the guest.
    pub working_dir: String,
    /// Read-only content-addressed inputs.
    pub inputs: Vec<SandboxInputArtifact>,
    /// Declared writable outputs.
    pub outputs: Vec<SandboxOutputContract>,
    /// Short-lived gateway-held credential capabilities.
    pub secret_leases: Vec<SandboxSecretLeaseRef>,
    /// Complete committed egress policy reference.
    pub network: SandboxNetworkPolicyRef,
    /// Hard runtime budget.
    pub resources: SandboxResourceBudget,
    /// Required isolation behavior.
    pub isolation: SandboxIsolationRequirements,
}

/// Admission policy for sandbox execution plans.
///
/// The allowlists are sets: the order of their entries and repeated entries
/// carry no meaning.
#[derive(Debug, Clone, PartialEq, Eq)]
pub struct SandboxAdmissionPolicy {
    /// Stable policy identity.
    pub policy_id: String,
    /// Monotonic policy epoch.
    pub policy_epoch: u64,
    /// Runtime families permitted by this policy.
    pub allowed_backends: Vec<SandboxBackend>,
    /// Exact approved runtime/VMM configuration commitments.
    pub allowed_runtime_digests: Vec<SandboxDigest>,
    /// Exact approved guest kernels.
    pub allowed_kernel_digests: Vec<SandboxDigest>,
    /// Exact approved immutable base images.
    pub allowed_rootfs_digests: Vec<SandboxDigest>,
    /// Exact approved network policies.
    pub allowed_network_policy_hashes: Vec<SandboxDigest>,
    /// Maximum resources for any admitted request.
    pub max_resources: SandboxResourceBudget,
    /// Maximum argv elements.
    pub max_argv: usize,
    /// Maximum bytes across all argv elements.
    pub max_argv_bytes: usize,
    /// Maximum input artifact count.
    pub max_inputs: usize,
    /// Maximum aggregate input size.
    pub max_input_bytes: u64,
    /// Maximum output contract count.
    pub max_outputs: usize,
    /// Maximum short-lived credential leases.
    pub max_secret_leases: usize,
    /// Whether any secret lease may be requested.
    pub allow_secret_leases: bool,
    /// Isolation assertions that must all be present in the request.
    pub required_isolation: SandboxIsolationRequirements,
}

/// Runtime termination classification reported by the imperative shell.
#[derive(Debug, Clone, Copy, PartialEq, Eq, Structural, Hash)]
pub enum SandboxTermination {
    /// Guest process exited normally; `exit_code` must be present.
    Exited,
    /// Hard wall-clock budget expired.
    TimedOut,
    /// Runtime enforced an out-of-memory termination.
    OutOfMemory,
    /// Process/resource policy rejected or killed the run.
    PolicyDenied,
    /// Runtime failed before a normal guest exit.
    RuntimeFailure,
}

/// The byte that commits to a termination class.
pub open spec fn termination_tag(t: SandboxTermination) -> u8 {
    match t {
        SandboxTermination::Exited => 0,
        SandboxTermination::TimedOut => 1,
        SandboxTermination::OutOfMemory => 2,
        SandboxTermination::PolicyDenied => 3,
        SandboxTermination::RuntimeFailure => 4,
    }
}

impl SandboxTermination {
    /// The byte that commits to this termination class.
    pub fn tag(self) -> (t: u8)
        ensures
            t == termination_tag(self),
    {
        match self {
            SandboxTermination::Exited => 0,
            SandboxTermination::TimedOut => 1,
            SandboxTermination::OutOfMemory => 2,
            SandboxTermination::PolicyDenied => 3,
            SandboxTermination::RuntimeFailure => 4,
        }
    }
}

/// Untrusted execution receipt emitted by a VM runtime shell.
#[derive(Debug, Clone, PartialEq, Eq)]
pub struct SandboxExecutionReceipt {
    /// Request identity copied from the admitted plan.
    pub request_id: String,
    /// Exact admitted plan commitment.
    pub plan_hash: SandboxDigest,
    /// Runtime family actually used.
    pub backend: SandboxBackend,
    /// Runtime/VMM configuration actually used.
    pub runtime_digest: SandboxDigest,
    /// Kernel actually booted.
    pub kernel_digest: SandboxDigest,
    /// Root filesystem actually booted.
    pub rootfs_digest: SandboxDigest,
    /// Backend attestation, measured-launch, or equivalent runtime evidence commitment.
    pub runtime_attestation_hash: Option<SandboxDigest>,
    /// Canonical termination class.
    pub termination: SandboxTermination,
    /// Present only for normal guest process exit.
    pub exit_code: Option<i32>,
    /// Observed wall-clock duration supplied by the runtime.
    pub wall_time_ms: u64,
    /// Peak memory observed by the host/runtime boundary.
    pub peak_memory_mib: u32,
    /// Number of declared outputs actually collected.
    pub produced_output_count: u32,
    /// Aggregate collected output bytes.
    pub total_output_bytes: u64,
    /// Commitment to captured stdout, including the empty byte string when empty.
    pub stdout_hash: SandboxDigest,
    /// Commitment to captured stderr, including the empty byte string when empty.
    pub stderr_hash: SandboxDigest,
    /// Commitment to the canonical output artifact manifest.
    pub output_manifest_hash: SandboxDigest,
}

/// Typed failures from policy, request, and receipt validation.
#[allow(inconsistent_fields)]
#[derive(Debug, Clone, PartialEq, Eq)]
pub enum SandboxExecutionError {
    /// The supplied policy is internally invalid.
    InvalidPolicy(String),
    /// A canonical identifier is missing.
    EmptyIdentifier { field: &'static str },
    /// A canonical identifier contains unsupported bytes or surrounding whitespace.
    NonCanonicalIdentifier { field: &'static str },
    /// A canonical identifier exceeds policy or hard bounds.
    IdentifierTooLong { field: &'static str, actual: usize, max: usize },
    /// A required cryptographic commitment is the all-zero sentinel.
    ZeroDigest { field: &'static str },
    /// Request epoch zero is reserved as unknown/unbound.
    InvalidExecutionEpoch,
    /// Runtime family is not approved by policy.
    BackendDenied(SandboxBackend),
    /// Runtime configuration commitment is not approved.
    RuntimeDigestDenied,
    /// Kernel commitment is not approved.
    KernelDigestDenied,
    /// Root filesystem commitment is not approved.
    RootfsDigestDenied,
    /// Network policy commitment is not approved.
    NetworkPolicyDenied,
    /// Command vector is empty.
    EmptyArgv,
    /// Command vector has too many elements.
    TooManyArgs { actual: usize, max: usize },
    /// Command vector contains too many aggregate bytes.
    ArgvTooLarge { actual: usize, max: usize },
    /// Command argument is empty or contains a NUL byte.
    InvalidArg { index: usize },
    /// A guest path is not canonical absolute Linux syntax.
    InvalidGuestPath { field: &'static str, path: String },
    /// Two artifact paths overlap and would produce ambiguous mount behavior.
    OverlappingGuestPaths { left: String, right: String },
    /// Too many input artifacts were proposed.
    TooManyInputs { actual: usize, max: usize },
    /// Aggregate input bytes exceed policy.
    InputBytesExceeded { actual: u64, max: u64 },
    /// Duplicate input identity or guest path.
    DuplicateInput(String),
    /// An input has zero declared size.
    EmptyInput(String),
    /// Too many output contracts were proposed.
    TooManyOutputs { actual: usize, max: usize },
    /// Duplicate output identity or guest path.
    DuplicateOutput(String),
    /// Output contract has a zero byte limit.
    EmptyOutputBudget(String),
    /// Credential leases are disabled.
    SecretLeasesDenied,
    /// Too many credential leases were proposed.
    TooManySecretLeases { actual: usize, max: usize },
    /// Duplicate provider/purpose pair or lease commitment.
    DuplicateSecretLease(String),
    /// One or more resource fields are zero.
    ZeroResourceBudget,
    /// A resource field exceeds policy.
    ResourceExceeded { field: &'static str, actual: u64, max: u64 },
    /// A required isolation assertion is absent.
    IsolationRequirementMissing(&'static str),
    /// Receipt request identity does not match the admitted plan.
    ReceiptRequestMismatch,
    /// Receipt plan commitment does not match the admitted plan.
    ReceiptPlanMismatch,
    /// Receipt runtime identity does not match the admitted plan.
    ReceiptRuntimeMismatch(&'static str),
    /// Required runtime attestation is absent or zero.
    MissingRuntimeAttestation,
    /// Exit-code presence is inconsistent with the termination class.
    InvalidExitCode,
    /// Runtime exceeded the admitted wall-clock budget.
    ReceiptWallTimeExceeded { actual: u64, max: u64 },
    /// Runtime exceeded the admitted memory budget.
    ReceiptMemoryExceeded { actual: u32, max: u32 },
    /// More outputs were collected than declared.
    ReceiptOutputCountExceeded { actual: u32, max: u32 },
    /// Aggregate output bytes exceed the admitted budget.
    ReceiptOutputBytesExceeded { actual: u64, max: u64 },
}

/// A sandbox failure with its texts taken as character sequences: the value
/// that contracts compare.
pub enum SandboxFault {
    InvalidPolicy(Seq<char>),
    EmptyIdentifier { field: Seq<char> },
    NonCanonicalIdentifier { field: Seq<char> },
    IdentifierTooLong { field: Seq<char>, actual: nat, max: nat },
    ZeroDigest { field: Seq<char> },
    InvalidExecutionEpoch,
    BackendDenied(SandboxBackend),
    RuntimeDigestDenied,
    KernelDigestDenied,
    RootfsDigestDenied,
    NetworkPolicyDenied,
    EmptyArgv,
    TooManyArgs { actual: nat, max: nat },
    ArgvTooLarge { actual: nat, max: nat },
    InvalidArg { index: nat },
    InvalidGuestPath { field: Seq<char>, path: Seq<char> },
    OverlappingGuestPaths { left: Seq<char>, right: Seq<char> },
    TooManyInputs { actual: nat, max: nat },
    InputBytesExceeded { actual: nat, max: nat },
    DuplicateInput(Seq<char>),
    EmptyInput(Seq<char>),
    TooManyOutputs { actual: nat, max: nat },
    DuplicateOutput(Seq<char>),
    EmptyOutputBudget(Seq<char>),
    SecretLeasesDenied,
    TooManySecretLeases { actual: nat, max: nat },
    DuplicateSecretLease(Seq<char>),
    ZeroResourceBudget,
    ResourceExceeded { field: Seq<char>, actual: nat, max: nat },
    IsolationRequirementMissing(Seq<char>),
    ReceiptRequestMismatch,
    ReceiptPlanMismatch,
    ReceiptRuntimeMismatch(Seq<char>),
    MissingRuntimeAttestation,
    InvalidExitCode,
    ReceiptWallTimeExceeded { actual: nat, max: nat },
    ReceiptMemoryExceeded { actual: nat, max: nat },
    ReceiptOutputCountExceeded { actual: nat, max: nat },
    ReceiptOutputBytesExceeded { actual: nat, max: nat },
}

impl View for SandboxExecutionError {
    type V = SandboxFault;

    open spec fn view(&self) -> SandboxFault {
        match self {
            SandboxExecutionError::InvalidPolicy(m) => SandboxFault::InvalidPolicy(m@),
            SandboxExecutionError::EmptyIdentifier { field } => SandboxFault::EmptyIdentifier {
                field: field@,
            },
            SandboxExecutionError::NonCanonicalIdentifier { field } =>
                SandboxFault::NonCanonicalIdentifier { field: field@ },
            SandboxExecutionError::IdentifierTooLong { field, actual, max } =>
                SandboxFault::IdentifierTooLong {
                field: field@,
                actual: *actual as nat,
                max: *max as nat,
            },
            SandboxExecutionError::ZeroDigest { field } => SandboxFault::ZeroDigest {
                field: field@,
            },
            SandboxExecutionError::InvalidExecutionEpoch => SandboxFault::InvalidExecutionEpoch,
            SandboxExecutionError::BackendDenied(b) => SandboxFault::BackendDenied(*b),
            SandboxExecutionError::RuntimeDigestDenied => SandboxFault::RuntimeDigestDenied,
            SandboxExecutionError::KernelDigestDenied => SandboxFault::KernelDigestDenied,
            SandboxExecutionError::RootfsDigestDenied => SandboxFault::RootfsDigestDenied,
            SandboxExecutionError::NetworkPolicyDenied => SandboxFault::NetworkPolicyDenied,
            SandboxExecutionError::EmptyArgv => SandboxFault::EmptyArgv,
            SandboxExecutionError::TooManyArgs { actual, max } => SandboxFault::TooManyArgs {
                actual: *actual as nat,
                max: *max as nat,
            },
            SandboxExecutionError::ArgvTooLarge { actual, max } => SandboxFault::ArgvTooLarge {
                actual: *actual as nat,
                max: *max as nat,
            },
            SandboxExecutionError::InvalidArg { index } => SandboxFault::InvalidArg {
                index: *index as nat,
            },
            SandboxExecutionError::InvalidGuestPath { field, path } =>
                SandboxFault::InvalidGuestPath { field: field@, path: path@ },
            SandboxExecutionError::OverlappingGuestPaths { left, right } =>
                SandboxFault::OverlappingGuestPaths { left: left@, right: right@ },
            SandboxExecutionError::TooManyInputs { actual, max } => SandboxFault::TooManyInputs {
                actual: *actual as nat,
                max: *max as nat,
            },
            SandboxExecutionError::InputBytesExceeded { actual, max } =>
                SandboxFault::InputBytesExceeded { actual: *actual as nat, max: *max as nat },
            SandboxExecutionError::DuplicateInput(s) => SandboxFault::DuplicateInput(s@),
            SandboxExecutionError::EmptyInput(s) => SandboxFault::EmptyInput(s@),
            SandboxExecutionError::TooManyOutputs { actual, max } =>
                SandboxFault::TooManyOutputs { actual: *actual as nat, max: *max as nat },
            SandboxExecutionError::DuplicateOutput(s) => SandboxFault::DuplicateOutput(s@),
            SandboxExecutionError::EmptyOutputBudget(s) => SandboxFault::EmptyOutputBudget(s@),
            SandboxExecutionError::SecretLeasesDenied => SandboxFault::SecretLeasesDenied,
            SandboxExecutionError::TooManySecretLeases { actual, max } =>
                SandboxFault::TooManySecretLeases { actual: *actual as nat, max: *max as nat },
            SandboxExecutionError::DuplicateSecretLease(s) => SandboxFault::DuplicateSecretLease(
                s@,
            ),
            SandboxExecutionError::ZeroResourceBudget => SandboxFault::ZeroResourceBudget,
            SandboxExecutionError::ResourceExceeded { field, actual, max } =>
                SandboxFault::ResourceExceeded {
                field: field@,
                actual: *actual as nat,
                max: *max as nat,
            },
            SandboxExecutionError::IsolationRequirementMissing(f) =>
                SandboxFault::IsolationRequirementMissing(f@),
            SandboxExecutionError::ReceiptRequestMismatch => SandboxFault::ReceiptRequestMismatch,
            SandboxExecutionError::ReceiptPlanMismatch => SandboxFault::ReceiptPlanMismatch,
            SandboxExecutionError::ReceiptRuntimeMismatch(f) =>
                SandboxFault::ReceiptRuntimeMismatch(f@),
            SandboxExecutionError::MissingRuntimeAttestation =>
                SandboxFault::MissingRuntimeAttestation,
            SandboxExecutionError::InvalidExitCode => SandboxFault::InvalidExitCode,
            SandboxExecutionError::ReceiptWallTimeExceeded { actual, max } =>
                SandboxFault::ReceiptWallTimeExceeded { actual: *actual as nat, max: *max as nat },
            SandboxExecutionError::ReceiptMemoryExceeded { actual, max } =>
                SandboxFault::ReceiptMemoryExceeded { actual: *actual as nat, max: *max as nat },
            SandboxExecutionError::ReceiptOutputCountExceeded { actual, max } =>
                SandboxFault::ReceiptOutputCountExceeded {
                actual: *actual as nat,
                max: *max as nat,
            },
            SandboxExecutionError::ReceiptOutputBytesExceeded { actual, max } =>
                SandboxFault::ReceiptOutputBytesExceeded {
                actual: *actual as nat,
                max: *max as nat,
            },
        }
    }
}

} // verus!
