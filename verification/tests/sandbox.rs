use helix_verified::sandbox::{admit_sandbox_execution, sandbox_policy_hash, validate_sandbox_receipt, AdmittedSandboxExecution};
use helix_verified::sandbox_types::{
    SandboxAdmissionPolicy, SandboxBackend, SandboxDigest, SandboxExecutionError,
    SandboxExecutionReceipt, SandboxExecutionRequest, SandboxInputArtifact,
    SandboxIsolationRequirements, SandboxNetworkMode, SandboxNetworkPolicyRef,
    SandboxOutputContract, SandboxResourceBudget, SandboxSecretLeaseRef, SandboxTermination,
};

fn digest(byte: u8) -> SandboxDigest {
    SandboxDigest::from_bytes([byte; 32])
}

fn resources() -> SandboxResourceBudget {
    SandboxResourceBudget {
        vcpus: 2,
        memory_mib: 1024,
        disk_mib: 4096,
        wall_time_ms: 60_000,
        process_limit: 64,
        max_output_bytes: 8 * 1024 * 1024,
    }
}

fn policy() -> SandboxAdmissionPolicy {
    SandboxAdmissionPolicy {
        policy_id: "helix-sandbox-production-v1".to_string(),
        policy_epoch: 1,
        allowed_backends: vec![SandboxBackend::Firecracker],
        allowed_runtime_digests: vec![digest(1)],
        allowed_kernel_digests: vec![digest(2)],
        allowed_rootfs_digests: vec![digest(3)],
        allowed_network_policy_hashes: vec![digest(4)],
        max_resources: SandboxResourceBudget {
            vcpus: 4,
            memory_mib: 4096,
            disk_mib: 16_384,
            wall_time_ms: 300_000,
            process_limit: 256,
            max_output_bytes: 64 * 1024 * 1024,
        },
        max_argv: 64,
        max_argv_bytes: 16 * 1024,
        max_inputs: 16,
        max_input_bytes: 64 * 1024 * 1024,
        max_outputs: 16,
        max_secret_leases: 4,
        allow_secret_leases: true,
        required_isolation: SandboxIsolationRequirements::strict(),
    }
}

fn request() -> SandboxExecutionRequest {
    SandboxExecutionRequest {
        request_id: "run-0001".to_string(),
        execution_epoch: 7,
        backend: SandboxBackend::Firecracker,
        runtime_digest: digest(1),
        kernel_digest: digest(2),
        rootfs_digest: digest(3),
        execution_nonce: digest(9),
        argv: vec![
            "/usr/bin/python3".to_string(),
            "/workspace/analyze.py".to_string(),
        ],
        working_dir: "/workspace".to_string(),
        inputs: vec![
            SandboxInputArtifact {
                artifact_id: "script".to_string(),
                content_hash: digest(11),
                guest_path: "/workspace/analyze.py".to_string(),
                size_bytes: 1_000,
            },
            SandboxInputArtifact {
                artifact_id: "dataset".to_string(),
                content_hash: digest(10),
                guest_path: "/workspace/data.csv".to_string(),
                size_bytes: 2_000,
            },
        ],
        outputs: vec![SandboxOutputContract {
            output_id: "report".to_string(),
            guest_path: "/outputs/report.json".to_string(),
            max_bytes: 1024 * 1024,
        }],
        secret_leases: vec![SandboxSecretLeaseRef {
            provider_id: "github-readonly".to_string(),
            purpose: "read-source".to_string(),
            lease_hash: digest(12),
        }],
        network: SandboxNetworkPolicyRef {
            policy_id: "research-egress-readonly".to_string(),
            policy_hash: digest(4),
            mode: SandboxNetworkMode::AllowlistedGateway,
        },
        resources: resources(),
        isolation: SandboxIsolationRequirements::strict(),
    }
}

fn receipt(admitted: &AdmittedSandboxExecution) -> SandboxExecutionReceipt {
    SandboxExecutionReceipt {
        request_id: admitted.request().request_id.clone(),
        plan_hash: *admitted.plan_hash(),
        backend: admitted.request().backend,
        runtime_digest: admitted.request().runtime_digest,
        kernel_digest: admitted.request().kernel_digest,
        rootfs_digest: admitted.request().rootfs_digest,
        runtime_attestation_hash: Some(digest(20)),
        termination: SandboxTermination::Exited,
        exit_code: Some(0),
        wall_time_ms: 2_000,
        peak_memory_mib: 256,
        produced_output_count: 1,
        total_output_bytes: 4_096,
        stdout_hash: digest(21),
        stderr_hash: digest(22),
        output_manifest_hash: digest(23),
    }
}

#[test]
fn valid_plan_is_admitted_and_canonicalized() {
    let admitted = admit_sandbox_execution(&policy(), request()).expect("admitted plan");
    assert_eq!(admitted.request().inputs[0].artifact_id, "script");
    assert_ne!(*admitted.policy_hash(), SandboxDigest::zero());
    assert_ne!(*admitted.plan_hash(), SandboxDigest::zero());
}

#[test]
fn input_order_does_not_change_plan_hash() {
    let left = request();
    let mut right = left.clone();
    right.inputs.reverse();
    let left = admit_sandbox_execution(&policy(), left).expect("left plan");
    let right = admit_sandbox_execution(&policy(), right).expect("right plan");
    assert_eq!(left.plan_hash(), right.plan_hash());
    assert_eq!(left.request(), right.request());
}

#[test]
fn argv_order_changes_plan_hash() {
    let left = request();
    let mut right = left.clone();
    right.argv.reverse();
    let left = admit_sandbox_execution(&policy(), left).expect("left plan");
    let right = admit_sandbox_execution(&policy(), right).expect("right plan");
    assert_ne!(left.plan_hash(), right.plan_hash());
}

#[test]
fn unapproved_runtime_is_rejected() {
    let mut unapproved = request();
    unapproved.runtime_digest = digest(99);
    assert_eq!(
        admit_sandbox_execution(&policy(), unapproved),
        Err(SandboxExecutionError::RuntimeDigestDenied)
    );
}

#[test]
fn zero_nonce_is_rejected() {
    let mut replayable = request();
    replayable.execution_nonce = SandboxDigest::zero();
    assert_eq!(
        admit_sandbox_execution(&policy(), replayable),
        Err(SandboxExecutionError::ZeroDigest {
            field: "execution_nonce"
        })
    );
}

#[test]
fn path_traversal_is_rejected() {
    let mut traversal = request();
    traversal.outputs[0].guest_path = "/outputs/../host".to_string();
    assert!(matches!(
        admit_sandbox_execution(&policy(), traversal),
        Err(SandboxExecutionError::InvalidGuestPath {
            field: "output.guest_path",
            ..
        })
    ));
}

#[test]
fn overlapping_input_and_output_paths_are_rejected() {
    let mut overlap = request();
    overlap.outputs[0].guest_path = "/workspace".to_string();
    assert!(matches!(
        admit_sandbox_execution(&policy(), overlap),
        Err(SandboxExecutionError::OverlappingGuestPaths { .. })
    ));
}

#[test]
fn resource_budget_is_enforced() {
    let mut oversized = request();
    oversized.resources.memory_mib = policy().max_resources.memory_mib + 1;
    assert_eq!(
        admit_sandbox_execution(&policy(), oversized),
        Err(SandboxExecutionError::ResourceExceeded {
            field: "memory_mib",
            actual: 4097,
            max: 4096
        })
    );
}

#[test]
fn strict_isolation_cannot_be_silently_dropped() {
    let mut unsafe_request = request();
    unsafe_request.isolation.host_path_mounts_disabled = false;
    assert_eq!(
        admit_sandbox_execution(&policy(), unsafe_request),
        Err(SandboxExecutionError::IsolationRequirementMissing(
            "host_path_mounts_disabled"
        ))
    );
}

#[test]
fn valid_receipt_is_constructor_gated_and_successful() {
    let admitted = admit_sandbox_execution(&policy(), request()).expect("admitted plan");
    let validated =
        validate_sandbox_receipt(&admitted, receipt(&admitted)).expect("validated receipt");
    assert!(validated.succeeded());
    assert_ne!(*validated.receipt_hash(), SandboxDigest::zero());
}

#[test]
fn receipt_cannot_replay_against_another_plan() {
    let admitted = admit_sandbox_execution(&policy(), request()).expect("admitted plan");
    let mut other_request = request();
    other_request.request_id = "run-0002".to_string();
    other_request.execution_nonce = digest(30);
    let other = admit_sandbox_execution(&policy(), other_request).expect("other plan");
    assert_eq!(
        validate_sandbox_receipt(&other, receipt(&admitted)),
        Err(SandboxExecutionError::ReceiptRequestMismatch)
    );
}

#[test]
fn missing_runtime_attestation_fails_closed() {
    let admitted = admit_sandbox_execution(&policy(), request()).expect("admitted plan");
    let mut unmeasured = receipt(&admitted);
    unmeasured.runtime_attestation_hash = None;
    assert_eq!(
        validate_sandbox_receipt(&admitted, unmeasured),
        Err(SandboxExecutionError::MissingRuntimeAttestation)
    );
}

#[test]
fn receipt_cannot_exceed_output_budget() {
    let admitted = admit_sandbox_execution(&policy(), request()).expect("admitted plan");
    let mut oversized = receipt(&admitted);
    oversized.total_output_bytes = admitted.request().outputs[0].max_bytes + 1;
    assert_eq!(
        validate_sandbox_receipt(&admitted, oversized),
        Err(SandboxExecutionError::ReceiptOutputBytesExceeded {
            actual: 1_048_577,
            max: 1_048_576
        })
    );
}

#[test]
fn timeout_receipt_is_valid_but_not_successful() {
    let admitted = admit_sandbox_execution(&policy(), request()).expect("admitted plan");
    let mut timed_out = receipt(&admitted);
    timed_out.termination = SandboxTermination::TimedOut;
    timed_out.exit_code = None;
    timed_out.wall_time_ms = admitted.request().resources.wall_time_ms;
    let validated =
        validate_sandbox_receipt(&admitted, timed_out).expect("valid timeout receipt");
    assert!(!validated.succeeded());
}

#[test]
fn receipt_hash_binds_output_manifest() {
    let admitted = admit_sandbox_execution(&policy(), request()).expect("admitted plan");
    let left = validate_sandbox_receipt(&admitted, receipt(&admitted)).expect("left receipt");
    let mut changed = receipt(&admitted);
    changed.output_manifest_hash = digest(24);
    let right = validate_sandbox_receipt(&admitted, changed).expect("right receipt");
    assert_ne!(left.receipt_hash(), right.receipt_hash());
}

// Further cases of this library's own.

#[test]
fn policy_hash_matches_admission_policy_hash() {
    let admitted = admit_sandbox_execution(&policy(), request()).expect("admitted plan");
    assert_eq!(sandbox_policy_hash(&policy()).unwrap(), *admitted.policy_hash());
}

#[test]
fn policy_hash_ignores_allowlist_order_and_repeats() {
    let mut p = policy();
    p.allowed_runtime_digests = vec![digest(5), digest(1), digest(5)];
    let mut q = policy();
    q.allowed_runtime_digests = vec![digest(1), digest(5)];
    assert_eq!(sandbox_policy_hash(&p).unwrap(), sandbox_policy_hash(&q).unwrap());
}

#[test]
fn policy_with_zero_epoch_is_invalid() {
    let mut p = policy();
    p.policy_epoch = 0;
    assert_eq!(
        sandbox_policy_hash(&p),
        Err(SandboxExecutionError::InvalidPolicy("policy_epoch must be greater than zero".to_string()))
    );
}

#[test]
fn policy_with_empty_allowlist_is_invalid() {
    let mut p = policy();
    p.allowed_kernel_digests = vec![];
    assert_eq!(
        sandbox_policy_hash(&p),
        Err(SandboxExecutionError::InvalidPolicy("allowed_kernel_digests must not be empty".to_string()))
    );
}

#[test]
fn policy_count_out_of_range_is_invalid() {
    let mut p = policy();
    p.max_argv = 0;
    assert_eq!(
        sandbox_policy_hash(&p),
        Err(SandboxExecutionError::InvalidPolicy("max_argv must be between 1 and 4096".to_string()))
    );
}

#[test]
fn duplicate_lease_is_rejected_with_provider_and_purpose() {
    let mut r = request();
    r.secret_leases.push(SandboxSecretLeaseRef {
        provider_id: "github-readonly".to_string(),
        purpose: "read-source".to_string(),
        lease_hash: digest(13),
    });
    assert_eq!(
        admit_sandbox_execution(&policy(), r),
        Err(SandboxExecutionError::DuplicateSecretLease("github-readonly/read-source".to_string()))
    );
}

#[test]
fn duplicate_input_path_is_rejected() {
    let mut r = request();
    r.inputs[1].guest_path = "/workspace/analyze.py".to_string();
    assert_eq!(
        admit_sandbox_execution(&policy(), r),
        Err(SandboxExecutionError::DuplicateInput("/workspace/analyze.py".to_string()))
    );
}

#[test]
fn identifier_with_surrounding_space_is_rejected() {
    let mut r = request();
    r.request_id = " run-0001".to_string();
    assert_eq!(
        admit_sandbox_execution(&policy(), r),
        Err(SandboxExecutionError::NonCanonicalIdentifier { field: "request_id" })
    );
}

#[test]
fn root_working_directory_is_rejected() {
    let mut r = request();
    r.working_dir = "/".to_string();
    assert!(matches!(
        admit_sandbox_execution(&policy(), r),
        Err(SandboxExecutionError::InvalidGuestPath { field: "working_dir", .. })
    ));
}

#[test]
fn argv_with_nul_byte_is_rejected() {
    let mut r = request();
    r.argv[1] = "bad\0arg".to_string();
    assert_eq!(
        admit_sandbox_execution(&policy(), r),
        Err(SandboxExecutionError::InvalidArg { index: 1 })
    );
}

#[test]
fn exit_code_without_normal_exit_is_rejected() {
    let admitted = admit_sandbox_execution(&policy(), request()).expect("admitted plan");
    let mut rc = receipt(&admitted);
    rc.termination = SandboxTermination::OutOfMemory;
    assert_eq!(
        validate_sandbox_receipt(&admitted, rc),
        Err(SandboxExecutionError::InvalidExitCode)
    );
}

#[test]
fn digest_hex_is_lowercase_pairs() {
    let mut bytes = [0u8; 32];
    bytes[0] = 0xab;
    bytes[31] = 0x0f;
    let hex = SandboxDigest::from_bytes(bytes).to_hex();
    assert_eq!(hex.len(), 64);
    assert!(hex.starts_with("ab00"));
    assert!(hex.ends_with("000f"));
}

#[test]
fn digest_hex_of_uniform_bytes() {
    assert_eq!(SandboxDigest::zero().to_hex(), "0".repeat(64));
    assert_eq!(SandboxDigest::from_bytes([0xab; 32]).to_hex(), "ab".repeat(32));
    let mut bytes = [0u8; 32];
    for (i, b) in bytes.iter_mut().enumerate() {
        *b = (i * 9) as u8;
    }
    let hex = SandboxDigest::from_bytes(bytes).to_hex();
    for i in 0..32 {
        assert_eq!(&hex[2 * i..2 * i + 2], format!("{:02x}", bytes[i]));
    }
}
