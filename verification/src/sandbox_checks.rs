//! Field-level validators of sandbox admission: identifiers, guest paths,
//! argv, resource budgets and isolation assertions.

use vstd::prelude::*;
use vstd::utf8::{encode_utf8, is_ascii_chars};
use crate::text::{is_trimmed, str_is_trimmed};
use crate::sandbox_types::{SandboxExecutionError, SandboxFault, SandboxIsolationRequirements, SandboxResourceBudget};

verus! {

pub const HARD_MAX_IDENTIFIER_BYTES: usize = 1024;
pub const HARD_MAX_GUEST_PATH_BYTES: usize = 4096;
pub const HARD_MAX_ARG_BYTES: usize = 65536;
pub const HARD_MAX_ARG_COUNT: usize = 4096;
pub const HARD_MAX_MOUNTS: usize = 1024;
pub const HARD_MAX_SECRET_LEASES: usize = 256;
pub const HARD_MAX_ALLOWLIST_ITEMS: usize = 4096;

/// A validation step succeeded exactly when no fault is expected, and failed
/// with exactly the expected fault otherwise.
pub open spec fn outcome(r: Result<(), SandboxExecutionError>, f: Option<SandboxFault>) -> bool {
    match r {
        Ok(_) => f is None,
        Err(e) => f == Some(e@),
    }
}

/// An ASCII control byte (`0x00..=0x1f` or `0x7f`).
pub open spec fn is_control_byte(b: u8) -> bool {
    b < 32 || b == 127
}

/// Some byte of `b` is an ASCII control byte.
pub open spec fn has_control(b: Seq<u8>) -> bool {
    exists|i: int| 0 <= i < b.len() && is_control_byte(#[trigger] b[i])
}

/// Visible ASCII without surrounding whitespace.
pub open spec fn canonical_text(v: Seq<char>) -> bool {
    is_trimmed(v) && is_ascii_chars(v) && !has_control(encode_utf8(v))
}

/// The first failure of an identifier check, if any.
pub open spec fn identifier_fault(field: Seq<char>, v: Seq<char>, configured_max: nat) -> Option<
    SandboxFault,
> {
    let len = encode_utf8(v).len();
    let max = if configured_max < 1024 {
        configured_max
    } else {
        1024
    };
    if v.len() == 0 {
        Some(SandboxFault::EmptyIdentifier { field })
    } else if !canonical_text(v) {
        Some(SandboxFault::NonCanonicalIdentifier { field })
    } else if len > max {
        Some(SandboxFault::IdentifierTooLong { field, actual: len, max })
    } else {
        None
    }
}

/// Whether `b` holds an ASCII control byte.
pub fn has_control_byte(b: &[u8]) -> (r: bool)
    ensures
        r == has_control(b@),
{
    let mut i: usize = 0;
    while i < b.len()
        invariant
            i <= b@.len(),
            forall|k: int| 0 <= k < i ==> !is_control_byte(#[trigger] b@[k]),
        decreases b@.len() - i,
    {
        if b[i] < 32 || b[i] == 127 {
            return true;
        }
        i = i + 1;
    }
    false
}

/// Whether `b` holds the byte `x`.
pub fn has_byte(b: &[u8], x: u8) -> (r: bool)
    ensures
        r == b@.contains(x),
{
    let mut i: usize = 0;
    while i < b.len()
        invariant
            i <= b@.len(),
            forall|k: int| 0 <= k < i ==> b@[k] != x,
        decreases b@.len() - i,
    {
        if b[i] == x {
            assert(b@[i as int] == x);
            return true;
        }
        i = i + 1;
    }
    false
}

/// Whether `v` is visible ASCII without surrounding whitespace.
pub fn is_canonical_text(v: &str) -> (r: bool)
    ensures
        r == canonical_text(v@),
{
    str_is_trimmed(v) && v.is_ascii() && !has_control_byte(v.as_bytes())
}

/// Checks a canonical identifier against the configured and hard length bounds.
pub fn validate_identifier(field: &'static str, value: &str, configured_max: usize) -> (r: Result<
    (),
    SandboxExecutionError,
>)
    ensures
        outcome(r, identifier_fault(field@, value@, configured_max as nat)),
{
    if value.is_empty() {
        return Err(SandboxExecutionError::EmptyIdentifier { field });
    }
    if !is_canonical_text(value) {
        return Err(SandboxExecutionError::NonCanonicalIdentifier { field });
    }
    let max = if configured_max < HARD_MAX_IDENTIFIER_BYTES {
        configured_max
    } else {
        HARD_MAX_IDENTIFIER_BYTES
    };
    let len = value.as_bytes().len();
    if len > max {
        return Err(SandboxExecutionError::IdentifierTooLong { field, actual: len, max });
    }
    Ok(())
}

/// Every component after the leading slash is non-empty and neither `.` nor `..`.
pub open spec fn components_ok(b: Seq<u8>) -> bool {
    forall|i: int|
        0 <= i < b.len() && #[trigger] b[i] == 47 ==> {
            &&& i + 1 < b.len() && b[i + 1] != 47
            &&& !(b[i + 1] == 46 && (i + 2 == b.len() || b[i + 2] == 47))
            &&& !(b[i + 1] == 46 && i + 2 < b.len() && b[i + 2] == 46 && (i + 3 == b.len() || b[i
                + 3] == 47))
        }
}

/// A canonical absolute guest path: visible ASCII without backslashes, at most
/// 4096 bytes, starting with `/`, without a trailing `/`, without empty, `.`
/// or `..` components; the bare root only where it is allowed.
pub open spec fn guest_path_ok(p: Seq<char>, allow_root: bool) -> bool {
    let b = encode_utf8(p);
    &&& canonical_text(p)
    &&& !b.contains(92u8)
    &&& b.len() <= 4096
    &&& b.len() > 0 && b[0] == 47
    &&& (allow_root || b.len() != 1)
    &&& !(b.len() > 1 && b.last() == 47)
    &&& components_ok(b)
}

/// The failure of a guest path check, if any.
pub open spec fn guest_path_fault(field: Seq<char>, p: Seq<char>, allow_root: bool) -> Option<
    SandboxFault,
> {
    if guest_path_ok(p, allow_root) {
        None
    } else {
        Some(SandboxFault::InvalidGuestPath { field, path: p })
    }
}

fn components_valid(b: &[u8]) -> (r: bool)
    ensures
        r == components_ok(b@),
{
    let n = b.len();
    let mut i: usize = 0;
    while i < n
        invariant
            n == b@.len(),
            i <= n,
            forall|k: int|
                0 <= k < i && #[trigger] b@[k] == 47 ==> {
                    &&& k + 1 < n && b@[k + 1] != 47
                    &&& !(b@[k + 1] == 46 && (k + 2 == n || b@[k + 2] == 47))
                    &&& !(b@[k + 1] == 46 && k + 2 < n && b@[k + 2] == 46 && (k + 3 == n || b@[k
                        + 3] == 47))
                },
        decreases n - i,
    {
        if b[i] == 47 {
            if i + 1 >= n || b[i + 1] == 47 {
                return false;
            }
            if b[i + 1] == 46 && (i + 2 == n || b[i + 2] == 47) {
                return false;
            }
            if b[i + 1] == 46 && i + 2 < n && b[i + 2] == 46 && (i + 3 == n || b[i + 3] == 47) {
                return false;
            }
        }
        i = i + 1;
    }
    true
}

/// Whether `path` is a canonical absolute guest path.
pub fn is_guest_path(path: &str, allow_root: bool) -> (r: bool)
    ensures
        r == guest_path_ok(path@, allow_root),
{
    if !is_canonical_text(path) {
        return false;
    }
    let b = path.as_bytes();
    let n = b.len();
    if has_byte(b, 92) || n > HARD_MAX_GUEST_PATH_BYTES {
        return false;
    }
    if n == 0 || b[0] != 47 {
        return false;
    }
    if !allow_root && n == 1 {
        return false;
    }
    if n > 1 && b[n - 1] == 47 {
        return false;
    }
    components_valid(b)
}

/// Checks that `path` is a canonical absolute guest path.
pub fn validate_guest_path(field: &'static str, path: &str, allow_root: bool) -> (r: Result<
    (),
    SandboxExecutionError,
>)
    ensures
        outcome(r, guest_path_fault(field@, path@, allow_root)),
{
    if !is_guest_path(path, allow_root) {
        return Err(
            SandboxExecutionError::InvalidGuestPath {
                field,
                path: crate::text::copy_string(&String::from_str(path)),
            },
        );
    }
    Ok(())
}

/// The first failure of a resource budget against its maximum, if any.
pub open spec fn resources_fault(a: SandboxResourceBudget, m: SandboxResourceBudget) -> Option<
    SandboxFault,
> {
    if a.vcpus == 0 || a.memory_mib == 0 || a.disk_mib == 0 || a.wall_time_ms == 0
        || a.process_limit == 0 || a.max_output_bytes == 0 {
        Some(SandboxFault::ZeroResourceBudget)
    } else if a.vcpus > m.vcpus {
        Some(
            SandboxFault::ResourceExceeded {
                field: "vcpus"@,
                actual: a.vcpus as nat,
                max: m.vcpus as nat,
            },
        )
    } else if a.memory_mib > m.memory_mib {
        Some(
            SandboxFault::ResourceExceeded {
                field: "memory_mib"@,
                actual: a.memory_mib as nat,
                max: m.memory_mib as nat,
            },
        )
    } else if a.disk_mib > m.disk_mib {
        Some(
            SandboxFault::ResourceExceeded {
                field: "disk_mib"@,
                actual: a.disk_mib as nat,
                max: m.disk_mib as nat,
            },
        )
    } else if a.wall_time_ms > m.wall_time_ms {
        Some(
            SandboxFault::ResourceExceeded {
                field: "wall_time_ms"@,
                actual: a.wall_time_ms as nat,
                max: m.wall_time_ms as nat,
            },
        )
    } else if a.process_limit > m.process_limit {
        Some(
            SandboxFault::ResourceExceeded {
                field: "process_limit"@,
                actual: a.process_limit as nat,
                max: m.process_limit as nat,
            },
        )
    } else if a.max_output_bytes > m.max_output_bytes {
        Some(
            SandboxFault::ResourceExceeded {
                field: "max_output_bytes"@,
                actual: a.max_output_bytes as nat,
                max: m.max_output_bytes as nat,
            },
        )
    } else {
        None
    }
}

fn compare_resource(field: &'static str, actual: u64, max: u64) -> (r: Result<
    (),
    SandboxExecutionError,
>)
    ensures
        r is Ok <==> actual <= max,
        r matches Err(e) ==> e == (SandboxExecutionError::ResourceExceeded { field, actual, max }),
{
    if actual > max {
        return Err(SandboxExecutionError::ResourceExceeded { field, actual, max });
    }
    Ok(())
}

/// Checks that a budget has no zero field and stays within `max`.
pub fn validate_resources(actual: &SandboxResourceBudget, max: &SandboxResourceBudget) -> (r:
    Result<(), SandboxExecutionError>)
    ensures
        outcome(r, resources_fault(*actual, *max)),
{
    if actual.vcpus == 0 || actual.memory_mib == 0 || actual.disk_mib == 0 || actual.wall_time_ms
        == 0 || actual.process_limit == 0 || actual.max_output_bytes == 0 {
        return Err(SandboxExecutionError::ZeroResourceBudget);
    }
    compare_resource("vcpus", actual.vcpus as u64, max.vcpus as u64)?;
    compare_resource("memory_mib", actual.memory_mib as u64, max.memory_mib as u64)?;
    compare_resource("disk_mib", actual.disk_mib as u64, max.disk_mib as u64)?;
    compare_resource("wall_time_ms", actual.wall_time_ms, max.wall_time_ms)?;
    compare_resource("process_limit", actual.process_limit as u64, max.process_limit as u64)?;
    compare_resource("max_output_bytes", actual.max_output_bytes, max.max_output_bytes)
}

/// The first isolation assertion that is required but absent, if any.
pub open spec fn isolation_fault(
    a: SandboxIsolationRequirements,
    req: SandboxIsolationRequirements,
) -> Option<SandboxFault> {
    if req.ephemeral_root && !a.ephemeral_root {
        Some(SandboxFault::IsolationRequirementMissing("ephemeral_root"@))
    } else if req.destroy_after_run && !a.destroy_after_run {
        Some(SandboxFault::IsolationRequirementMissing("destroy_after_run"@))
    } else if req.device_passthrough_disabled && !a.device_passthrough_disabled {
        Some(SandboxFault::IsolationRequirementMissing("device_passthrough_disabled"@))
    } else if req.host_path_mounts_disabled && !a.host_path_mounts_disabled {
        Some(SandboxFault::IsolationRequirementMissing("host_path_mounts_disabled"@))
    } else if req.runtime_attestation_required && !a.runtime_attestation_required {
        Some(SandboxFault::IsolationRequirementMissing("runtime_attestation_required"@))
    } else {
        None
    }
}

/// Checks that every required isolation assertion is present.
pub fn validate_isolation(
    actual: &SandboxIsolationRequirements,
    required: &SandboxIsolationRequirements,
) -> (r: Result<(), SandboxExecutionError>)
    ensures
        outcome(r, isolation_fault(*actual, *required)),
{
    if required.ephemeral_root && !actual.ephemeral_root {
        return Err(SandboxExecutionError::IsolationRequirementMissing("ephemeral_root"));
    }
    if required.destroy_after_run && !actual.destroy_after_run {
        return Err(SandboxExecutionError::IsolationRequirementMissing("destroy_after_run"));
    }
    if required.device_passthrough_disabled && !actual.device_passthrough_disabled {
        return Err(
            SandboxExecutionError::IsolationRequirementMissing("device_passthrough_disabled"),
        );
    }
    if required.host_path_mounts_disabled && !actual.host_path_mounts_disabled {
        return Err(
            SandboxExecutionError::IsolationRequirementMissing("host_path_mounts_disabled"),
        );
    }
    if required.runtime_attestation_required && !actual.runtime_attestation_required {
        return Err(
            SandboxExecutionError::IsolationRequirementMissing("runtime_attestation_required"),
        );
    }
    Ok(())
}

/// The failure of the argv elements from `i` on, with `total` bytes counted so far.
pub open spec fn argv_scan(argv: Seq<String>, i: int, total: int, max_bytes: nat) -> Option<
    SandboxFault,
>
    decreases argv.len() - i,
{
    if i < 0 || i >= argv.len() {
        if total > max_bytes {
            Some(SandboxFault::ArgvTooLarge { actual: total as nat, max: max_bytes })
        } else {
            None
        }
    } else {
        let b = encode_utf8(argv[i]@);
        if argv[i]@.len() == 0 || b.contains(0u8) {
            Some(SandboxFault::InvalidArg { index: i as nat })
        } else if total + b.len() > usize::MAX {
            Some(SandboxFault::ArgvTooLarge { actual: usize::MAX as nat, max: max_bytes })
        } else {
            argv_scan(argv, i + 1, total + b.len(), max_bytes)
        }
    }
}

/// The first failure of an argv vector, if any.
pub open spec fn argv_fault(argv: Seq<String>, max_argv: nat, max_bytes: nat) -> Option<
    SandboxFault,
> {
    if argv.len() == 0 {
        Some(SandboxFault::EmptyArgv)
    } else if argv.len() > max_argv {
        Some(SandboxFault::TooManyArgs { actual: argv.len(), max: max_argv })
    } else {
        argv_scan(argv, 0, 0, max_bytes)
    }
}

/// Checks argv: non-empty, bounded count, non-empty NUL-free elements, bounded bytes.
pub fn validate_argv(argv: &Vec<String>, max_argv: usize, max_argv_bytes: usize) -> (r: Result<
    (),
    SandboxExecutionError,
>)
    ensures
        outcome(r, argv_fault(argv@, max_argv as nat, max_argv_bytes as nat)),
{
    if argv.len() == 0 {
        return Err(SandboxExecutionError::EmptyArgv);
    }
    if argv.len() > max_argv {
        return Err(SandboxExecutionError::TooManyArgs { actual: argv.len(), max: max_argv });
    }
    let mut total: usize = 0;
    let mut index: usize = 0;
    while index < argv.len()
        invariant
            index <= argv@.len(),
            argv_fault(argv@, max_argv as nat, max_argv_bytes as nat) == argv_scan(
                argv@,
                index as int,
                total as int,
                max_argv_bytes as nat,
            ),
        decreases argv@.len() - index,
    {
        let arg = argv[index].as_str();
        let bytes = arg.as_bytes();
        if arg.is_empty() || has_byte(bytes, 0) {
            return Err(SandboxExecutionError::InvalidArg { index });
        }
        let len = bytes.len();
        if len > usize::MAX - total {
            return Err(SandboxExecutionError::ArgvTooLarge { actual: usize::MAX, max: max_argv_bytes });
        }
        total = total + len;
        index = index + 1;
    }
    if total > max_argv_bytes {
        return Err(SandboxExecutionError::ArgvTooLarge { actual: total, max: max_argv_bytes });
    }
    Ok(())
}

/// Two guest paths are equal or one lies beneath the other.
pub open spec fn paths_overlap(l: Seq<char>, r: Seq<char>) -> bool {
    let a = encode_utf8(l);
    let b = encode_utf8(r);
    ||| a == b
    ||| (b.len() > a.len() && b.subrange(0, a.len() as int) == a && b[a.len() as int] == 47)
    ||| (a.len() > b.len() && a.subrange(0, b.len() as int) == b && a[b.len() as int] == 47)
}

fn beneath(a: &[u8], b: &[u8]) -> (r: bool)
    ensures
        r == (b@.len() > a@.len() && b@.subrange(0, a@.len() as int) == a@ && b@[a@.len() as int]
            == 47),
{
    if b.len() <= a.len() {
        return false;
    }
    let mut i: usize = 0;
    while i < a.len()
        invariant
            a@.len() < b@.len(),
            i <= a@.len(),
            forall|k: int| 0 <= k < i ==> a@[k] == b@[k],
        decreases a@.len() - i,
    {
        if a[i] != b[i] {
            assert(b@.subrange(0, a@.len() as int)[i as int] != a@[i as int]);
            return false;
        }
        i = i + 1;
    }
    assert(b@.subrange(0, a@.len() as int) =~= a@);
    b[a.len()] == 47
}

/// Whether two guest paths overlap.
pub fn paths_overlap_exec(left: &str, right: &str) -> (r: bool)
    ensures
        r == paths_overlap(left@, right@),
{
    let a = left.as_bytes();
    let b = right.as_bytes();
    crate::order::bytes_eq(a, b) || beneath(a, b) || beneath(b, a)
}

proof fn lemma_encode_concat(a: Seq<char>, b: Seq<char>)
    ensures
        encode_utf8(a + b) == encode_utf8(a) + encode_utf8(b),
    decreases a.len(),
{
    if a.len() > 0 {
        assert((a + b).drop_first() =~= a.drop_first() + b);
        assert((a + b)[0] == a[0]);
        lemma_encode_concat(a.drop_first(), b);
        assert(encode_utf8(a + b) =~= encode_utf8(a) + encode_utf8(b));
    } else {
        assert(a + b =~= b);
        assert(encode_utf8(a) =~= Seq::<u8>::empty());
        assert(encode_utf8(a) + encode_utf8(b) =~= encode_utf8(b));
    }
}

proof fn lemma_encode_slash()
    ensures
        encode_utf8(seq!['/']) == seq![47u8],
{
    assert((47u32 & 0x7F) == 47u32) by (bit_vector);
    let c = seq!['/'];
    assert(c.drop_first() =~= Seq::<char>::empty());
    assert(encode_utf8(c.drop_first()) =~= Seq::<u8>::empty());
    assert(c[0] as u32 == 47u32);
    assert(vstd::utf8::has_width_1_encoding(47u32));
    assert(vstd::utf8::encode_scalar(47u32) =~= seq![47u8]);
    assert(encode_utf8(c) == vstd::utf8::encode_scalar(c[0] as u32) + encode_utf8(c.drop_first()));
    assert(encode_utf8(c) =~= seq![47u8]);
}

/// Overlap does not depend on the order of the two paths.
pub proof fn law_paths_overlap_symmetric(l: Seq<char>, r: Seq<char>)
    ensures
        paths_overlap(l, r) == paths_overlap(r, l),
{
}

/// A path overlaps itself and every path beneath it, in either order.
pub proof fn law_path_overlaps_what_lies_beneath(p: Seq<char>, s: Seq<char>)
    ensures
        paths_overlap(p, p),
        paths_overlap(p, p + seq!['/'] + s),
        paths_overlap(p + seq!['/'] + s, p),
{
    lemma_encode_concat(p + seq!['/'], s);
    lemma_encode_concat(p, seq!['/']);
    lemma_encode_slash();
    let a = encode_utf8(p);
    let b = encode_utf8(p + seq!['/'] + s);
    assert(b == a + seq![47u8] + encode_utf8(s));
    assert(b.subrange(0, a.len() as int) =~= a);
    assert(b[a.len() as int] == 47);
}

/// Two paths overlap exactly when their UTF-8 bytes are equal, or one is the
/// other followed by a `/` byte and more.
pub proof fn law_paths_overlap_exactly(l: Seq<char>, r: Seq<char>)
    ensures
        paths_overlap(l, r) <==> ({
            let a = encode_utf8(l);
            let b = encode_utf8(r);
            ||| a == b
            ||| exists|t: Seq<u8>| #[trigger] (a + seq![47u8] + t) == b
            ||| exists|t: Seq<u8>| #[trigger] (b + seq![47u8] + t) == a
        }),
{
    let a = encode_utf8(l);
    let b = encode_utf8(r);
    if b.len() > a.len() && b.subrange(0, a.len() as int) == a && b[a.len() as int] == 47 {
        let t = b.subrange(a.len() as int + 1, b.len() as int);
        assert(a + seq![47u8] + t =~= b);
    }
    if a.len() > b.len() && a.subrange(0, b.len() as int) == b && a[b.len() as int] == 47 {
        let t = a.subrange(b.len() as int + 1, a.len() as int);
        assert(b + seq![47u8] + t =~= a);
    }
    if exists|t: Seq<u8>| #[trigger] (a + seq![47u8] + t) == b {
        let t = choose|t: Seq<u8>| #[trigger] (a + seq![47u8] + t) == b;
        assert(b.subrange(0, a.len() as int) =~= a);
        assert(b[a.len() as int] == 47);
    }
    if exists|t: Seq<u8>| #[trigger] (b + seq![47u8] + t) == a {
        let t = choose|t: Seq<u8>| #[trigger] (b + seq![47u8] + t) == a;
        assert(a.subrange(0, b.len() as int) =~= b);
        assert(a[b.len() as int] == 47);
    }
}

} // verus!
