//! The release registry: its documents, their addresses, and the choice
//! of the binary for a host.

use vstd::prelude::*;
use crate::error::GdvmError;
use crate::host::{HostArch, HostOs, HostPlatform};
use crate::text::{chars_of, decimal, eq_str, push_decimal, push_str, string_of};

verus! {

/// Where the registry documents are published.
pub const BASE_URL: &'static str =
    "https://raw.githubusercontent.com/adalinesimonian/gdvm/refs/heads/registry/v1";

/// One release in the registry index.
#[derive(Debug)]
pub struct IndexEntry {
    pub id: u64,
    pub name: String,
}

/// One downloadable binary: its declared hash and its mirrors.
#[derive(Debug)]
pub struct BinaryInfo {
    pub sha512: String,
    pub urls: Vec<String>,
}

/// The binary that a release offers for one architecture key.
#[derive(Debug)]
pub struct ArchBinary {
    pub arch: String,
    pub info: BinaryInfo,
}

/// The binaries that a release offers for one platform key.
#[derive(Debug)]
pub struct PlatformBinaries {
    pub platform: String,
    pub arches: Vec<ArchBinary>,
}

/// The registry's record of one release. `binaries` maps a platform key
/// (`windows`, `macos`, `linux`, each optionally with `-csharp`) to what the
/// release offers per architecture key. A record read from the registry
/// holds no key twice (`has_unique_keys`); in a record that does, the
/// first entry with a key counts.
#[derive(Debug)]
pub struct ReleaseMetadata {
    pub id: u64,
    pub name: String,
    pub url: String,
    pub binaries: Vec<PlatformBinaries>,
}

/// Why no binary could be chosen.
#[derive(Debug, Clone, Copy, PartialEq, Eq, Structural)]
pub enum BinarySelectionError {
    UnsupportedPlatform,
    UnsupportedArch,
    MissingUrl,
}

/// The platform key of a host and variant.
pub open spec fn platform_key_spec(host: HostPlatform, is_csharp: bool) -> Seq<char> {
    match host.os {
        HostOs::Windows => if is_csharp {
            "windows-csharp"@
        } else {
            "windows"@
        },
        HostOs::Macos => if is_csharp {
            "macos-csharp"@
        } else {
            "macos"@
        },
        HostOs::Linux => if is_csharp {
            "linux-csharp"@
        } else {
            "linux"@
        },
    }
}

/// The architecture key of a host.
pub open spec fn arch_key_spec(host: HostPlatform) -> Seq<char> {
    match host.arch {
        HostArch::X86_64 => "x86_64"@,
        HostArch::X86 => "x86"@,
        HostArch::Aarch64 => "arm64"@,
    }
}

/// Position of the first entry for platform `key`, or the length of the
/// list where there is none.
pub open spec fn platform_position(list: Seq<PlatformBinaries>, key: Seq<char>) -> int
    decreases list.len(),
{
    if list.len() == 0 {
        0
    } else if list[0].platform@ == key {
        0
    } else {
        1 + platform_position(list.drop_first(), key)
    }
}

/// Position of the first entry for architecture `key`, or the length of
/// the list where there is none.
pub open spec fn arch_position(list: Seq<ArchBinary>, key: Seq<char>) -> int
    decreases list.len(),
{
    if list.len() == 0 {
        0
    } else if list[0].arch@ == key {
        0
    } else {
        1 + arch_position(list.drop_first(), key)
    }
}

/// `platform_position` is the least position with the key.
pub proof fn lemma_platform_position(list: Seq<PlatformBinaries>, key: Seq<char>, i: int)
    requires
        0 <= i <= list.len(),
        forall|j: int| 0 <= j < i ==> (#[trigger] list[j]).platform@ != key,
        i < list.len() ==> list[i].platform@ == key,
    ensures
        platform_position(list, key) == i,
    decreases list.len(),
{
    if list.len() > 0 && i > 0 {
        assert(list[0].platform@ != key);
        let rest = list.drop_first();
        assert forall|j: int| 0 <= j < i - 1 implies (#[trigger] rest[j]).platform@ != key by {
            assert(rest[j] == list[j + 1]);
        }
        lemma_platform_position(rest, key, i - 1);
    }
}

/// `arch_position` is the least position with the key.
pub proof fn lemma_arch_position(list: Seq<ArchBinary>, key: Seq<char>, i: int)
    requires
        0 <= i <= list.len(),
        forall|j: int| 0 <= j < i ==> (#[trigger] list[j]).arch@ != key,
        i < list.len() ==> list[i].arch@ == key,
    ensures
        arch_position(list, key) == i,
    decreases list.len(),
{
    if list.len() > 0 && i > 0 {
        assert(list[0].arch@ != key);
        let rest = list.drop_first();
        assert forall|j: int| 0 <= j < i - 1 implies (#[trigger] rest[j]).arch@ != key by {
            assert(rest[j] == list[j + 1]);
        }
        lemma_arch_position(rest, key, i - 1);
    }
}

/// Which binary of a release serves a host and variant: the position of
/// the platform entry and, in it, of the architecture entry.
///
/// The platform key must be present, else the platform is unsupported. On
/// macOS a `universal` entry is taken where the platform has one;
/// otherwise the host's architecture key must be present, else the
/// architecture is unsupported. A binary without any address is a missing
/// address.
pub open spec fn select_binary_spec(meta: ReleaseMetadata, host: HostPlatform, is_csharp: bool)
    -> Result<(int, int), BinarySelectionError> {
    let p = platform_position(meta.binaries@, platform_key_spec(host, is_csharp));
    if p >= meta.binaries@.len() {
        Err(BinarySelectionError::UnsupportedPlatform)
    } else {
        let arches = meta.binaries@[p].arches@;
        let universal = arch_position(arches, "universal"@);
        let a = if host.os == HostOs::Macos && universal < arches.len() {
            universal
        } else {
            arch_position(arches, arch_key_spec(host))
        };
        if a >= arches.len() {
            Err(BinarySelectionError::UnsupportedArch)
        } else if arches[a].info.urls@.len() == 0 {
            Err(BinarySelectionError::MissingUrl)
        } else {
            Ok((p, a))
        }
    }
}

/// The key under which the registry lists binaries for a host's operating
/// system and the wanted variant.
pub fn registry_platform_key(host: HostPlatform, is_csharp: bool) -> (r: &'static str)
    ensures
        r@ == platform_key_spec(host, is_csharp),
{
    match host.os {
        HostOs::Windows => {
            if is_csharp {
                "windows-csharp"
            } else {
                "windows"
            }
        },
        HostOs::Macos => {
            if is_csharp {
                "macos-csharp"
            } else {
                "macos"
            }
        },
        HostOs::Linux => {
            if is_csharp {
                "linux-csharp"
            } else {
                "linux"
            }
        },
    }
}

/// The key under which the registry lists binaries for a host's
/// architecture.
pub fn registry_arch_key(host: HostPlatform) -> (r: &'static str)
    ensures
        r@ == arch_key_spec(host),
{
    match host.arch {
        HostArch::X86_64 => "x86_64",
        HostArch::X86 => "x86",
        HostArch::Aarch64 => "arm64",
    }
}

/// Position of the first platform entry with the key.
fn find_platform(list: &Vec<PlatformBinaries>, key: &str) -> (r: Option<usize>)
    ensures
        match r {
            Some(i) => i < list@.len() && i == platform_position(list@, key@),
            None => platform_position(list@, key@) == list@.len(),
        },
{
    let mut i: usize = 0;
    while i < list.len()
        invariant
            i <= list.len(),
            forall|j: int| 0 <= j < i ==> (#[trigger] list@[j]).platform@ != key@,
        decreases list.len() - i,
    {
        let name = chars_of(list[i].platform.as_str());
        if eq_str(name.as_slice(), key) {
            proof {
                lemma_platform_position(list@, key@, i as int);
            }
            return Some(i);
        }
        i = i + 1;
    }
    proof {
        lemma_platform_position(list@, key@, list@.len() as int);
    }
    None
}

/// Position of the first architecture entry with the key.
fn find_arch(list: &Vec<ArchBinary>, key: &str) -> (r: Option<usize>)
    ensures
        match r {
            Some(i) => i < list@.len() && i == arch_position(list@, key@),
            None => arch_position(list@, key@) == list@.len(),
        },
{
    let mut i: usize = 0;
    while i < list.len()
        invariant
            i <= list.len(),
            forall|j: int| 0 <= j < i ==> (#[trigger] list@[j]).arch@ != key@,
        decreases list.len() - i,
    {
        let name = chars_of(list[i].arch.as_str());
        if eq_str(name.as_slice(), key) {
            proof {
                lemma_arch_position(list@, key@, i as int);
            }
            return Some(i);
        }
        i = i + 1;
    }
    proof {
        lemma_arch_position(list@, key@, list@.len() as int);
    }
    None
}

/// Chooses the binary of a release for a host and variant.
pub fn select_binary(meta: &ReleaseMetadata, host: HostPlatform, is_csharp: bool) -> (r: Result<
    &BinaryInfo,
    BinarySelectionError,
>)
    ensures
        match select_binary_spec(*meta, host, is_csharp) {
            Ok((p, a)) => r is Ok && *r->Ok_0 == meta.binaries@[p].arches@[a].info,
            Err(e) => r is Err && r->Err_0 == e,
        },
{
    let platform_key = registry_platform_key(host, is_csharp);
    let p = match find_platform(&meta.binaries, platform_key) {
        Some(p) => p,
        None => {
            return Err(BinarySelectionError::UnsupportedPlatform);
        },
    };
    let arches = &meta.binaries[p].arches;
    let universal = match host.os {
        HostOs::Macos => find_arch(arches, "universal"),
        _ => None,
    };
    let found = match universal {
        Some(a) => Some(a),
        None => find_arch(arches, registry_arch_key(host)),
    };
    let a = match found {
        Some(a) => a,
        None => {
            return Err(BinarySelectionError::UnsupportedArch);
        },
    };
    let binary = &arches[a].info;
    if binary.urls.len() == 0 {
        return Err(BinarySelectionError::MissingUrl);
    }
    Ok(binary)
}

/// The same choice as `select_binary`, with the failure as a `GdvmError`.
pub fn select_binary_or_error(meta: &ReleaseMetadata, host: HostPlatform, is_csharp: bool) -> (r:
    Result<&BinaryInfo, GdvmError>)
    ensures
        match select_binary_spec(*meta, host, is_csharp) {
            Ok((p, a)) => r is Ok && *r->Ok_0 == meta.binaries@[p].arches@[a].info,
            Err(BinarySelectionError::UnsupportedPlatform) => r is Err
                && r->Err_0 is UnsupportedPlatform,
            Err(BinarySelectionError::UnsupportedArch) => r is Err && r->Err_0 is UnsupportedArch,
            Err(BinarySelectionError::MissingUrl) => r is Err && r->Err_0 is MissingBinaryUrl,
        },
{
    match select_binary(meta, host, is_csharp) {
        Ok(b) => Ok(b),
        Err(BinarySelectionError::UnsupportedPlatform) => Err(GdvmError::UnsupportedPlatform),
        Err(BinarySelectionError::UnsupportedArch) => Err(GdvmError::UnsupportedArch),
        Err(BinarySelectionError::MissingUrl) => Err(GdvmError::MissingBinaryUrl),
    }
}

/// The address of the registry index: `<base>/index.json`.
pub fn index_url() -> (r: String)
    ensures
        r@ == BASE_URL@ + "/index.json"@,
{
    let mut out = chars_of(BASE_URL);
    push_str(&mut out, "/index.json");
    string_of(out.as_slice())
}

/// The address of one release's record: `<base>/releases/<id>_<tag>.json`.
pub fn release_url(id: u64, name: &str) -> (r: String)
    ensures
        r@ == BASE_URL@ + "/releases/"@ + decimal(id as nat) + seq!['_'] + name@ + ".json"@,
{
    let mut out = chars_of(BASE_URL);
    push_str(&mut out, "/releases/");
    push_decimal(&mut out, id);
    out.push('_');
    push_str(&mut out, name);
    push_str(&mut out, ".json");
    string_of(out.as_slice())
}

/// The verdict on the registry's answer to the request for its index:
/// only status 200 is a document.
pub fn check_index_status(status: u16) -> (r: Result<(), GdvmError>)
    ensures
        status == 200 ==> r is Ok,
        status != 200 ==> r is Err && r->Err_0 is IndexFetchFailed,
{
    if status == 200 {
        Ok(())
    } else {
        Err(GdvmError::IndexFetchFailed)
    }
}

/// The verdict on the registry's answer to the request for a release
/// record: only status 200 is a document.
pub fn check_release_status(status: u16) -> (r: Result<(), GdvmError>)
    ensures
        status == 200 ==> r is Ok,
        status != 200 ==> r is Err && r->Err_0 is ReleaseFetchFailed,
{
    if status == 200 {
        Ok(())
    } else {
        Err(GdvmError::ReleaseFetchFailed)
    }
}

/// A release without an entry for the platform key of the host and
/// variant serves neither: the platform is unsupported.
pub proof fn lemma_missing_platform(meta: ReleaseMetadata, host: HostPlatform, is_csharp: bool)
    requires
        forall|i: int|
            0 <= i < meta.binaries@.len() ==> (#[trigger] meta.binaries@[i]).platform@
                != platform_key_spec(host, is_csharp),
    ensures
        select_binary_spec(meta, host, is_csharp) == Err::<(int, int), BinarySelectionError>(
            BinarySelectionError::UnsupportedPlatform,
        ),
{
    lemma_platform_position(
        meta.binaries@,
        platform_key_spec(host, is_csharp),
        meta.binaries@.len() as int,
    );
}

/// A release that has the platform, at position `p`, but there neither
/// the architecture key of the host nor a universal binary, does not
/// serve the host: the architecture is unsupported.
pub proof fn lemma_missing_arch(meta: ReleaseMetadata, host: HostPlatform, is_csharp: bool, p: int)
    requires
        0 <= p < meta.binaries@.len(),
        p == platform_position(meta.binaries@, platform_key_spec(host, is_csharp)),
        forall|a: int|
            0 <= a < meta.binaries@[p].arches@.len() ==> (#[trigger] meta.binaries@[p].arches@[a]).arch@
                != arch_key_spec(host) && meta.binaries@[p].arches@[a].arch@ != "universal"@,
    ensures
        select_binary_spec(meta, host, is_csharp) == Err::<(int, int), BinarySelectionError>(
            BinarySelectionError::UnsupportedArch,
        ),
{
    let arches = meta.binaries@[p].arches@;
    lemma_arch_position(arches, arch_key_spec(host), arches.len() as int);
    lemma_arch_position(arches, "universal"@, arches.len() as int);
}

/// On macOS a universal binary is taken where the platform has one,
/// whatever else it has: with the platform at position `p` and the first
/// universal entry at position `u` there, that entry is the one selected,
/// unless it lists no address.
pub proof fn lemma_universal_preferred(
    meta: ReleaseMetadata,
    host: HostPlatform,
    is_csharp: bool,
    p: int,
    u: int,
)
    requires
        host.os == HostOs::Macos,
        0 <= p < meta.binaries@.len(),
        p == platform_position(meta.binaries@, platform_key_spec(host, is_csharp)),
        0 <= u < meta.binaries@[p].arches@.len(),
        u == arch_position(meta.binaries@[p].arches@, "universal"@),
    ensures
        select_binary_spec(meta, host, is_csharp) == if meta.binaries@[p].arches@[u].info.urls@.len()
            == 0 {
            Err::<(int, int), BinarySelectionError>(BinarySelectionError::MissingUrl)
        } else {
            Ok::<(int, int), BinarySelectionError>((p, u))
        },
{
}

impl ReleaseMetadata {
    /// The binaries are a map: no platform key occurs twice, and under one
    /// platform no architecture key occurs twice.
    pub open spec fn has_unique_keys(self) -> bool {
        &&& forall|i: int, j: int|
            0 <= i < j < self.binaries@.len() ==> (#[trigger] self.binaries@[i]).platform@ != (
            #[trigger] self.binaries@[j]).platform@
        &&& forall|p: int, a: int, b: int|
            0 <= p < self.binaries@.len() && 0 <= a < b < self.binaries@[p].arches@.len() ==> (
            #[trigger] self.binaries@[p].arches@[a]).arch@ != (
            #[trigger] self.binaries@[p].arches@[b]).arch@
    }
}

/// In a record without a key twice, the entry of a platform key is the
/// one found for it, wherever it stands.
pub proof fn lemma_unique_platform(meta: ReleaseMetadata, key: Seq<char>, p: int)
    requires
        meta.has_unique_keys(),
        0 <= p < meta.binaries@.len(),
        meta.binaries@[p].platform@ == key,
    ensures
        platform_position(meta.binaries@, key) == p,
{
    assert forall|j: int| 0 <= j < p implies (#[trigger] meta.binaries@[j]).platform@ != key by {
        assert(meta.binaries@[j].platform@ != meta.binaries@[p].platform@);
    }
    lemma_platform_position(meta.binaries@, key, p);
}

/// In a record without a key twice, the entry of an architecture key
/// under a platform is the one found for it, wherever it stands.
pub proof fn lemma_unique_arch(meta: ReleaseMetadata, p: int, key: Seq<char>, a: int)
    requires
        meta.has_unique_keys(),
        0 <= p < meta.binaries@.len(),
        0 <= a < meta.binaries@[p].arches@.len(),
        meta.binaries@[p].arches@[a].arch@ == key,
    ensures
        arch_position(meta.binaries@[p].arches@, key) == a,
{
    let arches = meta.binaries@[p].arches@;
    assert forall|j: int| 0 <= j < a implies (#[trigger] arches[j]).arch@ != key by {
        assert(meta.binaries@[p].arches@[j].arch@ != meta.binaries@[p].arches@[a].arch@);
    }
    lemma_arch_position(arches, key, a);
}

} // verus!
