//! Choosing a prebuilt `llama-server` release for the host: platform and
//! accelerator, the archive among a release's assets, and the CUDA runtime
//! that goes with a Windows CUDA build. (Fetching and unpacking run in the
//! front end.)

use vstd::prelude::*;
use crate::config::join_path;
use crate::pattern::{regex_group1, regex_match, regex_valid, Pattern};
use crate::text::{chars_of, contains, contains_exec, ends_with, ends_with_exec, push_str, starts_with, starts_with_exec, string_of};

verus! {

#[derive(Clone, Copy, Debug, PartialEq, Eq, Structural)]
pub enum Os {
    Macos,
    Linux,
    Windows,
    Other,
}

#[derive(Clone, Copy, Debug, PartialEq, Eq, Structural)]
pub enum Arch {
    X64,
    Arm64,
    Other,
}

#[derive(Clone, Copy, Debug, PartialEq, Eq, Structural)]
pub enum Accel {
    Cpu,
    Cuda,
    Vulkan,
    Metal,
}

/// The platform named by `std::env::consts::OS`.
pub fn os_from_name(name: &str) -> (r: Os)
    ensures
        r == (if name@ == "macos"@ {
            Os::Macos
        } else if name@ == "linux"@ {
            Os::Linux
        } else if name@ == "windows"@ {
            Os::Windows
        } else {
            Os::Other
        }),
{
    let n = chars_of(name);
    if crate::text::chars_eq(&n, &chars_of("macos")) {
        Os::Macos
    } else if crate::text::chars_eq(&n, &chars_of("linux")) {
        Os::Linux
    } else if crate::text::chars_eq(&n, &chars_of("windows")) {
        Os::Windows
    } else {
        Os::Other
    }
}

/// The architecture named by `std::env::consts::ARCH`.
pub fn arch_from_name(name: &str) -> (r: Arch)
    ensures
        r == (if name@ == "x86_64"@ {
            Arch::X64
        } else if name@ == "aarch64"@ || name@ == "arm"@ {
            Arch::Arm64
        } else {
            Arch::Other
        }),
{
    let n = chars_of(name);
    if crate::text::chars_eq(&n, &chars_of("x86_64")) {
        Arch::X64
    } else if crate::text::chars_eq(&n, &chars_of("aarch64")) || crate::text::chars_eq(&n, &chars_of("arm")) {
        Arch::Arm64
    } else {
        Arch::Other
    }
}

/// `char::to_ascii_lowercase`.
pub open spec fn ascii_lower(c: char) -> char {
    if 'A' <= c && c <= 'Z' {
        ((c as u32) + 32) as char
    } else {
        c
    }
}

pub open spec fn ascii_lowercase(s: Seq<char>) -> Seq<char> {
    s.map_values(|c: char| ascii_lower(c))
}

fn ascii_lowercase_exec(s: &str) -> (r: Vec<char>)
    ensures
        r@ == ascii_lowercase(s@),
{
    let cs = chars_of(s);
    let mut r: Vec<char> = Vec::new();
    let mut i: usize = 0;
    while i < cs.len()
        invariant
            i <= cs@.len(),
            cs@ == s@,
            r@ =~= ascii_lowercase(cs@.take(i as int)),
        decreases cs.len() - i,
    {
        let c = cs[i];
        let l = if 'A' <= c && c <= 'Z' {
            let u = ((c as u32) + 32) as u8;
            u as char
        } else {
            c
        };
        r.push(l);
        assert(cs@.take(i + 1) =~= cs@.take(i as int).push(c));
        i += 1;
    }
    assert(cs@.take(i as int) =~= cs@);
    r
}

/// The accelerator: the override (`LOCALCODE_LLAMA_ACCEL`, any case) when it
/// names one, else Metal on macOS (built into its archives) and CPU
/// elsewhere (a GPU build is opt-in).
pub open spec fn accel_choice(os: Os, env_override: Option<Seq<char>>) -> Accel {
    let named = match env_override {
        Some(v) => {
            let l = ascii_lowercase(v);
            if l == "cpu"@ {
                Some(Accel::Cpu)
            } else if l == "cuda"@ {
                Some(Accel::Cuda)
            } else if l == "vulkan"@ {
                Some(Accel::Vulkan)
            } else if l == "metal"@ {
                Some(Accel::Metal)
            } else {
                None
            }
        },
        None => None,
    };
    match named {
        Some(a) => a,
        None => if os == Os::Macos {
            Accel::Metal
        } else {
            Accel::Cpu
        },
    }
}

/// Default accelerator for the host, given the value of the override
/// variable (`LOCALCODE_LLAMA_ACCEL`) if set.
pub fn host_accel(os: Os, env_override: Option<&str>) -> (r: Accel)
    ensures
        r == accel_choice(os, match env_override {
            Some(v) => Some(v@),
            None => None,
        }),
{
    match env_override {
        Some(v) => {
            let l = ascii_lowercase_exec(v);
            if crate::text::chars_eq(&l, &chars_of("cpu")) {
                return Accel::Cpu;
            } else if crate::text::chars_eq(&l, &chars_of("cuda")) {
                return Accel::Cuda;
            } else if crate::text::chars_eq(&l, &chars_of("vulkan")) {
                return Accel::Vulkan;
            } else if crate::text::chars_eq(&l, &chars_of("metal")) {
                return Accel::Metal;
            }
        },
        None => {},
    }
    match os {
        Os::Macos => Accel::Metal,
        _ => Accel::Cpu,
    }
}

/// Ordered, most-specific-first patterns for the server asset. Accelerated
/// builds are x64-only, so arm64 gets the plain build; where a GPU build is
/// missing the order falls back toward CPU.
pub open spec fn candidate_patterns(os: Os, arch: Arch, accel: Accel) -> Seq<Seq<char>> {
    match os {
        Os::Macos => match arch {
            Arch::Arm64 => seq!["bin-macos-arm64\\."@],
            _ => seq!["bin-macos-x64\\."@, "bin-macos-arm64\\."@],
        },
        Os::Linux => {
            let base = match arch {
                Arch::Arm64 => "bin-ubuntu-arm64\\."@,
                _ => "bin-ubuntu-x64\\."@,
            };
            if arch == Arch::X64 && (accel == Accel::Vulkan || accel == Accel::Cuda) {
                seq!["bin-ubuntu-vulkan-x64\\."@, base]
            } else {
                seq![base]
            }
        },
        Os::Windows => match accel {
            Accel::Cuda => seq![
                "bin-win-cuda-13[.-]"@,
                "bin-win-cuda-12[.-]"@,
                "bin-win-cuda-[0-9]+[.-]"@,
                "bin-win-vulkan-x64\\."@,
                "bin-win-cpu-x64\\."@,
            ],
            Accel::Vulkan => seq!["bin-win-vulkan-x64\\."@, "bin-win-cpu-x64\\."@],
            _ => seq!["bin-win-cpu-x64\\."@],
        },
        Os::Other => Seq::empty(),
    }
}

fn candidate_patterns_exec(os: Os, arch: Arch, accel: Accel) -> (r: Vec<&'static str>)
    ensures
        r@.len() == candidate_patterns(os, arch, accel).len(),
        forall|i: int| 0 <= i < r@.len() ==> (#[trigger] r@[i])@ == candidate_patterns(os, arch, accel)[i],
{
    match os {
        Os::Macos => match arch {
            Arch::Arm64 => vec!["bin-macos-arm64\\."],
            _ => vec!["bin-macos-x64\\.", "bin-macos-arm64\\."],
        },
        Os::Linux => {
            let base = match arch {
                Arch::Arm64 => "bin-ubuntu-arm64\\.",
                _ => "bin-ubuntu-x64\\.",
            };
            if arch == Arch::X64 && (accel == Accel::Vulkan || accel == Accel::Cuda) {
                vec!["bin-ubuntu-vulkan-x64\\.", base]
            } else {
                vec![base]
            }
        },
        Os::Windows => match accel {
            Accel::Cuda => vec![
                "bin-win-cuda-13[.-]",
                "bin-win-cuda-12[.-]",
                "bin-win-cuda-[0-9]+[.-]",
                "bin-win-vulkan-x64\\.",
                "bin-win-cpu-x64\\.",
            ],
            Accel::Vulkan => vec!["bin-win-vulkan-x64\\.", "bin-win-cpu-x64\\."],
            _ => vec!["bin-win-cpu-x64\\."],
        },
        Os::Other => Vec::new(),
    }
}

/// A name a pattern picks: not the separate `cudart-*` runtime archive,
/// and matched by the (valid) pattern.
pub open spec fn picks(pattern: Seq<char>, name: Seq<char>) -> bool {
    !starts_with(name, "cudart-"@) && regex_valid(pattern) && regex_match(pattern, name)
}

/// The first name from index `i` on that `pattern` picks.
pub open spec fn first_picked(pattern: Seq<char>, names: Seq<Seq<char>>, i: int) -> Option<int>
    decreases names.len() - i,
{
    if i < 0 || i >= names.len() {
        None
    } else if picks(pattern, names[i]) {
        Some(i)
    } else {
        first_picked(pattern, names, i + 1)
    }
}

/// The asset chosen by the patterns from index `j` on: the first pattern
/// that picks some name decides, and picks its first such name.
pub open spec fn chosen(pats: Seq<Seq<char>>, names: Seq<Seq<char>>, j: int) -> Option<int>
    decreases pats.len() - j,
{
    if j < 0 || j >= pats.len() {
        None
    } else {
        match first_picked(pats[j], names, 0) {
            Some(i) => Some(i),
            None => chosen(pats, names, j + 1),
        }
    }
}

pub open spec fn names_view(names: Seq<String>) -> Seq<Seq<char>> {
    names.map_values(|s: String| s@)
}

/// What the regex crate says of a candidate pattern against each name:
/// nothing when it refuses the pattern, else whether it matches, name by
/// name.
pub open spec fn match_row(pattern: Seq<char>, names: Seq<Seq<char>>) -> Option<Seq<bool>> {
    if regex_valid(pattern) {
        Some(Seq::new(names.len(), |i: int| regex_match(pattern, names[i])))
    } else {
        None
    }
}

/// The match table of the candidate patterns, pattern by pattern.
pub open spec fn match_table(pats: Seq<Seq<char>>, names: Seq<Seq<char>>) -> Seq<Option<Seq<bool>>> {
    Seq::new(pats.len(), |j: int| match_row(pats[j], names))
}

/// Whether a row of match results picks name `i`: the name is not the
/// `cudart-*` runtime archive and the row says it matched.
pub open spec fn row_picks(row: Option<Seq<bool>>, names: Seq<Seq<char>>, i: int) -> bool {
    match row {
        Some(ms) => !starts_with(names[i], "cudart-"@) && 0 <= i < ms.len() && ms[i],
        None => false,
    }
}

/// The first name from `i` on that a row picks.
pub open spec fn first_in_row(row: Option<Seq<bool>>, names: Seq<Seq<char>>, i: int) -> Option<int>
    decreases names.len() - i,
{
    if i < 0 || i >= names.len() {
        None
    } else if row_picks(row, names, i) {
        Some(i)
    } else {
        first_in_row(row, names, i + 1)
    }
}

/// The asset chosen by a match table from row `j` on: the first row that
/// picks some name decides, and picks its first such name.
pub open spec fn chosen_in(table: Seq<Option<Seq<bool>>>, names: Seq<Seq<char>>, j: int) -> Option<int>
    decreases table.len() - j,
{
    if j < 0 || j >= table.len() {
        None
    } else {
        match first_in_row(table[j], names, 0) {
            Some(i) => Some(i),
            None => chosen_in(table, names, j + 1),
        }
    }
}

proof fn lemma_row_agrees(pattern: Seq<char>, names: Seq<Seq<char>>, i: int)
    ensures
        first_in_row(match_row(pattern, names), names, i) == first_picked(pattern, names, i),
    decreases names.len() - i,
{
    if 0 <= i < names.len() {
        lemma_row_agrees(pattern, names, i + 1);
    }
}

proof fn lemma_table_agrees(pats: Seq<Seq<char>>, names: Seq<Seq<char>>, j: int)
    ensures
        chosen_in(match_table(pats, names), names, j) == chosen(pats, names, j),
    decreases pats.len() - j,
{
    if 0 <= j < pats.len() {
        lemma_row_agrees(pats[j], names, 0);
        lemma_table_agrees(pats, names, j + 1);
    }
}

pub open spec fn table_view(t: Seq<Option<Vec<bool>>>) -> Seq<Option<Seq<bool>>> {
    t.map_values(|r: Option<Vec<bool>>| match r {
        Some(v) => Some(v@),
        None => None,
    })
}

/// The asset a table of match results chooses (see [`chosen_in`]): row
/// `j` holds, for the `j`-th candidate pattern, nothing when the pattern
/// is refused, else whether it matched each name.
pub fn pick_from_matches<'a>(names: &'a Vec<String>, table: &Vec<Option<Vec<bool>>>) -> (r: Option<&'a str>)
    ensures
        match chosen_in(table_view(table@), names_view(names@), 0) {
            Some(i) => r matches Some(s) && 0 <= i < names@.len() && s@ == names@[i]@,
            None => r is None,
        },
{
    let ghost tv = table_view(table@);
    let ghost nv = names_view(names@);
    let cudart = chars_of("cudart-");
    let mut j: usize = 0;
    while j < table.len()
        invariant
            j <= table@.len(),
            tv == table_view(table@),
            nv == names_view(names@),
            cudart@ == "cudart-"@,
            chosen_in(tv, nv, 0) == chosen_in(tv, nv, j as int),
        decreases table.len() - j,
    {
        match &table[j] {
            Some(row) => {
                assert(tv[j as int] == Some(row@));
                let mut i: usize = 0;
                while i < names.len()
                    invariant
                        i <= names@.len(),
                        j < table@.len(),
                        tv == table_view(table@),
                        tv[j as int] == Some(row@),
                        nv == names_view(names@),
                        cudart@ == "cudart-"@,
                        first_in_row(tv[j as int], nv, 0) == first_in_row(tv[j as int], nv, i as int),
                        chosen_in(tv, nv, 0) == chosen_in(tv, nv, j as int),
                    decreases names.len() - i,
                {
                    let n = names[i].as_str();
                    assert(nv[i as int] == n@);
                    let nc = chars_of(n);
                    if !starts_with_exec(&nc, &cudart) && i < row.len() && row[i] {
                        assert(row_picks(tv[j as int], nv, i as int));
                        assert(first_in_row(tv[j as int], nv, i as int) == Some(i as int));
                        return Some(n);
                    }
                    assert(!row_picks(tv[j as int], nv, i as int));
                    i += 1;
                }
            },
            None => {
                assert(tv[j as int] is None);
                assert(first_in_row(tv[j as int], nv, 0) is None) by {
                    lemma_no_pick_none(nv, 0);
                }
            },
        }
        j += 1;
    }
    None
}

proof fn lemma_no_pick_none(names: Seq<Seq<char>>, i: int)
    ensures
        first_in_row(None, names, i) is None,
    decreases names.len() - i,
{
    if 0 <= i < names.len() {
        lemma_no_pick_none(names, i + 1);
    }
}

/// The match results of `pattern` against each name.
fn match_row_exec(pattern: &str, names: &Vec<String>) -> (r: Option<Vec<bool>>)
    ensures
        match r {
            Some(v) => match_row(pattern@, names_view(names@)) == Some(v@),
            None => match_row(pattern@, names_view(names@)) is None,
        },
{
    let p = match Pattern::new(pattern) {
        Some(p) => p,
        None => return None,
    };
    let ghost nv = names_view(names@);
    let mut v: Vec<bool> = Vec::new();
    let mut i: usize = 0;
    while i < names.len()
        invariant
            i <= names@.len(),
            nv == names_view(names@),
            p.source() == pattern@,
            regex_valid(pattern@),
            v@ =~= Seq::new(i as nat, |k: int| regex_match(pattern@, nv[k])),
        decreases names.len() - i,
    {
        assert(nv[i as int] == names@[i as int]@);
        v.push(p.is_match(names[i].as_str()));
        i += 1;
    }
    assert(v@ =~= Seq::new(nv.len(), |k: int| regex_match(pattern@, nv[k])));
    Some(v)
}

/// Pick the server archive asset name from a release's asset list.
/// Skips the separate `cudart-*` runtime archive (handled separately).
pub fn pick_asset(names: &Vec<String>, os: Os, arch: Arch, accel: Accel) -> (r: Option<&str>)
    ensures
        match chosen(candidate_patterns(os, arch, accel), names_view(names@), 0) {
            Some(i) => r matches Some(s) && s@ == names@[i]@,
            None => r is None,
        },
{
    let pats = candidate_patterns_exec(os, arch, accel);
    let ghost ps = candidate_patterns(os, arch, accel);
    let ghost nv = names_view(names@);
    let mut table: Vec<Option<Vec<bool>>> = Vec::new();
    let mut j: usize = 0;
    while j < pats.len()
        invariant
            j <= pats@.len(),
            pats@.len() == ps.len(),
            forall|i: int| 0 <= i < pats@.len() ==> (#[trigger] pats@[i])@ == ps[i],
            nv == names_view(names@),
            table_view(table@) =~= match_table(ps, nv).take(j as int),
        decreases pats.len() - j,
    {
        let row = match_row_exec(pats[j], names);
        let ghost before = table_view(table@);
        table.push(row);
        assert(table_view(table@) =~= before.push(match_row(ps[j as int], nv)));
        assert(match_table(ps, nv).take(j + 1) =~= match_table(ps, nv).take(j as int).push(match_table(ps, nv)[j as int]));
        j += 1;
    }
    assert(match_table(ps, nv).take(j as int) =~= match_table(ps, nv));
    proof {
        lemma_table_agrees(ps, nv, 0);
    }
    pick_from_matches(names, &table)
}

pub const CUDA_VERSION_PATTERN: &'static str = "bin-win-cuda-([0-9.]+)-";

/// The CUDA runtime archive for a server asset: the first `cudart-*` name
/// that holds `cuda-<version>-`, the version being read from the server
/// asset's name.
pub open spec fn cudart_for(server_asset: Seq<char>, names: Seq<Seq<char>>) -> Option<int> {
    if !regex_valid(CUDA_VERSION_PATTERN@) {
        None
    } else {
        match regex_group1(CUDA_VERSION_PATTERN@, server_asset) {
            Some(ver) => first_runtime(names, "cuda-"@ + ver + "-"@, 0),
            None => None,
        }
    }
}

pub open spec fn first_runtime(names: Seq<Seq<char>>, tag: Seq<char>, i: int) -> Option<int>
    decreases names.len() - i,
{
    if i < 0 || i >= names.len() {
        None
    } else if starts_with(names[i], "cudart-"@) && contains(names[i], tag) {
        Some(i)
    } else {
        first_runtime(names, tag, i + 1)
    }
}

/// The CUDA runtime archive for a CUDA version read off the server asset:
/// the first `cudart-*` name that holds `cuda-<version>-`.
pub fn runtime_for_version<'a>(version: &str, names: &'a Vec<String>) -> (r: Option<&'a str>)
    ensures
        match first_runtime(names_view(names@), "cuda-"@ + version@ + "-"@, 0) {
            Some(i) => r matches Some(s) && 0 <= i < names@.len() && s@ == names@[i]@,
            None => r is None,
        },
{
    let mut tag = chars_of("cuda-");
    push_str(&mut tag, version);
    push_str(&mut tag, "-");
    assert(tag@ =~= "cuda-"@ + version@ + "-"@);
    let cudart = chars_of("cudart-");
    let ghost nv = names_view(names@);
    let mut i: usize = 0;
    while i < names.len()
        invariant
            i <= names@.len(),
            nv == names_view(names@),
            cudart@ == "cudart-"@,
            tag@ == "cuda-"@ + version@ + "-"@,
            first_runtime(nv, tag@, 0) == first_runtime(nv, tag@, i as int),
        decreases names.len() - i,
    {
        let n = names[i].as_str();
        assert(nv[i as int] == n@);
        let nc = chars_of(n);
        if starts_with_exec(&nc, &cudart) && contains_exec(&nc, &tag) {
            assert(first_runtime(nv, tag@, i as int) == Some(i as int));
            return Some(n);
        }
        i += 1;
    }
    None
}

/// For a chosen Windows CUDA server asset, the matching CUDA runtime archive
/// (`cudart-llama-bin-win-cuda-<ver>-x64.zip`) that must be extracted alongside it.
pub fn matching_cudart<'a>(server_asset: &str, names: &'a Vec<String>) -> (r: Option<&'a str>)
    ensures
        match cudart_for(server_asset@, names_view(names@)) {
            Some(i) => r matches Some(s) && 0 <= i < names@.len() && s@ == names@[i]@,
            None => r is None,
        },
{
    let p = match Pattern::new(CUDA_VERSION_PATTERN) {
        Some(p) => p,
        None => return None,
    };
    match p.group1(server_asset) {
        Some(v) => runtime_for_version(v.as_str(), names),
        None => None,
    }
}

/// The server executable's file name on a platform.
pub fn server_binary_name(os: Os) -> (r: &'static str)
    ensures
        r@ == (if os == Os::Windows { "llama-server.exe"@ } else { "llama-server"@ }),
{
    if os == Os::Windows {
        "llama-server.exe"
    } else {
        "llama-server"
    }
}

/// Where auto-downloaded servers live: `<cache>/llama`.
pub fn install_root(cache_dir: &str) -> (r: String)
    ensures
        r@ == join_path(cache_dir@, "llama"@),
{
    crate::config::join_path_exec(cache_dir, "llama")
}

/// The kinds of archive a release ships.
#[derive(Clone, Copy, Debug, PartialEq, Eq, Structural)]
pub enum ArchiveKind {
    TarGz,
    Zip,
}

/// The archive kind named by a file name's suffix.
pub fn archive_kind(name: &str) -> (r: Option<ArchiveKind>)
    ensures
        r == (if ends_with(name@, ".tar.gz"@) || ends_with(name@, ".tgz"@) {
            Some(ArchiveKind::TarGz)
        } else if ends_with(name@, ".zip"@) {
            Some(ArchiveKind::Zip)
        } else {
            None
        }),
{
    let n = chars_of(name);
    if ends_with_exec(&n, &chars_of(".tar.gz")) || ends_with_exec(&n, &chars_of(".tgz")) {
        Some(ArchiveKind::TarGz)
    } else if ends_with_exec(&n, &chars_of(".zip")) {
        Some(ArchiveKind::Zip)
    } else {
        None
    }
}

/// What to fetch for the host: the server archive and, for a Windows CUDA
/// build, its runtime archive.
pub struct InstallPlan {
    pub server_asset: String,
    pub cudart: Option<String>,
}

/// Why no prebuilt server can be chosen.
#[derive(Debug, PartialEq, Eq, Structural)]
pub enum InstallError {
    /// No prebuilt exists for the platform or architecture.
    Unsupported,
    /// The release has no asset for the host.
    NoAsset,
}

/// The assets to fetch for a host from a release's asset names.
pub fn install_plan(names: &Vec<String>, os: Os, arch: Arch, accel: Accel) -> (r: Result<InstallPlan, InstallError>)
    ensures
        (os == Os::Other || arch == Arch::Other) ==> r == Err::<InstallPlan, InstallError>(InstallError::Unsupported),
        !(os == Os::Other || arch == Arch::Other) ==> match chosen(candidate_patterns(os, arch, accel), names_view(names@), 0) {
            None => r == Err::<InstallPlan, InstallError>(InstallError::NoAsset),
            Some(i) => r matches Ok(plan) && plan.server_asset@ == names@[i]@ && (if os == Os::Windows && accel
                == Accel::Cuda {
                match cudart_for(names@[i]@, names_view(names@)) {
                    Some(k) => plan.cudart matches Some(c) && c@ == names@[k]@,
                    None => plan.cudart is None,
                }
            } else {
                plan.cudart is None
            }),
        },
{
    if os == Os::Other || arch == Arch::Other {
        return Err(InstallError::Unsupported);
    }
    let server = match pick_asset(names, os, arch, accel) {
        Some(s) => s,
        None => return Err(InstallError::NoAsset),
    };
    let cudart = if os == Os::Windows && accel == Accel::Cuda {
        match matching_cudart(server, names) {
            Some(c) => Some(String::from_str(c)),
            None => None,
        }
    } else {
        None
    };
    Ok(InstallPlan { server_asset: String::from_str(server), cudart })
}

impl InstallError {
    /// The message for the error, given the platform and architecture names
    /// (`std::env::consts`). For a missing asset, the front end appends the
    /// release tag, the host and the asset list.
    pub fn message(&self, os_name: &str, arch_name: &str) -> (r: String)
        ensures
            *self == InstallError::Unsupported ==> r@ == "no prebuilt llama-server for "@ + os_name@ + "/"@
                + arch_name@ + " — install it manually (see `localcode doctor`)"@,
            *self == InstallError::NoAsset ==> r@ == "no matching llama-server asset in release"@,
    {
        match self {
            InstallError::Unsupported => {
                let mut t = chars_of("no prebuilt llama-server for ");
                push_str(&mut t, os_name);
                push_str(&mut t, "/");
                push_str(&mut t, arch_name);
                push_str(&mut t, " — install it manually (see `localcode doctor`)");
                string_of(&t)
            },
            InstallError::NoAsset => String::from_str("no matching llama-server asset in release"),
        }
    }
}

/// Law: on Linux x64 with a Vulkan or CUDA accelerator, a release that
/// holds a (non-runtime) name matching the Vulkan build's pattern gets the
/// first such name: the Vulkan build is preferred to the CPU one.
pub proof fn law_linux_gpu_prefers_vulkan(accel: Accel, names: Seq<Seq<char>>)
    requires
        accel == Accel::Vulkan || accel == Accel::Cuda,
        first_picked("bin-ubuntu-vulkan-x64\\."@, names, 0) is Some,
    ensures
        chosen(candidate_patterns(Os::Linux, Arch::X64, accel), names, 0) == first_picked(
            "bin-ubuntu-vulkan-x64\\."@,
            names,
            0,
        ),
{
}

} // verus!
