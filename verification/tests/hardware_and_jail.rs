//! Workspace path-jail invariants.

use localcode::paths::jail;
use std::path::Path;

#[test]
fn escaping_paths_are_rejected() {
    let ws = "/home/u/project";
    assert!(jail(ws, "../secret").is_err());
    assert!(jail(ws, "/etc/passwd").is_err());
    assert!(jail(ws, "src/../../etc/shadow").is_err());
}

#[test]
fn workspace_paths_are_allowed() {
    let ws = "/home/u/project";
    let p = jail(ws, "src/main.rs").unwrap();
    assert!(Path::new(&p).starts_with(ws));
    let nested = jail(ws, "a/b/../c.txt").unwrap();
    assert_eq!(Path::new(&nested), Path::new("/home/u/project/a/c.txt"));
}

#[test]
fn jail_normalizes_dots_and_slashes() {
    let ws = "/home/u/project/";
    assert_eq!(jail(ws, "./a//b/./c").unwrap(), "/home/u/project/a/b/c");
    assert_eq!(jail(ws, ".").unwrap(), "/home/u/project");
    assert_eq!(jail(ws, "/home/u/project/x/../y").unwrap(), "/home/u/project/y");
}

#[test]
fn escape_error_names_path_and_workspace() {
    let e = jail("/w", "../x").unwrap_err();
    assert_eq!(e.message(), "path '../x' escapes the workspace (/w)");
}

#[test]
fn parent_of_root_stays_at_root() {
    // `..` above the root is dropped, as `PathBuf::pop` does.
    assert_eq!(jail("/", "../../etc").unwrap(), "/etc");
}

use localcode::hardware::{available_ram, HwReport};

fn report(total_gb: u64) -> HwReport {
    let gb = 1024u64 * 1024 * 1024;
    HwReport {
        total_ram: total_gb * gb,
        avail_ram: total_gb * gb / 2,
        cpus: 10,
        os: "test".to_string(),
        arch: "test".to_string(),
        free_disk: 20 * gb,
    }
}

#[test]
fn budget_is_conservative_and_bounded() {
    let hw = report(16);
    let b = hw.memory_budget();
    assert!(b > 0 && b < hw.total_ram, "budget must be (0, total)");
    let gb = b as f64 / (1024.0 * 1024.0 * 1024.0);
    // 16 * 0.65 - 3 = ~7.4 GB
    assert!(gb > 6.0 && gb < 9.0, "budget {gb} GB out of expected range");
}

#[test]
fn tiny_ram_budget_saturates_to_zero() {
    // 2 GB * 0.65 = 1.3 GB, minus a 3 GB OS reserve → saturating_sub → 0 (no underflow).
    assert_eq!(report(2).memory_budget(), 0);
}

#[test]
fn budget_is_sixty_five_percent_less_reserve() {
    // 20 GiB * 13 / 20 = 13 GiB, less 3 GiB.
    let gb = 1024u64 * 1024 * 1024;
    assert_eq!(report(20).memory_budget(), 10 * gb);
    assert_eq!(report(0).memory_budget(), 0);
    // Odd byte counts round down.
    let hw = HwReport { total_ram: 21, avail_ram: 0, cpus: 1, os: String::new(), arch: String::new(), free_disk: 0 };
    assert_eq!(hw.memory_budget(), 0);
    let big = HwReport { total_ram: 100 * gb + 7, avail_ram: 0, cpus: 1, os: String::new(), arch: String::new(), free_disk: 0 };
    assert_eq!(big.memory_budget(), (100 * gb + 7) * 13 / 20 - 3 * gb);
}

#[test]
fn available_ram_falls_back_to_total_less_used() {
    assert_eq!(available_ram(100, 40, 70), 40);
    assert_eq!(available_ram(100, 0, 70), 30);
    assert_eq!(available_ram(100, 0, 170), 0);
}
