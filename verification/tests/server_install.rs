use localcode::server_install::{
    arch_from_name, archive_kind, host_accel, install_plan, matching_cudart, os_from_name, pick_asset, pick_from_matches,
    runtime_for_version,
    server_binary_name, Accel, ArchiveKind, Arch, InstallError, Os,
};

/// Real asset list from llama.cpp release b9551.
fn b9551() -> Vec<String> {
    [
        "llama-b9551-bin-macos-arm64.tar.gz",
        "llama-b9551-bin-macos-x64.tar.gz",
        "llama-b9551-bin-ubuntu-x64.tar.gz",
        "llama-b9551-bin-ubuntu-vulkan-x64.tar.gz",
        "llama-b9551-bin-ubuntu-arm64.tar.gz",
        "llama-b9551-bin-ubuntu-rocm-7.2-x64.tar.gz",
        "llama-b9551-bin-win-cpu-x64.zip",
        "llama-b9551-bin-win-cuda-12.4-x64.zip",
        "llama-b9551-bin-win-cuda-13.3-x64.zip",
        "llama-b9551-bin-win-vulkan-x64.zip",
        "llama-b9551-bin-win-hip-radeon-x64.zip",
        "cudart-llama-bin-win-cuda-12.4-x64.zip",
    ]
    .iter()
    .map(|s| s.to_string())
    .collect()
}

#[test]
fn picks_macos_arm64() {
    let names = b9551();
    let a = pick_asset(&names, Os::Macos, Arch::Arm64, Accel::Metal);
    assert_eq!(a, Some("llama-b9551-bin-macos-arm64.tar.gz"));
}

#[test]
fn picks_linux_cpu_not_vulkan() {
    let names = b9551();
    let a = pick_asset(&names, Os::Linux, Arch::X64, Accel::Cpu);
    assert_eq!(a, Some("llama-b9551-bin-ubuntu-x64.tar.gz"));
}

#[test]
fn linux_cuda_falls_back_to_vulkan() {
    // No Linux CUDA prebuilt exists → NVIDIA maps to Vulkan.
    let names = b9551();
    let a = pick_asset(&names, Os::Linux, Arch::X64, Accel::Cuda);
    assert_eq!(a, Some("llama-b9551-bin-ubuntu-vulkan-x64.tar.gz"));
}

#[test]
fn picks_newest_windows_cuda_and_skips_cudart() {
    let names = b9551();
    let a = pick_asset(&names, Os::Windows, Arch::X64, Accel::Cuda).unwrap();
    assert_eq!(a, "llama-b9551-bin-win-cuda-13.3-x64.zip");
    assert!(!a.starts_with("cudart-"));
    // CUDA runtime is matched to the chosen server's version.
    let rt = matching_cudart("llama-b9551-bin-win-cuda-12.4-x64.zip", &names);
    assert_eq!(rt, Some("cudart-llama-bin-win-cuda-12.4-x64.zip"));
}

#[test]
fn windows_cpu_default() {
    let names = b9551();
    let a = pick_asset(&names, Os::Windows, Arch::X64, Accel::Cpu);
    assert_eq!(a, Some("llama-b9551-bin-win-cpu-x64.zip"));
}

#[test]
fn arm64_linux_ignores_x64_accel() {
    // arm64 has no accelerated prebuilt → always the plain arm64 asset.
    let names = b9551();
    let a = pick_asset(&names, Os::Linux, Arch::Arm64, Accel::Vulkan);
    assert_eq!(a, Some("llama-b9551-bin-ubuntu-arm64.tar.gz"));
}

#[test]
fn macos_x64_and_unknown_platforms() {
    let names = b9551();
    assert_eq!(pick_asset(&names, Os::Macos, Arch::X64, Accel::Metal), Some("llama-b9551-bin-macos-x64.tar.gz"));
    assert_eq!(pick_asset(&names, Os::Other, Arch::X64, Accel::Cpu), None);
    let only_cudart = vec!["cudart-llama-bin-win-cpu-x64.zip".to_string()];
    assert_eq!(pick_asset(&only_cudart, Os::Windows, Arch::X64, Accel::Cpu), None);
}

#[test]
fn no_runtime_for_a_non_cuda_asset() {
    let names = b9551();
    assert_eq!(matching_cudart("llama-b9551-bin-win-cpu-x64.zip", &names), None);
    assert_eq!(matching_cudart("llama-b9551-bin-win-cuda-13.3-x64.zip", &names), None);
}

#[test]
fn install_plan_for_windows_cuda_brings_its_runtime_when_present() {
    let names = b9551();
    let p = install_plan(&names, Os::Windows, Arch::X64, Accel::Cuda).ok().unwrap();
    assert_eq!(p.server_asset, "llama-b9551-bin-win-cuda-13.3-x64.zip");
    assert_eq!(p.cudart, None);
    let p = install_plan(&names, Os::Linux, Arch::X64, Accel::Cpu).ok().unwrap();
    assert_eq!(p.server_asset, "llama-b9551-bin-ubuntu-x64.tar.gz");
    assert_eq!(p.cudart, None);
    assert!(matches!(install_plan(&names, Os::Other, Arch::X64, Accel::Cpu), Err(InstallError::Unsupported)));
    assert!(matches!(install_plan(&names, Os::Linux, Arch::Other, Accel::Cpu), Err(InstallError::Unsupported)));
    assert!(matches!(install_plan(&Vec::new(), Os::Linux, Arch::X64, Accel::Cpu), Err(InstallError::NoAsset)));
    assert_eq!(
        InstallError::Unsupported.message("plan9", "mips"),
        "no prebuilt llama-server for plan9/mips — install it manually (see `localcode doctor`)"
    );
}

#[test]
fn platform_names_and_accelerator_override() {
    assert_eq!(os_from_name("macos"), Os::Macos);
    assert_eq!(os_from_name("linux"), Os::Linux);
    assert_eq!(os_from_name("windows"), Os::Windows);
    assert_eq!(os_from_name("freebsd"), Os::Other);
    assert_eq!(arch_from_name("x86_64"), Arch::X64);
    assert_eq!(arch_from_name("aarch64"), Arch::Arm64);
    assert_eq!(arch_from_name("arm"), Arch::Arm64);
    assert_eq!(arch_from_name("riscv64"), Arch::Other);
    assert_eq!(host_accel(Os::Linux, Some("CUDA")), Accel::Cuda);
    assert_eq!(host_accel(Os::Linux, Some("Vulkan")), Accel::Vulkan);
    assert_eq!(host_accel(Os::Macos, Some("bogus")), Accel::Metal);
    assert_eq!(host_accel(Os::Windows, None), Accel::Cpu);
    assert_eq!(host_accel(Os::Macos, Some("cpu")), Accel::Cpu);
}

#[test]
fn archives_and_binary_names() {
    assert_eq!(archive_kind("a.tar.gz"), Some(ArchiveKind::TarGz));
    assert_eq!(archive_kind("a.tgz"), Some(ArchiveKind::TarGz));
    assert_eq!(archive_kind("a.zip"), Some(ArchiveKind::Zip));
    assert_eq!(archive_kind("a.7z"), None);
    assert_eq!(server_binary_name(Os::Windows), "llama-server.exe");
    assert_eq!(server_binary_name(Os::Linux), "llama-server");
}

#[test]
fn match_table_decides_the_asset() {
    let names: Vec<String> =
        ["cudart-x-cuda-12.4-x64.zip", "a-cpu.zip", "a-cuda.zip"].iter().map(|s| s.to_string()).collect();
    // The first row that picks anything decides; a refused pattern picks nothing;
    // the runtime archive is never picked.
    let table = vec![None, Some(vec![true, false, false]), Some(vec![false, true, true])];
    assert_eq!(pick_from_matches(&names, &table), Some("a-cpu.zip"));
    let table = vec![Some(vec![false, false, true]), Some(vec![false, true, false])];
    assert_eq!(pick_from_matches(&names, &table), Some("a-cuda.zip"));
    assert_eq!(pick_from_matches(&names, &vec![Some(vec![true])]), None);
    assert_eq!(pick_from_matches(&names, &Vec::new()), None);
}

#[test]
fn runtime_follows_the_version() {
    let names: Vec<String> = ["cudart-llama-bin-win-cuda-12.4-x64.zip", "llama-bin-win-cuda-13.1-x64.zip"]
        .iter()
        .map(|s| s.to_string())
        .collect();
    assert_eq!(runtime_for_version("12.4", &names), Some("cudart-llama-bin-win-cuda-12.4-x64.zip"));
    assert_eq!(runtime_for_version("13.1", &names), None);
}
