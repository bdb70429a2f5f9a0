use modelcheck::package::{
    arch_from_lowercase, arch_from_name, arch_label, asset_targets, binary_candidates, manifest_dir,
    PackArch, PackError,
};

#[test]
fn architecture_names_in_any_case() {
    assert_eq!(arch_from_name("X64"), Ok(PackArch::X64));
    assert_eq!(arch_from_name("x86_64"), Ok(PackArch::X64));
    assert_eq!(arch_from_name("ARM64"), Ok(PackArch::Arm64));
    assert_eq!(arch_from_name("AArch64"), Ok(PackArch::Arm64));
    assert_eq!(arch_from_name("riscv64"), Err(PackError::UnsupportedArchitecture));
    assert_eq!(arch_from_lowercase("X64"), Err(PackError::UnsupportedArchitecture));
}

#[test]
fn manifest_and_labels() {
    assert_eq!(manifest_dir(PackArch::X64), "./build/msix/x64");
    assert_eq!(manifest_dir(PackArch::Arm64), "./build/msix/arm64");
    assert_eq!(arch_label(PackArch::Arm64), "arm64");
    assert_eq!(binary_candidates()[3], "release/modelcheck.exe");
    let t = asset_targets();
    assert_eq!(t.len(), 4);
    assert_eq!((t[3].name, t[3].width, t[3].height), ("Wide310x150.png", 310, 150));
}
