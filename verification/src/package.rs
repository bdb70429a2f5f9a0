//! Decisions of the MSIX packaging tool: the target architecture, where
//! its manifest lives, where the built binary is looked for, and which
//! logo sizes are rendered.
use vstd::prelude::*;
use vstd::string::*;

use crate::text::str_eq;

verus! {

/// The result of `str::to_lowercase` (Unicode lowercase mapping) on `s`.
pub uninterp spec fn lowercase(s: Seq<char>) -> Seq<char>;

/// All characters are ASCII.
pub open spec fn is_ascii_text(s: Seq<char>) -> bool {
    forall|i: int| 0 <= i < s.len() ==> (#[trigger] s[i] as u32) < 128
}

/// ASCII lowercase of one character: `A`..`Z` become `a`..`z`, every
/// other character stays.
pub open spec fn ascii_lower_char(c: char) -> char {
    if 'A' <= c && c <= 'Z' {
        ((c as u32) + 32) as char
    } else {
        c
    }
}

/// ASCII lowercase of a text, character by character.
pub open spec fn ascii_lowercase(s: Seq<char>) -> Seq<char> {
    s.map_values(|c: char| ascii_lower_char(c))
}

/// `str::to_lowercase`: the contract names its result `lowercase(s@)`, and
/// states the mapping on ASCII text, where each of `A`..`Z` becomes the
/// matching one of `a`..`z` and nothing else changes. The Unicode mapping of
/// other characters is not stated.
#[verifier::external_body]
fn to_lowercase(s: &str) -> (r: String)
    ensures
        r@ == lowercase(s@),
        is_ascii_text(s@) ==> r@ == ascii_lowercase(s@),
{
    s.to_lowercase()
}

#[derive(Debug, Clone, Copy, PartialEq, Eq, Structural)]
pub enum PackArch {
    X64,
    Arm64,
}

/// An architecture name the tool does not package for.
#[derive(Debug, Clone, Copy, PartialEq, Eq, Structural)]
pub enum PackError {
    UnsupportedArchitecture,
}

/// Architecture for an already lowercased name.
pub open spec fn arch_of_lower(l: Seq<char>) -> Option<PackArch> {
    if l == "x86_64"@ || l == "x64"@ {
        Some(PackArch::X64)
    } else if l == "aarch64"@ || l == "arm64"@ {
        Some(PackArch::Arm64)
    } else {
        None
    }
}

/// Architecture of an already lowercased name: `x86_64`/`x64` or
/// `aarch64`/`arm64`.
pub fn arch_from_lowercase(lower: &str) -> (r: Result<PackArch, PackError>)
    ensures
        match arch_of_lower(lower@) {
            Some(a) => r == Ok::<PackArch, PackError>(a),
            None => r == Err::<PackArch, PackError>(PackError::UnsupportedArchitecture),
        },
{
    if str_eq(lower, "x86_64") || str_eq(lower, "x64") {
        Ok(PackArch::X64)
    } else if str_eq(lower, "aarch64") || str_eq(lower, "arm64") {
        Ok(PackArch::Arm64)
    } else {
        Err(PackError::UnsupportedArchitecture)
    }
}

/// Architecture named by `arch` in any letter case.
pub fn arch_from_name(arch: &str) -> (r: Result<PackArch, PackError>)
    ensures
        match arch_of_lower(lowercase(arch@)) {
            Some(a) => r == Ok::<PackArch, PackError>(a),
            None => r == Err::<PackArch, PackError>(PackError::UnsupportedArchitecture),
        },
        is_ascii_text(arch@) ==> match arch_of_lower(ascii_lowercase(arch@)) {
            Some(a) => r == Ok::<PackArch, PackError>(a),
            None => r == Err::<PackArch, PackError>(PackError::UnsupportedArchitecture),
        },
{
    let lower = to_lowercase(arch);
    arch_from_lowercase(lower.as_str())
}

/// Directory of the package manifest of an architecture.
pub fn manifest_dir(a: PackArch) -> (r: &'static str)
    ensures
        r@ == match a {
            PackArch::X64 => "./build/msix/x64"@,
            PackArch::Arm64 => "./build/msix/arm64"@,
        },
{
    match a {
        PackArch::X64 => "./build/msix/x64",
        PackArch::Arm64 => "./build/msix/arm64",
    }
}

/// Architecture name in the package.
pub fn arch_label(a: PackArch) -> (r: &'static str)
    ensures
        r@ == match a {
            PackArch::X64 => "x64"@,
            PackArch::Arm64 => "arm64"@,
        },
{
    match a {
        PackArch::X64 => "x64",
        PackArch::Arm64 => "arm64",
    }
}

/// Places (under the target directory) where the built binary is looked
/// for, in order.
pub fn binary_candidates() -> (r: Vec<&'static str>)
    ensures
        r@.len() == 4,
        r@[0]@ == "dx/modelcheck/release/windows/app/modelcheck.exe"@,
        r@[1]@ == "x86_64-pc-windows-msvc/release/modelcheck.exe"@,
        r@[2]@ == "aarch64-pc-windows-msvc/release/modelcheck.exe"@,
        r@[3]@ == "release/modelcheck.exe"@,
{
    vec![
        "dx/modelcheck/release/windows/app/modelcheck.exe",
        "x86_64-pc-windows-msvc/release/modelcheck.exe",
        "aarch64-pc-windows-msvc/release/modelcheck.exe",
        "release/modelcheck.exe",
    ]
}

/// A logo image to render: file name, width, height.
pub struct AssetTarget {
    pub name: &'static str,
    pub width: u32,
    pub height: u32,
}

/// The logo images of the package.
pub fn asset_targets() -> (r: Vec<AssetTarget>)
    ensures
        r@.len() == 4,
        r@[0].name@ == "StoreLogo.png"@ && r@[0].width == 50 && r@[0].height == 50,
        r@[1].name@ == "Square150x150Logo.png"@ && r@[1].width == 150 && r@[1].height == 150,
        r@[2].name@ == "Square44x44Logo.png"@ && r@[2].width == 44 && r@[2].height == 44,
        r@[3].name@ == "Wide310x150.png"@ && r@[3].width == 310 && r@[3].height == 150,
{
    vec![
        AssetTarget { name: "StoreLogo.png", width: 50, height: 50 },
        AssetTarget { name: "Square150x150Logo.png", width: 150, height: 150 },
        AssetTarget { name: "Square44x44Logo.png", width: 44, height: 44 },
        AssetTarget { name: "Wide310x150.png", width: 310, height: 150 },
    ]
}

} // verus!
