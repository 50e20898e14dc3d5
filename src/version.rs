use vstd::prelude::*;

verus! {

/// The version of this library.
pub const VERSION: &'static str = "0.1.0";

/// The compiler version recorded at build time; this build records none.
pub fn rustc_version() -> (r: &'static str)
    ensures
        r@ == "unknown"@,
{
    "unknown"
}

/// "Pup <version> (rust <compiler>; <os> <arch>)".
pub open spec fn build_info_of(os: Seq<char>, arch: Seq<char>) -> Seq<char> {
    "Pup "@ + VERSION@ + " (rust "@ + "unknown"@ + "; "@ + os + " "@ + arch + ")"@
}

/// One line naming the program, its version, the compiler, and the platform.
pub fn build_info(os: &str, arch: &str) -> (r: String)
    ensures
        r@ == build_info_of(os@, arch@),
{
    let mut out = String::from_str("Pup ");
    out.append(VERSION);
    out.append(" (rust ");
    out.append(rustc_version());
    out.append("; ");
    out.append(os);
    out.append(" ");
    out.append(arch);
    out.append(")");
    out
}

} // verus!
