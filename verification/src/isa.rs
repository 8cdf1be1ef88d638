//! Target-ISA selection and backend flag decisions: which architectures
//! code generation supports, and which backend settings to enable for a
//! build. Detecting the running machine and driving the backend's builders
//! belong to the embedding program; the decisions live here.

use vstd::prelude::*;

verus! {

/// An instruction-set architecture the code generator supports.
#[derive(Clone, Copy, PartialEq, Eq, Structural, Debug)]
pub enum Isa {
    X86_64,
    Aarch64,
}

/// The backend settings a build enables: the fixed flags, the hardware
/// security instructions on targets that have them, and whether to warn
/// that they were left off.
#[derive(Clone, Copy, PartialEq, Eq, Structural, Debug)]
pub struct IsaPlan {
    pub use_colocated_libcalls: bool,
    pub is_pic: bool,
    pub sign_return_address: bool,
    pub sign_return_address_all: bool,
    pub use_bti: bool,
    pub warn_security_disabled: bool,
}

/// Maps an architecture name, as the platform reports it, to a supported
/// ISA; any other architecture is incompatible with code generation.
pub fn isa_from_arch(arch: &String) -> (r: Option<Isa>)
    ensures
        r == (if arch@ == "x86_64"@ {
            Some(Isa::X86_64)
        } else if arch@ == "aarch64"@ {
            Some(Isa::Aarch64)
        } else {
            None::<Isa>
        }),
{
    let x86 = String::from_str("x86_64");
    if arch.eq(&x86) {
        return Some(Isa::X86_64);
    }
    let arm = String::from_str("aarch64");
    if arch.eq(&arm) {
        return Some(Isa::Aarch64);
    }
    None
}

/// Decides the backend flags for a build: colocated libcalls and
/// position-independent code stay off; on 64-bit Arm with security
/// features requested, return-address signing (for all functions) and
/// branch-target identification are enabled, and without them a warning
/// is due.
pub fn isa_plan(isa: &Isa, gen_security_features: bool) -> (r: IsaPlan)
    ensures
        !r.use_colocated_libcalls,
        !r.is_pic,
        r.sign_return_address == (isa is Aarch64 && gen_security_features),
        r.sign_return_address_all == (isa is Aarch64 && gen_security_features),
        r.use_bti == (isa is Aarch64 && gen_security_features),
        r.warn_security_disabled == (isa is Aarch64 && !gen_security_features),
{
    let secure = matches!(isa, Isa::Aarch64) && gen_security_features;
    IsaPlan {
        use_colocated_libcalls: false,
        is_pic: false,
        sign_return_address: secure,
        sign_return_address_all: secure,
        use_bti: secure,
        warn_security_disabled: matches!(isa, Isa::Aarch64) && !gen_security_features,
    }
}

} // verus!
