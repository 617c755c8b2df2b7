//! Column markers of the window inspection report.
use vstd::prelude::*;
use crate::window_rules::DWM_CLOAKED_SHELL;

verus! {

/// Cloaked by its application.
pub const DWM_CLOAKED_APP: u32 = 1;

/// Cloaked because its owner is.
pub const DWM_CLOAKED_INHERITED: u32 = 4;

/// A flag column: `*` when set, a blank otherwise.
pub fn pretty_bool(value: bool) -> (r: String)
    ensures
        r@ == (if value {
            "*"@
        } else {
            " "@
        }),
{
    if value {
        String::from_str("*")
    } else {
        String::from_str(" ")
    }
}

/// The cloak column: blank when not cloaked, `S`, `A` or `I` for the shell,
/// the application or the owner, `?` for any other value.
pub fn pretty_cloak(value: u32) -> (r: &'static str)
    ensures
        r@ == (if value == 0 {
            " "@
        } else if value == DWM_CLOAKED_SHELL {
            "S"@
        } else if value == DWM_CLOAKED_APP {
            "A"@
        } else if value == DWM_CLOAKED_INHERITED {
            "I"@
        } else {
            "?"@
        }),
{
    if value == 0 {
        " "
    } else if value == DWM_CLOAKED_SHELL {
        "S"
    } else if value == DWM_CLOAKED_APP {
        "A"
    } else if value == DWM_CLOAKED_INHERITED {
        "I"
    } else {
        "?"
    }
}

} // verus!
