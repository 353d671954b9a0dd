//! Terminal colors and the banner.

use vstd::prelude::*;

verus! {

pub const C_RESET: &'static str = "\x1b[0m";

pub const C_DIM: &'static str = "\x1b[2m";

pub const C_BOLD: &'static str = "\x1b[1m";

pub const C_ROSE_B: &'static str = "\x1b[1;35m";

pub const C_GOLD: &'static str = "\x1b[33m";

pub const C_GOLD_B: &'static str = "\x1b[1;33m";

pub const C_SAGE_B: &'static str = "\x1b[1;32m";

pub const C_TEAL: &'static str = "\x1b[36m";

pub const C_GRAY: &'static str = "\x1b[90m";

pub const C_RED: &'static str = "\x1b[31m";

pub const C_YELLOW: &'static str = "\x1b[33m";

pub const LOGO: &'static str = r#"
   ███████╗ ██████╗ ███╗   ███╗   ██████╗ ██████╗  ██████╗
   ██╔════╝██╔═══██╗████╗ ████║   ██╔══██╗██╔══██╗██╔═══██╗
   █████╗  ██║   ██║██╔████╔██║   ██████╔╝██████╔╝██║   ██║
   ██╔══╝  ██║▄▄ ██║██║╚██╔╝██║   ██╔═══╝ ██╔══██╗██║   ██║
   ███████╗╚██████╔╝██║ ╚═╝ ██║   ██║     ██║  ██║╚██████╔╝
   ╚══════╝ ╚══▀▀═╝ ╚═╝     ╚═╝   ╚═╝     ╚═╝  ╚═╝ ╚═════╝"#;

pub const RULE: &'static str = "   ────────────────────────────────────────────────────────────";

/// The line that separates blocks of output.
pub open spec fn rule_line() -> Seq<char> {
    C_GRAY@ + RULE@ + C_RESET@ + "\n"@
}

/// The line that separates blocks of output.
pub fn rule_text() -> (r: String)
    ensures
        r@ == rule_line(),
{
    C_GRAY.to_string().concat(RULE).concat(C_RESET).concat("\n")
}

} // verus!
