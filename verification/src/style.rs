//! The terminal escape sequences of the output.

use vstd::prelude::*;

verus! {

pub const RESET: &'static str = "\x1b[0m";

pub const GREEN: &'static str = "\x1b[1;32m";

pub const RED: &'static str = "\x1b[1;31m";

pub const BLUE: &'static str = "\x1b[1;34m";

pub const YELLOW: &'static str = "\x1b[1;33m";

pub const CYAN: &'static str = "\x1b[1;36m";

pub const WHITE: &'static str = "\x1b[1;37m";

} // verus!
