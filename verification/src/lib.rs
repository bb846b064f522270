//! Verified core of the Obscura JavaScript runtime bridge.

pub mod interrupt;
pub mod text;
pub mod glob;
pub mod html;
pub mod weburl;
pub mod urlops;
pub mod codec;
pub mod crypto;
pub mod state;
pub mod cdp_watchdog;
pub mod module_loader;
pub mod textmap;
pub mod fetch;
pub mod search;
pub mod cdp;
pub mod dom;

use vstd::prelude::*;

verus! {

/// Accepts engine flags and ignores them: the QuickJS engine has no such
/// flags. Kept so that callers written for the V8 build still link.
pub fn set_v8_flags(flags: &str) {
}

} // verus!
