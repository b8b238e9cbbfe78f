//! A small desktop-shell library: a registry of live webview handles keyed by
//! generated string identifiers, together with the pure decision logic behind
//! the shell's command surface (create / navigate / reload / history /
//! fullscreen / destroy).
//!
//! The registry and every command decision are verified; the host GUI toolkit
//! performs the window work outside this crate, keyed by the slots the
//! registry hands out.

use vstd::prelude::*;

mod commands;
mod ident;
mod registry;

pub use registry::Registry;
pub use commands::url_parse_outcome;
pub use commands::not_found_message;
pub use commands::invalid_url_message;
pub use commands::lookup_decision;
pub use commands::navigate_decision;
pub use commands::lookup_webview;
pub use commands::webview_navigate_command;
pub use commands::prepare_webview;
pub use commands::register_webview;
pub use commands::history_back_script;
pub use commands::history_forward_script;
pub use commands::fullscreen_target;
pub use commands::destroy_webview_command;
pub use ident::webview_id_seq;
pub use ident::webview_id_for;
pub use ident::fresh_webview_id;
pub use ident::digit_char;
pub use ident::dec_digits;
pub use ident::int_digits;
pub use ident::u64_to_string;
pub use ident::i64_to_string;

verus! {

/// The greeting returned to the front end for a non-empty name.
pub open spec fn greeting_seq(name: Seq<char>) -> Seq<char> {
    "Hello, "@ + name + "! Greetings from Rust"@
}

/// Build the greeting for `name`: an empty name is rejected, any other name
/// is greeted.
pub fn greet(name: &str) -> (r: Result<String, String>)
    ensures
        name@.len() == 0 ==> (r matches Err(e) && e@ == "Name cannot be empty"@),
        name@.len() > 0 ==> (r matches Ok(g) && g@ == greeting_seq(name@)),
{
    if name.is_empty() {
        Err("Name cannot be empty".to_owned())
    } else {
        let g = String::from_str("Hello, ").concat(name).concat("! Greetings from Rust");
        Ok(g)
    }
}

} // verus!
