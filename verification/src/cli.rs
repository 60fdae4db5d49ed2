//! The names of the rendering backends.

use crate::text::str_equals;
use vstd::prelude::*;
use vstd::string::*;

verus! {

/// `name` is the name of a backend.
pub open spec fn is_backend(name: Seq<char>) -> bool {
    name == "egui"@ || name == "webview"@ || name == "tui"@
}

/// What is said of a name that is no backend's.
pub open spec fn unknown_backend(name: Seq<char>) -> Seq<char> {
    "unknown backend '"@ + name + "', expected 'egui', 'webview', or 'tui'"@
}

/// Accepts the name of a backend, and refuses any other name with a message
/// that repeats it.
pub fn parse_backend(s: &str) -> (r: Result<String, String>)
    ensures
        match r {
            Ok(name) => is_backend(s@) && name@ == s@,
            Err(message) => !is_backend(s@) && message@ == unknown_backend(s@),
        },
{
    if str_equals(s, "egui") || str_equals(s, "webview") || str_equals(s, "tui") {
        Ok(s.to_owned())
    } else {
        let mut message = String::new();
        message.append("unknown backend '");
        message.append(s);
        message.append("', expected 'egui', 'webview', or 'tui'");
        Err(message)
    }
}

} // verus!
