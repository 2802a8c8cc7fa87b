//! Desktop notifications, shown through AppleScript.

use vstd::prelude::*;
use vstd::string::*;

use crate::text::{applescript_escaped, push_applescript_escaped};

verus! {

/// The AppleScript that shows a notification with the given title and
/// message, both escaped.
pub open spec fn notification_script_text(title: Seq<char>, message: Seq<char>) -> Seq<char> {
    "display notification \""@ + applescript_escaped(message) + "\" with title \""@
        + applescript_escaped(title) + "\""@
}

/// Builds the AppleScript that shows a notification.
pub fn notification_script(title: &str, message: &str) -> (r: String)
    ensures
        r@ == notification_script_text(title@, message@),
{
    let mut r = String::from_str("display notification \"");
    push_applescript_escaped(&mut r, message);
    r.append("\" with title \"");
    push_applescript_escaped(&mut r, title);
    r.append("\"");
    r
}

} // verus!
