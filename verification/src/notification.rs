//! User notifications.
use vstd::prelude::*;

verus! {

/// The line a notification is reported with.
pub open spec fn spec_notification_text(title: Seq<char>, body: Seq<char>) -> Seq<char> {
    "[notification] "@ + title + ": "@ + body
}

/// The line reporting a notification with this title and body.
pub fn notification_text(title: &str, body: &str) -> (s: String)
    ensures
        s@ == spec_notification_text(title@, body@),
{
    let mut s = String::from_str("[notification] ");
    s.append(title);
    s.append(": ");
    s.append(body);
    s
}

} // verus!
