//! `mkdir`: its complaints.

use vstd::prelude::*;
use vstd::string::*;

verus! {

/// The complaint of `mkdir` about `count` operands, if it has one: it
/// needs at least one operand.
pub fn complaint(count: usize) -> (message: Option<String>)
    ensures
        count == 0 ==> message is Some && message->Some_0@ == "mkdir: missing operand"@,
        count != 0 ==> message is None,
{
    if count == 0 {
        Some(String::from_str("mkdir: missing operand"))
    } else {
        None
    }
}

/// The complaint that the directory `path` could not be made, for the
/// reason given.
pub fn failure(path: &str, reason: &str) -> (message: String)
    ensures
        message@ == "mkdir: cannot create directory '"@ + path@ + "': "@ + reason@,
{
    let mut message = String::from_str("mkdir: cannot create directory '");
    message.append(path);
    message.append("': ");
    message.append(reason);
    message
}

} // verus!
