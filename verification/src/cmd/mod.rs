//! The rules of the builtin commands: how each reads its arguments and what
//! it decides from what the file system reports.  The commands themselves,
//! which touch the file system and the terminal, are built on these.

use vstd::prelude::*;

pub mod cat;
pub mod cd;
pub mod cp;
pub mod ls;
pub mod mkdir;
pub mod mv;
pub mod pwd;
pub mod rm;

verus! {

/// The status of a command that handled its operands one by one, after
/// `failures` of them have failed: 1 if any did, 0 if none.
pub fn status(failures: usize) -> (code: i32)
    ensures
        code == if failures > 0 {
            1i32
        } else {
            0i32
        },
{
    if failures > 0 {
        1
    } else {
        0
    }
}

} // verus!
