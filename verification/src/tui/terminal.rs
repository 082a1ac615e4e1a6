//! The terminal at the start.

use vstd::prelude::*;

use crate::text;

verus! {

/// The size that was read; a failure is reported, no size is made up.
pub fn initial_terminal_size(read_size: Result<(u16, u16), String>) -> (r: Result<
    (u16, u16),
    String,
>)
    ensures
        match read_size {
            Ok(size) => r == Ok::<(u16, u16), String>(size),
            Err(e) => r matches Err(m) && m@ == "read terminal size: "@ + e@,
        },
{
    match read_size {
        Ok(size) => Ok(size),
        Err(e) => Err(text::concat2("read terminal size: ", e.as_str())),
    }
}

} // verus!
