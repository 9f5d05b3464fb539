//! Arguments of the read_file tool. The filesystem access itself is
//! the caller's; the library parses the arguments and guards the path.

use vstd::prelude::*;

verus! {

/// Arguments of the read_file tool call.
#[derive(Debug, Clone)]
pub struct Args {
    pub path: String,
}

} // verus!
