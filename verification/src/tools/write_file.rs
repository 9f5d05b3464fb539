//! Arguments of the write_file tool, and the summary line reported
//! after a successful write.

use vstd::prelude::*;
use crate::text::{dec_rep, u64_to_string};

verus! {

/// Arguments of the write_file tool call.
#[derive(Debug, Clone)]
pub struct Args {
    pub path: String,
    pub content: String,
}

/// The summary reported after writing `byte_len` bytes to `path`.
pub fn write_summary(path: &str, byte_len: u64) -> (r: String)
    ensures
        r@ == "Wrote "@ + path@ + " ("@ + dec_rep(byte_len as nat) + " bytes)"@,
{
    let mut s = String::from_str("Wrote ");
    s.append(path);
    s.append(" (");
    s.append(u64_to_string(byte_len).as_str());
    s.append(" bytes)");
    s
}

} // verus!
