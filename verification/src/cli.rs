//! The command-line surface: the root directories whose trees are
//! scanned for images. Parsing the process arguments is the binary's
//! work; the parsed shape lives here.
use vstd::prelude::*;

verus! {

/// The arguments of one run: one or more root directories.
#[derive(Clone, Debug)]
pub struct Args {
    pub directories: Vec<String>,
}

} // verus!
