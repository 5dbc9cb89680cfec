//! The virtual machine's command-line arguments, as plain values.
use vstd::prelude::*;

verus! {

/// The machine's arguments: the entry `.ll` file (holding `main`) and the
/// `.ll` files it links against, in order.
#[derive(Debug)]
pub struct Args {
    pub entry: String,
    pub deps: Vec<String>,
}

} // verus!
