//! The compiler's command-line arguments, as plain values.
use vstd::prelude::*;

verus! {

/// The compiler's arguments: the source file and the `.ll` file to write.
#[derive(Debug)]
pub struct Args {
    pub input: String,
    pub output: String,
}

impl Args {
    /// The arguments, with the output file defaulting to `out.ll`.
    pub fn new(input: String, output: Option<String>) -> (r: Args)
        ensures
            r.input@ == input@,
            r.output@ == match output {
                Some(o) => o@,
                None => "out.ll"@,
            },
    {
        let output = match output {
            Some(o) => o,
            None => String::from_str("out.ll"),
        };
        Args { input, output }
    }
}

} // verus!
