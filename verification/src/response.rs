//! Response accumulator: the demultiplexed standard-output and
//! standard-error byte streams of one request, owned by that request's
//! caller and grown as records arrive.

use vstd::prelude::*;

verus! {

/// Output of one request: what arrived on the stdout channel and what
/// arrived on the stderr channel.
#[derive(Debug, Clone)]
pub struct Response {
    pub stdout: Vec<u8>,
    pub stderr: Vec<u8>,
}

impl Response {
    /// A fresh, empty accumulator.
    pub fn new() -> (r: Response)
        ensures
            r.stdout@ == Seq::<u8>::empty(),
            r.stderr@ == Seq::<u8>::empty(),
    {
        Response { stdout: Vec::new(), stderr: Vec::new() }
    }
}

impl Default for Response {
    fn default() -> (r: Response)
        ensures
            r.stdout@ == Seq::<u8>::empty(),
            r.stderr@ == Seq::<u8>::empty(),
    {
        Response::new()
    }
}

} // verus!
