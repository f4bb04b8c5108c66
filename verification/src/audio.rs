//! Messages of the sound-test thread (synthesis and output are the
//! application's business).
use vstd::prelude::*;

verus! {

/// Messages from the audio thread.
#[derive(Debug)]
pub enum AudioMsg {
    Finished,
    Stopped,
    Error(String),
}

} // verus!
