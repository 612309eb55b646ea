//! The shape of the messages that cargo prints with `--message-format json`.

use vstd::prelude::*;

verus! {

#[derive(Debug)]
pub struct Profile {
    pub test: bool,
}

#[derive(Debug)]
pub struct Target {
    pub kind: Vec<String>,
}

#[derive(Debug)]
pub struct Artifact {
    pub filenames: Vec<String>,
    pub profile: Profile,
    pub target: Target,
}

#[derive(Debug)]
pub struct Code {
    pub code: Option<String>,
    pub explanation: String,
}

#[derive(Debug)]
pub struct Span {
    pub file_name: String,
    pub label: Option<String>,
    pub line_start: i32,
    pub line_end: i32,
}

#[derive(Debug)]
pub struct Message {
    pub level: String,
    pub message: String,
    pub code: Option<Code>,
    pub spans: Vec<Span>,
}

#[derive(Debug)]
pub struct MessageWrapper {
    pub message: Option<Message>,
}

} // verus!
