//! Options for the files that the surrounding program reads and writes.
use vstd::prelude::*;

verus! {

/// Format of serialized data.
#[derive(Debug, Clone, Copy, PartialEq, Eq, Structural)]
pub enum SerChoice {
    JSON,
    YAML,
}

/// How a file is opened.
#[derive(Debug, Clone, Copy, PartialEq, Eq, Structural)]
pub struct FileOptions {
    pub read: bool,
    pub write: bool,
    pub create: bool,
}

impl FileOptions {
    pub fn new(read: bool, write: bool, create: bool) -> (r: Self)
        ensures
            r == (FileOptions { read, write, create }),
    {
        FileOptions { read, write, create }
    }
}

} // verus!
