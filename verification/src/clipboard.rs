//! Where cut and copied text goes.
use std::io;

use vstd::prelude::*;

verus! {

#[verifier::external_type_specification]
#[verifier::external_body]
pub struct ExIoError(io::Error);

/// Clipboard access is abstract so an OS or terminal clipboard can replace the
/// in-memory implementation without changing editing code.
pub trait Clipboard {
    fn read(&mut self) -> io::Result<String>;

    fn write(&mut self, text: &str) -> io::Result<()>;
}

/// A clipboard that keeps its text in memory.
#[derive(Debug)]
pub struct MemoryClipboard {
    contents: String,
}

impl MemoryClipboard {
    pub closed spec fn contents(&self) -> Seq<char> {
        self.contents@
    }
}

impl Default for MemoryClipboard {
    fn default() -> (c: Self)
        ensures
            c.contents() == Seq::<char>::empty(),
    {
        MemoryClipboard { contents: String::new() }
    }
}

impl Clipboard for MemoryClipboard {
    /// Reading always succeeds and gives the last text written (empty at first).
    fn read(&mut self) -> (r: io::Result<String>)
        ensures
            r matches Ok(text) && text@ == old(self).contents(),
            final(self).contents() == old(self).contents(),
    {
        Ok(self.contents.clone())
    }

    /// Writing always succeeds and replaces the text.
    fn write(&mut self, text: &str) -> (r: io::Result<()>)
        ensures
            r is Ok,
            final(self).contents() == text@,
    {
        self.contents = text.to_owned();
        Ok(())
    }
}

} // verus!
