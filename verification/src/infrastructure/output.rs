//! Where emitted output lines go.
use vstd::prelude::*;

use crate::infrastructure::audio_player::string_views;

verus! {

/// Why writing output failed.
#[derive(Debug, Clone, PartialEq, Eq)]
pub struct OutputError {
    pub message: String,
}

/// A destination for output lines (standard output, a file, or memory).
/// Implementations may write to the outside world, so the trait itself
/// promises nothing; the sinks of this crate state what they do.
pub trait OutputSink {
    /// Writes `line` as one line.
    fn emit(&mut self, line: &str) -> Result<(), OutputError>;

    /// Pushes buffered lines to their destination.
    fn flush(&mut self) -> Result<(), OutputError>;
}

/// A sink that keeps the lines in memory.
#[derive(Debug, Clone, Default)]
pub struct BufferedSink {
    pub lines: Vec<String>,
}

impl BufferedSink {
    /// An empty sink.
    pub fn new() -> (r: BufferedSink)
        ensures
            r.lines@.len() == 0,
    {
        BufferedSink { lines: Vec::new() }
    }
}

impl OutputSink for BufferedSink {
    /// Keeps the line; never fails.
    fn emit(&mut self, line: &str) -> (r: Result<(), OutputError>)
        ensures
            r is Ok,
            string_views(final(self).lines@) == string_views(old(self).lines@).push(line@),
    {
        let ghost before = self.lines@;
        self.lines.push(line.to_owned());
        assert(string_views(self.lines@) =~= string_views(before).push(line@));
        Ok(())
    }

    /// Nothing to push; never fails.
    fn flush(&mut self) -> (r: Result<(), OutputError>)
        ensures
            r is Ok,
            final(self).lines == old(self).lines,
    {
        Ok(())
    }
}

} // verus!
