//! Why running an action's program failed.
use vstd::prelude::*;

use crate::layout::io_error_text;

verus! {

/// Running an action's program failed: it could not be started, or waiting
/// for it to exit failed. `kind` is the action's kind label; `source` is
/// the operating system's error.
#[derive(Debug)]
pub enum RunError {
    Spawn { kind: &'static str, source: std::io::Error },
    Wait { kind: &'static str, source: std::io::Error },
}

impl RunError {
    /// The part of the message that the library writes; the operating
    /// system's description of the cause follows it.
    pub open spec fn message_head(self) -> Seq<char> {
        match self {
            RunError::Spawn { kind, .. } => "failed to spawn "@ + kind@ + ": "@,
            RunError::Wait { kind, .. } => "failed waiting for "@ + kind@ + ": "@,
        }
    }

    /// The error's message: `failed to spawn <kind>: <cause>` or `failed
    /// waiting for <kind>: <cause>`.
    pub fn message(&self) -> (r: String)
        ensures
            self.message_head().is_prefix_of(r@),
    {
        let mut s = String::new();
        let source = match self {
            RunError::Spawn { kind, source } => {
                s.append("failed to spawn ");
                s.append(kind);
                source
            },
            RunError::Wait { kind, source } => {
                s.append("failed waiting for ");
                s.append(kind);
                source
            },
        };
        s.append(": ");
        let ghost head = s@;
        s.append(io_error_text(source).as_str());
        assert(s@.subrange(0, head.len() as int) =~= head);
        s
    }
}

} // verus!
