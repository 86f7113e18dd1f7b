//! Treat a list of file arguments, or standard input when there are none, as one
//! concatenated stream.
//!
//! The library decides: which argument names standard input, how open failures
//! are gathered into one error, and which handle a chained read draws from next.
//! Opening files and reading bytes is left to the caller, through the `open`
//! function handed to [`resolve`] and the reads reported to [`ChainCursor`].

mod attempt;
mod chain;
mod error;
mod resolve;

pub use attempt::{
    attempt_map, failed, gathered, lemma_failed_iff_some_err, lemma_no_failure_keeps_all, succeeded,
};
pub use chain::{
    drawn, joined_parts, lemma_drawn_start, lemma_read_extends_drawn, stepped, ChainCursor,
};
pub use error::{is_message_of, joined, message_text, FailReadFileError, InputError};
pub use resolve::{
    attempt_ok, can_open, failing_paths, from_arg, is_sentinel, is_stdin_arg,
    lemma_failures_follow_arguments, lemma_handles_follow_arguments, opened_as, resolve, resolved_from,
    Resolved,
};
