//! The parts of the UI commands that decide rather than talk to the outside:
//! finding the connection a command names, and the short form of a path used
//! in log lines.
use crate::connections::{lookup, Connection, Store};
use crate::error::Error;
use crate::text::{last_segment, last_segment_of, owned, trim_end, trim_end_char};
use vstd::prelude::*;

verus! {

/// The short form of a path: its last segment once trailing slashes are
/// dropped, or "/" when nothing is left.
pub open spec fn short_path(p: Seq<char>) -> Seq<char> {
    let trimmed = trim_end(p, '/');
    if trimmed.len() == 0 {
        "/"@
    } else {
        last_segment(trimmed, '/')
    }
}

/// The log-friendly form of a path: its last segment, or "/" for the root.
pub fn display_path(p: &str) -> (r: String)
    ensures
        r@ == short_path(p@),
{
    let trimmed = trim_end_char(p, '/');
    if trimmed.as_str().unicode_len() == 0 {
        return owned("/");
    }
    last_segment_of(trimmed.as_str(), '/')
}

/// The connection a command names: the stored connection with id `id`, or a
/// not-found error carrying the id.
pub fn find_connection(store: &Store, id: &str) -> (r: Result<Connection, Error>)
    ensures
        match lookup(store.connections(), id@) {
            Some(c) => r == Ok::<Connection, Error>(c),
            None => r matches Err(Error::NotFound(s)) && s@ == id@,
        },
{
    match store.get(id) {
        Some(c) => Ok(c),
        None => Err(Error::NotFound(owned(id))),
    }
}

} // verus!
