//! The text of the delete confirmation.
use vstd::prelude::*;
use crate::session::SessionMeta;
use crate::text::push_str;
use crate::util::{truncate_to_width, truncated};

verus! {

/// `Move session "<title>" (<id>) to ~/<data_dir>/.trash/ ?`, with the
/// title truncated to 50 columns; `data_dir` is the name of the assistant's
/// data directory in the home directory.
pub open spec fn confirm_text(m: SessionMeta, data_dir: Seq<char>) -> Seq<char> {
    "Move session \""@ + truncated(m.title@, 50) + "\" ("@ + m.session_id@
        + ") to ~/"@ + data_dir + "/.trash/ ?"@
}

/// The question that the delete confirmation asks about a session.
pub fn confirm_message(m: &SessionMeta, data_dir: &str) -> (r: String)
    ensures
        r@ == confirm_text(*m, data_dir@),
{
    let mut msg = String::from_str("Move session \"");
    let title = truncate_to_width(m.title.as_str(), 50);
    push_str(&mut msg, title.as_str());
    push_str(&mut msg, "\" (");
    push_str(&mut msg, m.session_id.as_str());
    push_str(&mut msg, ") to ~/");
    push_str(&mut msg, data_dir);
    push_str(&mut msg, "/.trash/ ?");
    msg
}

} // verus!
