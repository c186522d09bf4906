//! The log writer: builds the line for one message and prepends it to the
//! existing file content, so the file stays in newest-first order.

use vstd::prelude::*;
use vstd::string::StringExecFns;

use crate::clock::timestamp_chars;
use crate::text::first_line;
use crate::text::lemma_first_line_of_concat;

verus! {

/// The log line recorded for `msg` at time `timestamp`, without its
/// trailing newline: the timestamp, a separating `": "`, and the message.
pub open spec fn entry_text(timestamp: Seq<char>, msg: Seq<char>) -> Seq<char> {
    timestamp + ": "@ + msg
}

/// Renders one log entry: `"<timestamp>: <msg>\n"`.
pub fn render_entry(timestamp: &str, msg: &str) -> (r: String)
    ensures
        r@ == entry_text(timestamp@, msg@) + "\n"@,
{
    let mut line = String::from_str(timestamp);
    line.append(": ");
    line.append(msg);
    line.append("\n");
    line
}

/// The whole file content after recording `msg` at `timestamp`: the new
/// entry, then the previous content unchanged. The file is rewritten in
/// full on every write; this keeps the newest entry first.
pub fn updated_content(timestamp: &str, msg: &str, old_content: &str) -> (r: String)
    ensures
        r@ == entry_text(timestamp@, msg@) + "\n"@ + old_content@,
{
    let entry = render_entry(timestamp, msg);
    entry.concat(old_content)
}

/// Round trip: after recording `msg` at `timestamp` the first line of the
/// file reads back exactly `"<timestamp>: <msg>"`, whenever neither the
/// timestamp nor the message holds a newline of its own.
pub proof fn lemma_write_round_trip(timestamp: Seq<char>, msg: Seq<char>, old_content: Seq<char>)
    requires
        !timestamp.contains('\n'),
        !msg.contains('\n'),
    ensures
        first_line(entry_text(timestamp, msg) + "\n"@ + old_content) == entry_text(timestamp, msg),
{
    reveal_strlit(": ");
    reveal_strlit("\n");
    let entry = entry_text(timestamp, msg);
    assert(!entry.contains('\n')) by {
        if entry.contains('\n') {
            let k = choose|k: int| 0 <= k < entry.len() && entry[k] == '\n';
            let sep = ": "@;
            if k < timestamp.len() {
                assert(timestamp[k] == '\n');
                assert(timestamp.contains('\n'));
            } else if k < timestamp.len() + sep.len() {
                assert(sep[k - timestamp.len()] == '\n');
            } else {
                assert(msg[k - timestamp.len() - sep.len()] == '\n');
                assert(msg.contains('\n'));
            }
        }
    }
    assert(entry + "\n"@ + old_content =~= entry + seq!['\n'] + old_content);
    lemma_first_line_of_concat(entry, old_content);
}

/// A string of the clock's timestamp shape — digits and the separators
/// `-`, space and `:` — holds no newline, so the write round trip applies
/// to every timestamp the clock renders.
pub proof fn lemma_timestamp_has_no_newline(s: Seq<char>)
    requires
        timestamp_chars(s),
    ensures
        !s.contains('\n'),
{
    if s.contains('\n') {
        let k = choose|k: int| 0 <= k < s.len() && s[k] == '\n';
        assert('0' <= s[k] <= '9' || s[k] == '-' || s[k] == ' ' || s[k] == ':');
    }
}

} // verus!
