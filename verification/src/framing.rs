//! The text event-stream framing of a notification.

use vstd::prelude::*;
use vstd::string::StringExecFns;

verus! {

/// What std's `Debug` prints for a string slice that holds `text`: the text
/// between double quotes, with escapes in place of some of its characters.
pub uninterp spec fn debug_quoted(text: Seq<char>) -> Seq<char>;

/// Formats `text` with `{:?}`, std's `Debug` for `str`. The contract names
/// the printed text after the characters of `text`; it says nothing of what
/// the escapes are.
#[verifier::external_body]
fn debug_quote(text: &str) -> (quoted: String)
    ensures
        quoted@ == debug_quoted(text@),
{
    format!("{:?}", text)
}

/// One framed event: the marker line with `quoted` on it, then a blank line.
pub open spec fn framed(quoted: Seq<char>) -> Seq<char> {
    "data: Planet created: "@ + quoted + "\n\n"@
}

/// Wraps an already quoted payload into one framed event.
pub fn frame_quoted(quoted: &str) -> (chunk: String)
    ensures
        chunk@ == framed(quoted@),
{
    let mut chunk = String::from_str("data: Planet created: ");
    chunk.append(quoted);
    chunk.append("\n\n");
    chunk
}

/// Frames a decoded payload for delivery: the payload is quoted as `Debug`
/// prints it and wrapped into one event.
pub fn frame(payload: &str) -> (chunk: String)
    ensures
        chunk@ == framed(debug_quoted(payload@)),
{
    let quoted = debug_quote(payload);
    frame_quoted(quoted.as_str())
}

} // verus!
