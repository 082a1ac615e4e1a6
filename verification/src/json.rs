//! Lists of strings as JSON.

use vstd::prelude::*;

use crate::text;
use crate::text::Text;

verus! {

pub open spec fn hex_digit(n: int) -> char {
    "0123456789abcdef"@[n]
}

/// A character as it stands in a JSON string.
pub open spec fn json_char(c: char) -> Text {
    let code = c as int;
    if c == '"' {
        "\\\""@
    } else if c == '\\' {
        "\\\\"@
    } else if code == 8 {
        "\\b"@
    } else if c == '\t' {
        "\\t"@
    } else if c == '\n' {
        "\\n"@
    } else if code == 12 {
        "\\f"@
    } else if c == '\r' {
        "\\r"@
    } else if code < 32 {
        "\\u00"@ + seq![hex_digit(code / 16), hex_digit(code % 16)]
    } else {
        seq![c]
    }
}

/// Characters as they stand in a JSON string.
pub open spec fn json_chars(s: Text) -> Text
    decreases s.len(),
{
    if s.len() == 0 {
        Seq::empty()
    } else {
        json_chars(s.drop_last()) + json_char(s.last())
    }
}

pub open spec fn json_string(s: Text) -> Text {
    "\""@ + json_chars(s) + "\""@
}

/// Strings as a JSON array.
pub open spec fn json_list(list: Seq<Text>) -> Text {
    "["@ + text::join(list.map_values(|s: Text| json_string(s)), ","@) + "]"@
}

/// `serde_json::to_string` of a list of strings: an array without spaces of the
/// strings in quotes, with quotes, backslashes and control characters escaped. It
/// does not fail on such a list.
#[verifier::external_body]
pub(crate) fn list_to_json(list: &Vec<String>) -> (r: Result<String, String>)
    ensures
        r is Ok,
        r->Ok_0@ == json_list(text::texts(list@)),
{
    serde_json::to_string(list).map_err(|e| e.to_string())
}

} // verus!
