//! Copying to the clipboard of the terminal.

use vstd::prelude::*;
use vstd::string::*;

use crate::text;
use crate::text::Text;
use crate::tui::foreground::utf8_bytes;

verus! {

/// A text to copy and what it is.
#[derive(Debug, PartialEq, Eq)]
pub struct CopyTarget {
    pub label: String,
    pub content: String,
}

/// A text to copy over character sequences.
pub struct CopyModel {
    pub label: Text,
    pub content: Text,
}

impl View for CopyTarget {
    type V = CopyModel;

    open spec fn view(&self) -> CopyModel {
        CopyModel { label: self.label@, content: self.content@ }
    }
}

impl CopyTarget {
    pub fn new(label: &str, content: &str) -> (r: CopyTarget)
        ensures
            r@ == (CopyModel { label: label@, content: content@ }),
    {
        CopyTarget { label: label.to_owned(), content: content.to_owned() }
    }
}

/// The first target that there is, from `i` on.
pub open spec fn first_from(targets: Seq<Option<CopyTarget>>, i: int) -> Option<CopyModel>
    decreases targets.len() - i,
{
    if !(0 <= i < targets.len()) {
        None
    } else {
        match targets[i] {
            Some(t) => Some(t@),
            None => first_from(targets, i + 1),
        }
    }
}

/// The first target that there is.
pub fn first_available_target(targets: Vec<Option<CopyTarget>>) -> (r: Option<CopyTarget>)
    ensures
        match r {
            Some(t) => first_from(targets@, 0) == Some(t@),
            None => first_from(targets@, 0) is None,
        },
{
    let ghost all = targets@;
    let mut rest = targets;
    let ghost mut i: int = 0;
    assert(all.skip(0) =~= all);
    while rest.len() > 0
        invariant
            0 <= i <= all.len(),
            all == targets@,
            rest@ == all.skip(i),
            first_from(all, 0) == first_from(all, i),
        decreases rest@.len(),
    {
        let first = rest.remove(0);
        assert(first == all[i]);
        if let Some(t) = first {
            return Some(t);
        }
        proof {
            i = i + 1;
        }
        assert(rest@ =~= all.skip(i));
    }
    None
}

/// The character of six bits in the standard alphabet.
pub open spec fn base64_digit(n: int) -> char {
    if n < 26 {
        ('A' as int + n) as char
    } else if n < 52 {
        ('a' as int + n - 26) as char
    } else if n < 62 {
        ('0' as int + n - 52) as char
    } else if n == 62 {
        '+'
    } else {
        '/'
    }
}

/// The bytes in base64: four characters for three bytes, and `=` for what is
/// missing at the end.
pub open spec fn base64_text(data: Seq<u8>) -> Text
    decreases data.len(),
{
    if data.len() == 0 {
        Seq::empty()
    } else {
        let a = data[0] as int;
        let b = if data.len() > 1 {
            data[1] as int
        } else {
            0
        };
        let c = if data.len() > 2 {
            data[2] as int
        } else {
            0
        };
        seq![
            base64_digit(a / 4),
            base64_digit(a % 4 * 16 + b / 16),
            if data.len() > 1 {
                base64_digit(b % 16 * 4 + c / 64)
            } else {
                '='
            },
            if data.len() > 2 {
                base64_digit(c % 64)
            } else {
                '='
            },
        ] + base64_text(
            if data.len() > 3 {
                data.skip(3)
            } else {
                Seq::empty()
            },
        )
    }
}

/// `base64::Engine::encode` with the standard alphabet and padding: the bytes
/// in base64.
#[verifier::external_body]
fn encode_base64(data: &Vec<u8>) -> (r: String)
    ensures
        r@ == base64_text(data@),
{
    base64::Engine::encode(&base64::engine::general_purpose::STANDARD, data)
}

/// The escape sequence that puts a payload on the clipboard.
pub open spec fn clipboard_sequence(payload: Text) -> Text {
    "\x1b]52;c;"@ + payload + "\x07"@
}

/// Wraps a payload into the escape sequence for the clipboard.
pub fn osc52_payload(payload: &str) -> (r: String)
    ensures
        r@ == clipboard_sequence(payload@),
{
    text::concat3("\x1b]52;c;", payload, "\x07")
}

/// The escape sequence that puts a text on the clipboard.
pub fn osc52_sequence(text: &str) -> (r: String)
    ensures
        r@ == clipboard_sequence(base64_text(vstd::utf8::encode_utf8(text@))),
{
    osc52_payload(encode_base64(&utf8_bytes(text)).as_str())
}

/// Adds the escape sequence for a text to what is written.
pub fn write_osc52_sequence(writer: &mut Vec<u8>, text: &str)
    ensures
        final(writer)@ == old(writer)@ + vstd::utf8::encode_utf8(
            clipboard_sequence(base64_text(vstd::utf8::encode_utf8(text@))),
        ),
{
    let mut bytes = utf8_bytes(osc52_sequence(text).as_str());
    writer.append(&mut bytes);
}

/// Three bytes, or what is left of three at the end, take four characters.
pub proof fn lemma_base64_length(data: Seq<u8>)
    ensures
        base64_text(data).len() == (data.len() + 2) / 3 * 4,
    decreases data.len(),
{
    if data.len() > 3 {
        lemma_base64_length(data.skip(3));
    } else if data.len() > 0 {
        lemma_base64_length(Seq::<u8>::empty());
    }
}

} // verus!
