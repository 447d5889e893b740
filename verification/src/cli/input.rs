//! What is read at a prompt.
use vstd::prelude::*;

use crate::text::{cat4, is_blank};

verus! {

broadcast use vstd::string::group_string_axioms;

/// Whether a byte ends a line.
pub open spec fn ends_line(byte: u8) -> bool {
    byte == 10 || byte == 13
}

/// A line without the bytes that end it.
pub open spec fn line_of(bytes: Seq<u8>) -> Seq<u8>
    decreases bytes.len(),
{
    if bytes.len() > 0 && ends_line(bytes.last()) {
        line_of(bytes.drop_last())
    } else {
        bytes
    }
}

/// Takes the bytes that end a line off it.
pub fn strip_line_end(bytes: Vec<u8>) -> (r: Vec<u8>)
    ensures
        r@ == line_of(bytes@),
{
    let mut line = bytes;
    while line.len() > 0 && (line[line.len() - 1] == 10 || line[line.len() - 1] == 13)
        invariant
            line_of(line@) == line_of(bytes@),
        decreases line.len(),
    {
        let ghost before = line@;
        line.pop();
        assert(line@ =~= before.drop_last());
    }
    line
}

/// What stands before a prompt with a default.
pub fn default_label(label: &str, default: &str) -> (r: String)
    ensures
        r@ == label@ + " ["@ + default@ + "]"@,
{
    cat4(label, " [", default, "]")
}

/// What was typed, else the default.
pub fn or_default(raw: String, default: &str) -> (r: String)
    ensures
        r@ == (if crate::text::blank(raw@) {
            default@
        } else {
            raw@
        }),
{
    if is_blank(raw.as_str()) {
        default.to_string()
    } else {
        raw
    }
}

/// What was typed, unless it was nothing.
pub fn optional(raw: String) -> (r: Option<String>)
    ensures
        r == (if raw@.len() == 0 {
            None
        } else {
            Some(raw)
        }),
{
    if raw.as_str().is_empty() {
        None
    } else {
        Some(raw)
    }
}

/// Whether something was typed.
pub fn given(raw: &str) -> (r: bool)
    ensures
        r == !crate::text::blank(raw@),
{
    !is_blank(raw)
}

/// Of a line only its end is taken off: what is left is the beginning of it and
/// ends in no end of a line, and all that was taken off is ends of lines.
pub proof fn only_the_end_of_a_line_is_taken_off(bytes: Seq<u8>)
    ensures
        line_of(bytes).len() <= bytes.len(),
        line_of(bytes) == bytes.take(line_of(bytes).len() as int),
        forall|k: int|
            line_of(bytes).len() <= k < bytes.len() ==> #[trigger] bytes[k] == 10 || bytes[k] == 13,
        line_of(bytes).len() > 0 ==> line_of(bytes).last() != 10 && line_of(bytes).last() != 13,
    decreases bytes.len(),
{
    if bytes.len() > 0 && ends_line(bytes.last()) {
        let rest = bytes.drop_last();
        only_the_end_of_a_line_is_taken_off(rest);
        assert(rest.take(line_of(rest).len() as int) =~= bytes.take(line_of(rest).len() as int));
        assert forall|k: int| line_of(bytes).len() <= k < bytes.len() implies #[trigger] bytes[k]
            == 10 || bytes[k] == 13 by {
            if k < rest.len() {
                assert(rest[k] == bytes[k]);
            }
        }
    } else {
        assert(bytes.take(bytes.len() as int) =~= bytes);
    }
}

} // verus!
