//! Operations on the texts that the evaluator stores and compares.

use vstd::prelude::*;
use vstd::string::*;
use crate::machine::{assigned_text, strip_line_ending, truth_text};

verus! {

/// The text that stands for a truth value: `True` or `False`.
pub fn truth(value: bool) -> (result: String)
    ensures
        result@ == truth_text(value),
{
    if value {
        String::from_str("True")
    } else {
        String::from_str("False")
    }
}

/// The text that an assignment yields as its value.
pub fn assigned() -> (result: String)
    ensures
        result@ == assigned_text(),
{
    String::from_str("Successd")
}

/// The two texts joined, the left one first.
pub fn join(left: String, right: &String) -> (result: String)
    ensures
        result@ == left@ + right@,
{
    left.concat(right.as_str())
}

/// The line without the carriage returns and line feeds at its end.
pub fn strip(line: &String) -> (result: String)
    ensures
        result@ == strip_line_ending(line@),
{
    let text = line.as_str();
    let mut end: usize = text.unicode_len();
    let mut kept = false;
    assert(line@.subrange(0, end as int) == line@);
    while end > 0 && !kept
        invariant
            end <= text@.len(),
            text@ == line@,
            strip_line_ending(line@) == strip_line_ending(line@.subrange(0, end as int)),
            kept ==> end > 0 && line@[end - 1] != '\n' && line@[end - 1] != '\r',
        decreases end + if kept { 0int } else { 1int },
    {
        let last = text.get_char(end - 1);
        if last == '\n' || last == '\r' {
            assert(line@.subrange(0, end as int).drop_last() == line@.subrange(0, end - 1));
            end -= 1;
        } else {
            kept = true;
        }
    }
    String::from_str(text.substring_char(0, end))
}

} // verus!
