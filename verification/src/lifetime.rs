//! Borrowed text: the longer of two strings, and an excerpt of a longer
//! text.

use vstd::prelude::*;
use vstd::string::StringExecFns;

verus! {

/// The longer of two strings, by length in bytes; the second where the
/// lengths are equal.
pub fn find_longest<'a>(a: &'a str, b: &'a str) -> (longest: &'a str)
    ensures
        a.len() > b.len() ==> longest == a,
        a.len() <= b.len() ==> longest == b,
{
    if a.len() > b.len() {
        a
    } else {
        b
    }
}

pub struct ImportantExcerpt<'a> {
    pub part: &'a str,
}

/// The line that calls for attention before `announcement`.
pub open spec fn attention_text(announcement: Seq<char>) -> Seq<char> {
    "Attention please: "@ + announcement
}

impl<'a> ImportantExcerpt<'a> {
    /// The level of every excerpt.
    pub fn level(&self) -> (level: i32)
        ensures
            level == 3,
    {
        3
    }

    /// The line that announces the excerpt, and the excerpt itself.
    pub fn announce_and_return_part(&self, announcement: &str) -> (out: (String, &str))
        ensures
            out.0@ == attention_text(announcement@),
            out.1 == self.part,
    {
        let mut line = String::from_str("Attention please: ");
        line.append(announcement);
        (line, self.part)
    }
}

} // verus!
