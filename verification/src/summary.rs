//! Things that can be summarised in one line, and the lines themselves.

use vstd::prelude::*;
use vstd::string::StringExecFns;

verus! {

/// The text of `summarize_author` for an author called `name`.
pub open spec fn author_text(name: Seq<char>) -> Seq<char> {
    "Author: "@ + name
}

/// The text of `summarize` around an author line.
pub open spec fn summary_text(author_line: Seq<char>) -> Seq<char> {
    "READ more from "@ + author_line + "..."@
}

/// The text of `notify` around a summary.
pub open spec fn notice_text(summary: Seq<char>) -> Seq<char> {
    "Breaking News! "@ + summary
}

pub trait Summary {
    /// What `summarize_author` returns, as a sequence of characters.
    spec fn author_line(&self) -> Seq<char>;

    /// The line that names the author.
    fn summarize_author(&self) -> (line: String)
        ensures
            line@ == self.author_line(),
    ;

    /// The summary: the author line inside a fixed frame.
    fn summarize(&self) -> (line: String)
        ensures
            line@ == summary_text(self.author_line()),
    {
        let author = self.summarize_author();
        let mut line = String::from_str("READ more from ");
        line.append(author.as_str());
        line.append("...");
        line
    }
}

pub struct NewsArticle {
    pub headline: String,
    pub location: String,
    pub author: String,
    pub content: String,
}

pub struct SocialPost {
    pub username: String,
    pub content: String,
    pub reply: bool,
    pub repost: bool,
}

pub struct EmptyPost {
    pub username: String,
}

/// `"Author: "` followed by `name`.
fn author_of(name: &str) -> (line: String)
    ensures
        line@ == author_text(name@),
{
    let mut line = String::from_str("Author: ");
    line.append(name);
    line
}

impl Summary for NewsArticle {
    open spec fn author_line(&self) -> Seq<char> {
        author_text(self.author@)
    }

    fn summarize_author(&self) -> (line: String) {
        author_of(self.author.as_str())
    }
}

impl Summary for SocialPost {
    open spec fn author_line(&self) -> Seq<char> {
        author_text(self.username@)
    }

    fn summarize_author(&self) -> (line: String) {
        author_of(self.username.as_str())
    }
}

impl Summary for EmptyPost {
    open spec fn author_line(&self) -> Seq<char> {
        author_text(self.username@)
    }

    fn summarize_author(&self) -> (line: String) {
        author_of(self.username.as_str())
    }
}

/// The line that announces `item`: its summary behind a fixed headline.
pub fn notify(item: &impl Summary) -> (line: String)
    ensures
        line@ == notice_text(summary_text(item.author_line())),
{
    let summary = item.summarize();
    let mut line = String::from_str("Breaking News! ");
    line.append(summary.as_str());
    line
}

} // verus!

verus! {

/// Takes anything that can be shown and copied beside anything that can be
/// copied and printed for inspection, and answers 1.
pub fn some_function<T, U>(t: &T, u: &U) -> (answer: i32) where
    T: core::fmt::Display + Clone,
    U: Clone + core::fmt::Debug,

    ensures
        answer == 1,
{
    1
}

} // verus!
