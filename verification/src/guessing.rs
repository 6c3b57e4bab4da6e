//! The rules of a number-guessing game: a secret from 1 to 100, and what to
//! answer to each line that the player types.

use core::cmp::Ordering;
use crate::decimal::{digits_value, is_digit};
use rand::rngs::ThreadRng;
use rand::Rng;
use vstd::prelude::*;
use vstd::string::StringSliceAdditionalSpecFns;
use vstd::utf8::encode_utf8_decode_utf8;

verus! {

/// The smallest secret.
pub const LOWEST_SECRET: u32 = 1;

/// The largest secret.
pub const HIGHEST_SECRET: u32 = 100;

#[verifier::external_type_specification]
#[verifier::external_body]
pub struct ExThreadRng(rand::rngs::ThreadRng);

/// `rand::rng`: a handle to the generator of the current thread. Nothing
/// is claimed of it.
pub assume_specification[ rand::rng ]() -> ThreadRng;

/// `Rng::random_range` on `low..=high`: some number of that range. Which
/// one is left open: it differs from call to call. An empty range, on
/// which `random_range` panics, is kept out.
#[verifier::external_body]
fn random_in_range(rng: &mut ThreadRng, low: u32, high: u32) -> (n: u32)
    requires
        low <= high,
    ensures
        low <= n <= high,
{
    rng.random_range(low..=high)
}

/// What `str::trim` makes of a text: the same text without the white space
/// at its two ends.
pub uninterp spec fn trimmed(text: Seq<char>) -> Seq<char>;

/// `str::trim`: the part of `line` between its leading and its trailing
/// white space.
#[verifier::external_body]
fn trim(line: &str) -> (text: &str)
    ensures
        text@ == trimmed(line@),
{
    line.trim()
}

/// What the game answers to a line.
#[derive(Debug, Clone, Copy, PartialEq, Eq, Structural)]
pub enum Reply {
    /// The player gives up: the game ends.
    Quit,
    /// The line is no number: ask again.
    NotANumber,
    /// The guess is below the secret.
    TooSmall,
    /// The guess is the secret: the game ends.
    Exact,
    /// The guess is above the secret.
    TooBig,
}

impl Reply {
    /// Whether the game is over after this reply.
    pub open spec fn ends_game_spec(self) -> bool {
        self == Reply::Quit || self == Reply::Exact
    }

    /// Whether the game is over after this reply.
    #[verifier::when_used_as_spec(ends_game_spec)]
    pub fn ends_game(self) -> (over: bool)
        ensures
            over == self.ends_game_spec(),
    {
        match self {
            Reply::Quit => true,
            Reply::Exact => true,
            _ => false,
        }
    }

    /// The line to show the player, if the reply has one.
    pub open spec fn message_spec(self) -> Option<Seq<char>> {
        match self {
            Reply::Quit => None,
            Reply::NotANumber => Some("Error, please type a number"@),
            Reply::TooSmall => Some("Too small!"@),
            Reply::Exact => Some("Exactly the same!"@),
            Reply::TooBig => Some("Too big!"@),
        }
    }

    /// The line to show the player, if the reply has one.
    pub fn message(self) -> (line: Option<&'static str>)
        ensures
            line is Some <==> self.message_spec() is Some,
            line matches Some(text) ==> Some(text@) == self.message_spec(),
    {
        match self {
            Reply::Quit => None,
            Reply::NotANumber => Some("Error, please type a number"),
            Reply::TooSmall => Some("Too small!"),
            Reply::Exact => Some("Exactly the same!"),
            Reply::TooBig => Some("Too big!"),
        }
    }
}

/// A secret for one game: some number from 1 to 100.
pub fn secret_number() -> (secret: u32)
    ensures
        LOWEST_SECRET <= secret <= HIGHEST_SECRET,
{
    let mut rng = rand::rng();
    random_in_range(&mut rng, LOWEST_SECRET, HIGHEST_SECRET)
}

/// The reply to a guess that is a number.
pub open spec fn compare_spec(guess: u32, secret: u32) -> Reply {
    if guess < secret {
        Reply::TooSmall
    } else if guess == secret {
        Reply::Exact
    } else {
        Reply::TooBig
    }
}

/// The digits of a text that may start with a `'+'`.
pub open spec fn unsigned_digits(text: Seq<char>) -> Seq<char> {
    if text.len() > 0 && text[0] == '+' {
        text.drop_first()
    } else {
        text
    }
}

/// Whether every character of `s` is a decimal digit.
pub open spec fn all_digits(s: Seq<char>) -> bool {
    forall|i: int| 0 <= i < s.len() ==> is_digit(#[trigger] s[i])
}

/// The number that `text` denotes as a `u32`: decimal digits, at least
/// one, behind at most one `'+'`, that stay within the type. Anything else
/// denotes no number.
pub open spec fn parsed_u32(text: Seq<char>) -> Option<u32> {
    let digits = unsigned_digits(text);
    if digits.len() > 0 && all_digits(digits) && digits_value(digits) <= u32::MAX {
        Some(digits_value(digits) as u32)
    } else {
        None
    }
}

/// The reply to a line whose outer white space is gone.
pub open spec fn reply_spec(text: Seq<char>, secret: u32) -> Reply {
    if text == "quit"@ {
        Reply::Quit
    } else {
        match parsed_u32(text) {
            None => Reply::NotANumber,
            Some(guess) => compare_spec(guess, secret),
        }
    }
}

} // verus!

verus! {

/// Compares a guess with the secret.
pub fn compare_guess(guess: u32, secret: u32) -> (reply: Reply)
    ensures
        reply == compare_spec(guess, secret),
{
    match guess.cmp(&secret) {
        Ordering::Less => Reply::TooSmall,
        Ordering::Equal => Reply::Exact,
        Ordering::Greater => Reply::TooBig,
    }
}

/// Whether two texts are the same, character for character.
pub fn same_text(a: &str, b: &str) -> (same: bool)
    ensures
        same == (a@ == b@),
{
    let left = a.as_bytes();
    let right = b.as_bytes();
    proof {
        encode_utf8_decode_utf8(a@);
        encode_utf8_decode_utf8(b@);
    }
    if left.len() != right.len() {
        return false;
    }
    let mut i: usize = 0;
    while i < left.len()
        invariant
            left@ == a.spec_bytes(),
            right@ == b.spec_bytes(),
            left@.len() == right@.len(),
            i <= left@.len(),
            forall|j: int| 0 <= j < i ==> left@[j] == right@[j],
        decreases left@.len() - i,
    {
        if left[i] != right[i] {
            return false;
        }
        i += 1;
    }
    proof {
        assert(left@ =~= right@);
    }
    true
}

/// A longer run of digits denotes at least what its beginning denotes.
pub proof fn lemma_digits_value_grows(s: Seq<char>, n: int)
    requires
        0 <= n <= s.len(),
        all_digits(s),
    ensures
        digits_value(s.take(n)) <= digits_value(s),
    decreases s.len(),
{
    if n == s.len() {
        assert(s.take(n) =~= s);
    } else {
        let shorter = s.drop_last();
        assert(shorter.take(n) =~= s.take(n));
        assert(is_digit(s.last()));
        lemma_digits_value_grows(shorter, n);
    }
}

/// Reads a `u32` in decimal notation: digits only, at least one, behind at
/// most one `'+'`. A text that is anything else, or denotes a number
/// beyond `u32`, gives nothing.
pub fn parse_guess(text: &str) -> (guess: Option<u32>)
    ensures
        guess == parsed_u32(text@),
{
    if !text.is_ascii() {
        proof {
            let i = choose|i: int|
                0 <= i < text@.len() && !('\0' <= #[trigger] text@[i] <= '\u{7f}');
            if text@[0] == '+' && i > 0 {
                assert(unsigned_digits(text@)[i - 1] == text@[i]);
            }
            assert(!all_digits(unsigned_digits(text@)));
        }
        return None;
    }
    let bytes = text.as_bytes();
    proof {
        vstd::string::is_ascii_spec_bytes(text);
    }
    let n = bytes.len();
    let start: usize = if n > 0 && bytes[0] == 0x2Bu8 {
        1
    } else {
        0
    };
    let ghost digits = unsigned_digits(text@);
    assert(digits =~= text@.skip(start as int));
    if start == n {
        return None;
    }
    let mut value: u32 = 0;
    let mut i: usize = start;
    while i < n
        invariant
            start <= i <= n,
            n == text@.len(),
            bytes@.len() == n,
            forall|j: int| 0 <= j < n ==> bytes@[j] == text@[j] as u8,
            forall|j: int| 0 <= j < n ==> '\0' <= #[trigger] text@[j] <= '\u{7f}',
            digits == text@.skip(start as int),
            digits == unsigned_digits(text@),
            forall|j: int| 0 <= j < i - start ==> is_digit(#[trigger] digits[j]),
            value == digits_value(digits.take(i - start)),
        decreases n - i,
    {
        let byte = bytes[i];
        proof {
            assert(digits[i - start] == text@[i as int]);
            assert(digits.take(i - start + 1).drop_last() =~= digits.take(i - start));
        }
        if byte < 0x30u8 || byte > 0x39u8 {
            proof {
                assert(!is_digit(digits[i - start]));
            }
            return None;
        }
        let wide: u64 = (value as u64) * 10 + ((byte - 0x30u8) as u64);
        if wide > u32::MAX as u64 {
            proof {
                if all_digits(digits) {
                    lemma_digits_value_grows(digits, i - start + 1);
                }
            }
            return None;
        }
        value = wide as u32;
        i += 1;
    }
    proof {
        assert(digits.take(n - start) =~= digits);
    }
    Some(value)
}

/// The reply to a line that has no white space at its ends: the word
/// `quit` ends the game, a number is compared with the secret, and
/// anything else is no number.
pub fn judge_trimmed(text: &str, secret: u32) -> (reply: Reply)
    ensures
        reply == reply_spec(text@, secret),
{
    if same_text(text, "quit") {
        return Reply::Quit;
    }
    match parse_guess(text) {
        None => Reply::NotANumber,
        Some(guess) => compare_guess(guess, secret),
    }
}

/// The reply to a line as the player typed it: the white space at its ends
/// does not count.
pub fn judge(line: &str, secret: u32) -> (reply: Reply)
    ensures
        reply == reply_spec(trimmed(line@), secret),
{
    judge_trimmed(trim(line), secret)
}

} // verus!
