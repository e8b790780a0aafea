//! Regular expressions, matched by the `regex` crate.

use vstd::prelude::*;
use regex::Regex;
use crate::engine::opt_view;
use crate::text::{chars_of, push_str, string_of};

verus! {

/// Whether `regex` accepts a pattern (`Regex::new` succeeds).
pub uninterp spec fn regex_valid(pattern: Seq<char>) -> bool;

/// Whether a valid pattern matches somewhere in `text` (`Regex::is_match`).
pub uninterp spec fn regex_match(pattern: Seq<char>, text: Seq<char>) -> bool;

/// The text of the first capture group of the leftmost match of a valid
/// pattern in `text` (`Regex::captures`, group 1), if it matched and the
/// group took part.
pub uninterp spec fn regex_group1(pattern: Seq<char>, text: Seq<char>) -> Option<Seq<char>>;

/// The message of the error `Regex::new` gives for a pattern it refuses.
pub uninterp spec fn regex_error(pattern: Seq<char>) -> Seq<char>;

/// A regular expression that `regex` accepts, kept as its pattern text.
/// Each match compiles the pattern it is asked about, so what is stated of
/// a match is stated of the text actually compiled.
pub struct Pattern {
    src: String,
}

/// Whether `Regex::new` accepts `pattern`.
#[verifier::external_body]
fn regex_compiles(pattern: &str) -> (r: bool)
    ensures
        r == regex_valid(pattern@),
{
    Regex::new(pattern).is_ok()
}

/// The message of `Regex::new`'s error for a refused pattern.
#[verifier::external_body]
fn regex_error_text(pattern: &str) -> (r: String)
    requires
        !regex_valid(pattern@),
    ensures
        r@ == regex_error(pattern@),
{
    Regex::new(pattern).err().map(|e| e.to_string()).unwrap_or_default()
}

/// `Regex::is_match` of `pattern` (compiled with `Regex::new`) on `text`.
#[verifier::external_body]
fn regex_is_match(pattern: &str, text: &str) -> (r: bool)
    requires
        regex_valid(pattern@),
    ensures
        r == regex_match(pattern@, text@),
{
    Regex::new(pattern).map(|re| re.is_match(text)).unwrap_or(false)
}

/// The first capture group of `Regex::captures` of `pattern` (compiled
/// with `Regex::new`) on `text`.
#[verifier::external_body]
fn regex_captures_group1(pattern: &str, text: &str) -> (r: Option<String>)
    requires
        regex_valid(pattern@),
    ensures
        opt_view(r) == regex_group1(pattern@, text@),
{
    Regex::new(pattern).ok().and_then(|re| re.captures(text).and_then(|c| c.get(1)).map(|m| m.as_str().to_string()))
}

impl Pattern {
    /// Only patterns that `regex` accepts are kept.
    #[verifier::type_invariant]
    spec fn accepted(self) -> bool {
        regex_valid(self.src@)
    }

    /// The pattern text.
    pub closed spec fn source(&self) -> Seq<char> {
        self.src@
    }

    /// The pattern, or nothing when `regex` does not accept it.
    pub fn new(src: &str) -> (r: Option<Pattern>)
        ensures
            r is Some <==> regex_valid(src@),
            r matches Some(p) ==> p.source() == src@,
    {
        if regex_compiles(src) {
            Some(Pattern { src: String::from_str(src) })
        } else {
            None
        }
    }

    /// The pattern, or the error `grep` reports when `regex` refuses it:
    /// `bad regex: ` and `regex`'s message.
    pub fn parse(src: &str) -> (r: Result<Pattern, String>)
        ensures
            r is Ok <==> regex_valid(src@),
            r matches Ok(p) ==> p.source() == src@,
            r matches Err(e) ==> e@ == "bad regex: "@ + regex_error(src@),
    {
        match Pattern::new(src) {
            Some(p) => Ok(p),
            None => {
                let mut t = chars_of("bad regex: ");
                push_str(&mut t, regex_error_text(src).as_str());
                Err(string_of(&t))
            },
        }
    }

    /// Whether the pattern matches somewhere in `text`.
    pub fn is_match(&self, text: &str) -> (r: bool)
        ensures
            r == regex_match(self.source(), text@),
    {
        proof {
            use_type_invariant(self);
        }
        regex_is_match(self.src.as_str(), text)
    }

    /// The first capture group of the leftmost match in `text`.
    pub fn group1(&self, text: &str) -> (r: Option<String>)
        ensures
            opt_view(r) == regex_group1(self.source(), text@),
    {
        proof {
            use_type_invariant(self);
        }
        regex_captures_group1(self.src.as_str(), text)
    }
}

} // verus!
