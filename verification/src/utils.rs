//! Naming and front-matter helpers for the files the pipeline writes.

use vstd::prelude::*;
use vstd::string::*;

verus! {

/// The answer of `char::is_alphanumeric` for `c`: whether Unicode classes the
/// character as alphabetic or numeric.
pub uninterp spec fn is_alphanumeric(c: char) -> bool;

/// Calls `char::is_alphanumeric`; the result is the named classification of `c`.
#[verifier::external_body]
fn char_is_alphanumeric(c: char) -> (r: bool)
    ensures
        r == is_alphanumeric(c),
{
    c.is_alphanumeric()
}

/// Calls `String::push`, which appends the one character `c` to `s`.
#[verifier::external_body]
fn push_char(s: &mut String, c: char)
    ensures
        final(s)@ == old(s)@.push(c),
{
    s.push(c);
}

/// The helpers, gathered under one name.
pub struct Utils;

impl Utils {
    /// What becomes of one character, given whether it is alphanumeric: an
    /// alphanumeric character, a hyphen and an underscore stay, a space
    /// becomes an underscore, and anything else is dropped.
    pub open spec fn sanitized_char(c: char, alphanumeric: bool) -> Option<char> {
        if alphanumeric || c == ' ' || c == '-' || c == '_' {
            Some(Self::written_as(c))
        } else {
            None
        }
    }

    /// A character survives sanitization when it is alphanumeric, a space, a
    /// hyphen or an underscore.
    pub open spec fn is_retained(c: char) -> bool {
        Self::sanitized_char(c, is_alphanumeric(c)) is Some
    }

    /// A retained space is written as an underscore; every other retained
    /// character is written as it is.
    pub open spec fn written_as(c: char) -> char {
        if c == ' ' {
            '_'
        } else {
            c
        }
    }

    /// The filesystem-safe form of `name`: the retained characters, in order,
    /// each as it is written.
    pub open spec fn sanitized(name: Seq<char>) -> Seq<char> {
        name.filter(|c: char| Self::is_retained(c)).map_values(|c: char| Self::written_as(c))
    }

    /// The front-matter block that opens a markdown file titled `title`.
    pub open spec fn front_matter(title: Seq<char>) -> Seq<char> {
        "---\ntitle: \""@ + title + "\"\n---\n\n"@
    }

    /// Sanitizing one more character either appends its written form or
    /// leaves the result as it was.
    proof fn lemma_sanitized_push(name: Seq<char>, c: char)
        ensures
            Self::sanitized(name.push(c)) == if Self::is_retained(c) {
                Self::sanitized(name).push(Self::written_as(c))
            } else {
                Self::sanitized(name)
            },
    {
        name.lemma_filter_push(c, |c: char| Self::is_retained(c));
    }

    /// Sanitizing an already sanitized name changes nothing: every character
    /// of a sanitized name is retained and is not a space.
    pub proof fn lemma_sanitize_idempotent(name: Seq<char>)
        ensures
            Self::sanitized(Self::sanitized(name)) == Self::sanitized(name),
        decreases name.len(),
    {
        if name.len() > 0 {
            let init = name.drop_last();
            let c = name.last();
            assert(name == init.push(c));
            Self::lemma_sanitize_idempotent(init);
            Self::lemma_sanitized_push(init, c);
            if Self::is_retained(c) {
                Self::lemma_sanitized_push(Self::sanitized(init), Self::written_as(c));
            }
        }
    }

    /// Decides what becomes of one character, given whether it is
    /// alphanumeric.
    pub fn sanitize_char(c: char, alphanumeric: bool) -> (r: Option<char>)
        ensures
            r == Self::sanitized_char(c, alphanumeric),
    {
        if alphanumeric || c == ' ' || c == '-' || c == '_' {
            if c == ' ' {
                Some('_')
            } else {
                Some(c)
            }
        } else {
            None
        }
    }

    /// Derives a filesystem-safe name.
    pub fn sanitize_name(name: &str) -> (r: String)
        ensures
            r@ == Self::sanitized(name@),
    {
        let mut out = String::new();
        for c in it: name.chars()
            invariant
                it.seq() == name@,
                out@ == Self::sanitized(name@.take(it.index() as int)),
        {
            proof {
                assert(name@.take(it.index() + 1) == name@.take(it.index() as int).push(c));
                Self::lemma_sanitized_push(name@.take(it.index() as int), c);
            }
            match Self::sanitize_char(c, char_is_alphanumeric(c)) {
                Some(written) => push_char(&mut out, written),
                None => {},
            }
        }
        assert(name@.take(name@.len() as int) == name@);
        out
    }

    /// Builds the front-matter block for `title`.
    pub fn create_front_matter(title: &str) -> (r: String)
        ensures
            r@ == Self::front_matter(title@),
    {
        let mut out = String::from_str("---\ntitle: \"");
        out.append(title);
        out.append("\"\n---\n\n");
        out
    }
}

} // verus!
