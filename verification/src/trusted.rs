//! What this library takes from the standard library without proof.
//!
//! Verus reads none of the four functions that are specified here. It
//! believes what their contracts say, and everything else in the library is
//! proved from that. Three of the contracts give the result of a function a
//! name and say no more than that the result depends on the arguments alone.

use vstd::prelude::*;

verus! {

/// [`String::push`] appends the one character to the end of the string.
pub assume_specification[ String::push ](s: &mut String, c: char)
    ensures
        final(s)@ == old(s)@.push(c),
;

/// What [`char::is_whitespace`] answers for `c`: whether `c` is white space
/// as Unicode defines it (`White_Space`).
pub uninterp spec fn white_space(c: char) -> bool;

/// [`char::is_whitespace`] looks at the character alone, so its answer is a
/// function of the character: [`white_space`]. Nothing is claimed about which
/// characters are white space.
pub assume_specification[ char::is_whitespace ](c: char) -> (b: bool)
    ensures
        b == white_space(c),
;

/// What [`str::to_lowercase`] makes of a text.
pub uninterp spec fn lowercase(s: Seq<char>) -> Seq<char>;

/// [`str::to_lowercase`] looks at the text alone, so what it returns is a
/// function of the text: [`lowercase`]. Nothing is claimed about what the
/// lowercase of a given text is.
pub assume_specification[ str::to_lowercase ](s: &str) -> (lower: String)
    ensures
        lower@ == lowercase(s@),
;

/// What [`std::path::Path::file_stem`] finds in a path: the last component
/// without its extension, where the path ends in a component that is a name.
pub uninterp spec fn path_stem(path: Seq<char>) -> Option<Seq<char>>;

/// Calls [`std::path::Path::file_stem`] on `path`. The stem is a function of
/// the path alone: [`path_stem`]. Nothing is claimed about which paths have a
/// stem, nor about what the stem of a given path is.
#[verifier::external_body]
pub(crate) fn file_stem(path: &str) -> (stem: Option<String>)
    ensures
        match stem {
            Some(name) => path_stem(path@) == Some(name@),
            None => path_stem(path@) is None,
        },
{
    match std::path::Path::new(path).file_stem() {
        Some(name) => Some(name.to_string_lossy().into_owned()),
        None => None,
    }
}

} // verus!
