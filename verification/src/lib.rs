//! Rewrites templates that name their components with tags into the macros,
//! imports and calls of the host template engine.
//!
//! A template is scanned into nodes ([`parser`], after the grammar in
//! [`grammar`]) and the nodes are written out as one macro ([`rewriter`], in
//! the syntax of [`syntax`]). [`rewrite_source`] does both for the source of
//! one file; [`transform_path`] gives the two lines that stand for a whole
//! file. What holds of all templates is proved in [`scan_laws`] and
//! [`rewrite_laws`].

use vstd::prelude::*;

pub mod grammar;
pub mod node;
pub mod parser;
pub mod rewrite_laws;
pub mod rewriter;
pub mod scan_laws;
pub mod syntax;
pub mod text;
pub mod trusted;

use crate::grammar::parsed;
use crate::node::Ast;
use crate::rewriter::{normalize, normalized, rendered, try_normalize, Rewriter};
use crate::syntax::{file_reference, whole_file};
use crate::trusted::path_stem;

verus! {

/// What a template becomes as the macro `macro_name`: the macro for its
/// nodes, and the template itself where it cannot be scanned.
pub open spec fn rewritten(macro_name: Seq<char>, source: Seq<char>) -> Seq<char> {
    match parsed(source) {
        Some(nodes) => rendered(nodes, macro_name),
        None => source,
    }
}

/// The two lines that stand for the whole file at `path`: they import the
/// file under the scope of its macro, and call the macro without arguments.
pub fn transform_path(path: &str) -> (out: String)
    requires
        path_stem(path@) is Some,
    ensures
        out@ == whole_file(path@, normalized(path@)),
{
    let macro_name = normalize(path);
    file_reference(path, macro_name.as_str())
}

/// [`transform_path`] for every path: `None` where the path has no stem to
/// name the macro after.
pub fn try_transform_path(path: &str) -> (out: Option<String>)
    ensures
        match out {
            Some(text) => {
                &&& path_stem(path@) is Some
                &&& text@ == whole_file(path@, normalized(path@))
            },
            None => path_stem(path@) is None,
        },
{
    match try_normalize(path) {
        Some(_) => Some(transform_path(path)),
        None => None,
    }
}

/// Rewrites the source of a template into the macro `macro_name`. A
/// source that cannot be scanned is not an error: it is returned as it is,
/// so that a file that was never meant for the rewriter passes through, and
/// so does a file with a tag or a directive that is broken.
pub fn rewrite(macro_name: &str, source: String) -> (out: String)
    ensures
        out@ == rewritten(macro_name@, source@),
{
    let parsed = match Ast::from_str(source.as_str()) {
        Ok(parsed) => parsed,
        Err(_) => return source,
    };
    Rewriter::new(parsed.nodes.as_slice()).build(macro_name)
}

/// Rewrites the source of the template at `path` into the macro that is
/// named after the path. A source that cannot be scanned is returned as it
/// is.
pub fn rewrite_source(path: &str, source: String) -> (out: String)
    requires
        path_stem(path@) is Some,
    ensures
        out@ == rewritten(normalized(path@), source@),
{
    let macro_name = normalize(path);
    rewrite(macro_name.as_str(), source)
}

/// [`rewrite_source`] for every path: `None` where the path has no stem to
/// name the macro after.
pub fn try_rewrite_source(path: &str, source: String) -> (out: Option<String>)
    ensures
        match out {
            Some(text) => {
                &&& path_stem(path@) is Some
                &&& text@ == rewritten(normalized(path@), source@)
            },
            None => path_stem(path@) is None,
        },
{
    match try_normalize(path) {
        Some(_) => Some(rewrite_source(path, source)),
        None => None,
    }
}

} // verus!
