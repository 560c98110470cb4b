//! The grammar of templates.
//!
//! A template is ordinary text with three kinds of marker in it: the start
//! tag of a component (`<Name arg ... >`, self-closing when one of its tokens
//! ends with `/`), the end tag of a component (`</Name>`), and the directive
//! that names the parameters of the template (`{#def a b #}`). Everything
//! between markers is literal text.
//!
//! The grammar is a set of spec functions over a text and a position in it.
//! Each says what is read at the position, if anything, and where the reading
//! ends.

use vstd::prelude::*;
use crate::node::{is_closer, JsxBlockView, NodeView};
use crate::text::{
    is_alpha, is_separator, is_upper, lemma_run_end, run_end, run_start, starts_with, CharClass,
};

verus! {

/// What a tag starts with.
pub const JSX_BLOCK_START: &'static str = "<";

/// What a tag ends with.
pub const JSX_BLOCK_END: &'static str = ">";

/// What an end tag starts with.
pub const JSX_CLOSE_START: &'static str = "</";

/// What a directive starts with.
pub const MACRO_DEF_START: &'static str = "{#def";

/// What a directive ends with.
pub const MACRO_DEF_END: &'static str = "#}";

/// Whether a capital letter stands at `pos`.
pub open spec fn upper_at(s: Seq<char>, pos: int) -> bool {
    0 <= pos < s.len() && is_upper(s[pos])
}

/// Whether a letter stands at `pos`.
pub open spec fn alpha_at(s: Seq<char>, pos: int) -> bool {
    0 <= pos < s.len() && is_alpha(s[pos])
}

/// `<` and a capital letter: a start tag begins at `pos`.
pub open spec fn open_start(s: Seq<char>, pos: int) -> bool {
    starts_with(s, pos, JSX_BLOCK_START@) && upper_at(s, pos + JSX_BLOCK_START@.len())
}

/// `</` and a capital letter: an end tag begins at `pos`.
pub open spec fn close_start(s: Seq<char>, pos: int) -> bool {
    starts_with(s, pos, JSX_CLOSE_START@) && upper_at(s, pos + JSX_CLOSE_START@.len())
}

/// `{#def`: a directive begins at `pos`.
pub open spec fn directive_start(s: Seq<char>, pos: int) -> bool {
    starts_with(s, pos, MACRO_DEF_START@)
}

/// A marker begins at `pos`. Literal text ends where a marker starts, and
/// what starts as a marker has to follow the marker's grammar.
pub open spec fn marker_start(s: Seq<char>, pos: int) -> bool {
    open_start(s, pos) || close_start(s, pos) || directive_start(s, pos)
}

/// The first position from `pos` on at which a marker starts; the end of the
/// text if there is none.
pub open spec fn next_marker(s: Seq<char>, pos: int) -> int
    decreases s.len() - pos,
{
    if 0 <= pos < s.len() && !marker_start(s, pos) {
        next_marker(s, pos + 1)
    } else {
        pos
    }
}

/// [`next_marker`] is the one position that literal text can end at: no
/// marker starts before it, and the text ends there or a marker starts.
pub proof fn lemma_next_marker(s: Seq<char>, pos: int)
    requires
        0 <= pos <= s.len(),
    ensures
        pos <= next_marker(s, pos) <= s.len(),
        forall|i: int| pos <= i < next_marker(s, pos) ==> !marker_start(s, i),
        next_marker(s, pos) < s.len() ==> marker_start(s, next_marker(s, pos)),
    decreases s.len() - pos,
{
    if pos < s.len() && !marker_start(s, pos) {
        lemma_next_marker(s, pos + 1);
    }
}

/// A position that is reached over characters at which no marker starts,
/// and at which one starts or the text ends, is the next marker.
pub proof fn lemma_next_marker_is(s: Seq<char>, pos: int, end: int)
    requires
        0 <= pos <= end <= s.len(),
        forall|i: int| pos <= i < end ==> !marker_start(s, i),
        end < s.len() ==> marker_start(s, end),
    ensures
        next_marker(s, pos) == end,
    decreases end - pos,
{
    if pos < end {
        lemma_next_marker_is(s, pos + 1, end);
    }
}

/// Literal text at `pos`: there is some, up to the next marker, unless the
/// text ends at `pos` or a marker starts there. Gives where the literal ends,
/// and its text.
pub open spec fn lit_at(s: Seq<char>, pos: int) -> Option<(int, Seq<char>)> {
    if 0 <= pos < s.len() && !marker_start(s, pos) {
        Some((next_marker(s, pos), s.subrange(pos, next_marker(s, pos))))
    } else {
        None
    }
}

/// The tokens between `from` and `to`: the runs of characters that are not
/// separators.
pub open spec fn words(s: Seq<char>, from: int, to: int) -> Seq<Seq<char>>
    decreases to - from,
{
    if 0 <= from < to <= s.len() {
        if is_separator(s[from]) {
            words(s, from + 1, to)
        } else {
            let end = run_end(s, from, to, CharClass::Word);
            proof {
                lemma_run_end(s, from + 1, to, CharClass::Word);
            }
            seq![s.subrange(from, end)] + words(s, end, to)
        }
    } else {
        Seq::empty()
    }
}

/// The test that keeps the tokens that are arguments.
pub open spec fn is_argument() -> spec_fn(Seq<char>) -> bool {
    |word: Seq<char>| !is_closer(word)
}

/// The tokens of the inside of a tag, which lies between `from` and `to`:
/// white space is trimmed off both ends, and what is left is split at
/// separators.
pub open spec fn tag_tokens(s: Seq<char>, from: int, to: int) -> Seq<Seq<char>> {
    let start = run_end(s, from, to, CharClass::Space);
    let end = run_start(s, start, to, CharClass::Space);
    words(s, start, end)
}

/// Whether one of the tokens closes the tag.
pub open spec fn has_closer(tokens: Seq<Seq<char>>) -> bool {
    exists|i: int| 0 <= i < tokens.len() && is_closer(#[trigger] tokens[i])
}

/// The inside of a start tag, read at `pos`, which is just behind the `<`:
/// a name that starts with a capital letter, then everything up to the next
/// `>` or the end of the text, whatever it is: inside a tag no marker starts.
/// The tag is self-closing if and only if one of its tokens ends with `/`;
/// the other tokens are its arguments. Gives where the inside ends, and the
/// tag.
pub open spec fn jsx_block_at(s: Seq<char>, pos: int) -> Option<(int, JsxBlockView)> {
    if upper_at(s, pos) {
        let name_end = run_end(s, pos, s.len() as int, CharClass::Alpha);
        let end = run_end(s, name_end, s.len() as int, CharClass::Inner);
        let tokens = tag_tokens(s, name_end, end);
        Some(
            (
                end,
                JsxBlockView {
                    name: s.subrange(pos, name_end),
                    args: tokens.filter(is_argument()),
                    self_closing: has_closer(tokens),
                },
            ),
        )
    } else {
        None
    }
}

/// The inside of an end tag, read at `pos`, which is just behind the `<`:
/// `/` and a name that starts with a capital letter. Gives where the name
/// ends, and the name.
pub open spec fn jsx_close_at(s: Seq<char>, pos: int) -> Option<(int, Seq<char>)> {
    if 0 <= pos < s.len() && s[pos] == '/' && upper_at(s, pos + 1) {
        let name_end = run_end(s, pos + 1, s.len() as int, CharClass::Alpha);
        Some((name_end, s.subrange(pos + 1, name_end)))
    } else {
        None
    }
}

/// A tag at `pos`: `<`, the inside of a start tag or of an end tag, and `>`.
/// Gives the position behind the `>`, and the node. The name of an end tag is
/// not held against the start tags before it.
pub open spec fn tag_at(s: Seq<char>, pos: int) -> Option<(int, NodeView)> {
    let inside = pos + JSX_BLOCK_START@.len();
    if starts_with(s, pos, JSX_BLOCK_START@) {
        match jsx_block_at(s, inside) {
            Some((end, block)) => if starts_with(s, end, JSX_BLOCK_END@) {
                Some((end + JSX_BLOCK_END@.len(), NodeView::JsxBlock(block)))
            } else {
                None
            },
            None => match jsx_close_at(s, inside) {
                Some((end, name)) => if starts_with(s, end, JSX_BLOCK_END@) {
                    Some((end + JSX_BLOCK_END@.len(), NodeView::JsxClose(name)))
                } else {
                    None
                },
                None => None,
            },
        }
    } else {
        None
    }
}

/// The parameters of a directive from `pos` on, where the first of them
/// starts: identifiers with separators between them, then blanks and `#}`
/// behind the last. Gives the position behind the `#}`, and the parameters.
pub open spec fn params_at(s: Seq<char>, pos: int) -> Option<(int, Seq<Seq<char>>)>
    decreases s.len() - pos,
{
    let word_end = run_end(s, pos, s.len() as int, CharClass::Alpha);
    let next = run_end(s, word_end, s.len() as int, CharClass::Gap);
    let close = run_end(s, word_end, s.len() as int, CharClass::Blank);
    if 0 <= pos < word_end <= s.len() {
        if word_end < next && alpha_at(s, next) {
            match params_at(s, next) {
                Some((end, rest)) => Some((end, seq![s.subrange(pos, word_end)] + rest)),
                None => None,
            }
        } else if word_end < close && starts_with(s, close, MACRO_DEF_END@) {
            Some((close + MACRO_DEF_END@.len(), seq![s.subrange(pos, word_end)]))
        } else {
            None
        }
    } else {
        None
    }
}

/// A directive at `pos`: `{#def`, blanks, and the parameters up to `#}`.
/// Gives the position behind the `#}`, and the parameters. Blanks are spaces
/// and tabs; between two parameters a line may end as well.
pub open spec fn macro_def_at(s: Seq<char>, pos: int) -> Option<(int, Seq<Seq<char>>)> {
    let blanks = pos + MACRO_DEF_START@.len();
    let first = run_end(s, blanks, s.len() as int, CharClass::Blank);
    if directive_start(s, pos) && blanks < first {
        params_at(s, first)
    } else {
        None
    }
}

/// The node at `pos`: literal text if no marker starts there, else the
/// directive or the tag that the marker has to be. Gives where the node ends,
/// and the node.
pub open spec fn node_at(s: Seq<char>, pos: int) -> Option<(int, NodeView)> {
    match lit_at(s, pos) {
        Some((end, val)) => Some((end, NodeView::Lit(val))),
        None => match macro_def_at(s, pos) {
            Some((end, args)) => Some((end, NodeView::MacroDef(args))),
            None => tag_at(s, pos),
        },
    }
}

/// The nodes from `pos` on, one behind the other, as far as they go. Gives
/// where they stop, which is the end of the text or the start of a marker
/// that does not follow its grammar, and the nodes.
pub open spec fn nodes_from(s: Seq<char>, pos: int) -> (int, Seq<NodeView>)
    decreases s.len() - pos,
{
    match node_at(s, pos) {
        Some((end, node)) => if pos < end <= s.len() {
            (nodes_from(s, end).0, seq![node] + nodes_from(s, end).1)
        } else {
            (pos, Seq::empty())
        },
        None => (pos, Seq::empty()),
    }
}

/// The nodes of a whole template, if its nodes reach its end.
pub open spec fn parsed(s: Seq<char>) -> Option<Seq<NodeView>> {
    if nodes_from(s, 0).0 == s.len() {
        Some(nodes_from(s, 0).1)
    } else {
        None
    }
}

} // verus!
