//! What holds of scanning, whatever the template.
//!
//! The nodes of a scan are well formed ([`lemma_nodes_well_formed`]). They
//! lie one behind the other without a gap, and no other reading of the text
//! goes as far ([`lemma_nodes_tile`], [`lemma_reading_is_the_scan`]). A
//! literal is as long as it can be ([`lemma_literal_is_maximal`]), and a
//! text without markers is one literal ([`lemma_text_without_markers`]). A
//! scan stops for good at a marker that does not follow its grammar
//! ([`lemma_scan_stops`]), such as a tag or a directive that is never closed
//! ([`lemma_unclosed_tag`], [`lemma_unclosed_directive`]).

use vstd::prelude::*;
use crate::grammar::{
    alpha_at, close_start, directive_start, is_argument, jsx_block_at, lemma_next_marker,
    lemma_next_marker_is, lit_at, macro_def_at, marker_start, node_at, nodes_from, open_start,
    params_at, parsed, tag_at, tag_tokens, words, MACRO_DEF_END,
};
use crate::node::{all_well_formed, is_closer, is_component_name, is_param, is_word, NodeView};
use crate::text::{
    is_separator, is_upper, lemma_run_end, lemma_run_start, run_end, run_start, starts_with,
    CharClass,
};

verus! {

broadcast use vstd::string::group_string_axioms;

/// The tokens of a run are words: none is empty, and none holds a separator.
pub proof fn lemma_words_are_words(s: Seq<char>, from: int, to: int)
    requires
        0 <= from <= to <= s.len(),
    ensures
        forall|i: int|
            0 <= i < words(s, from, to).len() ==> is_word(#[trigger] words(s, from, to)[i]),
    decreases to - from,
{
    if from < to {
        if is_separator(s[from]) {
            lemma_words_are_words(s, from + 1, to);
            assert(words(s, from, to) == words(s, from + 1, to));
        } else {
            let end = run_end(s, from, to, CharClass::Word);
            lemma_run_end(s, from, to, CharClass::Word);
            lemma_run_end(s, from + 1, to, CharClass::Word);
            lemma_words_are_words(s, end, to);
            let first = s.subrange(from, end);
            assert(words(s, from, to) == seq![first] + words(s, end, to));
            assert(is_word(first));
        }
    }
}

/// The parameters of a directive are identifiers, there is at least one of
/// them, and the directive ends behind the place where they start.
pub proof fn lemma_params_are_params(s: Seq<char>, pos: int)
    requires
        0 <= pos <= s.len(),
    ensures
        match params_at(s, pos) {
            Some((end, names)) => {
                &&& pos < end <= s.len()
                &&& names.len() > 0
                &&& forall|i: int| 0 <= i < names.len() ==> is_param(#[trigger] names[i])
            },
            None => true,
        },
    decreases s.len() - pos,
{
    let len = s.len() as int;
    let word_end = run_end(s, pos, len, CharClass::Alpha);
    let next = run_end(s, word_end, len, CharClass::Gap);
    let close = run_end(s, word_end, len, CharClass::Blank);
    if pos < word_end <= len {
        lemma_run_end(s, pos, len, CharClass::Alpha);
        let word = s.subrange(pos, word_end);
        assert(is_param(word));
        if word_end < next && alpha_at(s, next) {
            lemma_params_are_params(s, next);
        } else {
            reveal_strlit("#}");
            lemma_run_end(s, word_end, len, CharClass::Blank);
        }
    }
}

/// The run of letters that starts with a capital letter is the name of a
/// component.
proof fn lemma_name(s: Seq<char>, pos: int)
    requires
        0 <= pos < s.len(),
        is_upper(s[pos]),
    ensures
        pos < run_end(s, pos, s.len() as int, CharClass::Alpha) <= s.len(),
        is_component_name(s.subrange(pos, run_end(s, pos, s.len() as int, CharClass::Alpha))),
{
    let len = s.len() as int;
    lemma_run_end(s, pos, len, CharClass::Alpha);
    lemma_run_end(s, pos + 1, len, CharClass::Alpha);
}

/// Every node that the grammar reads is well formed, and ends behind the
/// place where it starts.
pub proof fn lemma_node_well_formed(s: Seq<char>, pos: int)
    requires
        0 <= pos <= s.len(),
    ensures
        match node_at(s, pos) {
            Some((end, node)) => pos < end <= s.len() && node.well_formed(),
            None => true,
        },
{
    let len = s.len() as int;
    reveal_strlit("<");
    reveal_strlit(">");
    reveal_strlit("{#def");
    if lit_at(s, pos) is Some {
        lemma_next_marker(s, pos + 1);
    } else if macro_def_at(s, pos) is Some {
        let first = run_end(s, pos + 5, len, CharClass::Blank);
        lemma_run_end(s, pos + 5, len, CharClass::Blank);
        lemma_params_are_params(s, first);
    } else if tag_at(s, pos) is Some {
        if jsx_block_at(s, pos + 1) is Some {
            lemma_name(s, pos + 1);
            let name_end = run_end(s, pos + 1, len, CharClass::Alpha);
            let end = run_end(s, name_end, len, CharClass::Inner);
            lemma_run_end(s, name_end, len, CharClass::Inner);
            let start = run_end(s, name_end, end, CharClass::Space);
            lemma_run_end(s, name_end, end, CharClass::Space);
            let stop = run_start(s, start, end, CharClass::Space);
            lemma_run_start(s, start, end, CharClass::Space);
            let tokens = tag_tokens(s, name_end, end);
            lemma_words_are_words(s, start, stop);
            let args = tokens.filter(is_argument());
            assert forall|i: int| 0 <= i < args.len() implies is_word(#[trigger] args[i])
                && !is_closer(args[i]) by {
                tokens.lemma_filter_pred(is_argument(), i);
                tokens.lemma_filter_contains_rev(is_argument(), args[i]);
            }
        } else {
            lemma_name(s, pos + 2);
        }
    }
}

/// Every node of a scan is well formed: a literal is never empty, the name
/// of a component is an identifier that starts with a capital letter, an
/// argument is a word that does not end with `/`, and a directive has
/// parameters, each an identifier. The scan stops inside the text.
pub proof fn lemma_nodes_well_formed(s: Seq<char>, pos: int)
    requires
        0 <= pos <= s.len(),
    ensures
        pos <= nodes_from(s, pos).0 <= s.len(),
        all_well_formed(nodes_from(s, pos).1),
    decreases s.len() - pos,
{
    lemma_node_well_formed(s, pos);
    match node_at(s, pos) {
        Some((end, _)) => {
            lemma_nodes_well_formed(s, end);
        },
        None => {},
    }
}

/// Where each of the nodes from `pos` on ends.
pub open spec fn node_ends(s: Seq<char>, pos: int) -> Seq<int>
    decreases s.len() - pos,
{
    match node_at(s, pos) {
        Some((end, _)) => if pos < end <= s.len() {
            seq![end] + node_ends(s, end)
        } else {
            Seq::empty()
        },
        None => Seq::empty(),
    }
}

/// Where a reading from `pos` on has come to after the nodes that end at
/// `ends`: to the last of the ends, and to `pos` itself if there is none.
pub open spec fn end_of(pos: int, ends: Seq<int>) -> int {
    if ends.len() == 0 {
        pos
    } else {
        ends.last()
    }
}

/// Whether `nodes` can be read from `pos` on one behind the other, without a
/// gap, the node of index `k` ending at `ends[k]`: each is what the grammar
/// reads where the one before it ends, the first of them at `pos`.
pub open spec fn reads(s: Seq<char>, pos: int, ends: Seq<int>, nodes: Seq<NodeView>) -> bool {
    &&& ends.len() == nodes.len()
    &&& forall|k: int|
        0 <= k < ends.len() ==> {
            &&& end_of(pos, ends.take(k)) < #[trigger] ends[k] <= s.len()
            &&& node_at(s, end_of(pos, ends.take(k))) == Some((ends[k], nodes[k]))
        }
}

/// The nodes of a scan lie one behind the other and leave no gap, and the
/// scan goes on for as long as there is a node to read. So the parts of the
/// text that the nodes were read from, put together, are the text up to
/// where the scan stops; for a template that scans, they are the whole of it.
pub proof fn lemma_nodes_tile(s: Seq<char>, pos: int)
    requires
        0 <= pos <= s.len(),
    ensures
        reads(s, pos, node_ends(s, pos), nodes_from(s, pos).1),
        nodes_from(s, pos).0 == end_of(pos, node_ends(s, pos)),
        node_at(s, nodes_from(s, pos).0) is None,
    decreases s.len() - pos,
{
    lemma_node_well_formed(s, pos);
    match node_at(s, pos) {
        Some((end, _)) => {
            lemma_nodes_tile(s, end);
            let ends = node_ends(s, pos);
            let nodes = nodes_from(s, pos).1;
            assert forall|k: int| 0 <= k < ends.len() implies {
                &&& end_of(pos, ends.take(k)) < #[trigger] ends[k] <= s.len()
                &&& node_at(s, end_of(pos, ends.take(k))) == Some((ends[k], nodes[k]))
            } by {
                if k > 0 {
                    lemma_end_of_later(pos, end, ends, k);
                }
            }
        },
        None => {},
    }
}

/// Behind the first node, a reading has come as far as the reading of the
/// other nodes that starts where the first node ends.
proof fn lemma_end_of_later(pos: int, end: int, ends: Seq<int>, k: int)
    requires
        0 < k <= ends.len(),
        ends[0] == end,
    ensures
        end_of(pos, ends.take(k)) == end_of(end, ends.drop_first().take(k - 1)),
{
    if k > 1 {
        assert(ends.take(k).last() == ends.drop_first().take(k - 1).last());
    }
}

/// A scan is the only reading that goes on for as long as there is a node
/// to read: nodes that are read one behind the other from `pos` on, up to a
/// place where the grammar reads nothing, are the nodes of the scan.
pub proof fn lemma_reading_is_the_scan(
    s: Seq<char>,
    pos: int,
    ends: Seq<int>,
    nodes: Seq<NodeView>,
)
    requires
        0 <= pos <= s.len(),
        reads(s, pos, ends, nodes),
        node_at(s, end_of(pos, ends)) is None,
    ensures
        nodes_from(s, pos) == (end_of(pos, ends), nodes),
        node_ends(s, pos) == ends,
    decreases ends.len(),
{
    if ends.len() > 0 {
        let end = ends[0];
        let later = ends.drop_first();
        let others = nodes.drop_first();
        assert forall|k: int| 0 <= k < later.len() implies {
            &&& end_of(end, later.take(k)) < #[trigger] later[k] <= s.len()
            &&& node_at(s, end_of(end, later.take(k))) == Some((later[k], others[k]))
        } by {
            lemma_end_of_later(pos, end, ends, k + 1);
        }
        lemma_reading_is_the_scan(s, end, later, others);
    }
}

/// A literal is as long as it can be: no marker starts inside it, and it
/// ends at the end of the text or where a marker starts. So no literal
/// follows a literal.
pub proof fn lemma_literal_is_maximal(s: Seq<char>, pos: int)
    requires
        0 <= pos <= s.len(),
    ensures
        match lit_at(s, pos) {
            Some((end, val)) => {
                &&& pos < end <= s.len()
                &&& val == s.subrange(pos, end)
                &&& forall|i: int| pos <= i < end ==> !marker_start(s, i)
                &&& end < s.len() ==> marker_start(s, end)
                &&& lit_at(s, end) is None
            },
            None => true,
        },
{
    if lit_at(s, pos) is Some {
        lemma_next_marker(s, pos + 1);
    }
}

/// A text in which no marker starts, and which is not empty, scans to one
/// literal: the text itself.
pub proof fn lemma_text_without_markers(s: Seq<char>)
    requires
        s.len() > 0,
        forall|i: int| 0 <= i < s.len() ==> !marker_start(s, i),
    ensures
        parsed(s) == Some(seq![NodeView::Lit(s)]),
{
    let len = s.len() as int;
    lemma_next_marker_is(s, 0, len);
    assert(s.subrange(0, len) =~= s);
    lemma_nothing_at_the_end(s);
}

/// At the end of a text the grammar reads nothing.
pub proof fn lemma_nothing_at_the_end(s: Seq<char>)
    ensures
        node_at(s, s.len() as int) is None,
        nodes_from(s, s.len() as int) == (s.len() as int, Seq::<NodeView>::empty()),
{
    reveal_strlit("<");
    reveal_strlit("{#def");
}

/// The empty text scans to no nodes.
pub proof fn lemma_empty_text()
    ensures
        parsed(Seq::<char>::empty()) == Some(Seq::<NodeView>::empty()),
{
    lemma_nothing_at_the_end(Seq::<char>::empty());
}

/// Whether the scan from `pos` on comes to `at`: `at` is `pos`, or one of
/// the nodes from `pos` on ends there.
pub open spec fn reached(s: Seq<char>, pos: int, at: int) -> bool {
    at == pos || node_ends(s, pos).contains(at)
}

/// Scanning is all or nothing: where the scan comes to a place inside the
/// text at which the grammar reads nothing, it stops, and the template does
/// not scan.
pub proof fn lemma_scan_stops(s: Seq<char>, pos: int, at: int)
    requires
        0 <= pos <= s.len(),
        at < s.len(),
        reached(s, pos, at),
        node_at(s, at) is None,
    ensures
        nodes_from(s, pos).0 == at,
        pos == 0 ==> parsed(s) is None,
    decreases s.len() - pos,
{
    if at != pos {
        match node_at(s, pos) {
            Some((end, _)) => {
                lemma_scan_stops(s, end, at);
            },
            None => {},
        }
    }
}

/// A tag that has no `>` behind it is not read.
pub proof fn lemma_unclosed_tag(s: Seq<char>, at: int)
    requires
        open_start(s, at) || close_start(s, at),
        forall|i: int| at <= i < s.len() ==> s[i] != '>',
    ensures
        node_at(s, at) is None,
{
    let len = s.len() as int;
    reveal_strlit("<");
    reveal_strlit("</");
    reveal_strlit(">");
    reveal_strlit("{#def");
    assert(s.subrange(at, at + 1)[0] == '<');
    if open_start(s, at) {
        let name_end = run_end(s, at + 1, len, CharClass::Alpha);
        lemma_run_end(s, at + 1, len, CharClass::Alpha);
        lemma_run_end(s, name_end, len, CharClass::Inner);
    } else {
        assert(s.subrange(at, at + 2)[1] == '/');
        let name_end = run_end(s, at + 2, len, CharClass::Alpha);
        lemma_run_end(s, at + 2, len, CharClass::Alpha);
        if starts_with(s, name_end, ">"@) {
            assert(s.subrange(name_end, name_end + 1)[0] == '>');
        }
    }
}

/// The parameters of a directive end with `#}`.
proof fn lemma_params_end(s: Seq<char>, pos: int)
    requires
        0 <= pos <= s.len(),
    ensures
        match params_at(s, pos) {
            Some((end, _)) => {
                &&& pos <= end - MACRO_DEF_END@.len()
                &&& starts_with(s, end - MACRO_DEF_END@.len(), MACRO_DEF_END@)
            },
            None => true,
        },
    decreases s.len() - pos,
{
    let len = s.len() as int;
    let word_end = run_end(s, pos, len, CharClass::Alpha);
    let next = run_end(s, word_end, len, CharClass::Gap);
    if pos < word_end <= len {
        if word_end < next && alpha_at(s, next) {
            lemma_params_end(s, next);
        } else {
            lemma_run_end(s, word_end, len, CharClass::Blank);
        }
    }
}

/// A directive that has no `#}` behind it is not read.
pub proof fn lemma_unclosed_directive(s: Seq<char>, at: int)
    requires
        directive_start(s, at),
        forall|i: int| at <= i < s.len() ==> !starts_with(s, i, MACRO_DEF_END@),
    ensures
        node_at(s, at) is None,
{
    let len = s.len() as int;
    reveal_strlit("<");
    reveal_strlit("{#def");
    assert(s.subrange(at, at + 5)[0] == '{');
    let first = run_end(s, at + 5, len, CharClass::Blank);
    lemma_run_end(s, at + 5, len, CharClass::Blank);
    lemma_params_end(s, first);
    reveal_strlit("#}");
}

} // verus!
