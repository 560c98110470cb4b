//! What holds of rewriting, whatever the template.
//!
//! A self-closing tag is a start tag with an end tag behind it
//! ([`lemma_self_closing`]). Every component is imported once, where it is
//! named first ([`lemma_distinct`]). A directive gives the parameters and
//! leaves no other trace ([`lemma_directive`]). A text without markers is the
//! body of its macro ([`lemma_text_without_markers_is_the_body`]), and a
//! template with a tag that is never closed comes back as it is
//! ([`lemma_unclosed_tag_falls_back`]).

use vstd::prelude::*;
use crate::grammar::{close_start, lemma_next_marker_is, marker_start, open_start, parsed};
use crate::node::{JsxBlockView, NodeView};
use crate::rewriter::{
    block_idents, blocks, body, distinct, emitted, first_def, imports, rendered, underscored,
};
use crate::rewritten;
use crate::scan_laws::{
    lemma_empty_text, lemma_scan_stops, lemma_text_without_markers, lemma_unclosed_tag, node_ends,
};
use crate::syntax::{macro_close, macro_open};

verus! {

broadcast use vstd::string::group_string_axioms;

/// The body of nodes put together is their bodies put together.
pub proof fn lemma_body_of_both(first: Seq<NodeView>, second: Seq<NodeView>)
    ensures
        body(first + second) == body(first) + body(second),
    decreases second.len(),
{
    if second.len() > 0 {
        lemma_body_of_both(first, second.drop_last());
        assert((first + second).drop_last() =~= first + second.drop_last());
    }
}

/// The start tags of nodes put together are their start tags put together.
pub proof fn lemma_blocks_of_both(first: Seq<NodeView>, second: Seq<NodeView>)
    ensures
        blocks(first + second) == blocks(first) + blocks(second),
    decreases second.len(),
{
    if second.len() > 0 {
        lemma_blocks_of_both(first, second.drop_last());
        assert((first + second).drop_last() =~= first + second.drop_last());
    }
}

/// The first directive of nodes put together is the first directive of the
/// first part, or else that of the second part.
pub proof fn lemma_first_def_of_both(first: Seq<NodeView>, second: Seq<NodeView>)
    ensures
        first_def(first + second) == if first_def(first) is Some {
            first_def(first)
        } else {
            first_def(second)
        },
    decreases first.len(),
{
    if first.len() > 0 {
        lemma_first_def_of_both(first.drop_first(), second);
        assert((first + second).drop_first() =~= first.drop_first() + second);
    }
}

/// What one node alone contributes.
proof fn lemma_single(node: NodeView)
    ensures
        body(seq![node]) == emitted(node),
        blocks(seq![node]) == match node {
            NodeView::JsxBlock(tag) => seq![tag],
            _ => Seq::empty(),
        },
        first_def(seq![node]) == match node {
            NodeView::MacroDef(names) => Some(names),
            _ => None,
        },
{
    let one = seq![node];
    let none = Seq::<NodeView>::empty();
    assert(one.drop_last() =~= none);
    assert(one.drop_first() =~= none);
    assert(body(none) =~= Seq::<char>::empty());
    assert(blocks(none) =~= Seq::<JsxBlockView>::empty());
    assert(first_def(none) is None);
}

/// A self-closing tag is rewritten as the same tag, not self-closing, with
/// an end tag behind it, wherever among the nodes it stands and whatever
/// name the end tag has.
pub proof fn lemma_self_closing(
    before: Seq<NodeView>,
    name: Seq<char>,
    args: Seq<Seq<char>>,
    closing: Seq<char>,
    after: Seq<NodeView>,
    macro_name: Seq<char>,
)
    ensures
        rendered(
            before + seq![NodeView::JsxBlock(JsxBlockView { name, args, self_closing: true })]
                + after,
            macro_name,
        ) == rendered(
            before + seq![
                NodeView::JsxBlock(JsxBlockView { name, args, self_closing: false }),
                NodeView::JsxClose(closing),
            ] + after,
            macro_name,
        ),
{
    let closed = NodeView::JsxBlock(JsxBlockView { name, args, self_closing: true });
    let open = NodeView::JsxBlock(JsxBlockView { name, args, self_closing: false });
    let end = NodeView::JsxClose(closing);
    let one = seq![closed];
    let two = seq![open, end];
    assert(two =~= seq![open] + seq![end]);
    lemma_single(closed);
    lemma_single(open);
    lemma_single(end);
    lemma_body_of_both(seq![open], seq![end]);
    lemma_blocks_of_both(seq![open], seq![end]);
    lemma_first_def_of_both(seq![open], seq![end]);

    lemma_body_of_both(before, one);
    lemma_body_of_both(before + one, after);
    lemma_body_of_both(before, two);
    lemma_body_of_both(before + two, after);

    lemma_first_def_of_both(before, one);
    lemma_first_def_of_both(before + one, after);
    lemma_first_def_of_both(before, two);
    lemma_first_def_of_both(before + two, after);

    lemma_blocks_of_both(before, one);
    lemma_blocks_of_both(before + one, after);
    lemma_blocks_of_both(before, two);
    lemma_blocks_of_both(before + two, after);
    assert(block_idents(blocks(before + one + after))
        =~= block_idents(blocks(before + two + after)));
}

/// A directive gives the macro its parameters, if no directive stands
/// before it, and nothing else: the imports and the body are those of the
/// other nodes.
pub proof fn lemma_directive(
    before: Seq<NodeView>,
    names: Seq<Seq<char>>,
    after: Seq<NodeView>,
    macro_name: Seq<char>,
)
    requires
        first_def(before) is None,
    ensures
        rendered(before + seq![NodeView::MacroDef(names)] + after, macro_name)
            == imports(blocks(before + after)) + macro_open(macro_name, names)
            + body(before + after) + macro_close(macro_name),
{
    let def = NodeView::MacroDef(names);
    let one = seq![def];
    lemma_single(def);
    lemma_body_of_both(before, one);
    lemma_body_of_both(before + one, after);
    lemma_body_of_both(before, after);
    lemma_blocks_of_both(before, one);
    lemma_blocks_of_both(before + one, after);
    lemma_blocks_of_both(before, after);
    lemma_first_def_of_both(before, one);
    lemma_first_def_of_both(before + one, after);
}

/// A macro name is as long as the name in lowercase, has `_` wherever that
/// has `-` or `.`, and is the same everywhere else; so no `-` and no `.` is
/// left in it.
pub proof fn lemma_underscored(s: Seq<char>)
    ensures
        underscored(s).len() == s.len(),
        forall|i: int|
            0 <= i < s.len() ==> #[trigger] underscored(s)[i] == if s[i] == '-' || s[i] == '.' {
                '_'
            } else {
                s[i]
            },
        forall|i: int|
            0 <= i < s.len() ==> #[trigger] underscored(s)[i] != '-' && underscored(s)[i] != '.',
{
}

/// `first` stands among `names` before `second` does.
pub open spec fn comes_first(names: Seq<Seq<char>>, first: Seq<char>, second: Seq<char>) -> bool {
    exists|p: int|
        0 <= p < names.len() && #[trigger] names[p] == first && forall|q: int|
            0 <= q <= p ==> #[trigger] names[q] != second
}

/// The names without repetition hold every name once, and no other; and
/// they stand in the order in which the names appeared first.
pub proof fn lemma_distinct(names: Seq<Seq<char>>)
    ensures
        distinct(names).no_duplicates(),
        forall|name: Seq<char>| distinct(names).contains(name) <==> names.contains(name),
        forall|i: int, j: int|
            0 <= i < j < distinct(names).len() ==> comes_first(
                names,
                #[trigger] distinct(names)[i],
                #[trigger] distinct(names)[j],
            ),
    decreases names.len(),
{
    if names.len() > 0 {
        let front = names.drop_last();
        let last = names.last();
        let found = distinct(front);
        lemma_distinct(front);
        assert forall|name: Seq<char>| distinct(names).contains(name) <==> names.contains(
            name,
        ) by {
            if names.contains(name) {
                let p = choose|p: int| 0 <= p < names.len() && names[p] == name;
                if p < front.len() {
                    assert(front[p] == name);
                    assert(front.contains(name));
                    let k = choose|k: int| 0 <= k < found.len() && found[k] == name;
                    assert(distinct(names)[k] == name);
                } else if !found.contains(last) {
                    assert(distinct(names)[found.len() as int] == name);
                }
            }
            if distinct(names).contains(name) {
                let k = choose|k: int| 0 <= k < distinct(names).len() && distinct(names)[k] == name;
                if k < found.len() {
                    assert(front.contains(name));
                }
            }
        }
        assert forall|i: int, j: int| 0 <= i < j < distinct(names).len() implies comes_first(
            names,
            #[trigger] distinct(names)[i],
            #[trigger] distinct(names)[j],
        ) by {
            let first = distinct(names)[i];
            let second = distinct(names)[j];
            if j < found.len() {
                let p = choose|p: int|
                    0 <= p < front.len() && #[trigger] front[p] == first && forall|q: int|
                        0 <= q <= p ==> #[trigger] front[q] != second;
                assert forall|q: int| 0 <= q <= p implies #[trigger] names[q] != second by {
                    assert(front[q] != second);
                }
            } else {
                assert(!front.contains(last));
                assert(front.contains(first));
                let p = choose|p: int| 0 <= p < front.len() && front[p] == first;
                assert forall|q: int| 0 <= q <= p implies #[trigger] names[q] != second by {
                    if names[q] == second {
                        assert(front[q] == last);
                    }
                }
            }
        }
    }
}

/// A template in which no marker starts is rewritten into a macro without
/// imports and without parameters, whose body is the template, unchanged.
pub proof fn lemma_text_without_markers_is_the_body(s: Seq<char>, macro_name: Seq<char>)
    requires
        forall|i: int| 0 <= i < s.len() ==> !marker_start(s, i),
    ensures
        rewritten(macro_name, s)
            == macro_open(macro_name, Seq::empty()) + s + macro_close(macro_name),
{
    let none = Seq::<NodeView>::empty();
    let one = seq![NodeView::Lit(s)];
    let whole = macro_open(macro_name, Seq::empty()) + s + macro_close(macro_name);
    if s.len() == 0 {
        lemma_empty_text();
        assert(rendered(none, macro_name) =~= whole);
    } else {
        lemma_text_without_markers(s);
        lemma_single(NodeView::Lit(s));
        assert(rendered(one, macro_name) =~= whole);
    }
}

/// A template whose first marker is a tag that has no `>` behind it does
/// not scan, and is rewritten into itself.
pub proof fn lemma_unclosed_tag_falls_back(s: Seq<char>, at: int, macro_name: Seq<char>)
    requires
        forall|i: int| 0 <= i < at ==> !marker_start(s, i),
        open_start(s, at) || close_start(s, at),
        forall|i: int| at <= i < s.len() ==> s[i] != '>',
    ensures
        parsed(s) is None,
        rewritten(macro_name, s) == s,
{
    reveal_strlit("<");
    reveal_strlit("</");
    if at > 0 {
        lemma_next_marker_is(s, 0, at);
        assert(node_ends(s, 0)[0] == at);
    }
    lemma_unclosed_tag(s, at);
    lemma_scan_stops(s, 0, at);
}

} // verus!
