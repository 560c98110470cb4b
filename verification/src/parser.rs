//! The scanner: from the characters of a template to its nodes.
//!
//! Each parser reads at a position of a buffer of characters and computes the
//! function of the grammar that its contract names. A parser that succeeds
//! gives the position at which it stopped, and what it read.

use vstd::prelude::*;
use crate::grammar::{
    has_closer, is_argument, jsx_block_at, jsx_close_at, lemma_next_marker_is, lit_at,
    macro_def_at, marker_start, next_marker, node_at, nodes_from, params_at, parsed, tag_at,
    upper_at, words, JSX_BLOCK_END, JSX_BLOCK_START, JSX_CLOSE_START, MACRO_DEF_END,
    MACRO_DEF_START,
};
use crate::node::{
    all_well_formed, is_closer, node_views, Ast, JsxBlock, JsxClose, Lit, MacroDef, Node,
    ParseError,
};
use crate::scan_laws::lemma_nodes_well_formed;
use crate::text::{
    char_is_alpha, char_is_upper, chars_of, lemma_run_end, matches_at, skip_run, skip_run_back,
    string_of, texts, CharClass,
};

verus! {

broadcast use vstd::string::group_string_axioms;

/// Whether a capital letter stands at `pos`.
pub fn is_uppercase_first(input: &[char], pos: usize) -> (b: bool)
    ensures
        b == upper_at(input@, pos as int),
{
    pos < input.len() && char_is_upper(input[pos])
}

/// Whether a marker starts at `pos`.
pub fn is_marker_start(input: &[char], pos: usize) -> (b: bool)
    ensures
        b == marker_start(input@, pos as int),
{
    proof {
        reveal_strlit("<");
        reveal_strlit("</");
        reveal_strlit("{#def");
    }
    if pos >= input.len() {
        return false;
    }
    if matches_at(input, pos, JSX_BLOCK_START) && is_uppercase_first(input, pos + 1) {
        return true;
    }
    if matches_at(input, pos, JSX_CLOSE_START) && is_uppercase_first(input, pos + 2) {
        return true;
    }
    matches_at(input, pos, MACRO_DEF_START)
}

/// Walks forward from `pos` to the next start of a marker, or to the end of
/// the text.
pub fn skip_till(input: &[char], pos: usize) -> (end: usize)
    requires
        pos <= input.len(),
    ensures
        end == next_marker(input@, pos as int),
        pos <= end <= input.len(),
{
    let mut end: usize = pos;
    while end < input.len() && !is_marker_start(input, end)
        invariant
            pos <= end <= input.len(),
            forall|i: int| pos <= i < end ==> !marker_start(input@, i),
        decreases input.len() - end,
    {
        end += 1;
    }
    proof {
        lemma_next_marker_is(input@, pos as int, end as int);
    }
    end
}

impl Lit {
    /// Reads literal text at `pos`: everything up to the next marker. Fails
    /// where there is none to read: at the end of the text, and where a
    /// marker starts.
    pub fn parse(input: &[char], pos: usize) -> (r: Result<(usize, Lit), ParseError>)
        ensures
            match r {
                Ok((end, lit)) => {
                    &&& lit_at(input@, pos as int) == Some((end as int, lit@))
                    &&& pos < end <= input.len()
                },
                Err(_) => lit_at(input@, pos as int) is None,
            },
    {
        if pos >= input.len() || is_marker_start(input, pos) {
            return Err(ParseError);
        }
        let end = skip_till(input, pos + 1);
        Ok((end, Lit { val: string_of(input, pos, end) }))
    }
}

/// Splits the characters from `from` up to `to` at separators, and gives the
/// tokens between them.
pub fn split_words(input: &[char], from: usize, to: usize) -> (tokens: Vec<String>)
    requires
        from <= to <= input.len(),
    ensures
        texts(tokens@) == words(input@, from as int, to as int),
{
    let mut tokens: Vec<String> = Vec::new();
    let mut pos: usize = from;
    while pos < to
        invariant
            from <= pos <= to <= input.len(),
            words(input@, from as int, to as int)
                == texts(tokens@) + words(input@, pos as int, to as int),
        decreases to - pos,
    {
        if CharClass::Word.contains(input[pos]) {
            let end = skip_run(input, pos, to, CharClass::Word);
            let token = string_of(input, pos, end);
            proof {
                lemma_run_end(input@, pos + 1, to as int, CharClass::Word);
            }
            tokens.push(token);
            pos = end;
        } else {
            pos += 1;
        }
    }
    tokens
}

/// Whether the token ends with `/`.
pub fn ends_with_slash(token: &str) -> (b: bool)
    ensures
        b == is_closer(token@),
{
    let n = token.unicode_len();
    n > 0 && token.get_char(n - 1) == '/'
}

impl JsxBlock {
    /// Reads the inside of a start tag at `pos`, which is just behind the
    /// `<`: the name, then everything up to the next `>` or the end of the
    /// text, as tokens. Fails where no capital letter stands at `pos`.
    pub fn parse(input: &[char], pos: usize) -> (r: Result<(usize, JsxBlock), ParseError>)
        ensures
            match r {
                Ok((end, block)) => {
                    &&& jsx_block_at(input@, pos as int) == Some((end as int, block@))
                    &&& pos < end <= input.len()
                },
                Err(_) => jsx_block_at(input@, pos as int) is None,
            },
    {
        if !is_uppercase_first(input, pos) {
            return Err(ParseError);
        }
        let name_end = skip_run(input, pos, input.len(), CharClass::Alpha);
        let end = skip_run(input, name_end, input.len(), CharClass::Inner);
        let start = skip_run(input, name_end, end, CharClass::Space);
        let stop = skip_run_back(input, start, end, CharClass::Space);
        let tokens = split_words(input, start, stop);
        let ghost all = texts(tokens@);

        let mut args: Vec<String> = Vec::new();
        let mut self_closing = false;
        for token in it: tokens
            invariant
                texts(it.seq()) == all,
                texts(args@) == all.take(it.index()).filter(is_argument()),
                self_closing == has_closer(all.take(it.index())),
        {
            let ghost seen = all.take(it.index());
            proof {
                assert(all.take(it.index() + 1) =~= seen.push(token@));
                seen.lemma_filter_push(token@, is_argument());
            }
            if ends_with_slash(token.as_str()) {
                self_closing = true;
                assert(is_closer(seen.push(token@)[seen.len() as int]));
            } else {
                args.push(token);
            }
        }
        proof {
            assert(all.take(all.len() as int) =~= all);
            lemma_run_end(input@, pos as int, input@.len() as int, CharClass::Alpha);
        }
        Ok((end, JsxBlock { name: string_of(input, pos, name_end), args, self_closing }))
    }
}

impl JsxClose {
    /// Reads the inside of an end tag at `pos`, which is just behind the
    /// `<`: `/` and the name. Fails where `/` and a capital letter do not
    /// stand at `pos`.
    pub fn parse(input: &[char], pos: usize) -> (r: Result<(usize, JsxClose), ParseError>)
        ensures
            match r {
                Ok((end, close)) => {
                    &&& jsx_close_at(input@, pos as int) == Some((end as int, close@))
                    &&& pos < end <= input.len()
                },
                Err(_) => jsx_close_at(input@, pos as int) is None,
            },
    {
        if pos >= input.len() || input[pos] != '/' || !is_uppercase_first(input, pos + 1) {
            return Err(ParseError);
        }
        let name_end = skip_run(input, pos + 1, input.len(), CharClass::Alpha);
        Ok((name_end, JsxClose { name: string_of(input, pos + 1, name_end) }))
    }
}

/// The parameters read so far, put in front of what is read from here on.
spec fn after(
    seen: Seq<Seq<char>>,
    rest: Option<(int, Seq<Seq<char>>)>,
) -> Option<(int, Seq<Seq<char>>)> {
    match rest {
        Some((end, words)) => Some((end, seen + words)),
        None => None,
    }
}

impl MacroDef {
    /// Reads a directive at `pos`: `{#def`, blanks, one or more parameters
    /// with separators between them, blanks, and `#}`. Fails where the text
    /// at `pos` is not of this form.
    pub fn parse(input: &[char], pos: usize) -> (r: Result<(usize, MacroDef), ParseError>)
        ensures
            match r {
                Ok((end, def)) => {
                    &&& macro_def_at(input@, pos as int) == Some((end as int, def@))
                    &&& pos < end <= input.len()
                },
                Err(_) => macro_def_at(input@, pos as int) is None,
            },
    {
        if !matches_at(input, pos, MACRO_DEF_START) {
            return Err(ParseError);
        }
        proof {
            reveal_strlit("{#def");
        }
        let len = input.len();
        let first = skip_run(input, pos + 5, len, CharClass::Blank);
        if first == pos + 5 {
            return Err(ParseError);
        }
        let mut args: Vec<String> = Vec::new();
        let mut at: usize = first;
        loop
            invariant
                pos < at <= input.len(),
                len == input.len(),
                macro_def_at(input@, pos as int) == params_at(input@, first as int),
                params_at(input@, first as int)
                    == after(texts(args@), params_at(input@, at as int)),
            decreases input.len() - at,
        {
            let word_end = skip_run(input, at, len, CharClass::Alpha);
            if word_end == at {
                return Err(ParseError);
            }
            args.push(string_of(input, at, word_end));
            let next = skip_run(input, word_end, len, CharClass::Gap);
            if word_end < next && next < len && char_is_alpha(input[next]) {
                at = next;
            } else {
                let close = skip_run(input, word_end, len, CharClass::Blank);
                if word_end < close && matches_at(input, close, MACRO_DEF_END) {
                    proof {
                        reveal_strlit("#}");
                    }
                    return Ok((close + 2, MacroDef { args }));
                }
                return Err(ParseError);
            }
        }
    }
}

impl Node {
    /// Reads a tag at `pos`: `<`, the inside of a start tag or of an end
    /// tag, and `>`. Fails where no tag starts at `pos`, and where the tag
    /// that starts there is not closed.
    pub fn parse(input: &[char], pos: usize) -> (r: Result<(usize, Node), ParseError>)
        ensures
            match r {
                Ok((end, node)) => {
                    &&& tag_at(input@, pos as int) == Some((end as int, node@))
                    &&& pos < end <= input.len()
                },
                Err(_) => tag_at(input@, pos as int) is None,
            },
    {
        proof {
            reveal_strlit("<");
            reveal_strlit(">");
        }
        if pos >= input.len() || !matches_at(input, pos, JSX_BLOCK_START) {
            return Err(ParseError);
        }
        match JsxBlock::parse(input, pos + 1) {
            Ok((end, block)) => {
                if matches_at(input, end, JSX_BLOCK_END) {
                    Ok((end + 1, Node::JsxBlock(block)))
                } else {
                    Err(ParseError)
                }
            },
            Err(_) => match JsxClose::parse(input, pos + 1) {
                Ok((end, close)) => {
                    if matches_at(input, end, JSX_BLOCK_END) {
                        Ok((end + 1, Node::JsxClose(close)))
                    } else {
                        Err(ParseError)
                    }
                },
                Err(_) => Err(ParseError),
            },
        }
    }

    /// Reads one node at `pos`: literal text, or else a directive, or else a
    /// tag. Fails at the end of the text, and where a marker starts that does
    /// not follow its grammar.
    pub fn next(input: &[char], pos: usize) -> (r: Result<(usize, Node), ParseError>)
        ensures
            match r {
                Ok((end, node)) => {
                    &&& node_at(input@, pos as int) == Some((end as int, node@))
                    &&& pos < end <= input.len()
                },
                Err(_) => node_at(input@, pos as int) is None,
            },
    {
        match Lit::parse(input, pos) {
            Ok((end, lit)) => Ok((end, Node::Lit(lit))),
            Err(_) => match MacroDef::parse(input, pos) {
                Ok((end, def)) => Ok((end, Node::MacroDef(def))),
                Err(_) => Node::parse(input, pos),
            },
        }
    }

    /// Reads nodes from `pos` on for as long as there is one to read. Gives
    /// the position at which it stopped, which is the end of the text unless a
    /// marker starts there that does not follow its grammar, and the nodes.
    pub fn many(input: &[char], pos: usize) -> (r: (usize, Vec<Node>))
        ensures
            (r.0 as int, node_views(r.1@)) == nodes_from(input@, pos as int),
            pos <= input.len() ==> pos <= r.0 <= input.len(),
    {
        let mut nodes: Vec<Node> = Vec::new();
        let mut at: usize = pos;
        loop
            invariant
                pos <= at,
                pos <= input.len() ==> at <= input.len(),
                nodes_from(input@, pos as int).0 == nodes_from(input@, at as int).0,
                nodes_from(input@, pos as int).1
                    == node_views(nodes@) + nodes_from(input@, at as int).1,
            decreases input.len() - at,
        {
            match Node::next(input, at) {
                Ok((end, node)) => {
                    nodes.push(node);
                    at = end;
                },
                Err(_) => {
                    return (at, nodes);
                },
            }
        }
    }
}

impl Ast {
    /// Scans a whole template. Fails if and only if the nodes that can be
    /// read from its start do not reach its end, which is where a marker
    /// starts that does not follow its grammar. The nodes of a template
    /// that scans are well formed.
    pub fn from_str(src: &str) -> (r: Result<Ast, ParseError>)
        ensures
            match r {
                Ok(ast) => parsed(src@) == Some(ast@) && all_well_formed(ast@),
                Err(_) => parsed(src@) is None,
            },
    {
        let input = chars_of(src);
        let (stop, nodes) = Node::many(input.as_slice(), 0);
        proof {
            lemma_nodes_well_formed(input@, 0);
        }
        if stop == input.len() {
            Ok(Ast { nodes })
        } else {
            Err(ParseError)
        }
    }
}

} // verus!
