//! The rewriter: from the nodes of a template to the source of a macro.
//!
//! A template becomes one macro of the host engine. Its output has four
//! parts, in this order: one import for each component that the template
//! uses, the opening of the macro with the template's parameters, the body,
//! in which every tag has become a call, and the closing of the macro.
//!
//! The output is stated as spec functions ([`imports`], [`body`], and
//! [`rendered`] for the whole); the methods of [`Rewriter`] are proved to
//! append exactly these texts to their buffer.

use vstd::prelude::*;
use crate::node::{node_views, JsxBlock, JsxBlockView, JsxClose, MacroDef, Node, NodeView};
use crate::syntax::{
    call_close, call_open, import_line, macro_close, macro_open, write_call_close,
    write_call_open, write_import, write_macro_close, write_macro_open,
};
use crate::text::texts;
use crate::trusted::{file_stem, lowercase, path_stem};

verus! {

broadcast use vstd::string::group_string_axioms;

/// The text with every `-` and every `.` replaced by `_`.
pub open spec fn underscored(s: Seq<char>) -> Seq<char> {
    s.map_values(
        |c: char|
            if c == '-' || c == '.' {
                '_'
            } else {
                c
            },
    )
}

/// The name of the macro that a name stands for: in lowercase, and with
/// `_` for `-` and `.`.
pub open spec fn macro_ident(name: Seq<char>) -> Seq<char> {
    underscored(lowercase(name))
}

/// The name of the macro that the file at `path` becomes: the macro name of
/// the path's stem.
pub open spec fn normalized(path: Seq<char>) -> Seq<char>
    recommends
        path_stem(path) is Some,
{
    macro_ident(path_stem(path).unwrap())
}

/// Replaces every `-` and every `.` by `_`.
pub fn underscore(s: &str) -> (out: String)
    ensures
        out@ == underscored(s@),
{
    let mut out = String::new();
    for c in it: s.chars()
        invariant
            it.seq() == s@,
            out@ == underscored(it.seq().take(it.index())),
    {
        proof {
            let seen = it.seq().take(it.index());
            assert(underscored(seen.push(c)) =~= underscored(seen).push(
                if c == '-' || c == '.' {
                    '_'
                } else {
                    c
                },
            ));
        }
        if c == '-' || c == '.' {
            out.push('_');
        } else {
            out.push(c);
        }
    }
    out
}

/// The macro name of a name that is already free of directories and
/// extension.
pub fn macro_name(name: &str) -> (out: String)
    ensures
        out@ == macro_ident(name@),
{
    let lower = name.to_lowercase();
    underscore(lower.as_str())
}

/// The macro name of the file at `path`.
pub fn normalize(path: &str) -> (out: String)
    requires
        path_stem(path@) is Some,
    ensures
        out@ == normalized(path@),
{
    let stem = file_stem(path).unwrap();
    macro_name(stem.as_str())
}

/// The macro name of the file at `path`, where the path has a stem.
pub fn try_normalize(path: &str) -> (out: Option<String>)
    ensures
        match out {
            Some(name) => path_stem(path@) is Some && name@ == normalized(path@),
            None => path_stem(path@) is None,
        },
{
    match file_stem(path) {
        Some(_) => Some(normalize(path)),
        None => None,
    }
}

/// The start tags among the nodes, in their order.
pub open spec fn blocks(nodes: Seq<NodeView>) -> Seq<JsxBlockView>
    decreases nodes.len(),
{
    if nodes.len() == 0 {
        Seq::empty()
    } else {
        match nodes.last() {
            NodeView::JsxBlock(block) => blocks(nodes.drop_last()).push(block),
            _ => blocks(nodes.drop_last()),
        }
    }
}

/// The macro names of the components that the start tags name, tag by tag.
pub open spec fn block_idents(tags: Seq<JsxBlockView>) -> Seq<Seq<char>> {
    tags.map_values(|tag: JsxBlockView| macro_ident(tag.name))
}

/// The names without repetition: each name stands where it stood first.
pub open spec fn distinct(names: Seq<Seq<char>>) -> Seq<Seq<char>>
    decreases names.len(),
{
    if names.len() == 0 {
        names
    } else if distinct(names.drop_last()).contains(names.last()) {
        distinct(names.drop_last())
    } else {
        distinct(names.drop_last()).push(names.last())
    }
}

/// The import lines of the macros `names`, one behind the other.
pub open spec fn import_lines(names: Seq<Seq<char>>) -> Seq<char>
    decreases names.len(),
{
    if names.len() == 0 {
        Seq::empty()
    } else {
        import_lines(names.drop_last()) + import_line(names.last())
    }
}

/// The imports that the start tags `tags` need: one line for each macro,
/// in the order in which the tags name the macros first.
pub open spec fn imports(tags: Seq<JsxBlockView>) -> Seq<char> {
    import_lines(distinct(block_idents(tags)))
}

/// The parameters that the first directive among the nodes declares.
pub open spec fn first_def(nodes: Seq<NodeView>) -> Option<Seq<Seq<char>>>
    decreases nodes.len(),
{
    if nodes.len() == 0 {
        None
    } else {
        match nodes.first() {
            NodeView::MacroDef(params) => Some(params),
            _ => first_def(nodes.drop_first()),
        }
    }
}

/// The parameters of the macro: those of the first directive, and none
/// where there is no directive.
pub open spec fn params(def: Option<Seq<Seq<char>>>) -> Seq<Seq<char>> {
    match def {
        Some(params) => params,
        None => Seq::empty(),
    }
}

/// The call that a start tag becomes. A self-closing tag is a call that
/// ends at once.
pub open spec fn call(tag: JsxBlockView) -> Seq<char> {
    if tag.self_closing {
        call_open(macro_ident(tag.name), tag.args) + call_close()
    } else {
        call_open(macro_ident(tag.name), tag.args)
    }
}

/// What one node puts into the body: a literal its text, a start tag a call,
/// an end tag the end of a call, and a directive nothing.
pub open spec fn emitted(node: NodeView) -> Seq<char> {
    match node {
        NodeView::Lit(val) => val,
        NodeView::JsxBlock(tag) => call(tag),
        NodeView::JsxClose(_) => call_close(),
        NodeView::MacroDef(_) => Seq::empty(),
    }
}

/// The body: what the nodes emit, in their order.
pub open spec fn body(nodes: Seq<NodeView>) -> Seq<char>
    decreases nodes.len(),
{
    if nodes.len() == 0 {
        Seq::empty()
    } else {
        body(nodes.drop_last()) + emitted(nodes.last())
    }
}

/// The whole output for the nodes of a template and the name of its macro.
pub open spec fn rendered(nodes: Seq<NodeView>, macro_name: Seq<char>) -> Seq<char> {
    imports(blocks(nodes)) + macro_open(macro_name, params(first_def(nodes))) + body(nodes)
        + macro_close(macro_name)
}

/// The text that is being written.
pub struct Buffer {
    pub buf: String,
}

impl View for Buffer {
    type V = Seq<char>;

    open spec fn view(&self) -> Seq<char> {
        self.buf@
    }
}

impl Buffer {
    /// A buffer with nothing in it.
    pub fn new() -> (buffer: Buffer)
        ensures
            buffer@ == Seq::<char>::empty(),
    {
        Buffer { buf: String::new() }
    }

    /// Appends `s` and ends the line.
    pub fn writeln(&mut self, s: &str)
        ensures
            final(self)@ == (old(self)@ + s@).push('\n'),
    {
        if !s.is_empty() {
            self.write(s);
        }
        self.buf.push('\n');
        assert(old(self)@ + s@ =~= if s@.len() == 0 {
            old(self)@
        } else {
            old(self)@ + s@
        });
    }

    /// Appends `s`.
    pub fn write(&mut self, s: &str)
        ensures
            final(self)@ == old(self)@ + s@,
    {
        self.buf.append(s);
    }
}

/// What a directive that may be there declares.
pub open spec fn def_view(def: Option<&MacroDef>) -> Option<Seq<Seq<char>>> {
    match def {
        Some(def) => Some(def@),
        None => None,
    }
}

/// The views of the start tags that the references point to.
pub open spec fn tag_views(tags: Seq<&JsxBlock>) -> Seq<JsxBlockView> {
    tags.map_values(|tag: &JsxBlock| tag@)
}

/// Whether `name` is one of `names`.
fn is_listed(names: &Vec<String>, name: &String) -> (b: bool)
    ensures
        b == texts(names@).contains(name@),
{
    let mut i: usize = 0;
    while i < names.len()
        invariant
            i <= names.len(),
            forall|j: int| 0 <= j < i ==> texts(names@)[j] != name@,
        decreases names.len() - i,
    {
        if names[i] == *name {
            assert(texts(names@)[i as int] == name@);
            return true;
        }
        i += 1;
    }
    false
}

/// Writes the macro for the nodes of one template.
pub struct Rewriter<'a> {
    nodes: &'a [Node],
}

impl<'a> View for Rewriter<'a> {
    type V = Seq<NodeView>;

    closed spec fn view(&self) -> Seq<NodeView> {
        node_views(self.nodes@)
    }
}

impl<'a> Rewriter<'a> {
    /// The rewriter of `nodes`.
    pub fn new(nodes: &'a [Node]) -> (rewriter: Self)
        ensures
            rewriter@ == node_views(nodes@),
    {
        Self { nodes }
    }

    /// The source of the macro `macro_name` for the nodes.
    pub fn build(&self, macro_name: &str) -> (out: String)
        ensures
            out@ == rendered(self@, macro_name@),
    {
        let mut buf = Buffer::new();
        self.rewrite_template(&mut buf, macro_name);
        buf.buf
    }

    /// Appends the four parts of the output: the imports, collected from
    /// all the start tags, the opening of the macro with the parameters of
    /// the first directive, the body, and the closing.
    pub fn rewrite_template(&self, buf: &mut Buffer, macro_name: &str)
        ensures
            final(buf)@ == old(buf)@ + rendered(self@, macro_name@),
    {
        let mut tags: Vec<&JsxBlock> = Vec::new();
        let mut i: usize = 0;
        while i < self.nodes.len()
            invariant
                i <= self.nodes.len(),
                tag_views(tags@) == blocks(self@.take(i as int)),
            decreases self.nodes.len() - i,
        {
            proof {
                assert(self@.take(i + 1).drop_last() =~= self@.take(i as int));
            }
            match &self.nodes[i] {
                Node::JsxBlock(tag) => {
                    tags.push(tag);
                },
                _ => {},
            }
            i += 1;
        }
        assert(self@.take(self.nodes.len() as int) =~= self@);
        self.write_imports(buf, tags.as_slice());

        let mut def: Option<&MacroDef> = None;
        let mut j: usize = 0;
        while j < self.nodes.len() && def.is_none()
            invariant
                j <= self.nodes.len(),
                match def {
                    Some(_) => first_def(self@) == def_view(def),
                    None => first_def(self@) == first_def(self@.skip(j as int)),
                },
            decreases self.nodes.len() - j,
        {
            proof {
                assert(self@.skip(j as int).drop_first() =~= self@.skip(j + 1));
            }
            match &self.nodes[j] {
                Node::MacroDef(found) => {
                    def = Some(found);
                },
                _ => {},
            }
            j += 1;
        }
        self.write_macro(buf, macro_name, def);

        self.visit_nodes(buf, self.nodes);
        self.write_macro_end(buf, macro_name);
    }

    /// Appends the body: what each of `nodes` emits.
    pub fn visit_nodes(&self, buf: &mut Buffer, nodes: &[Node])
        ensures
            final(buf)@ == old(buf)@ + body(node_views(nodes@)),
    {
        let ghost all = node_views(nodes@);
        let mut i: usize = 0;
        while i < nodes.len()
            invariant
                i <= nodes.len(),
                all == node_views(nodes@),
                buf@ == old(buf)@ + body(all.take(i as int)),
            decreases nodes.len() - i,
        {
            proof {
                assert(all.take(i + 1).drop_last() =~= all.take(i as int));
            }
            match &nodes[i] {
                Node::JsxBlock(tag) => {
                    self.write_call(buf, tag);
                },
                Node::JsxClose(tag) => {
                    self.write_call_end(buf, tag);
                },
                Node::Lit(source) => {
                    buf.write(source.val.as_str());
                },
                Node::MacroDef(_) => {},
            }
            i += 1;
        }
        assert(all.take(nodes.len() as int) =~= all);
    }

    /// Appends the imports that `tags` need: one line for each macro, in
    /// the order in which the tags name the macros first.
    pub fn write_imports(&self, buf: &mut Buffer, tags: &[&JsxBlock])
        ensures
            final(buf)@ == old(buf)@ + imports(tag_views(tags@)),
    {
        let ghost idents = block_idents(tag_views(tags@));
        let mut seen: Vec<String> = Vec::new();
        let mut i: usize = 0;
        while i < tags.len()
            invariant
                i <= tags.len(),
                idents == block_idents(tag_views(tags@)),
                texts(seen@) == distinct(idents.take(i as int)),
                buf@ == old(buf)@ + import_lines(texts(seen@)),
            decreases tags.len() - i,
        {
            let name = macro_name(tags[i].name.as_str());
            proof {
                assert(idents.take(i + 1).drop_last() =~= idents.take(i as int));
            }
            if !is_listed(&seen, &name) {
                write_import(buf, name.as_str());
                proof {
                    let listed = texts(seen@);
                    assert(listed.push(name@).drop_last() =~= listed);
                }
                seen.push(name);
            }
            i += 1;
        }
        assert(idents.take(tags.len() as int) =~= idents);
    }

    /// Appends the line that opens the macro, with the parameters of `def`.
    pub fn write_macro(&self, buf: &mut Buffer, macro_name: &str, def: Option<&MacroDef>)
        ensures
            final(buf)@ == old(buf)@ + macro_open(macro_name@, params(def_view(def))),
    {
        match def {
            Some(def) => write_macro_open(buf, macro_name, &def.args),
            None => {
                let none: Vec<String> = Vec::new();
                write_macro_open(buf, macro_name, &none)
            },
        }
    }

    /// Appends the line that closes the macro.
    pub fn write_macro_end(&self, buf: &mut Buffer, macro_name: &str)
        ensures
            final(buf)@ == old(buf)@ + macro_close(macro_name@),
    {
        write_macro_close(buf, macro_name);
    }

    /// Appends the call that the start tag becomes.
    pub fn write_call(&self, buf: &mut Buffer, tag: &JsxBlock)
        ensures
            final(buf)@ == old(buf)@ + call(tag@),
    {
        let name = macro_name(tag.name.as_str());
        write_call_open(buf, name.as_str(), &tag.args);
        if tag.self_closing {
            write_call_close(buf);
        }
    }

    /// Appends the end of a call.
    pub fn write_call_end(&self, buf: &mut Buffer, _tag: &JsxClose)
        ensures
            final(buf)@ == old(buf)@ + call_close(),
    {
        write_call_close(buf);
    }
}

} // verus!
