//! The nodes of a template, and what they hold.

use vstd::prelude::*;
use crate::text::{is_alpha, is_separator, is_upper, texts};

verus! {

/// The one way in which scanning fails: a marker starts and does not follow
/// its grammar.
#[derive(Debug, PartialEq, Eq)]
pub struct ParseError;

/// A run of literal text.
#[derive(Debug, PartialEq, Eq)]
pub struct Lit {
    pub val: String,
}

/// The start tag of a component.
#[derive(Debug, PartialEq, Eq)]
pub struct JsxBlock {
    pub name: String,
    pub args: Vec<String>,
    pub self_closing: bool,
}

/// The end tag of a component.
#[derive(Debug, PartialEq, Eq)]
pub struct JsxClose {
    pub name: String,
}

/// The directive that declares the parameters of the template.
#[derive(Debug, PartialEq, Eq)]
pub struct MacroDef {
    pub args: Vec<String>,
}

/// One lexical unit of a template.
#[derive(Debug, PartialEq, Eq)]
pub enum Node {
    Lit(Lit),
    JsxBlock(JsxBlock),
    JsxClose(JsxClose),
    MacroDef(MacroDef),
}

/// The nodes of a template, in the order of the text.
#[derive(Debug, PartialEq, Eq)]
pub struct Ast {
    pub nodes: Vec<Node>,
}

/// What a [`JsxBlock`] holds.
pub struct JsxBlockView {
    pub name: Seq<char>,
    pub args: Seq<Seq<char>>,
    pub self_closing: bool,
}

/// What a [`Node`] holds.
pub enum NodeView {
    Lit(Seq<char>),
    JsxBlock(JsxBlockView),
    JsxClose(Seq<char>),
    MacroDef(Seq<Seq<char>>),
}

impl View for Lit {
    type V = Seq<char>;

    open spec fn view(&self) -> Seq<char> {
        self.val@
    }
}

impl View for JsxBlock {
    type V = JsxBlockView;

    open spec fn view(&self) -> JsxBlockView {
        JsxBlockView { name: self.name@, args: texts(self.args@), self_closing: self.self_closing }
    }
}

impl View for JsxClose {
    type V = Seq<char>;

    open spec fn view(&self) -> Seq<char> {
        self.name@
    }
}

impl View for MacroDef {
    type V = Seq<Seq<char>>;

    open spec fn view(&self) -> Seq<Seq<char>> {
        texts(self.args@)
    }
}

impl View for Node {
    type V = NodeView;

    open spec fn view(&self) -> NodeView {
        match self {
            Node::Lit(lit) => NodeView::Lit(lit@),
            Node::JsxBlock(block) => NodeView::JsxBlock(block@),
            Node::JsxClose(close) => NodeView::JsxClose(close@),
            Node::MacroDef(def) => NodeView::MacroDef(def@),
        }
    }
}

/// The views of a sequence of nodes.
pub open spec fn node_views(nodes: Seq<Node>) -> Seq<NodeView> {
    nodes.map_values(|node: Node| node@)
}

impl View for Ast {
    type V = Seq<NodeView>;

    open spec fn view(&self) -> Seq<NodeView> {
        node_views(self.nodes@)
    }
}

/// The name of a component: ASCII letters, the first of them a capital.
pub open spec fn is_component_name(name: Seq<char>) -> bool {
    &&& name.len() > 0
    &&& is_upper(name[0])
    &&& forall|i: int| 0 <= i < name.len() ==> is_alpha(#[trigger] name[i])
}

/// An argument of a tag: not empty, and free of separators.
pub open spec fn is_word(word: Seq<char>) -> bool {
    &&& word.len() > 0
    &&& forall|i: int| 0 <= i < word.len() ==> !is_separator(#[trigger] word[i])
}

/// A parameter of a directive: ASCII letters, at least one.
pub open spec fn is_param(word: Seq<char>) -> bool {
    &&& word.len() > 0
    &&& forall|i: int| 0 <= i < word.len() ==> is_alpha(#[trigger] word[i])
}

/// A token that closes its tag: it ends with `/`.
pub open spec fn is_closer(word: Seq<char>) -> bool {
    word.len() > 0 && word.last() == '/'
}

impl NodeView {
    /// What holds of every node that the scanner makes: a literal is never
    /// empty, a component's name is an identifier that starts with a capital,
    /// the arguments of a start tag are words that do not end with `/`, and a
    /// directive has at least one parameter, each an identifier.
    pub open spec fn well_formed(self) -> bool {
        match self {
            NodeView::Lit(val) => val.len() > 0,
            NodeView::JsxBlock(block) => {
                &&& is_component_name(block.name)
                &&& forall|i: int|
                    0 <= i < block.args.len() ==> is_word(#[trigger] block.args[i])
                        && !is_closer(block.args[i])
            },
            NodeView::JsxClose(name) => is_component_name(name),
            NodeView::MacroDef(args) => {
                &&& args.len() > 0
                &&& forall|i: int| 0 <= i < args.len() ==> is_param(#[trigger] args[i])
            },
        }
    }
}

/// Whether every one of the nodes is well formed.
pub open spec fn all_well_formed(nodes: Seq<NodeView>) -> bool {
    forall|i: int| 0 <= i < nodes.len() ==> (#[trigger] nodes[i]).well_formed()
}

} // verus!
