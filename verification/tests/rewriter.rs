use jrsx::node::{JsxBlock, JsxClose, Lit, MacroDef, Node};
use jrsx::rewriter::{macro_name, normalize, try_normalize, underscore, Buffer, Rewriter};
use jrsx::syntax::{
    file_reference, write_call_close, write_call_open, write_import, write_import_as,
    write_macro_close, write_macro_open,
};
use jrsx::text::{chars_of, join, matches_at, skip_run, skip_run_back, string_of, CharClass};

fn tag(name: &str, args: &[&str], self_closing: bool) -> Node {
    Node::JsxBlock(JsxBlock {
        name: name.to_string(),
        args: args.iter().map(|arg| arg.to_string()).collect(),
        self_closing,
    })
}

fn end(name: &str) -> Node {
    Node::JsxClose(JsxClose { name: name.to_string() })
}

fn text(val: &str) -> Node {
    Node::Lit(Lit { val: val.to_string() })
}

fn params(args: &[&str]) -> Node {
    Node::MacroDef(MacroDef { args: args.iter().map(|arg| arg.to_string()).collect() })
}

fn build(nodes: &[Node], name: &str) -> String {
    Rewriter::new(nodes).build(name)
}

#[test]
fn rewrite_test_normalize() {
    assert_eq!(normalize("templates/hello_world.html"), "hello_world");
    assert_eq!(normalize("templates/hello-world.html"), "hello_world");
    assert_eq!(normalize("templates/hello.world.html"), "hello_world");
}

#[test]
fn rewriter_test_normalize() {
    assert_eq!(normalize("templates/hello_world.html"), "hello_world");
    assert_eq!(normalize("templates/hello-world.html"), "hello_world");
    assert_eq!(normalize("templates/hello.world.html"), "hello_world");
}

#[test]
fn normalize_lowers_the_stem() {
    assert_eq!(normalize("Hello"), "hello");
    assert_eq!(normalize("pages/Index.HTML"), "index");
    assert_eq!(normalize("a/b/My-Page.v2.html"), "my_page_v2");
    assert_eq!(normalize("\u{c9}COLE.html"), "\u{e9}cole");
    assert_eq!(normalize(".hidden"), "_hidden");
    assert_eq!(normalize("dir/"), "dir");
}

#[test]
fn a_path_without_a_stem_has_no_macro_name() {
    assert_eq!(try_normalize(""), None);
    assert_eq!(try_normalize("/"), None);
    assert_eq!(try_normalize(".."), None);
    assert_eq!(try_normalize("templates/.."), None);
    assert_eq!(try_normalize("templates/hello-world.html"), Some("hello_world".to_string()));
}

#[test]
fn macro_names_are_lowercase_with_underscores() {
    assert_eq!(macro_name("Hello"), "hello");
    assert_eq!(macro_name("HelloWorld"), "helloworld");
    assert_eq!(macro_name("a-b.c/D"), "a_b_c/d");
    assert_eq!(macro_name(""), "");
    assert_eq!(underscore("a-b.c_d--..e"), "a_b_c_d____e");
    assert_eq!(underscore("A B"), "A B");
}

#[test]
fn join_puts_the_separator_between_neighbours() {
    let none: Vec<String> = vec![];
    assert_eq!(join(&none, ", "), "");
    assert_eq!(join(&vec!["a".to_string()], ", "), "a");
    assert_eq!(join(&vec!["a".to_string(), "b".to_string(), "c".to_string()], ", "), "a, b, c");
    assert_eq!(join(&vec!["".to_string(), "".to_string()], "-"), "-");
}

#[test]
fn runs_of_a_class() {
    let input = chars_of("abC1 \t\nx>");
    assert_eq!(skip_run(&input, 0, input.len(), CharClass::Alpha), 3);
    assert_eq!(skip_run(&input, 0, 2, CharClass::Alpha), 2);
    assert_eq!(skip_run(&input, 3, input.len(), CharClass::Alpha), 3);
    assert_eq!(skip_run(&input, 4, input.len(), CharClass::Blank), 6);
    assert_eq!(skip_run(&input, 4, input.len(), CharClass::Space), 7);
    assert_eq!(skip_run(&input, 0, input.len(), CharClass::Word), 4);
    assert_eq!(skip_run(&input, 4, input.len(), CharClass::Gap), 7);
    assert_eq!(skip_run(&input, 0, input.len(), CharClass::Gap), 0);
    assert_eq!(skip_run(&input, 0, input.len(), CharClass::Inner), 8);
    assert_eq!(skip_run(&input, 9, input.len(), CharClass::Inner), 9);
    assert_eq!(skip_run_back(&input, 0, 7, CharClass::Space), 4);
    assert_eq!(skip_run_back(&input, 5, 7, CharClass::Space), 5);
    assert_eq!(skip_run_back(&input, 0, 4, CharClass::Space), 4);
    assert_eq!(skip_run_back(&input, 0, 0, CharClass::Space), 0);
}

#[test]
fn buffers_and_strings() {
    let input = chars_of("h\u{e9}llo <b>");
    assert_eq!(input.len(), 9);
    assert_eq!(string_of(&input, 0, 5), "h\u{e9}llo");
    assert_eq!(string_of(&input, 6, 9), "<b>");
    assert_eq!(string_of(&input, 4, 4), "");
    assert!(matches_at(&input, 6, "<b"));
    assert!(matches_at(&input, 9, ""));
    assert!(!matches_at(&input, 7, "<b"));
    assert!(!matches_at(&input, 8, ">>"));
    assert!(!matches_at(&input, 12, ""));
}

#[test]
fn a_buffer_appends() {
    let mut buf = Buffer::new();
    assert_eq!(buf.buf, "");
    buf.write("a");
    buf.writeln("b");
    buf.writeln("");
    buf.write("c");
    assert_eq!(buf.buf, "ab\n\nc");
}

#[test]
fn no_nodes_give_an_empty_macro() {
    assert_eq!(build(&[], "index"), "{% macro index() %}\n{% endmacro index %}\n");
}

#[test]
fn a_literal_is_written_as_it_is() {
    assert_eq!(
        build(&[text("<h1>{{ name }}</h1>\n")], "page"),
        "{% macro page() %}\n<h1>{{ name }}</h1>\n{% endmacro page %}\n"
    );
}

#[test]
fn a_self_closing_tag_is_a_call_that_ends_at_once() {
    assert_eq!(
        build(&[tag("Hello", &["name"], true)], "index"),
        build(&[tag("Hello", &["name"], false), end("Hello")], "index")
    );
    assert_eq!(
        build(&[text("a"), tag("Hello", &[], true), text("b")], "index"),
        build(&[text("a"), tag("Hello", &[], false), end("Other"), text("b")], "index")
    );
}

#[test]
fn arguments_are_joined_with_a_comma_and_a_space() {
    assert_eq!(
        build(&[tag("Hello", &["a", "b=\"c\"", "d"], false)], "index"),
        "{%- import \"hello.html\" as hello_scope -%}\n\
         {% macro index() %}\n\
         {% call hello_scope::hello(a, b=\"c\", d) %}{% endmacro index %}\n"
    );
}

#[test]
fn each_component_is_imported_once_where_it_is_named_first() {
    let nodes = [tag("B", &[], true), tag("A", &[], true), tag("B", &[], true)];
    assert_eq!(
        build(&nodes, "index"),
        "{%- import \"b.html\" as b_scope -%}\n\
         {%- import \"a.html\" as a_scope -%}\n\
         {% macro index() %}\n\
         {% call b_scope::b() %}{% endcall %}\
         {% call a_scope::a() %}{% endcall %}\
         {% call b_scope::b() %}{% endcall %}\
         {% endmacro index %}\n"
    );
}

#[test]
fn components_that_differ_in_case_only_share_an_import() {
    let nodes = [tag("Ab", &[], true), tag("AB", &[], true), tag("C", &[], true), tag("Ab", &[], true)];
    let out = build(&nodes, "index");
    assert_eq!(out.matches("{%- import").count(), 2);
    assert!(out.starts_with(
        "{%- import \"ab.html\" as ab_scope -%}\n{%- import \"c.html\" as c_scope -%}\n{% macro"
    ));
}

#[test]
fn end_tags_import_nothing() {
    assert_eq!(
        build(&[end("Hello")], "index"),
        "{% macro index() %}\n{% endcall %}{% endmacro index %}\n"
    );
}

#[test]
fn the_first_directive_gives_the_parameters() {
    assert_eq!(
        build(&[params(&["name"]), text("Hi")], "hello"),
        "{% macro hello(name) %}\nHi{% endmacro hello %}\n"
    );
    assert_eq!(
        build(&[text("Hi"), params(&["a", "b"]), params(&["c"])], "hello"),
        "{% macro hello(a, b) %}\nHi{% endmacro hello %}\n"
    );
}

#[test]
fn the_methods_write_their_part() {
    let nodes = [params(&["x"]), tag("Hello", &["x"], false), text("!"), end("Hello")];
    let rewriter = Rewriter::new(&nodes);
    let hello =
        JsxBlock { name: "Hello".to_string(), args: vec!["x".to_string()], self_closing: false };
    let closed = JsxBlock { name: "Foo".to_string(), args: vec![], self_closing: true };
    let def = MacroDef { args: vec!["x".to_string(), "y".to_string()] };

    let mut buf = Buffer::new();
    rewriter.write_imports(&mut buf, &[&hello, &closed, &hello]);
    assert_eq!(
        buf.buf,
        "{%- import \"hello.html\" as hello_scope -%}\n{%- import \"foo.html\" as foo_scope -%}\n"
    );

    let mut buf = Buffer::new();
    rewriter.write_macro(&mut buf, "page", Some(&def));
    rewriter.write_macro(&mut buf, "page", None);
    assert_eq!(buf.buf, "{% macro page(x, y) %}\n{% macro page() %}\n");

    let mut buf = Buffer::new();
    rewriter.write_macro_end(&mut buf, "page");
    assert_eq!(buf.buf, "{% endmacro page %}\n");

    let mut buf = Buffer::new();
    rewriter.write_call(&mut buf, &hello);
    rewriter.write_call(&mut buf, &closed);
    rewriter.write_call_end(&mut buf, &JsxClose { name: "Hello".to_string() });
    assert_eq!(
        buf.buf,
        "{% call hello_scope::hello(x) %}{% call foo_scope::foo() %}{% endcall %}{% endcall %}"
    );

    let mut buf = Buffer::new();
    buf.write(">");
    rewriter.visit_nodes(&mut buf, &nodes[1..]);
    assert_eq!(buf.buf, ">{% call hello_scope::hello(x) %}!{% endcall %}");

    let mut buf = Buffer::new();
    buf.write(">");
    rewriter.rewrite_template(&mut buf, "page");
    assert_eq!(
        buf.buf,
        ">{%- import \"hello.html\" as hello_scope -%}\n\
         {% macro page(x) %}\n\
         {% call hello_scope::hello(x) %}!{% endcall %}{% endmacro page %}\n"
    );
}

#[test]
fn the_texts_of_the_host_syntax() {
    let none: Vec<String> = vec![];
    let two = vec!["a".to_string(), "b=1".to_string()];

    let mut buf = Buffer::new();
    write_import(&mut buf, "hello");
    assert_eq!(buf.buf, "{%- import \"hello.html\" as hello_scope -%}\n");

    let mut buf = Buffer::new();
    write_import_as(&mut buf, "pages/hello.txt", "hello");
    assert_eq!(buf.buf, "{%- import \"pages/hello.txt\" as hello_scope -%}\n");

    let mut buf = Buffer::new();
    write_macro_open(&mut buf, "index", &none);
    write_macro_open(&mut buf, "index", &two);
    assert_eq!(buf.buf, "{% macro index() %}\n{% macro index(a, b=1) %}\n");

    let mut buf = Buffer::new();
    write_macro_close(&mut buf, "index");
    assert_eq!(buf.buf, "{% endmacro index %}\n");

    let mut buf = Buffer::new();
    write_call_open(&mut buf, "hello", &none);
    write_call_open(&mut buf, "hello", &two);
    write_call_close(&mut buf);
    assert_eq!(
        buf.buf,
        "{% call hello_scope::hello() %}{% call hello_scope::hello(a, b=1) %}{% endcall %}"
    );

    assert_eq!(
        file_reference("pages/hello.txt", "hello"),
        "{%- import \"pages/hello.txt\" as hello_scope -%}\n\
         {% call hello_scope::hello() %}{% endcall %}\n"
    );
}
