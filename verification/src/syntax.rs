//! The syntax of the host engine: the texts that the rewriter writes.
//!
//! Each text is a spec function, and beside it stands the function that
//! appends exactly that text to a buffer.

use vstd::prelude::*;
use crate::rewriter::Buffer;
use crate::text::{join, joined, texts};

verus! {

broadcast use vstd::string::group_string_axioms;

/// The line that imports the file at `path` under the scope of the macro
/// `name`.
pub open spec fn import_as(path: Seq<char>, name: Seq<char>) -> Seq<char> {
    ("{%- import \""@ + path + "\" as "@ + name + "_scope -%}"@).push('\n')
}

/// The line that imports the macro `name` from the file that is named after
/// it.
pub open spec fn import_line(name: Seq<char>) -> Seq<char> {
    import_as(name + ".html"@, name)
}

/// The line that opens the macro `name` with the parameters `params`.
pub open spec fn macro_open(name: Seq<char>, params: Seq<Seq<char>>) -> Seq<char> {
    ("{% macro "@ + name + "("@ + joined(params, ", "@) + ") %}"@).push('\n')
}

/// The line that closes the macro `name`.
pub open spec fn macro_close(name: Seq<char>) -> Seq<char> {
    ("{% endmacro "@ + name + " %}"@).push('\n')
}

/// The opening of a call of the macro `name`, through its scope, with the
/// arguments `args`.
pub open spec fn call_open(name: Seq<char>, args: Seq<Seq<char>>) -> Seq<char> {
    "{% call "@ + name + "_scope::"@ + name + "("@ + joined(args, ", "@) + ") %}"@
}

/// The end of a call.
pub open spec fn call_close() -> Seq<char> {
    "{% endcall %}"@
}

/// The two lines that stand for a whole file: the import of the file at
/// `path` under the scope of the macro `name`, and a call of that macro
/// without arguments.
pub open spec fn whole_file(path: Seq<char>, name: Seq<char>) -> Seq<char> {
    import_as(path, name) + (call_open(name, Seq::empty()) + call_close()).push('\n')
}

/// Appends the line that imports the file at `path` under the scope of the
/// macro `name`.
pub fn write_import_as(buf: &mut Buffer, path: &str, name: &str)
    ensures
        final(buf)@ == old(buf)@ + import_as(path@, name@),
{
    buf.write("{%- import \"");
    buf.write(path);
    buf.write("\" as ");
    buf.write(name);
    buf.writeln("_scope -%}");
}

/// Appends the line that imports the macro `name` from the file that is
/// named after it.
pub fn write_import(buf: &mut Buffer, name: &str)
    ensures
        final(buf)@ == old(buf)@ + import_line(name@),
{
    let mut path = String::new();
    path.append(name);
    path.append(".html");
    write_import_as(buf, path.as_str(), name);
}

/// Appends the line that opens the macro `name` with the parameters
/// `params`.
pub fn write_macro_open(buf: &mut Buffer, name: &str, params: &Vec<String>)
    ensures
        final(buf)@ == old(buf)@ + macro_open(name@, texts(params@)),
{
    let list = join(params, ", ");
    buf.write("{% macro ");
    buf.write(name);
    buf.write("(");
    buf.write(list.as_str());
    buf.writeln(") %}");
}

/// Appends the line that closes the macro `name`.
pub fn write_macro_close(buf: &mut Buffer, name: &str)
    ensures
        final(buf)@ == old(buf)@ + macro_close(name@),
{
    buf.write("{% endmacro ");
    buf.write(name);
    buf.writeln(" %}");
}

/// Appends the opening of a call of the macro `name` with the arguments
/// `args`.
pub fn write_call_open(buf: &mut Buffer, name: &str, args: &Vec<String>)
    ensures
        final(buf)@ == old(buf)@ + call_open(name@, texts(args@)),
{
    let list = join(args, ", ");
    buf.write("{% call ");
    buf.write(name);
    buf.write("_scope::");
    buf.write(name);
    buf.write("(");
    buf.write(list.as_str());
    buf.write(") %}");
}

/// Appends the end of a call.
pub fn write_call_close(buf: &mut Buffer)
    ensures
        final(buf)@ == old(buf)@ + call_close(),
{
    buf.write("{% endcall %}");
}

/// The two lines that stand for the whole file at `path`, whose macro is
/// `name`.
pub fn file_reference(path: &str, name: &str) -> (out: String)
    ensures
        out@ == whole_file(path@, name@),
{
    let mut buf = Buffer::new();
    write_import_as(&mut buf, path, name);
    let none: Vec<String> = Vec::new();
    write_call_open(&mut buf, name, &none);
    write_call_close(&mut buf);
    buf.writeln("");
    proof {
        reveal_strlit("");
    }
    buf.buf
}

} // verus!
