//! Characters and runs of characters.
//!
//! Templates are held as sequences of `char`. This module has the character
//! classes the grammar is made of, the runs they form inside a buffer, and the
//! conversions between buffers and strings.

use vstd::prelude::*;
use crate::trusted::white_space;

verus! {

broadcast use vstd::string::group_string_axioms;

/// `A` to `Z`.
pub open spec fn is_upper(c: char) -> bool {
    'A' <= c && c <= 'Z'
}

/// `a` to `z` and `A` to `Z`.
pub open spec fn is_alpha(c: char) -> bool {
    ('a' <= c && c <= 'z') || ('A' <= c && c <= 'Z')
}

/// Space or tab.
pub open spec fn is_blank(c: char) -> bool {
    c == ' ' || c == '\t'
}

/// The five characters that split a run of arguments into tokens: space,
/// tab, line feed, form feed and carriage return.
pub open spec fn is_separator(c: char) -> bool {
    c == ' ' || c == '\t' || c == '\n' || c == '\x0C' || c == '\r'
}

/// Whether `c` is a capital letter.
pub fn char_is_upper(c: char) -> (b: bool)
    ensures
        b == is_upper(c),
{
    'A' <= c && c <= 'Z'
}

/// Whether `c` is a letter.
pub fn char_is_alpha(c: char) -> (b: bool)
    ensures
        b == is_alpha(c),
{
    ('a' <= c && c <= 'z') || ('A' <= c && c <= 'Z')
}

/// Whether `c` is a separator.
pub fn char_is_separator(c: char) -> (b: bool)
    ensures
        b == is_separator(c),
{
    c == ' ' || c == '\t' || c == '\n' || c == '\x0C' || c == '\r'
}

/// The classes of characters that the grammar reads in runs.
#[derive(Clone, Copy, Debug, PartialEq, Eq)]
pub enum CharClass {
    /// ASCII letters: the characters of an identifier.
    Alpha,
    /// Space and tab: what separates the parts of a directive.
    Blank,
    /// Unicode white space: what is trimmed off both ends of a tag's arguments.
    Space,
    /// Separators: what stands between arguments, and between parameters.
    Gap,
    /// Anything but a separator: the characters of one argument.
    Word,
    /// Anything but `>`: the inside of a tag.
    Inner,
}

impl CharClass {
    /// Whether `c` is of the class.
    pub open spec fn has(self, c: char) -> bool {
        match self {
            CharClass::Alpha => is_alpha(c),
            CharClass::Blank => is_blank(c),
            CharClass::Space => white_space(c),
            CharClass::Gap => is_separator(c),
            CharClass::Word => !is_separator(c),
            CharClass::Inner => c != '>',
        }
    }

    /// Whether `c` is of the class.
    pub fn contains(&self, c: char) -> (b: bool)
        ensures
            b == self.has(c),
    {
        match self {
            CharClass::Alpha => char_is_alpha(c),
            CharClass::Blank => c == ' ' || c == '\t',
            CharClass::Space => c.is_whitespace(),
            CharClass::Gap => char_is_separator(c),
            CharClass::Word => !char_is_separator(c),
            CharClass::Inner => c != '>',
        }
    }
}

/// Where the longest run of `class` characters that starts at `from` ends,
/// looking no further than `to`.
pub open spec fn run_end(s: Seq<char>, from: int, to: int, class: CharClass) -> int
    decreases to - from,
{
    if 0 <= from < to <= s.len() && class.has(s[from]) {
        run_end(s, from + 1, to, class)
    } else {
        from
    }
}

/// Where the longest run of `class` characters that ends at `to` starts,
/// looking no further back than `from`.
pub open spec fn run_start(s: Seq<char>, from: int, to: int, class: CharClass) -> int
    decreases to - from,
{
    if 0 <= from < to <= s.len() && class.has(s[to - 1]) {
        run_start(s, from, to - 1, class)
    } else {
        to
    }
}

/// [`run_end`] is the one position that a maximal run can end at: everything
/// before it is in the class, and the run stops at `to` or at a character
/// outside the class.
pub proof fn lemma_run_end(s: Seq<char>, from: int, to: int, class: CharClass)
    requires
        0 <= from <= to <= s.len(),
    ensures
        from <= run_end(s, from, to, class) <= to,
        forall|i: int| from <= i < run_end(s, from, to, class) ==> class.has(#[trigger] s[i]),
        run_end(s, from, to, class) < to ==> !class.has(s[run_end(s, from, to, class)]),
    decreases to - from,
{
    if from < to && class.has(s[from]) {
        lemma_run_end(s, from + 1, to, class);
    }
}

/// The mirror image of [`lemma_run_end`].
pub proof fn lemma_run_start(s: Seq<char>, from: int, to: int, class: CharClass)
    requires
        0 <= from <= to <= s.len(),
    ensures
        from <= run_start(s, from, to, class) <= to,
        forall|i: int| run_start(s, from, to, class) <= i < to ==> class.has(#[trigger] s[i]),
        from < run_start(s, from, to, class) ==> !class.has(
            s[run_start(s, from, to, class) - 1],
        ),
    decreases to - from,
{
    if from < to && class.has(s[to - 1]) {
        lemma_run_start(s, from, to - 1, class);
    }
}

/// A position that is reached over `class` characters only, and that stops
/// the run, is where the run ends.
pub proof fn lemma_run_end_is(s: Seq<char>, from: int, end: int, to: int, class: CharClass)
    requires
        0 <= from <= end <= to <= s.len(),
        forall|i: int| from <= i < end ==> class.has(#[trigger] s[i]),
        end < to ==> !class.has(s[end]),
    ensures
        run_end(s, from, to, class) == end,
    decreases end - from,
{
    if from < end {
        lemma_run_end_is(s, from + 1, end, to, class);
    }
}

/// The mirror image of [`lemma_run_end_is`].
pub proof fn lemma_run_start_is(s: Seq<char>, from: int, start: int, to: int, class: CharClass)
    requires
        0 <= from <= start <= to <= s.len(),
        forall|i: int| start <= i < to ==> class.has(#[trigger] s[i]),
        from < start ==> !class.has(s[start - 1]),
    ensures
        run_start(s, from, to, class) == start,
    decreases to - start,
{
    if start < to {
        lemma_run_start_is(s, from, start, to - 1, class);
    }
}

/// Walks forward over the run of `class` characters at `from`.
pub fn skip_run(input: &[char], from: usize, to: usize, class: CharClass) -> (end: usize)
    requires
        from <= to <= input.len(),
    ensures
        end == run_end(input@, from as int, to as int, class),
        from <= end <= to,
{
    let mut end: usize = from;
    while end < to && class.contains(input[end])
        invariant
            from <= end <= to <= input.len(),
            forall|i: int| from <= i < end ==> class.has(#[trigger] input@[i]),
        decreases to - end,
    {
        end += 1;
    }
    proof {
        lemma_run_end_is(input@, from as int, end as int, to as int, class);
    }
    end
}

/// Walks backward over the run of `class` characters that ends at `to`.
pub fn skip_run_back(input: &[char], from: usize, to: usize, class: CharClass) -> (start: usize)
    requires
        from <= to <= input.len(),
    ensures
        start == run_start(input@, from as int, to as int, class),
        from <= start <= to,
{
    let mut start: usize = to;
    while from < start && class.contains(input[start - 1])
        invariant
            from <= start <= to <= input.len(),
            forall|i: int| start <= i < to ==> class.has(#[trigger] input@[i]),
        decreases start - from,
    {
        start -= 1;
    }
    proof {
        lemma_run_start_is(input@, from as int, start as int, to as int, class);
    }
    start
}

/// Whether `lit` stands in `s` at `pos`.
pub open spec fn starts_with(s: Seq<char>, pos: int, lit: Seq<char>) -> bool {
    &&& 0 <= pos
    &&& pos + lit.len() <= s.len()
    &&& s.subrange(pos, pos + lit.len()) == lit
}

/// Compares the characters at `pos` with `lit`.
pub fn matches_at(input: &[char], pos: usize, lit: &str) -> (b: bool)
    ensures
        b == starts_with(input@, pos as int, lit@),
{
    let n = lit.unicode_len();
    if pos > input.len() || n > input.len() - pos {
        return false;
    }
    let mut k: usize = 0;
    while k < n
        invariant
            k <= n,
            n == lit@.len(),
            pos + n <= input.len(),
            forall|i: int| 0 <= i < k ==> input@[pos + i] == lit@[i],
        decreases n - k,
    {
        if input[pos + k] != lit.get_char(k) {
            return false;
        }
        k += 1;
    }
    assert(input@.subrange(pos as int, pos + n) =~= lit@);
    true
}

/// The characters of a string, one by one.
pub fn chars_of(s: &str) -> (v: Vec<char>)
    ensures
        v@ == s@,
{
    let mut v: Vec<char> = Vec::new();
    for c in it: s.chars()
        invariant
            it.seq() == s@,
            v@ == it.seq().take(it.index()),
    {
        v.push(c);
    }
    v
}

/// The characters from `from` up to `to`, as a string.
pub fn string_of(input: &[char], from: usize, to: usize) -> (s: String)
    requires
        from <= to <= input.len(),
    ensures
        s@ == input@.subrange(from as int, to as int),
{
    let mut s = String::new();
    let mut i: usize = from;
    while i < to
        invariant
            from <= i <= to <= input.len(),
            s@ == input@.subrange(from as int, i as int),
        decreases to - i,
    {
        s.push(input[i]);
        i += 1;
    }
    s
}

/// The views of a sequence of strings.
pub open spec fn texts(v: Seq<String>) -> Seq<Seq<char>> {
    v.map_values(|s: String| s@)
}

/// `parts` written one after another with `sep` between neighbours.
pub open spec fn joined(parts: Seq<Seq<char>>, sep: Seq<char>) -> Seq<char>
    decreases parts.len(),
{
    if parts.len() == 0 {
        Seq::empty()
    } else if parts.len() == 1 {
        parts[0]
    } else {
        joined(parts.drop_last(), sep) + sep + parts.last()
    }
}

/// Joins `parts` with `sep`.
pub fn join(parts: &Vec<String>, sep: &str) -> (s: String)
    ensures
        s@ == joined(texts(parts@), sep@),
{
    let mut s = String::new();
    let mut i: usize = 0;
    while i < parts.len()
        invariant
            i <= parts.len(),
            s@ == joined(texts(parts@).take(i as int), sep@),
        decreases parts.len() - i,
    {
        if i > 0 {
            s.append(sep);
        }
        s.append(parts[i].as_str());
        proof {
            let all = texts(parts@);
            assert(all.take(i + 1).drop_last() =~= all.take(i as int));
        }
        i += 1;
    }
    assert(texts(parts@).take(parts.len() as int) =~= texts(parts@));
    s
}

} // verus!
