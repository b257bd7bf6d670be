use vstd::prelude::*;

use crate::literal::{
    decoded_str_literal, encode_str_literal, push_char, str_literal_start, str_literal_text,
};
use crate::render::doc_word;
use crate::tokens::{AttrStyle, Attribute, Spacing, TokenTree};

verus! {

/// A line with one trailing carriage return removed, if it has one.
pub open spec fn strip_cr(line: Seq<char>) -> Seq<char> {
    if line.len() > 0 && line.last() == '\r' {
        line.drop_last()
    } else {
        line
    }
}

/// Reading `s` from the start: the lines ended by a line feed so far, and the
/// characters of the line not yet ended.
pub open spec fn line_scan(s: Seq<char>) -> (Seq<Seq<char>>, Seq<char>)
    decreases s.len(),
{
    if s.len() == 0 {
        (seq![], seq![])
    } else {
        let (done, cur) = line_scan(s.drop_last());
        if s.last() == '\n' {
            (done.push(strip_cr(cur)), seq![])
        } else {
            (done, cur.push(s.last()))
        }
    }
}

/// The lines of `s`: split at `\n` or `\r\n`, the terminator not kept, and no
/// empty last line after a final terminator.
pub open spec fn text_lines(s: Seq<char>) -> Seq<Seq<char>> {
    let (done, cur) = line_scan(s);
    if cur.len() == 0 {
        done
    } else {
        done.push(cur)
    }
}

pub open spec fn fence_open() -> Seq<char> {
    seq!['`', '`', '`', 'c', 'a', 'r', 'g', 'o']
}

pub open spec fn fence_close() -> Seq<char> {
    seq!['`', '`', '`']
}

/// The opening fence, the lines of `content`, then the closing fence.
pub open spec fn fenced_lines(content: Seq<char>) -> Seq<Seq<char>> {
    seq![fence_open()] + text_lines(content) + seq![fence_close()]
}

/// `a` is the unit-level attribute `#![doc = " <text>"]`, whose literal reads back as ` <text>`.
pub open spec fn is_doc_attr_for(a: Attribute, text: Seq<char>) -> bool {
    &&& a.style == AttrStyle::Inner
    &&& a.path@ == doc_word()
    &&& a.tokens@.len() == 2
    &&& a.tokens@[0] == TokenTree::Punct('=', Spacing::Alone)
    &&& a.tokens@[1] is Literal
    &&& a.tokens@[1]->Literal_0@ == str_literal_text(seq![' '] + text)
    &&& str_literal_start(a.tokens@[1]->Literal_0@)
    &&& decoded_str_literal(a.tokens@[1]->Literal_0@) == Some(seq![' '] + text)
}

/// Splits `content` into its lines.
pub fn lines_of(content: &str) -> (r: Vec<String>)
    ensures
        r@.len() == text_lines(content@).len(),
        forall|i: int| 0 <= i < r@.len() ==> (#[trigger] r@[i])@ == text_lines(content@)[i],
{
    let n = content.unicode_len();
    let mut done: Vec<String> = Vec::new();
    let mut cur = String::new();
    let mut i: usize = 0;
    while i < n
        invariant
            n == content@.len(),
            i <= n,
            line_scan(content@.subrange(0, i as int)).0.len() == done@.len(),
            forall|k: int|
                0 <= k < done@.len() ==> (#[trigger] done@[k])@ == line_scan(
                    content@.subrange(0, i as int),
                ).0[k],
            cur@ == line_scan(content@.subrange(0, i as int)).1,
        decreases n - i,
    {
        let c = content.get_char(i);
        proof {
            let s = content@.subrange(0, i + 1);
            assert(s.drop_last() =~= content@.subrange(0, i as int));
            assert(s.last() == c);
        }
        if c == '\n' {
            let len = cur.unicode_len();
            let line = if len > 0 && cur.get_char(len - 1) == '\r' {
                let mut stripped = String::new();
                stripped.append(cur.substring_char(0, len - 1));
                assert(stripped@ =~= strip_cr(cur@));
                stripped
            } else {
                cur
            };
            done.push(line);
            cur = String::new();
        } else {
            push_char(&mut cur, c);
        }
        i = i + 1;
    }
    assert(content@.subrange(0, n as int) =~= content@);
    if cur.unicode_len() > 0 {
        done.push(cur);
    }
    done
}

/// The attribute `#![doc = " <line>"]`.
fn doc_attr(line: &str) -> (r: Attribute)
    ensures
        is_doc_attr_for(r, line@),
{
    let mut text = String::new();
    push_char(&mut text, ' ');
    text.append(line);
    let lit = encode_str_literal(text.as_str());
    let mut tokens: Vec<TokenTree> = Vec::new();
    tokens.push(TokenTree::Punct('=', Spacing::Alone));
    tokens.push(TokenTree::Literal(lit));
    let mut path = String::new();
    path.append("doc");
    proof {
        reveal_strlit("doc");
        assert(path@ =~= doc_word());
        assert(text@ =~= seq![' '] + line@);
    }
    Attribute { style: AttrStyle::Inner, path, tokens }
}

/// The documentation attributes that carry `content` inside a ```` ```cargo ```` fence:
/// one unit-level `doc` attribute per line, the fences included, each line after a space.
pub fn new_manifest_comment(content: &str) -> (r: Vec<Attribute>)
    ensures
        r@.len() == fenced_lines(content@).len(),
        forall|i: int| 0 <= i < r@.len() ==> is_doc_attr_for(#[trigger] r@[i], fenced_lines(content@)[i]),
{
    let lines = lines_of(content);
    let ghost want = fenced_lines(content@);
    let mut r: Vec<Attribute> = Vec::new();
    proof {
        reveal_strlit("```cargo");
        reveal_strlit("```");
        assert("```cargo"@ =~= fence_open());
        assert("```"@ =~= fence_close());
    }
    r.push(doc_attr("```cargo"));
    let n = lines.len();
    let mut i: usize = 0;
    while i < n
        invariant
            n == lines@.len(),
            n == text_lines(content@).len(),
            want == fenced_lines(content@),
            want.len() == n + 2,
            forall|k: int| 0 <= k < n ==> (#[trigger] lines@[k])@ == text_lines(content@)[k],
            i <= n,
            r@.len() == i + 1,
            forall|k: int| 0 <= k < r@.len() ==> is_doc_attr_for(#[trigger] r@[k], want[k]),
        decreases n - i,
    {
        assert(want[i + 1] == text_lines(content@)[i as int]);
        r.push(doc_attr(lines[i].as_str()));
        i = i + 1;
    }
    assert(want[n + 1] == fence_close());
    r.push(doc_attr("```"));
    r
}

} // verus!
