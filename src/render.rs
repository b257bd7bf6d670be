use vstd::prelude::*;

use crate::literal::{
    decode_str_literal, decoded_str_literal, push_char, starts_like_str_literal, str_literal_start,
};
use crate::tokens::{all_inner, AttrStyle, Attribute, Delimiter, Item, SourceFile, Spacing, TokenTree};

verus! {

/// The text that opens a group of delimiter `d`.
pub open spec fn open_text(d: Delimiter) -> Seq<char> {
    match d {
        Delimiter::Parenthesis => seq!['('],
        Delimiter::Brace => seq!['{', '\n'],
        Delimiter::Bracket => seq!['['],
        Delimiter::Invisible => seq![],
    }
}

/// The text that closes a group of delimiter `d`.
pub open spec fn close_text(d: Delimiter) -> Seq<char> {
    match d {
        Delimiter::Parenthesis => seq![')'],
        Delimiter::Brace => seq!['}', '\n'],
        Delimiter::Bracket => seq![']'],
        Delimiter::Invisible => seq![],
    }
}

pub open spec fn doc_word() -> Seq<char> {
    seq!['d', 'o', 'c']
}

/// The documentation text carried by the three tokens `doc = "<text>"`, if they have that shape.
pub open spec fn doc_body(a: TokenTree, b: TokenTree, c: TokenTree) -> Option<Seq<char>> {
    match (a, b, c) {
        (TokenTree::Ident(name), TokenTree::Punct(eq, _), TokenTree::Literal(lit)) => {
            if name@ == doc_word() && eq == '=' && str_literal_start(lit@) {
                decoded_str_literal(lit@)
            } else {
                None
            }
        },
        _ => None,
    }
}

/// The documentation text of the pair `#` `[doc = "<text>"]`, if the two tokens form it.
pub open spec fn doc_comment_of(first: TokenTree, second: TokenTree) -> Option<Seq<char>> {
    match (first, second) {
        (TokenTree::Punct(c, _), TokenTree::Group(d, inner)) => {
            if c == '#' && d == Delimiter::Bracket && inner@.len() == 3 {
                doc_body(inner@[0], inner@[1], inner@[2])
            } else {
                None
            }
        },
        _ => None,
    }
}

/// `///` followed by `text` and a line break.
pub open spec fn doc_line(text: Seq<char>) -> Seq<char> {
    seq!['/', '/', '/'] + text + seq!['\n']
}

/// The text of a group whose contents render as `inner_text`.
pub open spec fn group_text(d: Delimiter, empty: bool, inner_text: Seq<char>) -> Seq<char> {
    if empty {
        open_text(d) + seq![' '] + close_text(d)
    } else {
        open_text(d) + seq![' '] + inner_text + seq![' '] + close_text(d)
    }
}

/// The rendering of a token sequence. `glued` holds when no space may precede the
/// first token: at the start of a sequence, or after a joint punctuation mark.
pub open spec fn render_from(ts: Seq<TokenTree>, glued: bool) -> Seq<char>
    decreases ts,
{
    if ts.len() == 0 {
        seq![]
    } else {
        let sep: Seq<char> = if glued { seq![] } else { seq![' '] };
        let rest = ts.subrange(1, ts.len() as int);
        if ts.len() >= 2 && doc_comment_of(ts[0], ts[1]) is Some {
            sep + doc_line(doc_comment_of(ts[0], ts[1])->Some_0) + render_from(
                ts.subrange(2, ts.len() as int),
                false,
            )
        } else {
            match ts[0] {
                TokenTree::Group(d, inner) => sep + group_text(
                    d,
                    inner@.len() == 0,
                    render_from(inner@, true),
                ) + render_from(rest, false),
                TokenTree::Ident(s) => sep + s@ + render_from(rest, false),
                TokenTree::Punct(c, sp) => sep + seq![c] + (if c == ';' {
                    seq!['\n']
                } else {
                    seq![]
                }) + render_from(rest, sp == Spacing::Joint),
                TokenTree::Literal(s) => sep + s@ + render_from(rest, false),
            }
        }
    }
}

/// The rendering of a whole token sequence.
pub open spec fn render_tokens(ts: Seq<TokenTree>) -> Seq<char> {
    render_from(ts, true)
}

} // verus!

verus! {

/// Whether two strings hold the same characters.
pub fn str_eq(a: &str, b: &str) -> (r: bool)
    ensures
        r == (a@ == b@),
{
    let n = a.unicode_len();
    if n != b.unicode_len() {
        return false;
    }
    let mut i: usize = 0;
    while i < n
        invariant
            n == a@.len(),
            n == b@.len(),
            i <= n,
            a@.subrange(0, i as int) == b@.subrange(0, i as int),
        decreases n - i,
    {
        if a.get_char(i) != b.get_char(i) {
            assert(a@[i as int] != b@[i as int]);
            return false;
        }
        assert(a@.subrange(0, i + 1) == a@.subrange(0, i as int).push(a@[i as int]));
        assert(b@.subrange(0, i + 1) == b@.subrange(0, i as int).push(b@[i as int]));
        i = i + 1;
    }
    assert(a@ == a@.subrange(0, n as int));
    assert(b@ == b@.subrange(0, n as int));
    true
}

/// Recognises the pair `#` `[doc = "<text>"]` and returns its documentation text.
/// A bracket group of any other shape gives `None`.
pub fn as_doc_comment(first: &TokenTree, second: &TokenTree) -> (r: Option<String>)
    ensures
        match r {
            Some(s) => doc_comment_of(*first, *second) == Some(s@),
            None => doc_comment_of(*first, *second) is None,
        },
{
    proof {
        reveal_strlit("doc");
        assert("doc"@ =~= doc_word());
    }
    match (first, second) {
        (TokenTree::Punct(c, _), TokenTree::Group(d, inner)) => {
            if *c != '#' || *d != Delimiter::Bracket || inner.len() != 3 {
                return None;
            }
            match (&inner[0], &inner[1], &inner[2]) {
                (TokenTree::Ident(name), TokenTree::Punct(eq, _), TokenTree::Literal(lit)) => {
                    assert(doc_comment_of(*first, *second) == doc_body(inner@[0], inner@[1], inner@[2]));
                    if str_eq(name.as_str(), "doc") && *eq == '=' && starts_like_str_literal(
                        lit.as_str(),
                    ) {
                        decode_str_literal(lit.as_str())
                    } else {
                        None
                    }
                },
                _ => {
                    assert(doc_body(inner@[0], inner@[1], inner@[2]) is None);
                    None
                },
            }
        },
        _ => None,
    }
}

/// The text of one token, not counting the space before it.
pub open spec fn tree_text(t: TokenTree) -> Seq<char> {
    match t {
        TokenTree::Group(d, inner) => group_text(d, inner@.len() == 0, render_from(inner@, true)),
        TokenTree::Ident(s) => s@,
        TokenTree::Punct(c, _) => if c == ';' {
            seq![c, '\n']
        } else {
            seq![c]
        },
        TokenTree::Literal(s) => s@,
    }
}

/// Appends the text of one token to `out`.
fn write_tree(out: &mut String, t: &TokenTree)
    ensures
        final(out)@ == old(out)@ + tree_text(*t),
    decreases t,
{
    match t {
        TokenTree::Group(d, inner) => {
            let (open, close) = match d {
                Delimiter::Parenthesis => ("(", ")"),
                Delimiter::Brace => ("{\n", "}\n"),
                Delimiter::Bracket => ("[", "]"),
                Delimiter::Invisible => ("", ""),
            };
            proof {
                reveal_strlit("(");
                reveal_strlit(")");
                reveal_strlit("{\n");
                reveal_strlit("}\n");
                reveal_strlit("[");
                reveal_strlit("]");
                reveal_strlit("");
                assert(open@ =~= open_text(*d));
                assert(close@ =~= close_text(*d));
            }
            let ghost start = out@;
            out.append(open);
            push_char(out, ' ');
            if inner.len() == 0 {
                out.append(close);
            } else {
                write_tokens_normalized(out, inner);
                push_char(out, ' ');
                out.append(close);
            }
            assert(out@ =~= start + tree_text(*t));
        },
        TokenTree::Ident(s) => {
            out.append(s.as_str());
        },
        TokenTree::Punct(c, _) => {
            let ghost start = out@;
            push_char(out, *c);
            if *c == ';' {
                push_char(out, '\n');
            }
            assert(out@ =~= start + tree_text(*t));
        },
        TokenTree::Literal(s) => {
            out.append(s.as_str());
        },
    }
}

/// Appends `///`, then `text`, then a line break to `out`.
fn write_doc_line(out: &mut String, text: &str)
    ensures
        final(out)@ == old(out)@ + doc_line(text@),
{
    proof {
        reveal_strlit("///");
        assert("///"@ =~= seq!['/', '/', '/']);
    }
    let ghost start = out@;
    out.append("///");
    out.append(text);
    push_char(out, '\n');
    assert(out@ =~= start + doc_line(text@));
}

/// Appends the rendering of `tokens` to `out`.
#[verifier::rlimit(60)]
pub fn write_tokens_normalized(out: &mut String, tokens: &Vec<TokenTree>)
    ensures
        final(out)@ == old(out)@ + render_from(tokens@, true),
    decreases tokens,
{
    let ghost start = out@;
    let n = tokens.len();
    let mut i: usize = 0;
    let mut glued = true;
    proof {
        assert(tokens@.subrange(0, n as int) =~= tokens@);
    }
    while i < n
        invariant
            n == tokens@.len(),
            i <= n,
            out@ + render_from(tokens@.subrange(i as int, n as int), glued) == start + render_from(
                tokens@,
                true,
            ),
        decreases n - i,
    {
        let ghost ts = tokens@.subrange(i as int, n as int);
        let ghost before = out@;
        let ghost glued_before = glued;
        assert(ts[0] == tokens@[i as int]);
        if !glued {
            push_char(out, ' ');
        }
        let doc = if i + 1 < n {
            assert(ts[1] == tokens@[i + 1]);
            as_doc_comment(&tokens[i], &tokens[i + 1])
        } else {
            None
        };
        if let Some(comment) = doc {
            write_doc_line(out, comment.as_str());
            assert(tokens@.subrange(i + 2, n as int) =~= ts.subrange(2, ts.len() as int));
            i = i + 2;
            glued = false;
        } else {
            assert(tokens@.subrange(i + 1, n as int) =~= ts.subrange(1, ts.len() as int));
            write_tree(out, &tokens[i]);
            glued = match &tokens[i] {
                TokenTree::Punct(_, sp) => *sp == Spacing::Joint,
                _ => false,
            };
            i = i + 1;
        }
        assert(out@ + render_from(tokens@.subrange(i as int, n as int), glued) =~= before + render_from(
            ts,
            glued_before,
        ));
    }
}

} // verus!

verus! {

/// A documentation attribute: its path is `doc`.
pub open spec fn is_doc_attr(a: Attribute) -> bool {
    a.path@ == doc_word()
}

/// The text of a documentation attribute's payload: the decoded string of
/// `= "<text>"`, or else the payload's rendering.
pub open spec fn doc_attr_text(ts: Seq<TokenTree>) -> Seq<char> {
    if ts.len() == 2 && ts[0] is Punct && ts[0]->Punct_0 == '=' && ts[1] is Literal
        && str_literal_start(ts[1]->Literal_0@) && decoded_str_literal(ts[1]->Literal_0@) is Some {
        decoded_str_literal(ts[1]->Literal_0@)->Some_0
    } else {
        render_tokens(ts)
    }
}

/// The lines of the documentation attributes among `attrs`, in order, each `//!<text>`.
pub open spec fn doc_attr_lines(attrs: Seq<Attribute>) -> Seq<char>
    decreases attrs.len(),
{
    if attrs.len() == 0 {
        seq![]
    } else {
        doc_attr_lines(attrs.drop_last()) + if is_doc_attr(attrs.last()) {
            seq!['/', '/', '!'] + doc_attr_text(attrs.last().tokens@) + seq!['\n']
        } else {
            seq![]
        }
    }
}

/// The lines of the other attributes among `attrs`, in order, each `#![<path><payload>]`.
pub open spec fn other_attr_lines(attrs: Seq<Attribute>) -> Seq<char>
    decreases attrs.len(),
{
    if attrs.len() == 0 {
        seq![]
    } else {
        other_attr_lines(attrs.drop_last()) + if is_doc_attr(attrs.last()) {
            seq![]
        } else {
            seq!['#', '!', '['] + attrs.last().path@ + render_tokens(attrs.last().tokens@) + seq![
                ']',
                '\n',
            ]
        }
    }
}

/// Each member rendered, followed by a blank line.
pub open spec fn items_text(items: Seq<Item>) -> Seq<char>
    decreases items.len(),
{
    if items.len() == 0 {
        seq![]
    } else {
        items_text(items.drop_last()) + render_tokens(items.last().tokens@) + seq!['\n', '\n']
    }
}

/// The interpreter line, if any, with its line break.
pub open spec fn shebang_text(shebang: Option<String>) -> Seq<char> {
    match shebang {
        Some(s) => s@.push('\n'),
        None => seq![],
    }
}

/// The rendering of a whole unit.
pub open spec fn render_file(f: SourceFile) -> Seq<char> {
    shebang_text(f.shebang) + doc_attr_lines(f.attrs@) + other_attr_lines(f.attrs@) + items_text(
        f.items@,
    )
}

/// Appends the text of a documentation attribute's payload to `out`.
fn write_doc_attr_text(out: &mut String, tokens: &Vec<TokenTree>)
    ensures
        final(out)@ == old(out)@ + doc_attr_text(tokens@),
{
    if tokens.len() == 2 {
        if let (TokenTree::Punct(eq, _), TokenTree::Literal(lit)) = (&tokens[0], &tokens[1]) {
            if *eq == '=' && starts_like_str_literal(lit.as_str()) {
                if let Some(text) = decode_str_literal(lit.as_str()) {
                    out.append(text.as_str());
                    return;
                }
            }
        }
    }
    write_tokens_normalized(out, tokens);
}

/// Writes a unit back as text.
pub struct FilePrinter<'a>(pub &'a SourceFile);

impl<'a> FilePrinter<'a> {
    /// Appends the rendering of the unit to `out`. Every unit-level attribute must be inner.
    pub fn fmt(&self, out: &mut String)
        requires
            all_inner(self.0.attrs@),
        ensures
            final(out)@ == old(out)@ + render_file(*self.0),
    {
        let file = self.0;
        let ghost start = out@;
        if let Some(shebang) = &file.shebang {
            out.append(shebang.as_str());
            push_char(out, '\n');
        }
        let ghost after_shebang = out@;
        assert(after_shebang =~= start + shebang_text(file.shebang));
        let n = file.attrs.len();
        let mut i: usize = 0;
        while i < n
            invariant
                n == file.attrs@.len(),
                i <= n,
                out@ =~= after_shebang + doc_attr_lines(file.attrs@.subrange(0, i as int)),
            decreases n - i,
        {
            let attr = &file.attrs[i];
            let ghost prev = out@;
            if str_eq(attr.path.as_str(), "doc") {
                proof {
                    reveal_strlit("//!");
                    reveal_strlit("doc");
                    assert("doc"@ =~= doc_word());
                }
                out.append("//!");
                write_doc_attr_text(out, &attr.tokens);
                push_char(out, '\n');
            }
            proof {
                reveal_strlit("doc");
                assert("doc"@ =~= doc_word());
                let s = file.attrs@.subrange(0, i + 1);
                assert(s.drop_last() =~= file.attrs@.subrange(0, i as int));
                assert(s.last() == file.attrs@[i as int]);
            }
            i = i + 1;
        }
        assert(file.attrs@.subrange(0, n as int) =~= file.attrs@);
        let ghost after_docs = out@;
        i = 0;
        while i < n
            invariant
                n == file.attrs@.len(),
                i <= n,
                out@ =~= after_docs + other_attr_lines(file.attrs@.subrange(0, i as int)),
            decreases n - i,
        {
            let attr = &file.attrs[i];
            if !str_eq(attr.path.as_str(), "doc") {
                proof {
                    reveal_strlit("#![");
                    reveal_strlit("]");
                }
                out.append("#![");
                out.append(attr.path.as_str());
                write_tokens_normalized(out, &attr.tokens);
                out.append("]");
                push_char(out, '\n');
            }
            proof {
                reveal_strlit("doc");
                assert("doc"@ =~= doc_word());
                let s = file.attrs@.subrange(0, i + 1);
                assert(s.drop_last() =~= file.attrs@.subrange(0, i as int));
                assert(s.last() == file.attrs@[i as int]);
            }
            i = i + 1;
        }
        let ghost after_attrs = out@;
        let m = file.items.len();
        i = 0;
        while i < m
            invariant
                m == file.items@.len(),
                i <= m,
                out@ =~= after_attrs + items_text(file.items@.subrange(0, i as int)),
            decreases m - i,
        {
            write_tokens_normalized(out, &file.items[i].tokens);
            push_char(out, '\n');
            push_char(out, '\n');
            proof {
                let s = file.items@.subrange(0, i + 1);
                assert(s.drop_last() =~= file.items@.subrange(0, i as int));
                assert(s.last() == file.items@[i as int]);
            }
            i = i + 1;
        }
        assert(file.items@.subrange(0, m as int) =~= file.items@);
    }

    /// The rendering of the unit as a new string.
    pub fn to_string(&self) -> (r: String)
        requires
            all_inner(self.0.attrs@),
        ensures
            r@ == render_file(*self.0),
    {
        let mut out = String::new();
        self.fmt(&mut out);
        out
    }
}

/// Gives a unit a printer.
pub trait SynFilePrint {
    fn print(&self) -> FilePrinter<'_>;
}

impl SynFilePrint for SourceFile {
    fn print(&self) -> (r: FilePrinter<'_>)
        ensures
            r.0 == self,
    {
        FilePrinter(self)
    }
}

} // verus!

verus! {

/// The text of a leaf token; a statement terminator carries its line break.
pub open spec fn leaf_text(t: TokenTree) -> Seq<char> {
    match t {
        TokenTree::Ident(s) => s@,
        TokenTree::Literal(s) => s@,
        TokenTree::Punct(c, _) => if c == ';' {
            seq![c, '\n']
        } else {
            seq![c]
        },
        TokenTree::Group(_, _) => seq![],
    }
}

/// The space before leaf `i`: none for the first, none after a joint mark, else one.
pub open spec fn leaf_sep(ts: Seq<TokenTree>, i: int) -> Seq<char> {
    if i == 0 || (ts[i - 1] is Punct && ts[i - 1]->Punct_1 == Spacing::Joint) {
        seq![]
    } else {
        seq![' ']
    }
}

/// Leaves written one after another, each after its space.
pub open spec fn joined_leaves(ts: Seq<TokenTree>) -> Seq<char>
    decreases ts.len(),
{
    if ts.len() == 0 {
        seq![]
    } else {
        joined_leaves(ts.drop_last()) + leaf_sep(ts, ts.len() - 1) + leaf_text(ts.last())
    }
}

proof fn lemma_leaf_step(s: Seq<TokenTree>, g: bool)
    requires
        s.len() >= 1,
        !(s[0] is Group),
        s.len() >= 2 ==> !(s[1] is Group),
    ensures
        render_from(s, g) == (if g {
            seq![]
        } else {
            seq![' ']
        }) + leaf_text(s[0]) + render_from(
            s.subrange(1, s.len() as int),
            s[0] is Punct && s[0]->Punct_1 == Spacing::Joint,
        ),
{
    if s.len() >= 2 {
        assert(doc_comment_of(s[0], s[1]) is None);
    }
    match s[0] {
        TokenTree::Punct(c, _) => {
            if c == ';' {
                assert(seq![c] + seq!['\n'] =~= seq![c, '\n']);
            } else {
                assert(seq![c] + Seq::<char>::empty() =~= seq![c]);
            }
        },
        _ => {},
    }
    let sep: Seq<char> = if g { seq![] } else { seq![' '] };
    let rest = render_from(
            s.subrange(1, s.len() as int),
            s[0] is Punct && s[0]->Punct_1 == Spacing::Joint,
        );
    assert(render_from(s, g) =~= sep + leaf_text(s[0]) + rest);
}

proof fn lemma_leaves_prefix(ts: Seq<TokenTree>, k: int)
    requires
        0 <= k <= ts.len(),
        forall|i: int| 0 <= i < ts.len() ==> !((#[trigger] ts[i]) is Group),
    ensures
        render_from(ts, true) == joined_leaves(ts.subrange(0, k)) + render_from(
            ts.subrange(k, ts.len() as int),
            k == 0 || (ts[k - 1] is Punct && ts[k - 1]->Punct_1 == Spacing::Joint),
        ),
    decreases k,
{
    if k == 0 {
        assert(ts.subrange(0, ts.len() as int) =~= ts);
        assert(joined_leaves(ts.subrange(0, 0)) =~= seq![]);
    } else {
        lemma_leaves_prefix(ts, k - 1);
        let s = ts.subrange(k - 1, ts.len() as int);
        let g = k - 1 == 0 || (ts[k - 2] is Punct && ts[k - 2]->Punct_1 == Spacing::Joint);
        let g2 = ts[k - 1] is Punct && ts[k - 1]->Punct_1 == Spacing::Joint;
        assert(s[0] == ts[k - 1]);
        assert(s.subrange(1, s.len() as int) =~= ts.subrange(k, ts.len() as int));
        if s.len() >= 2 {
            assert(s[1] == ts[k]);
        }
        lemma_leaf_step(s, g);
        let p = ts.subrange(0, k);
        assert(p.drop_last() =~= ts.subrange(0, k - 1));
        assert(p.last() == ts[k - 1]);
        let sep: Seq<char> = if g { seq![] } else { seq![' '] };
        assert(leaf_sep(p, k - 1) == sep);
        assert(joined_leaves(p) == joined_leaves(ts.subrange(0, k - 1)) + sep + leaf_text(ts[k - 1]));
        let tail = render_from(ts.subrange(k, ts.len() as int), g2);
        assert(render_from(s, g) == sep + leaf_text(ts[k - 1]) + tail);
        assert(render_from(ts, true) == joined_leaves(ts.subrange(0, k - 1)) + render_from(s, g));
        assert(joined_leaves(ts.subrange(0, k - 1)) + (sep + leaf_text(ts[k - 1]) + tail) =~= joined_leaves(p) + tail);
    }
}

/// A sequence of leaves alone renders as its tokens separated by single spaces,
/// with no space after a joint punctuation mark, and a line break after each `;`.
pub proof fn lemma_leaves_render(ts: Seq<TokenTree>)
    requires
        forall|i: int| 0 <= i < ts.len() ==> !((#[trigger] ts[i]) is Group),
    ensures
        render_tokens(ts) == joined_leaves(ts),
{
    lemma_leaves_prefix(ts, ts.len() as int);
    assert(ts.subrange(0, ts.len() as int) =~= ts);
    assert(ts.subrange(ts.len() as int, ts.len() as int) =~= Seq::<TokenTree>::empty());
    assert(joined_leaves(ts) + Seq::<char>::empty() =~= joined_leaves(ts));
}

/// An empty group of any delimiter renders as its opening text, one space, and
/// its closing text: `( )`, `[ ]`, `{` line break ` }` line break, or a single space.
pub proof fn lemma_empty_group(d: Delimiter, inner: Vec<TokenTree>)
    requires
        inner@.len() == 0,
    ensures
        render_tokens(seq![TokenTree::Group(d, inner)]) == open_text(d) + seq![' '] + close_text(d),
{
    let ts = seq![TokenTree::Group(d, inner)];
    assert(ts.subrange(1, 1) =~= Seq::<TokenTree>::empty());
    assert(render_from(Seq::<TokenTree>::empty(), false) == Seq::<char>::empty());
    assert(ts[0] == TokenTree::Group(d, inner));
    assert(render_from(ts, true) =~= Seq::<char>::empty() + group_text(d, true, render_from(inner@, true)) + Seq::<char>::empty());
}

/// The pair `#` `[doc = "<text>"]`, with a string literal, renders as the one line `///<text>`.
pub proof fn lemma_doc_pair_render(
    sp: Spacing,
    inner: Vec<TokenTree>,
    name: String,
    eq_sp: Spacing,
    lit: String,
    text: Seq<char>,
)
    requires
        inner@ == seq![
            TokenTree::Ident(name),
            TokenTree::Punct('=', eq_sp),
            TokenTree::Literal(lit),
        ],
        name@ == doc_word(),
        str_literal_start(lit@),
        decoded_str_literal(lit@) == Some(text),
    ensures
        render_tokens(seq![TokenTree::Punct('#', sp), TokenTree::Group(Delimiter::Bracket, inner)])
            == seq!['/', '/', '/'] + text + seq!['\n'],
{
    let ts = seq![TokenTree::Punct('#', sp), TokenTree::Group(Delimiter::Bracket, inner)];
    assert(ts.subrange(2, 2) =~= Seq::<TokenTree>::empty());
    assert(render_from(Seq::<TokenTree>::empty(), false) == Seq::<char>::empty());
    assert(ts[0] == TokenTree::Punct('#', sp));
    assert(ts[1] == TokenTree::Group(Delimiter::Bracket, inner));
    assert(doc_comment_of(ts[0], ts[1]) == Some(text));
    assert(render_from(ts, true) =~= Seq::<char>::empty() + doc_line(text) + Seq::<char>::empty());
}

/// A `#` followed by a bracket group that is not `doc = "<text>"` with a string literal
/// (another token count, another name, a literal that is not a string) renders as
/// ordinary tokens: `#`, its space unless joint, then the group.
pub proof fn lemma_near_doc_pair_render(sp: Spacing, inner: Vec<TokenTree>)
    requires
        inner@.len() != 3 || doc_body(inner@[0], inner@[1], inner@[2]) is None,
    ensures
        render_tokens(seq![TokenTree::Punct('#', sp), TokenTree::Group(Delimiter::Bracket, inner)])
            == seq!['#'] + (if sp == Spacing::Joint {
            seq![]
        } else {
            seq![' ']
        }) + tree_text(TokenTree::Group(Delimiter::Bracket, inner)),
{
    let g = TokenTree::Group(Delimiter::Bracket, inner);
    let ts = seq![TokenTree::Punct('#', sp), g];
    let rest = ts.subrange(1, 2);
    assert(rest =~= seq![g]);
    assert(rest.subrange(1, 1) =~= Seq::<TokenTree>::empty());
    assert(render_from(Seq::<TokenTree>::empty(), false) == Seq::<char>::empty());
    assert(ts[0] == TokenTree::Punct('#', sp));
    assert(ts[1] == g);
    assert(rest[0] == g);
    assert(render_from(rest, sp == Spacing::Joint) =~= (if sp == Spacing::Joint {
        seq![]
    } else {
        seq![' ']
    }) + tree_text(g));
    assert(render_tokens(ts) =~= seq!['#'] + render_from(rest, sp == Spacing::Joint));
}

} // verus!
