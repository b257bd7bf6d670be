use vstd::prelude::*;

use crate::literal::push_char;
use crate::manifest::{fenced_lines, is_doc_attr_for, new_manifest_comment};
use crate::literal::decoded_str_literal;
use crate::render::{doc_attr_lines, doc_attr_text, is_doc_attr, render_file, FilePrinter};
use crate::tokens::{all_inner, Attribute, Delimiter, Item, SourceFile, TokenTree};

verus! {

/// The interpreter line that starts every bundle.
pub open spec fn shebang_line() -> Seq<char> {
    seq!['#', '!', '/', 'u', 's', 'r', '/', 'b', 'i', 'n', '/', 'e', 'n', 'v', ' ', '-', 'S', ' ',
        'r', 'u', 's', 't', '-', 's', 'c', 'r', 'i', 'p', 't']
}

/// The comment line that ends every bundle, naming the file type for editors.
pub open spec fn trailer_line() -> Seq<char> {
    seq!['/', '/', ' ', 'v', 'i', 'm', ':', ' ', 'f', 't', '=', 'r', 'u', 's', 't', ' ', 's', 'y',
        'n', 't', 'a', 'x', '=', 'r', 'u', 's', 't']
}

pub open spec fn mod_word() -> Seq<char> {
    seq!['m', 'o', 'd']
}

/// The tokens of `items`, one member after another.
pub open spec fn members_tokens(items: Seq<Item>) -> Seq<TokenTree>
    decreases items.len(),
{
    if items.len() == 0 {
        seq![]
    } else {
        items[0].tokens@ + members_tokens(items.subrange(1, items.len() as int))
    }
}

/// `it` is the item `mod <name> { <members> }`.
pub open spec fn is_module_item(it: Item, name: Seq<char>, members: Seq<Item>) -> bool {
    &&& it.tokens@.len() == 3
    &&& it.tokens@[0] is Ident
    &&& it.tokens@[0]->Ident_0@ == mod_word()
    &&& it.tokens@[1] is Ident
    &&& it.tokens@[1]->Ident_0@ == name
    &&& it.tokens@[2] is Group
    &&& it.tokens@[2]->Group_0 == Delimiter::Brace
    &&& it.tokens@[2]->Group_1@ == members_tokens(members)
}

/// A unit's members gathered under one name, ready to become one member of another unit.
#[derive(Debug)]
pub struct NamedModule {
    pub name: String,
    pub items: Vec<Item>,
}

/// Wraps the members of `file` into a module called `name`. The unit's own
/// interpreter line and unit-level attributes are dropped.
pub fn modulize_crate(name: &str, file: SourceFile) -> (r: NamedModule)
    ensures
        r.name@ == name@,
        r.items@ == file.items@,
{
    let mut module_name = String::new();
    module_name.append(name);
    NamedModule { name: module_name, items: file.items }
}

impl NamedModule {
    /// The member `mod <name> { <members> }`.
    pub fn into_item(self) -> (r: Item)
        ensures
            is_module_item(r, self.name@, self.items@),
    {
        let ghost all = self.items@;
        let mut items = self.items;
        let mut body: Vec<TokenTree> = Vec::new();
        assert(all.subrange(0, all.len() as int) =~= all);
        while items.len() > 0
            invariant
                body@ + members_tokens(items@) == members_tokens(all),
            decreases items.len(),
        {
            let ghost before = items@;
            let mut it = items.remove(0);
            assert(items@ =~= before.subrange(1, before.len() as int));
            body.append(&mut it.tokens);
            assert(body@ + members_tokens(items@) =~= members_tokens(all));
        }
        assert(body@ =~= members_tokens(all));
        let mut word = String::new();
        word.append("mod");
        proof {
            reveal_strlit("mod");
            assert(word@ =~= mod_word());
        }
        let mut tokens: Vec<TokenTree> = Vec::new();
        tokens.push(TokenTree::Ident(word));
        tokens.push(TokenTree::Ident(self.name));
        tokens.push(TokenTree::Group(Delimiter::Brace, body));
        Item { tokens }
    }
}

/// Unit `i` is the first that failed to load, with error `e`.
pub open spec fn fails_first_at<E>(units: Seq<Result<SourceFile, E>>, i: int, e: E) -> bool {
    &&& 0 <= i < units.len()
    &&& units[i] == Err::<SourceFile, E>(e)
    &&& forall|j: int| 0 <= j < i ==> (#[trigger] units[j]) is Ok
}

/// Stops at the first failure among loaded units; otherwise gives all of them, in order.
pub fn first_failure<E>(units: Vec<Result<SourceFile, E>>) -> (r: Result<Vec<SourceFile>, E>)
    ensures
        match r {
            Ok(v) => {
                &&& v@.len() == units@.len()
                &&& forall|i: int| 0 <= i < v@.len() ==> units@[i] == Ok::<SourceFile, E>(#[trigger] v@[i])
            },
            Err(e) => exists|i: int| #[trigger] fails_first_at(units@, i, e),
        },
{
    let ghost all = units@;
    let mut rest = units;
    let mut done: Vec<SourceFile> = Vec::new();
    while rest.len() > 0
        invariant
            all == units@,
            done@.len() + rest@.len() == all.len(),
            rest@ == all.subrange(done@.len() as int, all.len() as int),
            forall|i: int| 0 <= i < done@.len() ==> all[i] == Ok::<SourceFile, E>(#[trigger] done@[i]),
        decreases rest.len(),
    {
        let ghost k = done@.len() as int;
        let ghost before = rest@;
        assert(before[0] == all[k]);
        match rest.remove(0) {
            Ok(u) => {
                done.push(u);
                assert(rest@ =~= all.subrange(done@.len() as int, all.len() as int));
            },
            Err(e) => {
                assert forall|j: int| 0 <= j < k implies (#[trigger] all[j]) is Ok by {
                    assert(all[j] == Ok::<SourceFile, E>(done@[j]));
                }
                let r: Result<Vec<SourceFile>, E> = Err(e);
                assert(r matches Err(x) && fails_first_at(units@, k, x));
                return r;
            },
        }
    }
    Ok(done)
}

/// Everything a bundle is made from: where the root unit and the libraries lie,
/// the manifest's text, and where the bundle goes.
#[derive(Debug)]
pub struct Bundler {
    pub binary_path: String,
    /// Libraries to fold in, as (module name, root file), in order.
    pub crates: Vec<(String, String)>,
    /// The library target that the manifest declares, as (name, root file), if any.
    pub lib: Option<(String, String)>,
    /// The manifest's text, embedded in the bundle as documentation.
    pub manifest_str: String,
    pub out_dir: String,
}

impl Bundler {
    /// Adds the manifest's own library target, when it declares one, to the libraries.
    pub fn with_lib(self) -> (r: Self)
        ensures
            r.crates@ == (match self.lib {
                Some(l) => self.crates@.push(l),
                None => self.crates@,
            }),
            r.lib == self.lib,
            r.binary_path == self.binary_path,
            r.manifest_str == self.manifest_str,
            r.out_dir == self.out_dir,
    {
        let mut this = self;
        if let Some((name, path)) = &this.lib {
            let entry = (name.clone(), path.clone());
            this.crates.push(entry);
        }
        this
    }

    /// Adds a library called `name` whose root file is `root`.
    pub fn with_crate_at(self, name: String, root: String) -> (r: Self)
        ensures
            r.crates@ == self.crates@.push((name, root)),
            r.lib == self.lib,
            r.binary_path == self.binary_path,
            r.manifest_str == self.manifest_str,
            r.out_dir == self.out_dir,
    {
        let mut this = self;
        this.crates.push((name, root));
        this
    }

    /// Folds the loaded libraries into the loaded root unit: the root's members come
    /// first, then one module per library, named and ordered as in `crates`; the
    /// interpreter line is set, and the manifest's documentation goes before the
    /// root's own attributes.
    pub fn merge(&self, root: SourceFile, libs: Vec<SourceFile>) -> (r: SourceFile)
        requires
            libs@.len() == self.crates@.len(),
        ensures
            r.shebang is Some,
            r.shebang->Some_0@ == shebang_line(),
            r.attrs@.len() == fenced_lines(self.manifest_str@).len() + root.attrs@.len(),
            forall|i: int|
                0 <= i < fenced_lines(self.manifest_str@).len() ==> is_doc_attr_for(
                    #[trigger] r.attrs@[i],
                    fenced_lines(self.manifest_str@)[i],
                ),
            r.attrs@.subrange(fenced_lines(self.manifest_str@).len() as int, r.attrs@.len() as int)
                == root.attrs@,
            r.items@.len() == root.items@.len() + libs@.len(),
            r.items@.subrange(0, root.items@.len() as int) == root.items@,
            forall|k: int|
                0 <= k < libs@.len() ==> is_module_item(
                    #[trigger] r.items@[root.items@.len() + k],
                    self.crates@[k].0@,
                    libs@[k].items@,
                ),
    {
        let ghost root_items = root.items@;
        let ghost root_attrs = root.attrs@;
        let ghost all_libs = libs@;
        let mut items = root.items;
        let mut rest = libs;
        let n = self.crates.len();
        let mut k: usize = 0;
        while k < n
            invariant
                n == self.crates@.len(),
                n == all_libs.len(),
                k <= n,
                rest@ == all_libs.subrange(k as int, n as int),
                items@.len() == root_items.len() + k,
                items@.subrange(0, root_items.len() as int) == root_items,
                forall|j: int|
                    0 <= j < k ==> is_module_item(
                        #[trigger] items@[root_items.len() + j],
                        self.crates@[j].0@,
                        all_libs[j].items@,
                    ),
            decreases n - k,
        {
            let ghost before = rest@;
            let lib = rest.remove(0);
            assert(rest@ =~= all_libs.subrange(k + 1, n as int));
            let item = modulize_crate(self.crates[k].0.as_str(), lib).into_item();
            items.push(item);
            assert(items@.subrange(0, root_items.len() as int) =~= root_items);
            k = k + 1;
        }
        let mut attrs = new_manifest_comment(self.manifest_str.as_str());
        let ghost head = attrs@;
        let mut tail = root.attrs;
        attrs.append(&mut tail);
        assert(attrs@.subrange(head.len() as int, attrs@.len() as int) =~= root_attrs);
        let mut shebang = String::new();
        shebang.append("#!/usr/bin/env -S rust-script");
        proof {
            reveal_strlit("#!/usr/bin/env -S rust-script");
            assert(shebang@ =~= shebang_line());
        }
        SourceFile { shebang: Some(shebang), attrs, items }
    }
}

/// The bundle's text: the unit's rendering, a line break, then the trailer line.
pub open spec fn bundle_text(f: SourceFile) -> Seq<char> {
    render_file(f) + seq!['\n'] + trailer_line() + seq!['\n']
}

/// Renders a merged unit as the full text of a bundle file.
pub fn render_bundle(file: &SourceFile) -> (r: String)
    requires
        all_inner(file.attrs@),
    ensures
        r@ == bundle_text(*file),
{
    let mut out = String::new();
    FilePrinter(file).fmt(&mut out);
    push_char(&mut out, '\n');
    out.append("// vim: ft=rust syntax=rust");
    push_char(&mut out, '\n');
    proof {
        reveal_strlit("// vim: ft=rust syntax=rust");
        assert(out@ =~= bundle_text(*file));
    }
    out
}


/// Each line as `//! <line>` with its line break, in order.
pub open spec fn doc_comment_lines(lines: Seq<Seq<char>>) -> Seq<char>
    decreases lines.len(),
{
    if lines.len() == 0 {
        seq![]
    } else {
        doc_comment_lines(lines.drop_last()) + seq!['/', '/', '!', ' '] + lines.last() + seq!['\n']
    }
}

proof fn lemma_doc_attr_lines_append(a: Seq<Attribute>, b: Seq<Attribute>)
    ensures
        doc_attr_lines(a + b) == doc_attr_lines(a) + doc_attr_lines(b),
    decreases b.len(),
{
    if b.len() == 0 {
        assert(a + b =~= a);
        assert(doc_attr_lines(a) + doc_attr_lines(b) =~= doc_attr_lines(a));
    } else {
        lemma_doc_attr_lines_append(a, b.drop_last());
        assert((a + b).drop_last() =~= a + b.drop_last());
        assert((a + b).last() == b.last());
        let tail = if is_doc_attr(b.last()) {
            seq!['/', '/', '!'] + doc_attr_text(b.last().tokens@) + seq!['\n']
        } else {
            seq![]
        };
        assert(doc_attr_lines(a) + doc_attr_lines(b.drop_last()) + tail =~= doc_attr_lines(a) + (
        doc_attr_lines(b.drop_last()) + tail));
    }
}

proof fn lemma_manifest_doc_lines(attrs: Seq<Attribute>, lines: Seq<Seq<char>>)
    requires
        attrs.len() == lines.len(),
        forall|i: int| 0 <= i < attrs.len() ==> is_doc_attr_for(#[trigger] attrs[i], lines[i]),
    ensures
        doc_attr_lines(attrs) == doc_comment_lines(lines),
    decreases attrs.len(),
{
    if attrs.len() > 0 {
        let n = attrs.len() - 1;
        assert forall|i: int| 0 <= i < n implies is_doc_attr_for(
            #[trigger] attrs.drop_last()[i],
            lines.drop_last()[i],
        ) by {
            assert(attrs.drop_last()[i] == attrs[i]);
        }
        lemma_manifest_doc_lines(attrs.drop_last(), lines.drop_last());
        let a = attrs.last();
        assert(is_doc_attr_for(a, lines[n]));
        let lit = a.tokens@[1]->Literal_0;
        assert(decoded_str_literal(lit@) == Some(seq![' '] + lines[n]));
        assert(doc_attr_text(a.tokens@) == seq![' '] + lines[n]);
        assert(is_doc_attr(a));
        assert(seq!['/', '/', '!'] + (seq![' '] + lines.last()) + seq!['\n'] =~= seq![
            '/',
            '/',
            '!',
            ' ',
        ] + lines.last() + seq!['\n']);
        assert(doc_attr_lines(attrs) =~= doc_comment_lines(lines));
    }
}

/// The documentation lines of a merged unit: the fenced manifest, one `//! <line>` per
/// line, then the documentation lines of the root unit's own attributes.
pub proof fn lemma_merged_doc_lines(manifest: Seq<char>, root_attrs: Seq<Attribute>, attrs: Seq<Attribute>)
    requires
        attrs.len() == fenced_lines(manifest).len() + root_attrs.len(),
        forall|i: int|
            0 <= i < fenced_lines(manifest).len() ==> is_doc_attr_for(
                #[trigger] attrs[i],
                fenced_lines(manifest)[i],
            ),
        attrs.subrange(fenced_lines(manifest).len() as int, attrs.len() as int) == root_attrs,
    ensures
        doc_attr_lines(attrs) == doc_comment_lines(fenced_lines(manifest)) + doc_attr_lines(root_attrs),
{
    let f = fenced_lines(manifest).len() as int;
    let head = attrs.subrange(0, f);
    assert(attrs =~= head + root_attrs);
    assert forall|i: int| 0 <= i < f implies is_doc_attr_for(#[trigger] head[i], fenced_lines(manifest)[i]) by {
        assert(head[i] == attrs[i]);
    }
    lemma_manifest_doc_lines(head, fenced_lines(manifest));
    lemma_doc_attr_lines_append(head, root_attrs);
}

} // verus!
