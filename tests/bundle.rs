use rust_script_bundler::bundle::{first_failure, modulize_crate, render_bundle, Bundler};
use rust_script_bundler::manifest::{lines_of, new_manifest_comment};
use rust_script_bundler::render::{as_doc_comment, write_tokens_normalized, FilePrinter, SynFilePrint};
use rust_script_bundler::tokens::{AttrStyle, Attribute, Delimiter, Item, SourceFile, Spacing, TokenTree};

fn ident(s: &str) -> TokenTree {
    TokenTree::Ident(s.to_string())
}

fn punct(c: char) -> TokenTree {
    TokenTree::Punct(c, Spacing::Alone)
}

fn joint(c: char) -> TokenTree {
    TokenTree::Punct(c, Spacing::Joint)
}

fn lit(s: &str) -> TokenTree {
    TokenTree::Literal(s.to_string())
}

fn render(tokens: Vec<TokenTree>) -> String {
    let mut out = String::new();
    write_tokens_normalized(&mut out, &tokens);
    out
}

fn fn_item(name: &str) -> Item {
    Item {
        tokens: vec![
            ident("fn"),
            ident(name),
            TokenTree::Group(Delimiter::Parenthesis, vec![]),
            TokenTree::Group(Delimiter::Brace, vec![]),
        ],
    }
}

fn empty_unit(items: Vec<Item>) -> SourceFile {
    SourceFile { shebang: None, attrs: vec![], items }
}

fn bundler(manifest: &str) -> Bundler {
    Bundler {
        binary_path: "src/main.rs".to_string(),
        crates: vec![],
        lib: None,
        manifest_str: manifest.to_string(),
        out_dir: "out".to_string(),
    }
}

#[test]
fn new_manifest_comment_works() {
    let attrs = new_manifest_comment("abc\n  def");

    println!("{:?}", attrs);
}

#[test]
fn leaves_are_spaced_except_after_joint_marks() {
    let out = render(vec![
        ident("let"),
        ident("x"),
        punct('='),
        ident("a"),
        joint(':'),
        punct(':'),
        ident("b"),
        punct(';'),
        lit("1"),
    ]);
    assert_eq!(out, "let x = a :: b ;\n 1");
}

#[test]
fn joint_arrow_has_no_inner_space() {
    assert_eq!(render(vec![joint('-'), punct('>'), ident("T")]), "-> T");
}

#[test]
fn empty_groups_render_open_space_close() {
    assert_eq!(render(vec![TokenTree::Group(Delimiter::Parenthesis, vec![])]), "( )");
    assert_eq!(render(vec![TokenTree::Group(Delimiter::Bracket, vec![])]), "[ ]");
    assert_eq!(render(vec![TokenTree::Group(Delimiter::Brace, vec![])]), "{\n }\n");
    assert_eq!(render(vec![TokenTree::Group(Delimiter::Invisible, vec![])]), " ");
}

#[test]
fn non_empty_group_is_padded_and_ends_its_line() {
    let out = render(vec![
        ident("f"),
        TokenTree::Group(Delimiter::Parenthesis, vec![ident("a")]),
        punct(';'),
    ]);
    assert_eq!(out, "f ( a ) ;\n");
}

#[test]
fn non_empty_groups_have_no_break_after_close() {
    let out = render(vec![
        TokenTree::Group(Delimiter::Bracket, vec![TokenTree::Group(Delimiter::Parenthesis, vec![ident("a")])]),
        ident("b"),
        TokenTree::Group(Delimiter::Brace, vec![ident("c")]),
        TokenTree::Group(Delimiter::Invisible, vec![ident("d")]),
    ]);
    assert_eq!(out, "[ ( a ) ] b {\n c }\n  d ");
}

#[test]
fn doc_attribute_becomes_doc_comment() {
    let out = render(vec![
        punct('#'),
        TokenTree::Group(Delimiter::Bracket, vec![ident("doc"), punct('='), lit("\" hello\"")]),
        ident("fn"),
    ]);
    assert_eq!(out, "/// hello\n fn");
}

#[test]
fn doc_attribute_escapes_are_decoded() {
    let group = TokenTree::Group(Delimiter::Bracket, vec![ident("doc"), punct('='), lit("\"a\\tb\"")]);
    assert_eq!(as_doc_comment(&punct('#'), &group), Some("a\tb".to_string()));
}

#[test]
fn doc_attribute_with_four_tokens_is_left_alone() {
    let out = render(vec![
        punct('#'),
        TokenTree::Group(
            Delimiter::Bracket,
            vec![ident("doc"), punct('='), lit("\"hello\""), ident("x")],
        ),
    ]);
    assert_eq!(out, "# [ doc = \"hello\" x ]");
}

#[test]
fn doc_attribute_with_non_string_literal_is_left_alone() {
    let out = render(vec![
        punct('#'),
        TokenTree::Group(Delimiter::Bracket, vec![ident("doc"), punct('='), lit("42")]),
    ]);
    assert_eq!(out, "# [ doc = 42 ]");
}

#[test]
fn other_attribute_name_is_left_alone() {
    let group = TokenTree::Group(Delimiter::Bracket, vec![ident("cfg"), punct('='), lit("\"x\"")]);
    assert_eq!(as_doc_comment(&punct('#'), &group), None);
}

#[test]
fn lines_split_like_std() {
    assert_eq!(lines_of("a\r\nb\n"), vec!["a".to_string(), "b".to_string()]);
    assert_eq!(lines_of(""), Vec::<String>::new());
    assert_eq!(lines_of("x\n\ny"), vec!["x".to_string(), "".to_string(), "y".to_string()]);
}

#[test]
fn manifest_two_lines_give_four_fenced_doc_attrs() {
    let attrs = new_manifest_comment("a = 1\nb = 2");
    assert_eq!(attrs.len(), 4);
    for a in attrs.iter() {
        assert_eq!(a.style, AttrStyle::Inner);
        assert_eq!(a.path, "doc");
    }
    let file = SourceFile { shebang: None, attrs, items: vec![] };
    assert_eq!(
        FilePrinter(&file).to_string(),
        "//! ```cargo\n//! a = 1\n//! b = 2\n//! ```\n"
    );
}

#[test]
fn manifest_line_is_quoted_as_string_literal() {
    let attrs = new_manifest_comment("say \"hi\"");
    match &attrs[1].tokens[1] {
        TokenTree::Literal(text) => assert_eq!(text, "\" say \\\"hi\\\"\""),
        other => panic!("unexpected token {:?}", other),
    }
}

#[test]
fn file_renders_doc_attrs_before_other_attrs() {
    let file = SourceFile {
        shebang: Some("#!/bin/run".to_string()),
        attrs: vec![
            Attribute {
                style: AttrStyle::Inner,
                path: "allow".to_string(),
                tokens: vec![TokenTree::Group(Delimiter::Parenthesis, vec![ident("dead_code")])],
            },
            Attribute {
                style: AttrStyle::Inner,
                path: "doc".to_string(),
                tokens: vec![punct('='), lit("\" top\"")],
            },
        ],
        items: vec![fn_item("a"), fn_item("b")],
    };
    assert_eq!(
        file.print().to_string(),
        "#!/bin/run\n//! top\n#![allow( dead_code )]\nfn a ( ) {\n }\n\n\nfn b ( ) {\n }\n\n\n"
    );
}

#[test]
fn modulize_keeps_members_in_order() {
    let unit = SourceFile {
        shebang: Some("#!x".to_string()),
        attrs: vec![],
        items: vec![fn_item("a"), fn_item("b"), fn_item("c")],
    };
    let m = modulize_crate("lib1", unit);
    assert_eq!(m.name, "lib1");
    assert_eq!(m.items.len(), 3);
    let item = m.into_item();
    assert_eq!(item.tokens.len(), 3);
    assert_eq!(
        render(item.tokens),
        "mod lib1 {\n fn a ( ) {\n }\n fn b ( ) {\n }\n fn c ( ) {\n }\n }\n"
    );
}

#[test]
fn end_to_end_bundle_text() {
    let b = bundler("name = \"x\"");
    let merged = b.merge(empty_unit(vec![fn_item("main")]), vec![]);
    assert_eq!(merged.items.len(), 1);
    assert_eq!(
        render_bundle(&merged),
        "#!/usr/bin/env -S rust-script\n//! ```cargo\n//! name = \"x\"\n//! ```\nfn main ( ) {\n }\n\n\n\n// vim: ft=rust syntax=rust\n"
    );
}

#[test]
fn libraries_follow_root_items_in_call_order() {
    let b = bundler("")
        .with_crate_at("lib1".to_string(), "l1.rs".to_string())
        .with_crate_at("lib2".to_string(), "l2.rs".to_string());
    let merged = b.merge(
        empty_unit(vec![fn_item("A"), fn_item("B")]),
        vec![empty_unit(vec![fn_item("x")]), empty_unit(vec![])],
    );
    let names: Vec<String> = merged
        .items
        .iter()
        .map(|it| match &it.tokens[1] {
            TokenTree::Ident(s) => s.clone(),
            _ => String::new(),
        })
        .collect();
    assert_eq!(names, vec!["A", "B", "lib1", "lib2"]);
    assert_eq!(merged.attrs.len(), 2);
}

#[test]
fn with_lib_adds_declared_library() {
    let mut b = bundler("");
    b.lib = Some(("mylib".to_string(), "src/lib.rs".to_string()));
    let b = b.with_lib();
    assert_eq!(b.crates, vec![("mylib".to_string(), "src/lib.rs".to_string())]);
    let none = bundler("").with_lib();
    assert!(none.crates.is_empty());
}

#[test]
fn first_failure_stops_at_first_error() {
    let units: Vec<Result<SourceFile, String>> = vec![
        Ok(empty_unit(vec![])),
        Err("bad".to_string()),
        Err("worse".to_string()),
    ];
    assert_eq!(first_failure(units).err(), Some("bad".to_string()));
    let ok: Vec<Result<SourceFile, String>> = vec![Ok(empty_unit(vec![])), Ok(empty_unit(vec![]))];
    assert_eq!(first_failure(ok).map(|v| v.len()), Ok(2));
}

#[test]
fn doc_attribute_with_c_string_is_left_alone() {
    let out = render(vec![
        punct('#'),
        TokenTree::Group(Delimiter::Bracket, vec![ident("doc"), punct('='), lit("c\"x\"")]),
    ]);
    assert_eq!(out, "# [ doc = c\"x\" ]");
}

#[test]
fn unit_doc_attribute_with_c_string_renders_its_tokens() {
    let file = SourceFile {
        shebang: None,
        attrs: vec![Attribute {
            style: AttrStyle::Inner,
            path: "doc".to_string(),
            tokens: vec![punct('='), lit("c\"x\"")],
        }],
        items: vec![],
    };
    assert_eq!(FilePrinter(&file).to_string(), "//!= c\"x\"\n");
}

#[test]
fn raw_string_doc_attribute_is_decoded() {
    let group = TokenTree::Group(Delimiter::Bracket, vec![ident("doc"), punct('='), lit("r\" raw\\n\"")]);
    assert_eq!(as_doc_comment(&punct('#'), &group), Some(" raw\\n".to_string()));
}
