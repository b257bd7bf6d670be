use vstd::prelude::*;

verus! {

/// The string value that a literal's source text denotes, when that text is a
/// string literal (`"a\n"` gives `a` and a line break); `None` for any other literal.
pub uninterp spec fn decoded_str_literal(text: Seq<char>) -> Option<Seq<char>>;

/// The source text of a string literal that denotes `value`, escaped as needed.
pub uninterp spec fn str_literal_text(value: Seq<char>) -> Seq<char>;

/// `text` opens the way every string literal does, with `"` or with `r` (a raw string).
/// Text that starts so lexes first as a string, a raw string or an identifier, all of
/// which syn can classify.
pub open spec fn str_literal_start(text: Seq<char>) -> bool {
    text.len() > 0 && (text[0] == '"' || text[0] == 'r')
}

/// Whether `text` opens the way a string literal does.
pub fn starts_like_str_literal(text: &str) -> (r: bool)
    ensures
        r == str_literal_start(text@),
{
    text.unicode_len() > 0 && (text.get_char(0) == '"' || text.get_char(0) == 'r')
}

/// Relies on syn's `LitStr` parser and `LitStr::value`: parses `text` as one string
/// literal and decodes its escapes; any other text gives `None`. syn's `Lit::new`
/// panics on a literal of a kind it does not know (`c"x"`), hence the `requires`.
#[verifier::external_body]
pub(crate) fn decode_str_literal(text: &str) -> (r: Option<String>)
    requires
        str_literal_start(text@),
    ensures
        match r {
            Some(s) => decoded_str_literal(text@) == Some(s@),
            None => decoded_str_literal(text@) is None,
        },
{
    syn::parse_str::<syn::LitStr>(text).ok().map(|lit| lit.value())
}

/// Relies on `proc_macro2::Literal::string`: the source text of a string literal
/// whose value is `value`, opening with `"`. Its escapes (`\0`, `\x00`, and those of `char::escape_debug`)
/// are all ones that syn's `LitStr` decodes, so the text reads back as `value`.
#[verifier::external_body]
pub(crate) fn encode_str_literal(value: &str) -> (r: String)
    ensures
        r@ == str_literal_text(value@),
        str_literal_start(r@),
        decoded_str_literal(r@) == Some(value@),
{
    proc_macro2::Literal::string(value).to_string()
}

/// Relies on `String::push`: appends one character.
#[verifier::external_body]
pub(crate) fn push_char(s: &mut String, c: char)
    ensures
        final(s)@ == old(s)@.push(c),
{
    s.push(c)
}

} // verus!
