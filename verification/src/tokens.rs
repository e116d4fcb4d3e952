use proc_macro2::{TokenStream, TokenTree};
use quote::ToTokens;
use vstd::prelude::*;

verus! {

/// The bracket pair around a group of tokens.
#[derive(Clone, Copy, Debug, PartialEq, Eq, Structural)]
pub enum Delimiter {
    /// `( ... )`
    Parenthesis,
    /// `{ ... }`
    Brace,
    /// `[ ... ]`
    Bracket,
}

/// Whether a punctuation character is glued to the punctuation that follows it.
#[derive(Clone, Copy, Debug, PartialEq, Eq, Structural)]
pub enum Spacing {
    /// The character stands by itself, as the `:` in `bar: u8`.
    Alone,
    /// The character forms one operator with the next one, as the `-` in `->`.
    Joint,
}

/// One token tree of emitted code. Source positions are not part of the model.
pub enum Token {
    /// An identifier or a keyword.
    Ident(Seq<char>),
    /// A single punctuation character.
    Punct(char, Spacing),
    /// A string literal, given by the text it denotes (without quotes or escapes).
    Literal(Seq<char>),
    /// An integer literal without a suffix, as the `0` in `self.0`.
    Integer(int),
    /// A delimited run of tokens.
    Group(Delimiter, Seq<Token>),
}

/// Whether an identifier can start with the character: a letter of ASCII or `_`.
pub open spec fn is_identifier_start(c: char) -> bool {
    ('a' <= c && c <= 'z') || ('A' <= c && c <= 'Z') || c == '_'
}

/// Whether an identifier can go on with the character: a letter of ASCII, a digit or `_`.
pub open spec fn is_identifier_continue(c: char) -> bool {
    is_identifier_start(c) || ('0' <= c && c <= '9')
}

/// An identifier within ASCII: a letter or `_`, then letters, digits and `_`.
///
/// Two kinds of text that could be identifiers are left out. A lone `_`, because the
/// language counts it as none. And text beyond ASCII, because a compiler that hosts a
/// procedural macro judges such text by tables of its own and keeps it in its normal form,
/// so neither its acceptance nor the text of the token can be promised.
pub open spec fn is_identifier(s: Seq<char>) -> bool {
    &&& s.len() > 0
    &&& is_identifier_start(s[0])
    &&& forall|i: int| 0 <= i < s.len() ==> is_identifier_continue(#[trigger] s[i])
    &&& !(s.len() == 1 && s[0] == '_')
}

/// The characters that can stand as one punctuation token.
pub open spec fn is_punctuation(c: char) -> bool {
    c == '!' || c == '#' || c == '$' || c == '%' || c == '&' || c == '\'' || c == '*' || c == '+'
        || c == ',' || c == '-' || c == '.' || c == '/' || c == ':' || c == ';' || c == '<'
        || c == '=' || c == '>' || c == '?' || c == '@' || c == '^' || c == '|' || c == '~'
}

#[verifier::external_type_specification]
#[verifier::external_body]
pub struct ExTokenStream(proc_macro2::TokenStream);

/// The token trees that a stream holds, in order.
///
/// All streams of a process are taken to be of one kind, the compiler's or the outside
/// crate's own. They are, unless the process switches kinds with
/// `proc_macro2::fallback::force` between making two streams and putting them together,
/// which panics; this crate never switches.
pub uninterp spec fn stream_tokens(stream: TokenStream) -> Seq<Token>;

/// `proc_macro2::TokenStream::new`: a stream that holds no token.
#[verifier::external_body]
pub(crate) fn new_stream() -> (stream: TokenStream)
    ensures
        stream_tokens(stream) == Seq::<Token>::empty(),
{
    TokenStream::new()
}

/// `proc_macro2::TokenStream::is_empty`: whether the stream holds no token.
#[verifier::external_body]
pub(crate) fn stream_is_empty(stream: &TokenStream) -> (empty: bool)
    ensures
        empty == (stream_tokens(*stream).len() == 0),
{
    stream.is_empty()
}

/// `proc_macro2::Ident::new`, with the span of the call site. Outside a procedural macro
/// it checks the text itself and panics on text that is empty, that holds digits only, or
/// that holds a character with which no identifier starts or goes on. Inside one it hands
/// the text to `proc_macro::Ident::new` of the compiler, which panics on what the language
/// does not permit as an identifier. An identifier within ASCII passes either way and is
/// kept as it is: the result is the identifier of that text, here as a stream of that one
/// token.
#[verifier::external_body]
pub(crate) fn ident_stream(name: &str) -> (stream: TokenStream)
    requires
        is_identifier(name@),
    ensures
        stream_tokens(stream) == seq![Token::Ident(name@)],
{
    let ident = proc_macro2::Ident::new(name, proc_macro2::Span::call_site());
    TokenStream::from(TokenTree::Ident(ident))
}

/// `proc_macro2::Punct::new`. It panics on a character outside its fixed list; a
/// character of the list gives that punctuation with the spacing given, here as a stream
/// of that one token.
#[verifier::external_body]
pub(crate) fn punct_stream(ch: char, spacing: Spacing) -> (stream: TokenStream)
    requires
        is_punctuation(ch),
    ensures
        stream_tokens(stream) == seq![Token::Punct(ch, spacing)],
{
    let spacing = match spacing {
        Spacing::Alone => proc_macro2::Spacing::Alone,
        Spacing::Joint => proc_macro2::Spacing::Joint,
    };
    TokenStream::from(TokenTree::Punct(proc_macro2::Punct::new(ch, spacing)))
}

/// `proc_macro2::Literal::string`: the string literal that denotes exactly `value`, here
/// as a stream of that one token.
#[verifier::external_body]
pub(crate) fn string_literal_stream(value: &str) -> (stream: TokenStream)
    ensures
        stream_tokens(stream) == seq![Token::Literal(value@)],
{
    TokenStream::from(TokenTree::Literal(proc_macro2::Literal::string(value)))
}

/// `proc_macro2::Literal::usize_unsuffixed`: the integer literal of that value, without
/// a suffix, here as a stream of that one token.
#[verifier::external_body]
pub(crate) fn integer_stream(value: usize) -> (stream: TokenStream)
    ensures
        stream_tokens(stream) == seq![Token::Integer(value as int)],
{
    TokenStream::from(TokenTree::Literal(proc_macro2::Literal::usize_unsuffixed(value)))
}

/// `proc_macro2::Group::new`: the group that holds the tokens of `inner` between the
/// delimiters given, here as a stream of that one token.
#[verifier::external_body]
pub(crate) fn group_stream(delimiter: Delimiter, inner: TokenStream) -> (stream: TokenStream)
    ensures
        stream_tokens(stream) == seq![Token::Group(delimiter, stream_tokens(inner))],
{
    let delimiter = match delimiter {
        Delimiter::Parenthesis => proc_macro2::Delimiter::Parenthesis,
        Delimiter::Brace => proc_macro2::Delimiter::Brace,
        Delimiter::Bracket => proc_macro2::Delimiter::Bracket,
    };
    TokenStream::from(TokenTree::Group(proc_macro2::Group::new(delimiter, inner)))
}

/// `quote::ToTokens::to_tokens` of a `TokenStream`: the stream gains the tokens of `other`
/// at its end, in their order.
#[verifier::external_body]
pub(crate) fn push_stream(stream: &mut TokenStream, other: &TokenStream)
    ensures
        stream_tokens(*final(stream)) == stream_tokens(*old(stream)) + stream_tokens(*other),
{
    other.to_tokens(stream);
}

pub(crate) fn push_ident(stream: &mut TokenStream, name: &str)
    requires
        is_identifier(name@),
    ensures
        stream_tokens(*final(stream)) == stream_tokens(*old(stream)).push(Token::Ident(name@)),
{
    let token = ident_stream(name);
    push_stream(stream, &token);
}

pub(crate) fn push_punct(stream: &mut TokenStream, ch: char, spacing: Spacing)
    requires
        is_punctuation(ch),
    ensures
        stream_tokens(*final(stream)) == stream_tokens(*old(stream)).push(
            Token::Punct(ch, spacing),
        ),
{
    let token = punct_stream(ch, spacing);
    push_stream(stream, &token);
}

pub(crate) fn push_string_literal(stream: &mut TokenStream, value: &str)
    ensures
        stream_tokens(*final(stream)) == stream_tokens(*old(stream)).push(Token::Literal(value@)),
{
    let token = string_literal_stream(value);
    push_stream(stream, &token);
}

pub(crate) fn push_integer(stream: &mut TokenStream, value: usize)
    ensures
        stream_tokens(*final(stream)) == stream_tokens(*old(stream)).push(
            Token::Integer(value as int),
        ),
{
    let token = integer_stream(value);
    push_stream(stream, &token);
}

pub(crate) fn push_group(stream: &mut TokenStream, delimiter: Delimiter, inner: TokenStream)
    ensures
        stream_tokens(*final(stream)) == stream_tokens(*old(stream)).push(
            Token::Group(delimiter, stream_tokens(inner)),
        ),
{
    let token = group_stream(delimiter, inner);
    push_stream(stream, &token);
}

} // verus!
