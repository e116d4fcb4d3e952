use crate::ir::{ParameterView, Side, TypeReference, TypeReferenceView};
use crate::tokens::{
    is_identifier, new_stream, push_group, push_ident, push_integer, push_punct,
    push_string_literal, stream_tokens, Delimiter, Spacing, Token,
};
use proc_macro2::TokenStream;
use vstd::prelude::*;

verus! {

/// The fixed identifiers and keywords of emitted code.
#[derive(Clone, Copy, Debug, PartialEq, Eq, Structural)]
pub enum Word {
    As,
    BoxType,
    CVoid,
    DropMethod,
    DropTrait,
    ExportName,
    Extern,
    Ffi,
    For,
    FromRaw,
    Function,
    Impl,
    IntoRaw,
    Let,
    LinkName,
    Module,
    Mut,
    New,
    NoMangle,
    Pub,
    SelfValue,
    Std,
    Struct,
    Super,
    This,
    Unsafe,
}

impl Word {
    /// The word as it stands in emitted code.
    pub open spec fn text(self) -> Seq<char> {
        match self {
            Word::As => "as"@,
            Word::BoxType => "Box"@,
            Word::CVoid => "c_void"@,
            Word::DropMethod => "drop"@,
            Word::DropTrait => "Drop"@,
            Word::ExportName => "export_name"@,
            Word::Extern => "extern"@,
            Word::Ffi => "ffi"@,
            Word::For => "for"@,
            Word::FromRaw => "from_raw"@,
            Word::Function => "fn"@,
            Word::Impl => "impl"@,
            Word::IntoRaw => "into_raw"@,
            Word::Let => "let"@,
            Word::LinkName => "link_name"@,
            Word::Module => "mod"@,
            Word::Mut => "mut"@,
            Word::New => "new"@,
            Word::NoMangle => "no_mangle"@,
            Word::Pub => "pub"@,
            Word::SelfValue => "self"@,
            Word::Std => "std"@,
            Word::Struct => "struct"@,
            Word::Super => "super"@,
            Word::This => "this"@,
            Word::Unsafe => "unsafe"@,
        }
    }

    /// The word as a token.
    pub open spec fn token(self) -> Token {
        Token::Ident(self.text())
    }

    /// The word as a string, which is an identifier.
    pub fn as_str(self) -> (text: &'static str)
        ensures
            text@ == self.text(),
            is_identifier(text@),
    {
        match self {
            Word::As => {
                proof { reveal_strlit("as"); }
                "as"
            },
            Word::BoxType => {
                proof { reveal_strlit("Box"); }
                "Box"
            },
            Word::CVoid => {
                proof { reveal_strlit("c_void"); }
                "c_void"
            },
            Word::DropMethod => {
                proof { reveal_strlit("drop"); }
                "drop"
            },
            Word::DropTrait => {
                proof { reveal_strlit("Drop"); }
                "Drop"
            },
            Word::ExportName => {
                proof { reveal_strlit("export_name"); }
                "export_name"
            },
            Word::Extern => {
                proof { reveal_strlit("extern"); }
                "extern"
            },
            Word::Ffi => {
                proof { reveal_strlit("ffi"); }
                "ffi"
            },
            Word::For => {
                proof { reveal_strlit("for"); }
                "for"
            },
            Word::FromRaw => {
                proof { reveal_strlit("from_raw"); }
                "from_raw"
            },
            Word::Function => {
                proof { reveal_strlit("fn"); }
                "fn"
            },
            Word::Impl => {
                proof { reveal_strlit("impl"); }
                "impl"
            },
            Word::IntoRaw => {
                proof { reveal_strlit("into_raw"); }
                "into_raw"
            },
            Word::Let => {
                proof { reveal_strlit("let"); }
                "let"
            },
            Word::LinkName => {
                proof { reveal_strlit("link_name"); }
                "link_name"
            },
            Word::Module => {
                proof { reveal_strlit("mod"); }
                "mod"
            },
            Word::Mut => {
                proof { reveal_strlit("mut"); }
                "mut"
            },
            Word::New => {
                proof { reveal_strlit("new"); }
                "new"
            },
            Word::NoMangle => {
                proof { reveal_strlit("no_mangle"); }
                "no_mangle"
            },
            Word::Pub => {
                proof { reveal_strlit("pub"); }
                "pub"
            },
            Word::SelfValue => {
                proof { reveal_strlit("self"); }
                "self"
            },
            Word::Std => {
                proof { reveal_strlit("std"); }
                "std"
            },
            Word::Struct => {
                proof { reveal_strlit("struct"); }
                "struct"
            },
            Word::Super => {
                proof { reveal_strlit("super"); }
                "super"
            },
            Word::This => {
                proof { reveal_strlit("this"); }
                "this"
            },
            Word::Unsafe => {
                proof { reveal_strlit("unsafe"); }
                "unsafe"
            },
        }
    }
}

/// Every fixed word starts with a letter.
pub proof fn lemma_words_start_with_letters(word: Word)
    ensures
        word.text().len() > 0,
        word.text()[0] != '_',
{
    match word {
        Word::As => {
            reveal_strlit("as");
        },
        Word::BoxType => {
            reveal_strlit("Box");
        },
        Word::CVoid => {
            reveal_strlit("c_void");
        },
        Word::DropMethod => {
            reveal_strlit("drop");
        },
        Word::DropTrait => {
            reveal_strlit("Drop");
        },
        Word::ExportName => {
            reveal_strlit("export_name");
        },
        Word::Extern => {
            reveal_strlit("extern");
        },
        Word::Ffi => {
            reveal_strlit("ffi");
        },
        Word::For => {
            reveal_strlit("for");
        },
        Word::FromRaw => {
            reveal_strlit("from_raw");
        },
        Word::Function => {
            reveal_strlit("fn");
        },
        Word::Impl => {
            reveal_strlit("impl");
        },
        Word::IntoRaw => {
            reveal_strlit("into_raw");
        },
        Word::Let => {
            reveal_strlit("let");
        },
        Word::LinkName => {
            reveal_strlit("link_name");
        },
        Word::Module => {
            reveal_strlit("mod");
        },
        Word::Mut => {
            reveal_strlit("mut");
        },
        Word::New => {
            reveal_strlit("new");
        },
        Word::NoMangle => {
            reveal_strlit("no_mangle");
        },
        Word::Pub => {
            reveal_strlit("pub");
        },
        Word::SelfValue => {
            reveal_strlit("self");
        },
        Word::Std => {
            reveal_strlit("std");
        },
        Word::Struct => {
            reveal_strlit("struct");
        },
        Word::Super => {
            reveal_strlit("super");
        },
        Word::This => {
            reveal_strlit("this");
        },
        Word::Unsafe => {
            reveal_strlit("unsafe");
        },
    }
}

/// A punctuation character that stands by itself.
pub open spec fn punct(ch: char) -> Token {
    Token::Punct(ch, Spacing::Alone)
}

/// `::`
pub open spec fn path_separator() -> Seq<Token> {
    seq![Token::Punct(':', Spacing::Joint), punct(':')]
}

/// `->`
pub open spec fn arrow() -> Seq<Token> {
    seq![Token::Punct('-', Spacing::Joint), punct('>')]
}

/// `*mut std::ffi::c_void`: a pointer of which this side knows nothing.
pub open spec fn opaque_pointer() -> Seq<Token> {
    seq![punct('*'), Word::Mut.token(), Word::Std.token()] + path_separator() + seq![
        Word::Ffi.token(),
    ] + path_separator() + seq![Word::CVoid.token()]
}

/// `*mut super::T`: a pointer to a value of a type that the enclosing scope defines.
pub open spec fn typed_pointer(ty: Seq<char>) -> Seq<Token> {
    seq![punct('*'), Word::Mut.token(), Word::Super.token()] + path_separator() + seq![
        Token::Ident(ty),
    ]
}

/// `#[word]`
pub open spec fn marker_attribute(word: Word) -> Seq<Token> {
    seq![punct('#'), Token::Group(Delimiter::Bracket, seq![word.token()])]
}

/// `#[word = "value"]`
pub open spec fn name_attribute(word: Word, value: Seq<char>) -> Seq<Token> {
    seq![
        punct('#'),
        Token::Group(Delimiter::Bracket, seq![word.token(), punct('='), Token::Literal(value)]),
    ]
}

/// `extern "C"`
pub open spec fn c_abi() -> Seq<Token> {
    seq![Word::Extern.token(), Token::Literal("C"@)]
}

/// `self.0`: the pointer that a proxy holds.
pub open spec fn held_pointer() -> Seq<Token> {
    seq![Word::SelfValue.token(), punct('.'), Token::Integer(0)]
}

/// The items, with a comma between each two.
pub open spec fn comma_separated(items: Seq<Seq<Token>>) -> Seq<Token>
    decreases items.len(),
{
    if items.len() == 0 {
        Seq::empty()
    } else if items.len() == 1 {
        items[0]
    } else {
        comma_separated(items.drop_last()) + seq![punct(',')] + items.last()
    }
}

/// The type under which a value crosses the boundary: a primitive as it is; a declared type
/// as a typed pointer in what the native side exports, as an opaque pointer in what the
/// foreign side is asked for.
pub open spec fn boundary_type(ty: TypeReferenceView, side: Side) -> Seq<Token> {
    match ty {
        TypeReferenceView::BuiltIn(name) => seq![Token::Ident(name)],
        TypeReferenceView::Declared(name, _) => match side {
            Side::Native => typed_pointer(name),
            Side::Foreign => opaque_pointer(),
        },
    }
}

/// `name: type`
pub open spec fn boundary_parameter(parameter: ParameterView, side: Side) -> Seq<Token> {
    seq![Token::Ident(parameter.name), punct(':')] + boundary_type(parameter.ty, side)
}

/// `this: type`, for a receiver of the type given.
pub open spec fn receiver_parameter(ty: Seq<char>, side: Side) -> Seq<Token> {
    seq![Word::This.token(), punct(':')] + match side {
        Side::Native => typed_pointer(ty),
        Side::Foreign => opaque_pointer(),
    }
}

/// What follows the parameter list of a boundary function: nothing, `-> primitive`, or
/// `-> *mut std::ffi::c_void` for a value of a declared type.
pub open spec fn boundary_return(ty: Option<TypeReferenceView>) -> Seq<Token> {
    match ty {
        None => Seq::empty(),
        Some(TypeReferenceView::BuiltIn(name)) => arrow() + seq![Token::Ident(name)],
        Some(TypeReferenceView::Declared(_, _)) => arrow() + opaque_pointer(),
    }
}

pub(crate) fn push_word(stream: &mut TokenStream, word: Word)
    ensures
        stream_tokens(*final(stream)) == stream_tokens(*old(stream)).push(word.token()),
{
    push_ident(stream, word.as_str());
}

pub(crate) fn push_alone(stream: &mut TokenStream, ch: char)
    requires
        crate::tokens::is_punctuation(ch),
    ensures
        stream_tokens(*final(stream)) == stream_tokens(*old(stream)).push(punct(ch)),
{
    push_punct(stream, ch, Spacing::Alone);
}

pub(crate) fn push_path_separator(stream: &mut TokenStream)
    ensures
        stream_tokens(*final(stream)) == stream_tokens(*old(stream)) + path_separator(),
{
    push_punct(stream, ':', Spacing::Joint);
    push_punct(stream, ':', Spacing::Alone);
}

pub(crate) fn push_arrow(stream: &mut TokenStream)
    ensures
        stream_tokens(*final(stream)) == stream_tokens(*old(stream)) + arrow(),
{
    push_punct(stream, '-', Spacing::Joint);
    push_punct(stream, '>', Spacing::Alone);
}

pub(crate) fn push_opaque_pointer(stream: &mut TokenStream)
    ensures
        stream_tokens(*final(stream)) == stream_tokens(*old(stream)) + opaque_pointer(),
{
    push_alone(stream, '*');
    push_word(stream, Word::Mut);
    push_word(stream, Word::Std);
    push_path_separator(stream);
    push_word(stream, Word::Ffi);
    push_path_separator(stream);
    push_word(stream, Word::CVoid);
}

pub(crate) fn push_typed_pointer(stream: &mut TokenStream, ty: &str)
    requires
        is_identifier(ty@),
    ensures
        stream_tokens(*final(stream)) == stream_tokens(*old(stream)) + typed_pointer(ty@),
{
    push_alone(stream, '*');
    push_word(stream, Word::Mut);
    push_word(stream, Word::Super);
    push_path_separator(stream);
    push_ident(stream, ty);
}

pub(crate) fn push_marker_attribute(stream: &mut TokenStream, word: Word)
    ensures
        stream_tokens(*final(stream)) == stream_tokens(*old(stream)) + marker_attribute(word),
{
    let mut inner = new_stream();
    push_word(&mut inner, word);
    assert(stream_tokens(inner) =~= seq![word.token()]);
    push_alone(stream, '#');
    push_group(stream, Delimiter::Bracket, inner);
}

pub(crate) fn push_name_attribute(stream: &mut TokenStream, word: Word, value: &str)
    ensures
        stream_tokens(*final(stream)) == stream_tokens(*old(stream)) + name_attribute(
            word,
            value@,
        ),
{
    let mut inner = new_stream();
    push_word(&mut inner, word);
    push_alone(&mut inner, '=');
    push_string_literal(&mut inner, value);
    assert(stream_tokens(inner) =~= seq![word.token(), punct('='), Token::Literal(value@)]);
    push_alone(stream, '#');
    push_group(stream, Delimiter::Bracket, inner);
}

pub(crate) fn push_c_abi(stream: &mut TokenStream)
    ensures
        stream_tokens(*final(stream)) == stream_tokens(*old(stream)) + c_abi(),
{
    push_word(stream, Word::Extern);
    push_string_literal(stream, "C");
}

pub(crate) fn push_held_pointer(stream: &mut TokenStream)
    ensures
        stream_tokens(*final(stream)) == stream_tokens(*old(stream)) + held_pointer(),
{
    push_word(stream, Word::SelfValue);
    push_alone(stream, '.');
    push_integer(stream, 0);
}

pub(crate) fn push_boundary_type(stream: &mut TokenStream, ty: &TypeReference, side: Side)
    requires
        ty@.wf(),
    ensures
        stream_tokens(*final(stream)) == stream_tokens(*old(stream)) + boundary_type(ty@, side),
{
    match ty {
        TypeReference::BuiltIn(name) => {
            push_ident(stream, name.as_str());
        },
        TypeReference::Declared(name, _) => match side {
            Side::Native => {
                push_typed_pointer(stream, name.as_str());
            },
            Side::Foreign => {
                push_opaque_pointer(stream);
            },
        },
    }
}

pub(crate) fn push_receiver_parameter(stream: &mut TokenStream, ty: &str, side: Side)
    requires
        is_identifier(ty@),
    ensures
        stream_tokens(*final(stream)) == stream_tokens(*old(stream)) + receiver_parameter(
            ty@,
            side,
        ),
{
    push_word(stream, Word::This);
    push_alone(stream, ':');
    match side {
        Side::Native => {
            push_typed_pointer(stream, ty);
        },
        Side::Foreign => {
            push_opaque_pointer(stream);
        },
    }
}

pub(crate) fn push_boundary_return(stream: &mut TokenStream, ty: &Option<TypeReference>)
    requires
        ty matches Some(t) ==> t@.wf(),
    ensures
        stream_tokens(*final(stream)) == stream_tokens(*old(stream)) + boundary_return(
            match ty {
                Some(t) => Some(t@),
                None => None,
            },
        ),
{
    match ty {
        None => {},
        Some(TypeReference::BuiltIn(name)) => {
            push_arrow(stream);
            push_ident(stream, name.as_str());
        },
        Some(TypeReference::Declared(_, _)) => {
            push_arrow(stream);
            push_opaque_pointer(stream);
        },
    }
}

} // verus!
