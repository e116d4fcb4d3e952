use crate::ir::{
    FunctionDeclaration, FunctionDeclarationView, Ownership, ParameterView, SelfReceiverKind,
    Side, TypeReference, TypeReferenceView,
};
use crate::naming::{
    exported_symbol, exported_symbol_text, free_identifier, free_identifier_text, free_symbol,
    free_symbol_text, lemma_free_identifier, lemma_local_identifiers, local_identifier,
    local_identifier_text,
};
use crate::signature::{
    call_arguments, call_arguments_stream, receiver_ownership, signature_parameters,
    signature_parameters_stream,
};
use crate::syntax::{
    boundary_return, c_abi, marker_attribute, name_attribute, opaque_pointer, path_separator,
    punct, push_alone, push_boundary_return, push_c_abi, push_marker_attribute,
    push_name_attribute, push_opaque_pointer, push_path_separator, push_receiver_parameter,
    push_word, receiver_parameter, Word,
};
use crate::tokens::{
    is_identifier, new_stream, push_group, push_ident, push_stream, stream_tokens, Delimiter,
    Token,
};
use proc_macro2::TokenStream;
use vstd::prelude::*;

verus! {

/// `{ Box::from_raw(name) }`: the block in which emitted code takes back full ownership
/// of what the pointer `name` stands for. What it gives is released when it goes out of
/// scope.
pub open spec fn reclaim_block(name: Seq<char>) -> Token {
    Token::Group(
        Delimiter::Brace,
        seq![Word::BoxType.token()] + path_separator() + seq![
            Word::FromRaw.token(),
            Token::Group(Delimiter::Parenthesis, seq![Token::Ident(name)]),
        ],
    )
}

/// `unsafe { Box::from_raw(name) }`: takes back full ownership of what the pointer `name`
/// stands for.
pub open spec fn reclaimed_box(name: Seq<char>) -> Seq<Token> {
    seq![Word::Unsafe.token(), reclaim_block(name)]
}

/// How a wrapper gets at the value behind the pointer `name`: `unsafe { &*name }`,
/// `unsafe { &mut *name }`, or `*unsafe { Box::from_raw(name) }` where the value is handed
/// over for good.
pub open spec fn pointer_access(ownership: Ownership, name: Seq<char>) -> Seq<Token> {
    match ownership {
        Ownership::Borrowed => seq![
            Word::Unsafe.token(),
            Token::Group(Delimiter::Brace, seq![punct('&'), punct('*'), Token::Ident(name)]),
        ],
        Ownership::MutablyBorrowed => seq![
            Word::Unsafe.token(),
            Token::Group(
                Delimiter::Brace,
                seq![punct('&'), Word::Mut.token(), punct('*'), Token::Ident(name)],
            ),
        ],
        Ownership::Owned => seq![punct('*')] + reclaimed_box(name),
    }
}

/// `let name = <access>;` for a parameter of a declared type, nothing for a primitive.
pub open spec fn rebind(parameter: ParameterView) -> Seq<Token> {
    match parameter.ty {
        TypeReferenceView::BuiltIn(_) => Seq::empty(),
        TypeReferenceView::Declared(_, ownership) => seq![
            Word::Let.token(),
            Token::Ident(parameter.name),
            punct('='),
        ] + pointer_access(ownership, parameter.name) + seq![punct(';')],
    }
}

/// The rebinding statements of all parameters, in their order.
pub open spec fn rebinds(parameters: Seq<ParameterView>) -> Seq<Token>
    decreases parameters.len(),
{
    if parameters.len() == 0 {
        Seq::empty()
    } else {
        rebinds(parameters.drop_last()) + rebind(parameters.last())
    }
}

/// What the call is made on: `(<access to this>).` for a receiver, else `super::` and, for
/// an associated function, `Type::`.
pub open spec fn call_target(f: FunctionDeclarationView) -> Seq<Token> {
    match receiver_ownership(f.receiver) {
        Some(ownership) => seq![
            Token::Group(Delimiter::Parenthesis, pointer_access(ownership, Word::This.text())),
            punct('.'),
        ],
        None => seq![Word::Super.token()] + path_separator() + match f.associated_type {
            Some(ty) => seq![Token::Ident(ty)] + path_separator(),
            None => Seq::empty(),
        },
    }
}

/// The call of the function that the native side implements.
pub open spec fn native_call(f: FunctionDeclarationView) -> Seq<Token> {
    call_target(f) + seq![
        Token::Ident(f.identifier),
        Token::Group(Delimiter::Parenthesis, call_arguments(f.parameters)),
    ]
}

/// `Box::into_raw(Box::new(<value>)) as *mut std::ffi::c_void`: the value moves to the heap
/// and the caller gets the pointer, with the right to release it.
pub open spec fn boxed(value: Seq<Token>) -> Seq<Token> {
    seq![Word::BoxType.token()] + path_separator() + seq![
        Word::IntoRaw.token(),
        Token::Group(
            Delimiter::Parenthesis,
            seq![Word::BoxType.token()] + path_separator() + seq![
                Word::New.token(),
                Token::Group(Delimiter::Parenthesis, value),
            ],
        ),
        Word::As.token(),
    ] + opaque_pointer()
}

/// The value of the wrapper: the call, boxed where it returns a declared type.
pub open spec fn native_result(f: FunctionDeclarationView) -> Seq<Token> {
    match f.return_type {
        Some(TypeReferenceView::Declared(_, _)) => boxed(native_call(f)),
        _ => native_call(f),
    }
}

/// The wrapper's body: the parameters of declared types rebound, then the result.
pub open spec fn native_body(f: FunctionDeclarationView) -> Seq<Token> {
    rebinds(f.parameters) + native_result(f)
}

/// The function that the native side exports for one of its functions.
pub open spec fn exported_wrapper(f: FunctionDeclarationView) -> Seq<Token> {
    marker_attribute(Word::NoMangle) + name_attribute(
        Word::ExportName,
        exported_symbol_text(f.associated_type, f.identifier),
    ) + seq![Word::Pub.token()] + c_abi() + seq![
        Word::Function.token(),
        Token::Ident(local_identifier_text(f.associated_type, f.identifier)),
        Token::Group(Delimiter::Parenthesis, signature_parameters(f, Side::Native)),
    ] + boundary_return(f.return_type) + seq![Token::Group(Delimiter::Brace, native_body(f))]
}

/// The function that the native side exports to release a value of one of its types:
/// it takes back ownership of what the pointer stands for and drops it.
pub open spec fn exported_free(ty: Seq<char>) -> Seq<Token> {
    marker_attribute(Word::NoMangle) + name_attribute(Word::ExportName, free_symbol_text(ty))
        + seq![Word::Pub.token()] + c_abi() + seq![
        Word::Function.token(),
        Token::Ident(free_identifier_text(ty)),
        Token::Group(Delimiter::Parenthesis, receiver_parameter(ty, Side::Native)),
        Token::Group(
            Delimiter::Brace,
            seq![Word::Let.token(), Word::This.token(), punct('=')] + reclaimed_box(
                Word::This.text(),
            ) + seq![
                punct(';'),
                Word::DropMethod.token(),
                Token::Group(Delimiter::Parenthesis, seq![Word::This.token()]),
                punct(';'),
            ],
        ),
    ]
}

pub(crate) fn push_reclaimed_box(stream: &mut TokenStream, name: &str)
    requires
        is_identifier(name@),
    ensures
        stream_tokens(*final(stream)) == stream_tokens(*old(stream)) + reclaimed_box(name@),
{
    let mut pointer = new_stream();
    push_ident(&mut pointer, name);
    assert(stream_tokens(pointer) =~= seq![Token::Ident(name@)]);
    let mut block = new_stream();
    push_word(&mut block, Word::BoxType);
    push_path_separator(&mut block);
    push_word(&mut block, Word::FromRaw);
    push_group(&mut block, Delimiter::Parenthesis, pointer);
    assert(stream_tokens(block) =~= seq![Word::BoxType.token()] + path_separator() + seq![
        Word::FromRaw.token(),
        Token::Group(Delimiter::Parenthesis, seq![Token::Ident(name@)]),
    ]);
    push_word(stream, Word::Unsafe);
    push_group(stream, Delimiter::Brace, block);
}

pub(crate) fn push_pointer_access(stream: &mut TokenStream, ownership: Ownership, name: &str)
    requires
        is_identifier(name@),
    ensures
        stream_tokens(*final(stream)) == stream_tokens(*old(stream)) + pointer_access(
            ownership,
            name@,
        ),
{
    match ownership {
        Ownership::Borrowed => {
            let mut block = new_stream();
            push_alone(&mut block, '&');
            push_alone(&mut block, '*');
            push_ident(&mut block, name);
            assert(stream_tokens(block) =~= seq![punct('&'), punct('*'), Token::Ident(name@)]);
            push_word(stream, Word::Unsafe);
            push_group(stream, Delimiter::Brace, block);
        },
        Ownership::MutablyBorrowed => {
            let mut block = new_stream();
            push_alone(&mut block, '&');
            push_word(&mut block, Word::Mut);
            push_alone(&mut block, '*');
            push_ident(&mut block, name);
            assert(stream_tokens(block) =~= seq![
                punct('&'),
                Word::Mut.token(),
                punct('*'),
                Token::Ident(name@),
            ]);
            push_word(stream, Word::Unsafe);
            push_group(stream, Delimiter::Brace, block);
        },
        Ownership::Owned => {
            push_alone(stream, '*');
            push_reclaimed_box(stream, name);
        },
    }
}

pub(crate) fn push_rebinds(stream: &mut TokenStream, func: &FunctionDeclaration)
    requires
        func@.wf(),
    ensures
        stream_tokens(*final(stream)) == stream_tokens(*old(stream)) + rebinds(func@.parameters),
{
    let ghost start = stream_tokens(*stream);
    let mut i: usize = 0;
    assert(func@.parameters.take(0) =~= Seq::empty());
    while i < func.parameters.len()
        invariant
            i <= func.parameters.len(),
            func@.wf(),
            stream_tokens(*stream) == start + rebinds(func@.parameters.take(i as int)),
        decreases func.parameters.len() - i,
    {
        let parameter = &func.parameters[i];
        assert(parameter@ == func@.parameters[i as int]);
        proof {
            let next = func@.parameters.take(i + 1);
            assert(next.drop_last() =~= func@.parameters.take(i as int));
            assert(next.last() == func@.parameters[i as int]);
        }
        match &parameter.ty {
            TypeReference::BuiltIn(_) => {},
            TypeReference::Declared(_, ownership) => {
                push_word(stream, Word::Let);
                push_ident(stream, parameter.name.as_str());
                push_alone(stream, '=');
                push_pointer_access(stream, *ownership, parameter.name.as_str());
                push_alone(stream, ';');
            },
        }
        i += 1;
    }
    assert(func@.parameters.take(i as int) =~= func@.parameters);
}

pub(crate) fn native_call_stream(func: &FunctionDeclaration) -> (out: TokenStream)
    requires
        func@.wf(),
    ensures
        stream_tokens(out) == native_call(func@),
{
    let mut out = new_stream();
    match func.receiver {
        SelfReceiverKind::Static => {
            push_word(&mut out, Word::Super);
            push_path_separator(&mut out);
            match func.associated_type_name() {
                Some(ty) => {
                    push_ident(&mut out, ty);
                    push_path_separator(&mut out);
                },
                None => {},
            }
        },
        _ => {
            let ownership = match func.receiver {
                SelfReceiverKind::MutablyBorrowed => Ownership::MutablyBorrowed,
                SelfReceiverKind::Owned => Ownership::Owned,
                _ => Ownership::Borrowed,
            };
            let mut access = new_stream();
            push_pointer_access(&mut access, ownership, Word::This.as_str());
            assert(stream_tokens(access) =~= pointer_access(ownership, Word::This.text()));
            push_group(&mut out, Delimiter::Parenthesis, access);
            push_alone(&mut out, '.');
        },
    }
    assert(stream_tokens(out) =~= call_target(func@));
    let arguments = call_arguments_stream(func);
    push_ident(&mut out, func.identifier.as_str());
    push_group(&mut out, Delimiter::Parenthesis, arguments);
    out
}

pub(crate) fn push_boxed(stream: &mut TokenStream, value: TokenStream)
    ensures
        stream_tokens(*final(stream)) == stream_tokens(*old(stream)) + boxed(stream_tokens(value)),
{
    let ghost value_tokens = stream_tokens(value);
    let mut inner = new_stream();
    push_word(&mut inner, Word::BoxType);
    push_path_separator(&mut inner);
    push_word(&mut inner, Word::New);
    push_group(&mut inner, Delimiter::Parenthesis, value);
    assert(stream_tokens(inner) =~= seq![Word::BoxType.token()] + path_separator() + seq![
        Word::New.token(),
        Token::Group(Delimiter::Parenthesis, value_tokens),
    ]);
    push_word(stream, Word::BoxType);
    push_path_separator(stream);
    push_word(stream, Word::IntoRaw);
    push_group(stream, Delimiter::Parenthesis, inner);
    push_word(stream, Word::As);
    push_opaque_pointer(stream);
}

pub(crate) fn native_body_stream(func: &FunctionDeclaration) -> (out: TokenStream)
    requires
        func@.wf(),
    ensures
        stream_tokens(out) == native_body(func@),
{
    let mut out = new_stream();
    push_rebinds(&mut out, func);
    let call = native_call_stream(func);
    match &func.return_type {
        Some(TypeReference::Declared(_, _)) => {
            push_boxed(&mut out, call);
        },
        _ => {
            push_stream(&mut out, &call);
        },
    }
    out
}

pub(crate) fn exported_wrapper_stream(func: &FunctionDeclaration) -> (out: TokenStream)
    requires
        func@.wf(),
    ensures
        stream_tokens(out) == exported_wrapper(func@),
{
    let symbol = exported_symbol(func.associated_type_name(), func.identifier.as_str());
    let identifier = local_identifier(func.associated_type_name(), func.identifier.as_str());
    proof {
        lemma_local_identifiers(func@.associated_type, func@.identifier);
    }
    let parameters = signature_parameters_stream(func, Side::Native);
    let body = native_body_stream(func);
    let mut out = new_stream();
    push_marker_attribute(&mut out, Word::NoMangle);
    push_name_attribute(&mut out, Word::ExportName, symbol.as_str());
    push_word(&mut out, Word::Pub);
    push_c_abi(&mut out);
    push_word(&mut out, Word::Function);
    push_ident(&mut out, identifier.as_str());
    push_group(&mut out, Delimiter::Parenthesis, parameters);
    push_boundary_return(&mut out, &func.return_type);
    push_group(&mut out, Delimiter::Brace, body);
    out
}

pub(crate) fn exported_free_stream(ty: &str) -> (out: TokenStream)
    requires
        is_identifier(ty@),
    ensures
        stream_tokens(out) == exported_free(ty@),
{
    let symbol = free_symbol(ty);
    let identifier = free_identifier(ty);
    proof {
        lemma_free_identifier(ty@);
    }
    let mut parameters = new_stream();
    push_receiver_parameter(&mut parameters, ty, Side::Native);
    assert(stream_tokens(parameters) =~= receiver_parameter(ty@, Side::Native));
    let mut dropped = new_stream();
    push_word(&mut dropped, Word::This);
    assert(stream_tokens(dropped) =~= seq![Word::This.token()]);
    let mut body = new_stream();
    push_word(&mut body, Word::Let);
    push_word(&mut body, Word::This);
    push_alone(&mut body, '=');
    push_reclaimed_box(&mut body, Word::This.as_str());
    push_alone(&mut body, ';');
    push_word(&mut body, Word::DropMethod);
    push_group(&mut body, Delimiter::Parenthesis, dropped);
    push_alone(&mut body, ';');
    assert(stream_tokens(body) =~= seq![Word::Let.token(), Word::This.token(), punct('=')]
        + reclaimed_box(Word::This.text()) + seq![
        punct(';'),
        Word::DropMethod.token(),
        Token::Group(Delimiter::Parenthesis, seq![Word::This.token()]),
        punct(';'),
    ]);
    let mut out = new_stream();
    push_marker_attribute(&mut out, Word::NoMangle);
    push_name_attribute(&mut out, Word::ExportName, symbol.as_str());
    push_word(&mut out, Word::Pub);
    push_c_abi(&mut out);
    push_word(&mut out, Word::Function);
    push_ident(&mut out, identifier.as_str());
    push_group(&mut out, Delimiter::Parenthesis, parameters);
    push_group(&mut out, Delimiter::Brace, body);
    out
}

} // verus!
