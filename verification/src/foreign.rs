use crate::ir::{
    function_views, FunctionDeclaration, FunctionDeclarationView, ParameterView,
    SelfReceiverKind, Side, TypeReference, TypeReferenceView,
};
use crate::naming::{
    exported_symbol, exported_symbol_text, free_identifier, free_identifier_text, free_symbol,
    free_symbol_text, lemma_free_identifier, lemma_local_identifiers, local_identifier,
    local_identifier_text,
};
use crate::signature::{
    forwarded_arguments, forwarded_arguments_stream, push_boundary_parameters,
    signature_parameters, signature_parameters_stream,
};
use crate::syntax::{
    arrow, boundary_parameter, boundary_return, comma_separated, held_pointer, name_attribute,
    opaque_pointer, punct, push_alone, push_arrow, push_boundary_return, push_held_pointer,
    push_name_attribute, push_opaque_pointer, push_receiver_parameter, push_word,
    receiver_parameter, Word,
};
use crate::tokens::{
    is_identifier, new_stream, push_group, push_ident, push_stream, stream_is_empty,
    stream_tokens, Delimiter, Token,
};
use proc_macro2::TokenStream;
use vstd::prelude::*;

verus! {

/// The declaration through which this side reaches a function of the foreign side:
/// `#[link_name = "symbol"] fn identifier(parameters) -> result;`
pub open spec fn linked_declaration(f: FunctionDeclarationView) -> Seq<Token> {
    name_attribute(Word::LinkName, exported_symbol_text(f.associated_type, f.identifier)) + seq![
        Word::Function.token(),
        Token::Ident(local_identifier_text(f.associated_type, f.identifier)),
        Token::Group(Delimiter::Parenthesis, signature_parameters(f, Side::Foreign)),
    ] + boundary_return(f.return_type) + seq![punct(';')]
}

/// The declaration through which this side reaches the foreign side's release function
/// for one of its types.
pub open spec fn linked_free(ty: Seq<char>) -> Seq<Token> {
    name_attribute(Word::LinkName, free_symbol_text(ty)) + seq![
        Word::Function.token(),
        Token::Ident(free_identifier_text(ty)),
        Token::Group(Delimiter::Parenthesis, receiver_parameter(ty, Side::Foreign)),
        punct(';'),
    ]
}

/// How a proxy's method names its receiver: `&self`, `&mut self` or `self`, as one item;
/// no item for a static function.
pub open spec fn receiver_form(kind: SelfReceiverKind) -> Seq<Seq<Token>> {
    match kind {
        SelfReceiverKind::Static => Seq::empty(),
        SelfReceiverKind::Borrowed => seq![seq![punct('&'), Word::SelfValue.token()]],
        SelfReceiverKind::MutablyBorrowed => seq![
            seq![punct('&'), Word::Mut.token(), Word::SelfValue.token()],
        ],
        SelfReceiverKind::Owned => seq![seq![Word::SelfValue.token()]],
    }
}

/// What stands between the parentheses of a proxy method's header.
pub open spec fn method_parameters(f: FunctionDeclarationView) -> Seq<Token> {
    comma_separated(
        receiver_form(f.receiver) + f.parameters.map_values(
            |p: ParameterView| boundary_parameter(p, Side::Foreign),
        ),
    )
}

/// What follows the parameter list of a proxy's method: nothing, `-> primitive`, or
/// `-> Type` for a value of a declared type.
pub open spec fn method_return(ty: Option<TypeReferenceView>) -> Seq<Token> {
    match ty {
        None => Seq::empty(),
        Some(ty) => arrow() + seq![Token::Ident(ty.name())],
    }
}

/// `unsafe { identifier(arguments) }`: the call of the linked declaration.
pub open spec fn forwarded_call(f: FunctionDeclarationView) -> Seq<Token> {
    seq![
        Word::Unsafe.token(),
        Token::Group(
            Delimiter::Brace,
            seq![
                Token::Ident(local_identifier_text(f.associated_type, f.identifier)),
                Token::Group(Delimiter::Parenthesis, forwarded_arguments(f)),
            ],
        ),
    ]
}

/// The body of a proxy's method: the call, wrapped as `Type(<call>)` where the function
/// returns a declared type.
pub open spec fn method_body(f: FunctionDeclarationView) -> Seq<Token> {
    match f.return_type {
        Some(TypeReferenceView::Declared(ty, _)) => seq![
            Token::Ident(ty),
            Token::Group(Delimiter::Parenthesis, forwarded_call(f)),
        ],
        _ => forwarded_call(f),
    }
}

/// The function through which this side calls a function of the foreign side: a method
/// of the proxy where the function belongs to a type, a free function where it does not.
pub open spec fn forwarding_method(f: FunctionDeclarationView) -> Seq<Token> {
    seq![
        Word::Pub.token(),
        Word::Function.token(),
        Token::Ident(f.identifier),
        Token::Group(Delimiter::Parenthesis, method_parameters(f)),
    ] + method_return(f.return_type) + seq![Token::Group(Delimiter::Brace, method_body(f))]
}

/// Whether the function is a foreign function of the type named.
pub open spec fn is_method_of(f: FunctionDeclarationView, ty: Seq<char>) -> bool {
    f.side == Side::Foreign && f.associated_type == Some(ty)
}

/// The forwarding methods of the foreign functions of one type, in declaration order.
pub open spec fn methods_of(functions: Seq<FunctionDeclarationView>, ty: Seq<char>) -> Seq<Token>
    decreases functions.len(),
{
    if functions.len() == 0 {
        Seq::empty()
    } else {
        methods_of(functions.drop_last(), ty) + if is_method_of(functions.last(), ty) {
            forwarding_method(functions.last())
        } else {
            Seq::empty()
        }
    }
}

/// Whether the function is a foreign function that belongs to no type.
pub open spec fn is_free_foreign(f: FunctionDeclarationView) -> bool {
    f.side == Side::Foreign && f.associated_type is None
}

/// The forwarding functions of the foreign functions that belong to no type, in
/// declaration order.
pub open spec fn free_forwarders(functions: Seq<FunctionDeclarationView>) -> Seq<Token>
    decreases functions.len(),
{
    if functions.len() == 0 {
        Seq::empty()
    } else {
        free_forwarders(functions.drop_last()) + if is_free_foreign(functions.last()) {
            forwarding_method(functions.last())
        } else {
            Seq::empty()
        }
    }
}

/// `pub struct Type(*mut std::ffi::c_void);`: the proxy holds one pointer and nothing else.
pub open spec fn proxy_struct(ty: Seq<char>) -> Seq<Token> {
    seq![
        Word::Pub.token(),
        Word::Struct.token(),
        Token::Ident(ty),
        Token::Group(Delimiter::Parenthesis, opaque_pointer()),
        punct(';'),
    ]
}

/// `impl Type { methods }`, or nothing where there is no method.
pub open spec fn method_block(ty: Seq<char>, methods: Seq<Token>) -> Seq<Token> {
    if methods.len() > 0 {
        seq![Word::Impl.token(), Token::Ident(ty), Token::Group(Delimiter::Brace, methods)]
    } else {
        Seq::empty()
    }
}

/// `fn drop(&mut self) { unsafe { free_identifier(self.0) } }`
pub open spec fn destructor_method(ty: Seq<char>) -> Seq<Token> {
    seq![
        Word::Function.token(),
        Word::DropMethod.token(),
        Token::Group(
            Delimiter::Parenthesis,
            seq![punct('&'), Word::Mut.token(), Word::SelfValue.token()],
        ),
        Token::Group(
            Delimiter::Brace,
            seq![
                Word::Unsafe.token(),
                Token::Group(
                    Delimiter::Brace,
                    seq![
                        Token::Ident(free_identifier_text(ty)),
                        Token::Group(Delimiter::Parenthesis, held_pointer()),
                    ],
                ),
            ],
        ),
    ]
}

/// `impl Drop for Type { <destructor method> }`: a proxy that goes out of scope has the
/// foreign side release what it stood for.
pub open spec fn destructor(ty: Seq<char>) -> Seq<Token> {
    seq![
        Word::Impl.token(),
        Word::DropTrait.token(),
        Word::For.token(),
        Token::Ident(ty),
        Token::Group(Delimiter::Brace, destructor_method(ty)),
    ]
}

/// All that stands for one foreign type on this side: the proxy, its one block of
/// methods where it has any, and its destructor.
pub open spec fn proxy_definition(ty: Seq<char>, functions: Seq<FunctionDeclarationView>) -> Seq<
    Token,
> {
    proxy_struct(ty) + method_block(ty, methods_of(functions, ty)) + destructor(ty)
}

pub(crate) fn linked_declaration_stream(func: &FunctionDeclaration) -> (out: TokenStream)
    requires
        func@.wf(),
    ensures
        stream_tokens(out) == linked_declaration(func@),
{
    let symbol = exported_symbol(func.associated_type_name(), func.identifier.as_str());
    let identifier = local_identifier(func.associated_type_name(), func.identifier.as_str());
    proof {
        lemma_local_identifiers(func@.associated_type, func@.identifier);
    }
    let parameters = signature_parameters_stream(func, Side::Foreign);
    let mut out = new_stream();
    push_name_attribute(&mut out, Word::LinkName, symbol.as_str());
    push_word(&mut out, Word::Function);
    push_ident(&mut out, identifier.as_str());
    push_group(&mut out, Delimiter::Parenthesis, parameters);
    push_boundary_return(&mut out, &func.return_type);
    push_alone(&mut out, ';');
    out
}

pub(crate) fn linked_free_stream(ty: &str) -> (out: TokenStream)
    requires
        is_identifier(ty@),
    ensures
        stream_tokens(out) == linked_free(ty@),
{
    let symbol = free_symbol(ty);
    let identifier = free_identifier(ty);
    proof {
        lemma_free_identifier(ty@);
    }
    let mut parameters = new_stream();
    push_receiver_parameter(&mut parameters, ty, Side::Foreign);
    assert(stream_tokens(parameters) =~= receiver_parameter(ty@, Side::Foreign));
    let mut out = new_stream();
    push_name_attribute(&mut out, Word::LinkName, symbol.as_str());
    push_word(&mut out, Word::Function);
    push_ident(&mut out, identifier.as_str());
    push_group(&mut out, Delimiter::Parenthesis, parameters);
    push_alone(&mut out, ';');
    out
}

pub(crate) fn method_parameters_stream(func: &FunctionDeclaration) -> (out: TokenStream)
    requires
        func@.wf(),
    ensures
        stream_tokens(out) == method_parameters(func@),
{
    let mut out = new_stream();
    let ghost first = receiver_form(func@.receiver);
    match func.receiver {
        SelfReceiverKind::Static => {},
        SelfReceiverKind::Borrowed => {
            push_alone(&mut out, '&');
            push_word(&mut out, Word::SelfValue);
        },
        SelfReceiverKind::MutablyBorrowed => {
            push_alone(&mut out, '&');
            push_word(&mut out, Word::Mut);
            push_word(&mut out, Word::SelfValue);
        },
        SelfReceiverKind::Owned => {
            push_word(&mut out, Word::SelfValue);
        },
    }
    assert(stream_tokens(out) =~= comma_separated(first));
    push_boundary_parameters(&mut out, func, Side::Foreign, Ghost(first), func.has_receiver());
    out
}

pub(crate) fn forwarded_call_stream(func: &FunctionDeclaration) -> (out: TokenStream)
    requires
        func@.wf(),
    ensures
        stream_tokens(out) == forwarded_call(func@),
{
    let identifier = local_identifier(func.associated_type_name(), func.identifier.as_str());
    proof {
        lemma_local_identifiers(func@.associated_type, func@.identifier);
    }
    let arguments = forwarded_arguments_stream(func);
    let mut block = new_stream();
    push_ident(&mut block, identifier.as_str());
    push_group(&mut block, Delimiter::Parenthesis, arguments);
    assert(stream_tokens(block) =~= seq![
        Token::Ident(local_identifier_text(func@.associated_type, func@.identifier)),
        Token::Group(Delimiter::Parenthesis, forwarded_arguments(func@)),
    ]);
    let mut out = new_stream();
    push_word(&mut out, Word::Unsafe);
    push_group(&mut out, Delimiter::Brace, block);
    out
}

pub(crate) fn forwarding_method_stream(func: &FunctionDeclaration) -> (out: TokenStream)
    requires
        func@.wf(),
    ensures
        stream_tokens(out) == forwarding_method(func@),
{
    let parameters = method_parameters_stream(func);
    let call = forwarded_call_stream(func);
    let mut body = new_stream();
    match &func.return_type {
        Some(TypeReference::Declared(ty, _)) => {
            push_ident(&mut body, ty.as_str());
            push_group(&mut body, Delimiter::Parenthesis, call);
        },
        _ => {
            push_stream(&mut body, &call);
        },
    }
    assert(stream_tokens(body) =~= method_body(func@));
    let mut out = new_stream();
    push_word(&mut out, Word::Pub);
    push_word(&mut out, Word::Function);
    push_ident(&mut out, func.identifier.as_str());
    push_group(&mut out, Delimiter::Parenthesis, parameters);
    match &func.return_type {
        None => {},
        Some(TypeReference::BuiltIn(name)) => {
            push_arrow(&mut out);
            push_ident(&mut out, name.as_str());
        },
        Some(TypeReference::Declared(name, _)) => {
            push_arrow(&mut out);
            push_ident(&mut out, name.as_str());
        },
    }
    push_group(&mut out, Delimiter::Brace, body);
    out
}

pub(crate) fn methods_stream(ty: &String, functions: &Vec<FunctionDeclaration>) -> (out:
    TokenStream)
    requires
        forall|i: int| 0 <= i < functions.len() ==> (#[trigger] functions[i]@).wf(),
    ensures
        stream_tokens(out) == methods_of(function_views(functions@), ty@),
{
    let mut out = new_stream();
    let ghost views = function_views(functions@);
    assert(views.take(0) =~= Seq::empty());
    let mut i: usize = 0;
    while i < functions.len()
        invariant
            i <= functions.len(),
            views == function_views(functions@),
            forall|i: int| 0 <= i < functions.len() ==> (#[trigger] functions[i]@).wf(),
            stream_tokens(out) == methods_of(views.take(i as int), ty@),
        decreases functions.len() - i,
    {
        let func = &functions[i];
        proof {
            let next = views.take(i + 1);
            assert(next.drop_last() =~= views.take(i as int));
            assert(next.last() == func@);
        }
        let belongs = match func.side {
            Side::Foreign => match &func.associated_type {
                Some(owner) => *owner == *ty,
                None => false,
            },
            Side::Native => false,
        };
        assert(belongs == is_method_of(func@, ty@));
        if belongs {
            let method = forwarding_method_stream(func);
            push_stream(&mut out, &method);
        }
        i += 1;
    }
    assert(views.take(i as int) =~= views);
    out
}

pub(crate) fn proxy_definition_stream(ty: &String, functions: &Vec<FunctionDeclaration>) -> (out:
    TokenStream)
    requires
        is_identifier(ty@),
        forall|i: int| 0 <= i < functions.len() ==> (#[trigger] functions[i]@).wf(),
    ensures
        stream_tokens(out) == proxy_definition(ty@, function_views(functions@)),
{
    let identifier = free_identifier(ty.as_str());
    proof {
        lemma_free_identifier(ty@);
    }
    let mut out = new_stream();
    // pub struct Type(*mut std::ffi::c_void);
    let mut field = new_stream();
    push_opaque_pointer(&mut field);
    assert(stream_tokens(field) =~= opaque_pointer());
    push_word(&mut out, Word::Pub);
    push_word(&mut out, Word::Struct);
    push_ident(&mut out, ty.as_str());
    push_group(&mut out, Delimiter::Parenthesis, field);
    push_alone(&mut out, ';');
    assert(stream_tokens(out) =~= proxy_struct(ty@));
    // impl Type { ... }
    let methods = methods_stream(ty, functions);
    if !stream_is_empty(&methods) {
        push_word(&mut out, Word::Impl);
        push_ident(&mut out, ty.as_str());
        push_group(&mut out, Delimiter::Brace, methods);
    }
    assert(stream_tokens(out) =~= proxy_struct(ty@) + method_block(
        ty@,
        methods_of(function_views(functions@), ty@),
    ));
    // impl Drop for Type { ... }
    let mut pointer = new_stream();
    push_held_pointer(&mut pointer);
    assert(stream_tokens(pointer) =~= held_pointer());
    let mut release = new_stream();
    push_ident(&mut release, identifier.as_str());
    push_group(&mut release, Delimiter::Parenthesis, pointer);
    assert(stream_tokens(release) =~= seq![
        Token::Ident(free_identifier_text(ty@)),
        Token::Group(Delimiter::Parenthesis, held_pointer()),
    ]);
    let mut block = new_stream();
    push_word(&mut block, Word::Unsafe);
    push_group(&mut block, Delimiter::Brace, release);
    assert(stream_tokens(block) =~= seq![
        Word::Unsafe.token(),
        Token::Group(
            Delimiter::Brace,
            seq![
                Token::Ident(free_identifier_text(ty@)),
                Token::Group(Delimiter::Parenthesis, held_pointer()),
            ],
        ),
    ]);
    let mut receiver = new_stream();
    push_alone(&mut receiver, '&');
    push_word(&mut receiver, Word::Mut);
    push_word(&mut receiver, Word::SelfValue);
    assert(stream_tokens(receiver) =~= seq![
        punct('&'),
        Word::Mut.token(),
        Word::SelfValue.token(),
    ]);
    let mut method = new_stream();
    push_word(&mut method, Word::Function);
    push_word(&mut method, Word::DropMethod);
    push_group(&mut method, Delimiter::Parenthesis, receiver);
    push_group(&mut method, Delimiter::Brace, block);
    assert(stream_tokens(method) =~= destructor_method(ty@));
    push_word(&mut out, Word::Impl);
    push_word(&mut out, Word::DropTrait);
    push_word(&mut out, Word::For);
    push_ident(&mut out, ty.as_str());
    push_group(&mut out, Delimiter::Brace, method);
    out
}

} // verus!
