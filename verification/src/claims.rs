use crate::assembler::{
    boundary_function, boundary_functions, foreign_section, free_glue, free_glues,
    linkage_block, linkage_declarations, module_body, module_tokens, native_section,
    proxy_definitions,
};
use crate::census::{group_occurrences, lemma_comma_separated_without, occurrences};
use crate::foreign::{
    destructor, forwarded_call, forwarding_method, free_forwarders, is_free_foreign,
    is_method_of, linked_declaration,
    linked_free, method_block, method_body, method_parameters, methods_of, proxy_definition,
    proxy_struct, receiver_form,
};
use crate::ir::{
    BridgeModuleView, FunctionDeclarationView, ParameterView, Side, TypeDeclarationView,
};
use crate::naming::{
    exported_symbol_text, free_identifier_text, free_symbol_text, local_identifier_text,
};
use crate::native::{
    boxed, call_target, exported_free, exported_wrapper, native_body, native_call, rebinds,
};
use crate::signature::{
    argument_items, call_arguments, forwarded_arguments, signature_items, signature_parameters,
};
use crate::syntax::{boundary_parameter, boundary_return, held_pointer, Word};
use crate::tokens::Token;
use vstd::prelude::*;

verus! {

/// The text of the one string literal that emitted code holds besides symbols: the
/// calling convention.
pub open spec fn abi_text() -> Seq<char> {
    "C"@
}

/// One where the condition holds, zero where it does not.
pub open spec fn one_if(condition: bool) -> nat {
    if condition {
        1
    } else {
        0
    }
}

/// Whether the text is one of the fixed words of emitted code.
pub open spec fn is_fixed_word(text: Seq<char>) -> bool {
    exists|word: Word| text == #[trigger] word.text()
}

/// Whether the declaration holds the text as a name: of the function, of its type, of a
/// parameter, or of the type of a parameter or of the result.
pub open spec fn names(f: FunctionDeclarationView, text: Seq<char>) -> bool {
    ||| f.identifier == text
    ||| f.associated_type == Some(text)
    ||| exists|i: int|
        0 <= i < f.parameters.len() && ((#[trigger] f.parameters[i]).name == text
            || f.parameters[i].ty.name() == text)
    ||| (f.return_type matches Some(ty) && ty.name() == text)
}

/// Whether the token is one that only the naming scheme can put into the code emitted for
/// the function: a string literal, or an identifier that is neither a fixed word nor a name
/// that the declaration holds.
pub open spec fn minted(wanted: Token, f: FunctionDeclarationView) -> bool {
    match wanted {
        Token::Literal(_) => true,
        Token::Ident(text) => !is_fixed_word(text) && !names(f, text),
        _ => false,
    }
}

/// The same for the code emitted for a type.
pub open spec fn minted_for_type(wanted: Token, ty: Seq<char>) -> bool {
    match wanted {
        Token::Literal(_) => true,
        Token::Ident(text) => !is_fixed_word(text) && text != ty,
        _ => false,
    }
}

proof fn lemma_signature_minted(f: FunctionDeclarationView, side: Side, wanted: Token)
    requires
        minted(wanted, f),
    ensures
        occurrences(signature_parameters(f, side), wanted) == 0,
{
    broadcast use group_occurrences;

    let items = signature_items(f, side);
    assert forall|i: int| 0 <= i < items.len() implies occurrences(#[trigger] items[i], wanted)
        == 0 by {
        let shift = items.len() - f.parameters.len();
        if i >= shift {
            let parameter = f.parameters[i - shift];
            assert(items[i] == boundary_parameter(parameter, side));
        }
    }
    lemma_comma_separated_without(items, wanted);
}

proof fn lemma_method_parameters_minted(f: FunctionDeclarationView, wanted: Token)
    requires
        minted(wanted, f),
    ensures
        occurrences(method_parameters(f), wanted) == 0,
{
    broadcast use group_occurrences;

    let items = receiver_form(f.receiver) + f.parameters.map_values(
        |p: ParameterView| boundary_parameter(p, Side::Foreign),
    );
    assert forall|i: int| 0 <= i < items.len() implies occurrences(#[trigger] items[i], wanted)
        == 0 by {
        let shift = items.len() - f.parameters.len();
        if i >= shift {
            let parameter = f.parameters[i - shift];
            assert(items[i] == boundary_parameter(parameter, Side::Foreign));
        }
    }
    lemma_comma_separated_without(items, wanted);
}

proof fn lemma_arguments_minted(f: FunctionDeclarationView, wanted: Token)
    requires
        minted(wanted, f),
    ensures
        occurrences(call_arguments(f.parameters), wanted) == 0,
        occurrences(forwarded_arguments(f), wanted) == 0,
{
    broadcast use group_occurrences;

    let items = argument_items(f.parameters);
    assert forall|i: int| 0 <= i < items.len() implies occurrences(#[trigger] items[i], wanted)
        == 0 by {
        let parameter = f.parameters[i];
        assert(items[i] == seq![Token::Ident(parameter.name)]);
    }
    lemma_comma_separated_without(items, wanted);
    let forwarded = if f.has_receiver() {
        seq![held_pointer()]
    } else {
        Seq::empty()
    } + items;
    assert forall|i: int| 0 <= i < forwarded.len() implies occurrences(
        #[trigger] forwarded[i],
        wanted,
    ) == 0 by {
        let shift = forwarded.len() - items.len();
        if i >= shift {
            assert(forwarded[i] == items[i - shift]);
        }
    }
    lemma_comma_separated_without(forwarded, wanted);
}

proof fn lemma_rebinds_minted(f: FunctionDeclarationView, n: int, wanted: Token)
    requires
        minted(wanted, f),
        0 <= n <= f.parameters.len(),
    ensures
        occurrences(rebinds(f.parameters.take(n)), wanted) == 0,
    decreases n,
{
    broadcast use group_occurrences;

    if n > 0 {
        lemma_rebinds_minted(f, n - 1, wanted);
        assert(f.parameters.take(n).drop_last() =~= f.parameters.take(n - 1));
        let parameter = f.parameters[n - 1];
        assert(f.parameters.take(n).last() == parameter);
    }
}

proof fn lemma_native_call_minted(f: FunctionDeclarationView, wanted: Token)
    requires
        minted(wanted, f),
    ensures
        occurrences(native_call(f), wanted) == 0,
{
    broadcast use group_occurrences;

    lemma_arguments_minted(f, wanted);
    assert(occurrences(call_target(f), wanted) == 0);
}

proof fn lemma_native_body_minted(f: FunctionDeclarationView, wanted: Token)
    requires
        minted(wanted, f),
    ensures
        occurrences(native_body(f), wanted) == 0,
{
    broadcast use group_occurrences;

    lemma_native_call_minted(f, wanted);
    lemma_rebinds_minted(f, f.parameters.len() as int, wanted);
    assert(f.parameters.take(f.parameters.len() as int) =~= f.parameters);
    assert(occurrences(boxed(native_call(f)), wanted) == 0);
}

/// What the naming scheme puts into an exported wrapper: the symbol, the calling
/// convention and the identifier, each once.
pub proof fn lemma_exported_wrapper_minted(f: FunctionDeclarationView, wanted: Token)
    requires
        minted(wanted, f),
    ensures
        occurrences(exported_wrapper(f), wanted) == one_if(
            wanted == Token::Literal(exported_symbol_text(f.associated_type, f.identifier)),
        ) + one_if(wanted == Token::Literal(abi_text())) + one_if(
            wanted == Token::Ident(local_identifier_text(f.associated_type, f.identifier)),
        ),
{
    broadcast use group_occurrences;

    lemma_signature_minted(f, Side::Native, wanted);
    lemma_native_body_minted(f, wanted);
    assert(occurrences(boundary_return(f.return_type), wanted) == 0);
}

/// What the naming scheme puts into an exported release function: the symbol, the
/// calling convention and the identifier, each once.
pub proof fn lemma_exported_free_minted(ty: Seq<char>, wanted: Token)
    requires
        minted_for_type(wanted, ty),
    ensures
        occurrences(exported_free(ty), wanted) == one_if(
            wanted == Token::Literal(free_symbol_text(ty)),
        ) + one_if(wanted == Token::Literal(abi_text())) + one_if(
            wanted == Token::Ident(free_identifier_text(ty)),
        ),
{
    broadcast use group_occurrences;

}

/// What the naming scheme puts into a linked declaration: the symbol and the identifier,
/// each once.
pub proof fn lemma_linked_declaration_minted(f: FunctionDeclarationView, wanted: Token)
    requires
        minted(wanted, f),
    ensures
        occurrences(linked_declaration(f), wanted) == one_if(
            wanted == Token::Literal(exported_symbol_text(f.associated_type, f.identifier)),
        ) + one_if(
            wanted == Token::Ident(local_identifier_text(f.associated_type, f.identifier)),
        ),
{
    broadcast use group_occurrences;

    lemma_signature_minted(f, Side::Foreign, wanted);
    assert(occurrences(boundary_return(f.return_type), wanted) == 0);
}

/// What the naming scheme puts into a linked release declaration: the symbol and the
/// identifier, each once.
pub proof fn lemma_linked_free_minted(ty: Seq<char>, wanted: Token)
    requires
        minted_for_type(wanted, ty),
    ensures
        occurrences(linked_free(ty), wanted) == one_if(
            wanted == Token::Literal(free_symbol_text(ty)),
        ) + one_if(wanted == Token::Ident(free_identifier_text(ty))),
{
    broadcast use group_occurrences;

}

/// What the naming scheme puts into a forwarding method: the identifier of the linked
/// declaration, once.
pub proof fn lemma_forwarding_method_minted(f: FunctionDeclarationView, wanted: Token)
    requires
        minted(wanted, f),
    ensures
        occurrences(forwarding_method(f), wanted) == one_if(
            wanted == Token::Ident(local_identifier_text(f.associated_type, f.identifier)),
        ),
{
    broadcast use group_occurrences;

    lemma_method_parameters_minted(f, wanted);
    lemma_arguments_minted(f, wanted);
    assert(occurrences(forwarded_call(f), wanted) == one_if(
        wanted == Token::Ident(local_identifier_text(f.associated_type, f.identifier)),
    ));
    assert(occurrences(method_body(f), wanted) == occurrences(forwarded_call(f), wanted));
}

/// How often the code that carries a function across the boundary holds a minted token:
/// the symbol once, the identifier once, and in an exported wrapper the calling
/// convention once.
pub open spec fn function_claims(f: FunctionDeclarationView, wanted: Token) -> nat {
    one_if(wanted == Token::Literal(exported_symbol_text(f.associated_type, f.identifier)))
        + one_if(f.side == Side::Native && wanted == Token::Literal(abi_text())) + one_if(
        wanted == Token::Ident(local_identifier_text(f.associated_type, f.identifier)),
    )
}

/// How often the free glue of a type holds a minted token: the free symbol once, the
/// free identifier once, and in an exported release function the calling convention once.
pub open spec fn type_claims(t: TypeDeclarationView, wanted: Token) -> nat {
    one_if(wanted == Token::Literal(free_symbol_text(t.identifier))) + one_if(
        t.side == Side::Native && wanted == Token::Literal(abi_text()),
    ) + one_if(wanted == Token::Ident(free_identifier_text(t.identifier)))
}

/// The claims of the functions of one side, added up.
pub open spec fn functions_claims(
    functions: Seq<FunctionDeclarationView>,
    side: Side,
    wanted: Token,
) -> nat
    decreases functions.len(),
{
    if functions.len() == 0 {
        0
    } else {
        functions_claims(functions.drop_last(), side, wanted) + if functions.last().side == side {
            function_claims(functions.last(), wanted)
        } else {
            0
        }
    }
}

/// The claims of the types of one side, added up.
pub open spec fn types_claims(types: Seq<TypeDeclarationView>, side: Side, wanted: Token) -> nat
    decreases types.len(),
{
    if types.len() == 0 {
        0
    } else {
        types_claims(types.drop_last(), side, wanted) + if types.last().side == side {
            type_claims(types.last(), wanted)
        } else {
            0
        }
    }
}

/// How many of the foreign functions of the type go by the identifier wanted: each of
/// them has it once in its forwarding method.
pub open spec fn method_claims(
    functions: Seq<FunctionDeclarationView>,
    ty: Seq<char>,
    wanted: Token,
) -> nat
    decreases functions.len(),
{
    if functions.len() == 0 {
        0
    } else {
        method_claims(functions.drop_last(), ty, wanted) + one_if(
            is_method_of(functions.last(), ty) && wanted == Token::Ident(
                local_identifier_text(
                    functions.last().associated_type,
                    functions.last().identifier,
                ),
            ),
        )
    }
}

/// How many of the foreign functions without a type go by the identifier wanted: each of
/// them has it once in its forwarding function.
pub open spec fn forwarder_claims(functions: Seq<FunctionDeclarationView>, wanted: Token) -> nat
    decreases functions.len(),
{
    if functions.len() == 0 {
        0
    } else {
        forwarder_claims(functions.drop_last(), wanted) + one_if(
            is_free_foreign(functions.last()) && wanted == Token::Ident(
                local_identifier_text(
                    functions.last().associated_type,
                    functions.last().identifier,
                ),
            ),
        )
    }
}

/// How often the proxies hold a minted token: each proxy its free identifier once, in the
/// destructor, and the identifiers of its methods.
pub open spec fn proxy_claims(
    types: Seq<TypeDeclarationView>,
    functions: Seq<FunctionDeclarationView>,
    wanted: Token,
) -> nat
    decreases types.len(),
{
    if types.len() == 0 {
        0
    } else {
        proxy_claims(types.drop_last(), functions, wanted) + if types.last().side
            == Side::Foreign {
            one_if(wanted == Token::Ident(free_identifier_text(types.last().identifier)))
                + method_claims(functions, types.last().identifier, wanted)
        } else {
            0
        }
    }
}

/// Whether the token is one that only the naming scheme can put into the code emitted for
/// the module: a string literal, or an identifier that is neither a fixed word nor a name
/// that the module holds.
pub open spec fn minted_for_module(wanted: Token, m: BridgeModuleView) -> bool {
    &&& wanted is Literal || wanted is Ident
    &&& wanted matches Token::Ident(text) ==> !is_fixed_word(text) && text != m.name
    &&& forall|i: int|
        0 <= i < m.types.len() ==> minted_for_type(wanted, (#[trigger] m.types[i]).identifier)
    &&& forall|k: int| 0 <= k < m.functions.len() ==> minted(wanted, #[trigger] m.functions[k])
}

/// What the naming scheme puts into the code that carries a function across the boundary.
pub proof fn lemma_boundary_function_minted(f: FunctionDeclarationView, wanted: Token)
    requires
        minted(wanted, f),
    ensures
        occurrences(boundary_function(f), wanted) == function_claims(f, wanted),
{
    lemma_exported_wrapper_minted(f, wanted);
    lemma_linked_declaration_minted(f, wanted);
}

/// What the naming scheme puts into the free glue of a type.
pub proof fn lemma_free_glue_minted(t: TypeDeclarationView, wanted: Token)
    requires
        minted_for_type(wanted, t.identifier),
    ensures
        occurrences(free_glue(t), wanted) == type_claims(t, wanted),
{
    lemma_exported_free_minted(t.identifier, wanted);
    lemma_linked_free_minted(t.identifier, wanted);
}

proof fn lemma_boundary_functions_census(
    functions: Seq<FunctionDeclarationView>,
    side: Side,
    wanted: Token,
)
    requires
        forall|k: int| 0 <= k < functions.len() ==> minted(wanted, #[trigger] functions[k]),
    ensures
        occurrences(boundary_functions(functions, side), wanted) == functions_claims(
            functions,
            side,
            wanted,
        ),
    decreases functions.len(),
{
    broadcast use group_occurrences;

    if functions.len() > 0 {
        let rest = functions.drop_last();
        assert forall|k: int| 0 <= k < rest.len() implies minted(wanted, #[trigger] rest[k]) by {
            assert(rest[k] == functions[k]);
        }
        lemma_boundary_functions_census(rest, side, wanted);
        let f = functions[functions.len() - 1];
        assert(functions.last() == f);
        lemma_boundary_function_minted(f, wanted);
    }
}

proof fn lemma_free_glues_census(types: Seq<TypeDeclarationView>, side: Side, wanted: Token)
    requires
        forall|i: int|
            0 <= i < types.len() ==> minted_for_type(wanted, (#[trigger] types[i]).identifier),
    ensures
        occurrences(free_glues(types, side), wanted) == types_claims(types, side, wanted),
    decreases types.len(),
{
    broadcast use group_occurrences;

    if types.len() > 0 {
        let rest = types.drop_last();
        assert forall|i: int| 0 <= i < rest.len() implies minted_for_type(
            wanted,
            (#[trigger] rest[i]).identifier,
        ) by {
            assert(rest[i] == types[i]);
        }
        lemma_free_glues_census(rest, side, wanted);
        let t = types[types.len() - 1];
        assert(types.last() == t);
        lemma_free_glue_minted(t, wanted);
    }
}

proof fn lemma_methods_census(
    functions: Seq<FunctionDeclarationView>,
    ty: Seq<char>,
    wanted: Token,
)
    requires
        forall|k: int| 0 <= k < functions.len() ==> minted(wanted, #[trigger] functions[k]),
    ensures
        occurrences(methods_of(functions, ty), wanted) == method_claims(functions, ty, wanted),
    decreases functions.len(),
{
    broadcast use group_occurrences;

    if functions.len() > 0 {
        let rest = functions.drop_last();
        assert forall|k: int| 0 <= k < rest.len() implies minted(wanted, #[trigger] rest[k]) by {
            assert(rest[k] == functions[k]);
        }
        lemma_methods_census(rest, ty, wanted);
        let f = functions[functions.len() - 1];
        assert(functions.last() == f);
        lemma_forwarding_method_minted(f, wanted);
    }
}

proof fn lemma_free_forwarders_census(functions: Seq<FunctionDeclarationView>, wanted: Token)
    requires
        forall|k: int| 0 <= k < functions.len() ==> minted(wanted, #[trigger] functions[k]),
    ensures
        occurrences(free_forwarders(functions), wanted) == forwarder_claims(functions, wanted),
    decreases functions.len(),
{
    broadcast use group_occurrences;

    if functions.len() > 0 {
        let rest = functions.drop_last();
        assert forall|k: int| 0 <= k < rest.len() implies minted(wanted, #[trigger] rest[k]) by {
            assert(rest[k] == functions[k]);
        }
        lemma_free_forwarders_census(rest, wanted);
        let f = functions[functions.len() - 1];
        assert(functions.last() == f);
        lemma_forwarding_method_minted(f, wanted);
    }
}

/// What the naming scheme puts into a proxy: the free identifier, once, in the
/// destructor, and the identifiers of the linked declarations that its methods call.
pub proof fn lemma_proxy_minted(
    ty: Seq<char>,
    functions: Seq<FunctionDeclarationView>,
    wanted: Token,
)
    requires
        minted_for_type(wanted, ty),
        forall|k: int| 0 <= k < functions.len() ==> minted(wanted, #[trigger] functions[k]),
    ensures
        occurrences(proxy_definition(ty, functions), wanted) == one_if(
            wanted == Token::Ident(free_identifier_text(ty)),
        ) + method_claims(functions, ty, wanted),
{
    broadcast use group_occurrences;

    lemma_methods_census(functions, ty, wanted);
    assert(occurrences(method_block(ty, methods_of(functions, ty)), wanted) == method_claims(
        functions,
        ty,
        wanted,
    ));
    assert(occurrences(proxy_struct(ty), wanted) == 0);
    assert(occurrences(destructor(ty), wanted) == one_if(
        wanted == Token::Ident(free_identifier_text(ty)),
    ));
}

proof fn lemma_proxies_census(
    types: Seq<TypeDeclarationView>,
    functions: Seq<FunctionDeclarationView>,
    wanted: Token,
)
    requires
        forall|i: int|
            0 <= i < types.len() ==> minted_for_type(wanted, (#[trigger] types[i]).identifier),
        forall|k: int| 0 <= k < functions.len() ==> minted(wanted, #[trigger] functions[k]),
    ensures
        occurrences(proxy_definitions(types, functions), wanted) == proxy_claims(
            types,
            functions,
            wanted,
        ),
    decreases types.len(),
{
    broadcast use group_occurrences;

    if types.len() > 0 {
        let rest = types.drop_last();
        assert forall|i: int| 0 <= i < rest.len() implies minted_for_type(
            wanted,
            (#[trigger] rest[i]).identifier,
        ) by {
            assert(rest[i] == types[i]);
        }
        lemma_proxies_census(rest, functions, wanted);
        let t = types[types.len() - 1];
        assert(types.last() == t);
        lemma_proxy_minted(t.identifier, functions, wanted);
    }
}

/// The census of a module: how often its code holds a minted token. Each function and
/// each type holds it as often as it lays claim to it, each proxy once more where it is
/// the proxy's free identifier or the identifier of one of its methods, each forwarding
/// free function once where it is the identifier of its declaration, and the linkage
/// block once where it is the calling convention.
pub proof fn lemma_module_census(m: BridgeModuleView, wanted: Token)
    requires
        minted_for_module(wanted, m),
    ensures
        occurrences(module_tokens(m), wanted) == functions_claims(
            m.functions,
            Side::Native,
            wanted,
        ) + types_claims(m.types, Side::Native, wanted) + proxy_claims(
            m.types,
            m.functions,
            wanted,
        ) + forwarder_claims(m.functions, wanted) + functions_claims(
            m.functions,
            Side::Foreign,
            wanted,
        ) + types_claims(m.types, Side::Foreign, wanted) + one_if(
            linkage_declarations(m).len() > 0 && wanted == Token::Literal(abi_text()),
        ),
{
    broadcast use group_occurrences;

    lemma_boundary_functions_census(m.functions, Side::Native, wanted);
    lemma_boundary_functions_census(m.functions, Side::Foreign, wanted);
    lemma_free_glues_census(m.types, Side::Native, wanted);
    lemma_free_glues_census(m.types, Side::Foreign, wanted);
    lemma_proxies_census(m.types, m.functions, wanted);
    lemma_free_forwarders_census(m.functions, wanted);
    assert(occurrences(foreign_section(m), wanted) == proxy_claims(m.types, m.functions, wanted)
        + forwarder_claims(m.functions, wanted));
    assert(occurrences(native_section(m), wanted) == functions_claims(
        m.functions,
        Side::Native,
        wanted,
    ) + types_claims(m.types, Side::Native, wanted));
    assert(occurrences(linkage_declarations(m), wanted) == functions_claims(
        m.functions,
        Side::Foreign,
        wanted,
    ) + types_claims(m.types, Side::Foreign, wanted));
    assert(occurrences(linkage_block(m), wanted) == occurrences(linkage_declarations(m), wanted)
        + one_if(linkage_declarations(m).len() > 0 && wanted == Token::Literal(abi_text())));
    assert(occurrences(module_body(m), wanted) == occurrences(native_section(m), wanted)
        + occurrences(foreign_section(m), wanted) + occurrences(linkage_block(m), wanted));
}

} // verus!
