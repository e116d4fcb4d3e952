use crate::assembler::{
    boundary_functions, foreign_section, free_glues, linkage_block, linkage_declarations, module_body,
    module_tokens, native_section, proxy_definitions,
};
use crate::census::occurrences;
use crate::foreign::{
    destructor, forwarding_method, free_forwarders, is_free_foreign, is_method_of, methods_of,
    proxy_definition, proxy_struct,
};
use crate::claims::{
    abi_text, forwarder_claims, function_claims, functions_claims, is_fixed_word, lemma_module_census, method_claims,
    minted, minted_for_module, minted_for_type, names, one_if, proxy_claims, type_claims,
    types_claims,
};
use crate::ir::{
    distinct_types, BridgeModule, BridgeModuleView, FunctionDeclarationView, Side,
    TypeDeclarationView,
};
use crate::naming::{
    free_identifier_text, free_symbol_text, lemma_free_identifier_injective,
    lemma_free_symbol_injective, lemma_function_symbol_is_no_free_symbol,
    lemma_names_start_with_prefix, local_identifier_text,
};
use crate::syntax::{c_abi, lemma_words_start_with_letters, Word};
use crate::tokens::{Delimiter, Token};
use vstd::prelude::*;

verus! {

/// Determinism: what is emitted depends on nothing but the module as the model holds it,
/// so two modules with one model give the same tokens.
pub proof fn lemma_emission_is_deterministic(a: BridgeModule, b: BridgeModule)
    requires
        a@ == b@,
    ensures
        module_tokens(a@) == module_tokens(b@),
{
}

/// How many of the types are of the side and carry the identifier.
pub open spec fn declared_times(types: Seq<TypeDeclarationView>, side: Side, ty: Seq<char>) -> nat
    decreases types.len(),
{
    if types.len() == 0 {
        0
    } else {
        declared_times(types.drop_last(), side, ty) + one_if(
            types.last().side == side && types.last().identifier == ty,
        )
    }
}

proof fn lemma_not_declared(types: Seq<TypeDeclarationView>, side: Side, ty: Seq<char>)
    requires
        forall|k: int|
            0 <= k < types.len() ==> !((#[trigger] types[k]).side == side && types[k].identifier
                == ty),
    ensures
        declared_times(types, side, ty) == 0,
    decreases types.len(),
{
    if types.len() > 0 {
        let rest = types.drop_last();
        assert forall|k: int| 0 <= k < rest.len() implies !((#[trigger] rest[k]).side == side
            && rest[k].identifier == ty) by {
            assert(rest[k] == types[k]);
        }
        lemma_not_declared(rest, side, ty);
        assert(types.last() == types[types.len() - 1]);
    }
}

/// Among types with distinct identifiers, each is declared once, on its own side.
pub proof fn lemma_declared_once(types: Seq<TypeDeclarationView>, i: int, side: Side)
    requires
        distinct_types(types),
        0 <= i < types.len(),
    ensures
        declared_times(types, side, types[i].identifier) == one_if(types[i].side == side),
    decreases types.len(),
{
    let ty = types[i].identifier;
    let rest = types.drop_last();
    if i == types.len() - 1 {
        assert forall|k: int| 0 <= k < rest.len() implies !((#[trigger] rest[k]).side == side
            && rest[k].identifier == ty) by {
            assert(rest[k] == types[k]);
        }
        lemma_not_declared(rest, side, ty);
    } else {
        assert(rest[i] == types[i]);
        assert forall|a: int, b: int| 0 <= a < b < rest.len() implies (
        #[trigger] rest[a]).identifier != (#[trigger] rest[b]).identifier by {
            assert(rest[a] == types[a] && rest[b] == types[b]);
        }
        lemma_declared_once(rest, i, side);
        assert(types.last() == types[types.len() - 1]);
    }
}

proof fn lemma_functions_claim_nothing(
    functions: Seq<FunctionDeclarationView>,
    side: Side,
    wanted: Token,
)
    requires
        forall|k: int|
            0 <= k < functions.len() ==> function_claims(#[trigger] functions[k], wanted) == 0,
    ensures
        functions_claims(functions, side, wanted) == 0,
    decreases functions.len(),
{
    if functions.len() > 0 {
        let rest = functions.drop_last();
        assert forall|k: int| 0 <= k < rest.len() implies function_claims(
            #[trigger] rest[k],
            wanted,
        ) == 0 by {
            assert(rest[k] == functions[k]);
        }
        lemma_functions_claim_nothing(rest, side, wanted);
        assert(functions.last() == functions[functions.len() - 1]);
    }
}

proof fn lemma_methods_claim_nothing(
    functions: Seq<FunctionDeclarationView>,
    ty: Seq<char>,
    wanted: Token,
)
    requires
        forall|k: int|
            0 <= k < functions.len() ==> wanted != Token::Ident(
                local_identifier_text(
                    (#[trigger] functions[k]).associated_type,
                    functions[k].identifier,
                ),
            ),
    ensures
        method_claims(functions, ty, wanted) == 0,
    decreases functions.len(),
{
    if functions.len() > 0 {
        let rest = functions.drop_last();
        assert forall|k: int| 0 <= k < rest.len() implies wanted != Token::Ident(
            local_identifier_text((#[trigger] rest[k]).associated_type, rest[k].identifier),
        ) by {
            assert(rest[k] == functions[k]);
        }
        lemma_methods_claim_nothing(rest, ty, wanted);
        assert(functions.last() == functions[functions.len() - 1]);
    }
}

proof fn lemma_forwarders_claim_nothing(functions: Seq<FunctionDeclarationView>, wanted: Token)
    requires
        forall|k: int|
            0 <= k < functions.len() ==> wanted != Token::Ident(
                local_identifier_text(
                    (#[trigger] functions[k]).associated_type,
                    functions[k].identifier,
                ),
            ),
    ensures
        forwarder_claims(functions, wanted) == 0,
    decreases functions.len(),
{
    if functions.len() > 0 {
        let rest = functions.drop_last();
        assert forall|k: int| 0 <= k < rest.len() implies wanted != Token::Ident(
            local_identifier_text((#[trigger] rest[k]).associated_type, rest[k].identifier),
        ) by {
            assert(rest[k] == functions[k]);
        }
        lemma_forwarders_claim_nothing(rest, wanted);
        assert(functions.last() == functions[functions.len() - 1]);
    }
}

/// Whether the token is the free symbol or the free identifier of the type.
pub open spec fn is_free_name(wanted: Token, ty: Seq<char>) -> bool {
    wanted == Token::Literal(free_symbol_text(ty)) || wanted == Token::Ident(
        free_identifier_text(ty),
    )
}

proof fn lemma_types_claim_free_name(
    types: Seq<TypeDeclarationView>,
    side: Side,
    ty: Seq<char>,
    wanted: Token,
)
    requires
        is_free_name(wanted, ty),
    ensures
        types_claims(types, side, wanted) == declared_times(types, side, ty),
    decreases types.len(),
{
    if types.len() > 0 {
        lemma_types_claim_free_name(types.drop_last(), side, ty, wanted);
        let t = types.last();
        lemma_names_start_with_prefix(None, ty, ty);
        reveal_strlit("C");
        if free_symbol_text(t.identifier) == free_symbol_text(ty) {
            lemma_free_symbol_injective(t.identifier, ty);
        }
        if free_identifier_text(t.identifier) == free_identifier_text(ty) {
            lemma_free_identifier_injective(t.identifier, ty);
        }
    }
}

proof fn lemma_proxies_claim_free_name(
    types: Seq<TypeDeclarationView>,
    functions: Seq<FunctionDeclarationView>,
    ty: Seq<char>,
    wanted: Token,
)
    requires
        is_free_name(wanted, ty),
        forall|k: int|
            0 <= k < functions.len() ==> wanted != Token::Ident(
                local_identifier_text(
                    (#[trigger] functions[k]).associated_type,
                    functions[k].identifier,
                ),
            ),
    ensures
        proxy_claims(types, functions, wanted) == if wanted is Ident {
            declared_times(types, Side::Foreign, ty)
        } else {
            0
        },
    decreases types.len(),
{
    if types.len() > 0 {
        lemma_proxies_claim_free_name(types.drop_last(), functions, ty, wanted);
        let t = types.last();
        lemma_methods_claim_nothing(functions, t.identifier, wanted);
        if free_identifier_text(t.identifier) == free_identifier_text(ty) {
            lemma_free_identifier_injective(t.identifier, ty);
        }
    }
}

/// Whether the function is `_free` of the type: the one declaration whose symbol is the
/// text of the type's free symbol.
pub open spec fn takes_free_symbol(f: FunctionDeclarationView, ty: Seq<char>) -> bool {
    f.associated_type == Some(ty) && f.identifier == "_free"@
}

/// Free-glue completeness, the symbol: the code of a well-formed module holds the free
/// symbol of each declared type exactly once, whatever functions the type has, as long as
/// none of them is `_free` of that type.
pub proof fn lemma_free_symbol_emitted_once(m: BridgeModuleView, i: int)
    requires
        m.wf(),
        0 <= i < m.types.len(),
        forall|k: int|
            0 <= k < m.functions.len() ==> !takes_free_symbol(
                #[trigger] m.functions[k],
                m.types[i].identifier,
            ),
    ensures
        occurrences(module_tokens(m), Token::Literal(free_symbol_text(m.types[i].identifier)))
            == 1,
{
    let ty = m.types[i].identifier;
    let wanted = Token::Literal(free_symbol_text(ty));
    assert(m.types[i].wf());
    lemma_names_start_with_prefix(None, ty, ty);
    reveal_strlit("C");
    assert forall|k: int| 0 <= k < m.functions.len() implies function_claims(
        #[trigger] m.functions[k],
        wanted,
    ) == 0 by {
        let f = m.functions[k];
        assert(f.wf());
        assert(!takes_free_symbol(f, ty));
        lemma_function_symbol_is_no_free_symbol(f.associated_type, f.identifier, ty);
    }
    lemma_module_census(m, wanted);
    lemma_functions_claim_nothing(m.functions, Side::Native, wanted);
    lemma_functions_claim_nothing(m.functions, Side::Foreign, wanted);
    lemma_types_claim_free_name(m.types, Side::Native, ty, wanted);
    lemma_types_claim_free_name(m.types, Side::Foreign, ty, wanted);
    lemma_proxies_claim_free_name(m.types, m.functions, ty, wanted);
    lemma_forwarders_claim_nothing(m.functions, wanted);
    lemma_declared_once(m.types, i, Side::Native);
    lemma_declared_once(m.types, i, Side::Foreign);
}

/// Whether the module holds the text as a name: its own, that of a type, or one that a
/// function declaration holds.
pub open spec fn module_names(m: BridgeModuleView, text: Seq<char>) -> bool {
    ||| m.name == text
    ||| exists|i: int| 0 <= i < m.types.len() && (#[trigger] m.types[i]).identifier == text
    ||| exists|k: int| 0 <= k < m.functions.len() && names(#[trigger] m.functions[k], text)
}

/// Whether the text is the identifier under which the emitted code knows one of the
/// module's functions.
pub open spec fn module_mints(m: BridgeModuleView, text: Seq<char>) -> bool {
    exists|k: int|
        0 <= k < m.functions.len() && local_identifier_text(
            (#[trigger] m.functions[k]).associated_type,
            m.functions[k].identifier,
        ) == text
}

/// No identifier that the naming scheme makes is a fixed word.
pub proof fn lemma_prefixed_is_no_fixed_word(text: Seq<char>)
    requires
        text.len() > 0,
        text[0] == '_',
    ensures
        !is_fixed_word(text),
{
    assert forall|word: Word| text != #[trigger] word.text() by {
        lemma_words_start_with_letters(word);
    }
}

proof fn lemma_unnamed_is_minted(m: BridgeModuleView, text: Seq<char>)
    requires
        !module_names(m, text),
        !is_fixed_word(text),
    ensures
        minted_for_module(Token::Ident(text), m),
{
    let wanted = Token::Ident(text);
    assert forall|i: int| 0 <= i < m.types.len() implies minted_for_type(
        wanted,
        (#[trigger] m.types[i]).identifier,
    ) by {}
    assert forall|k: int| 0 <= k < m.functions.len() implies minted(
        wanted,
        #[trigger] m.functions[k],
    ) by {
        assert(!names(m.functions[k], text));
    }
}

/// Free-glue completeness, the identifier: where nothing else in the module goes by the
/// free identifier of a declared type, the code of the module holds it once for a native
/// type, in the definition of the release function, and twice for a foreign type, in the
/// declaration of the release function and in the call that the proxy's destructor makes.
pub proof fn lemma_free_identifier_emitted(m: BridgeModuleView, i: int)
    requires
        m.wf(),
        0 <= i < m.types.len(),
        !module_names(m, free_identifier_text(m.types[i].identifier)),
        !module_mints(m, free_identifier_text(m.types[i].identifier)),
    ensures
        occurrences(module_tokens(m), Token::Ident(free_identifier_text(m.types[i].identifier)))
            == match m.types[i].side {
            Side::Native => 1nat,
            Side::Foreign => 2nat,
        },
{
    let ty = m.types[i].identifier;
    let text = free_identifier_text(ty);
    let wanted = Token::Ident(text);
    lemma_names_start_with_prefix(None, ty, ty);
    lemma_prefixed_is_no_fixed_word(text);
    lemma_unnamed_is_minted(m, text);
    assert forall|k: int| 0 <= k < m.functions.len() implies function_claims(
        #[trigger] m.functions[k],
        wanted,
    ) == 0 by {}
    lemma_module_census(m, wanted);
    lemma_functions_claim_nothing(m.functions, Side::Native, wanted);
    lemma_functions_claim_nothing(m.functions, Side::Foreign, wanted);
    lemma_types_claim_free_name(m.types, Side::Native, ty, wanted);
    lemma_types_claim_free_name(m.types, Side::Foreign, ty, wanted);
    lemma_proxies_claim_free_name(m.types, m.functions, ty, wanted);
    lemma_forwarders_claim_nothing(m.functions, wanted);
    lemma_declared_once(m.types, i, Side::Native);
    lemma_declared_once(m.types, i, Side::Foreign);
}

/// Whether nothing in the module is implemented on the foreign side.
pub open spec fn all_native(m: BridgeModuleView) -> bool {
    &&& forall|i: int| 0 <= i < m.types.len() ==> (#[trigger] m.types[i]).side == Side::Native
    &&& forall|k: int|
        0 <= k < m.functions.len() ==> (#[trigger] m.functions[k]).side == Side::Native
}

proof fn lemma_no_foreign_function(functions: Seq<FunctionDeclarationView>)
    requires
        forall|k: int| 0 <= k < functions.len() ==> (#[trigger] functions[k]).side == Side::Native,
    ensures
        boundary_functions(functions, Side::Foreign) == Seq::<Token>::empty(),
        free_forwarders(functions) == Seq::<Token>::empty(),
    decreases functions.len(),
{
    if functions.len() > 0 {
        let rest = functions.drop_last();
        assert forall|k: int| 0 <= k < rest.len() implies (#[trigger] rest[k]).side
            == Side::Native by {
            assert(rest[k] == functions[k]);
        }
        lemma_no_foreign_function(rest);
        assert(functions.last() == functions[functions.len() - 1]);
    }
}

proof fn lemma_no_foreign_type(
    types: Seq<TypeDeclarationView>,
    functions: Seq<FunctionDeclarationView>,
)
    requires
        forall|i: int| 0 <= i < types.len() ==> (#[trigger] types[i]).side == Side::Native,
    ensures
        free_glues(types, Side::Foreign) == Seq::<Token>::empty(),
        proxy_definitions(types, functions) == Seq::<Token>::empty(),
    decreases types.len(),
{
    if types.len() > 0 {
        let rest = types.drop_last();
        assert forall|i: int| 0 <= i < rest.len() implies (#[trigger] rest[i]).side
            == Side::Native by {
            assert(rest[i] == types[i]);
        }
        lemma_no_foreign_type(rest, functions);
        assert(types.last() == types[types.len() - 1]);
    }
}

/// Empty-block suppression: a module with nothing on the foreign side emits no linkage
/// block, no proxy and no forwarding function; its code is the native section in
/// `mod name { .. }`.
pub proof fn lemma_no_foreign_declaration_no_linkage_block(m: BridgeModuleView)
    requires
        all_native(m),
    ensures
        linkage_declarations(m) == Seq::<Token>::empty(),
        linkage_block(m) == Seq::<Token>::empty(),
        foreign_section(m) == Seq::<Token>::empty(),
        module_tokens(m) == seq![
            Word::Module.token(),
            Token::Ident(m.name),
            Token::Group(Delimiter::Brace, native_section(m)),
        ],
{
    lemma_no_foreign_function(m.functions);
    lemma_no_foreign_type(m.types, m.functions);
    assert(module_body(m) =~= native_section(m));
}

proof fn lemma_boundary_functions_grow(functions: Seq<FunctionDeclarationView>, side: Side, k: int)
    requires
        0 <= k < functions.len(),
        functions[k].side == side,
    ensures
        boundary_functions(functions, side).len() > 0,
    decreases functions.len(),
{
    if k < functions.len() - 1 {
        let rest = functions.drop_last();
        assert(rest[k] == functions[k]);
        lemma_boundary_functions_grow(rest, side, k);
    } else {
        assert(functions.last() == functions[k]);
    }
}

proof fn lemma_free_glues_grow(types: Seq<TypeDeclarationView>, side: Side, i: int)
    requires
        0 <= i < types.len(),
        types[i].side == side,
    ensures
        free_glues(types, side).len() > 0,
    decreases types.len(),
{
    if i < types.len() - 1 {
        let rest = types.drop_last();
        assert(rest[i] == types[i]);
        lemma_free_glues_grow(rest, side, i);
    } else {
        assert(types.last() == types[i]);
    }
}

/// The other half: a module with anything on the foreign side emits one linkage block,
/// which holds all that is asked of the foreign side.
pub proof fn lemma_foreign_declaration_one_linkage_block(m: BridgeModuleView)
    requires
        !all_native(m),
    ensures
        linkage_declarations(m).len() > 0,
        linkage_block(m) == c_abi() + seq![
            Token::Group(Delimiter::Brace, linkage_declarations(m)),
        ],
{
    if exists|i: int| 0 <= i < m.types.len() && (#[trigger] m.types[i]).side != Side::Native {
        let i = choose|i: int| 0 <= i < m.types.len() && (#[trigger] m.types[i]).side
            != Side::Native;
        lemma_free_glues_grow(m.types, Side::Foreign, i);
    } else {
        let k = choose|k: int| 0 <= k < m.functions.len() && (#[trigger] m.functions[k]).side
            != Side::Native;
        lemma_boundary_functions_grow(m.functions, Side::Foreign, k);
    }
}

proof fn lemma_methods_of_concat(
    a: Seq<FunctionDeclarationView>,
    b: Seq<FunctionDeclarationView>,
    ty: Seq<char>,
)
    ensures
        methods_of(a + b, ty) == methods_of(a, ty) + methods_of(b, ty),
    decreases b.len(),
{
    if b.len() == 0 {
        assert(a + b =~= a);
    } else {
        lemma_methods_of_concat(a, b.drop_last(), ty);
        assert((a + b).drop_last() =~= a + b.drop_last());
        assert((a + b).last() == b.last());
    }
}

proof fn lemma_proxy_definitions_concat(
    a: Seq<TypeDeclarationView>,
    b: Seq<TypeDeclarationView>,
    functions: Seq<FunctionDeclarationView>,
)
    ensures
        proxy_definitions(a + b, functions) == proxy_definitions(a, functions)
            + proxy_definitions(b, functions),
    decreases b.len(),
{
    if b.len() == 0 {
        assert(a + b =~= a);
    } else {
        lemma_proxy_definitions_concat(a, b.drop_last(), functions);
        assert((a + b).drop_last() =~= a + b.drop_last());
        assert((a + b).last() == b.last());
    }
}

/// Grouping: a foreign function of a declared foreign type has its forwarding method in
/// the one method block of that type's proxy, after the methods of the functions declared
/// before it and before those of the functions declared after it; and the module emits
/// that proxy once, at the type's place among the proxies.
pub proof fn lemma_method_stands_in_its_block(m: BridgeModuleView, i: int, k: int)
    requires
        m.wf(),
        0 <= i < m.types.len(),
        m.types[i].side == Side::Foreign,
        0 <= k < m.functions.len(),
        is_method_of(m.functions[k], m.types[i].identifier),
    ensures
        ({
            let ty = m.types[i].identifier;
            let block = methods_of(m.functions.take(k), ty) + forwarding_method(m.functions[k])
                + methods_of(m.functions.skip(k + 1), ty);
            &&& methods_of(m.functions, ty) == block
            &&& proxy_definition(ty, m.functions) == proxy_struct(ty) + seq![
                Word::Impl.token(),
                Token::Ident(ty),
                Token::Group(Delimiter::Brace, block),
            ] + destructor(ty)
            &&& proxy_definitions(m.types, m.functions) == proxy_definitions(
                m.types.take(i),
                m.functions,
            ) + proxy_definition(ty, m.functions) + proxy_definitions(
                m.types.skip(i + 1),
                m.functions,
            )
            &&& declared_times(m.types, Side::Foreign, ty) == 1
        }),
{
    let ty = m.types[i].identifier;
    let fs = m.functions;
    let one = seq![fs[k]];
    assert(fs =~= fs.take(k) + one + fs.skip(k + 1));
    lemma_methods_of_concat(fs.take(k) + one, fs.skip(k + 1), ty);
    lemma_methods_of_concat(fs.take(k), one, ty);
    assert(methods_of(one, ty) =~= forwarding_method(fs[k])) by {
        reveal_with_fuel(methods_of, 2);
        assert(one.last() == fs[k]);
    }
    assert(forwarding_method(fs[k]).len() > 0);
    let ts = m.types;
    let single = seq![ts[i]];
    assert(ts =~= ts.take(i) + single + ts.skip(i + 1));
    lemma_proxy_definitions_concat(ts.take(i) + single, ts.skip(i + 1), fs);
    lemma_proxy_definitions_concat(ts.take(i), single, fs);
    assert(proxy_definitions(single, fs) =~= proxy_definition(ty, fs)) by {
        reveal_with_fuel(proxy_definitions, 2);
        assert(single.last() == ts[i]);
    }
    lemma_declared_once(m.types, i, Side::Foreign);
}

/// How many of the functions are of the side.
pub open spec fn functions_on(functions: Seq<FunctionDeclarationView>, side: Side) -> nat
    decreases functions.len(),
{
    if functions.len() == 0 {
        0
    } else {
        functions_on(functions.drop_last(), side) + one_if(functions.last().side == side)
    }
}

/// How many of the types are of the side.
pub open spec fn types_on(types: Seq<TypeDeclarationView>, side: Side) -> nat
    decreases types.len(),
{
    if types.len() == 0 {
        0
    } else {
        types_on(types.drop_last(), side) + one_if(types.last().side == side)
    }
}

proof fn lemma_functions_claim_convention(functions: Seq<FunctionDeclarationView>, side: Side)
    ensures
        functions_claims(functions, side, Token::Literal(abi_text())) == if side == Side::Native {
            functions_on(functions, Side::Native)
        } else {
            0
        },
    decreases functions.len(),
{
    if functions.len() > 0 {
        lemma_functions_claim_convention(functions.drop_last(), side);
        let f = functions.last();
        lemma_names_start_with_prefix(f.associated_type, f.identifier, f.identifier);
        reveal_strlit("C");
    }
}

proof fn lemma_types_claim_convention(types: Seq<TypeDeclarationView>, side: Side)
    ensures
        types_claims(types, side, Token::Literal(abi_text())) == if side == Side::Native {
            types_on(types, Side::Native)
        } else {
            0
        },
    decreases types.len(),
{
    if types.len() > 0 {
        lemma_types_claim_convention(types.drop_last(), side);
        let t = types.last();
        lemma_names_start_with_prefix(None, t.identifier, t.identifier);
        reveal_strlit("C");
    }
}

proof fn lemma_proxies_claim_no_literal(
    types: Seq<TypeDeclarationView>,
    functions: Seq<FunctionDeclarationView>,
    wanted: Token,
)
    requires
        wanted is Literal,
    ensures
        proxy_claims(types, functions, wanted) == 0,
    decreases types.len(),
{
    if types.len() > 0 {
        lemma_proxies_claim_no_literal(types.drop_last(), functions, wanted);
        lemma_methods_claim_nothing(functions, types.last().identifier, wanted);
    }
}

/// Empty-block suppression, counted: the code of a module names the calling convention
/// once in each function that the native side exports, and once more in the linkage
/// block, which is there exactly when something is foreign.
pub proof fn lemma_linkage_block_counted(m: BridgeModuleView)
    ensures
        occurrences(module_tokens(m), Token::Literal(abi_text())) == functions_on(
            m.functions,
            Side::Native,
        ) + types_on(m.types, Side::Native) + one_if(!all_native(m)),
{
    let wanted = Token::Literal(abi_text());
    lemma_module_census(m, wanted);
    lemma_functions_claim_convention(m.functions, Side::Native);
    lemma_functions_claim_convention(m.functions, Side::Foreign);
    lemma_types_claim_convention(m.types, Side::Native);
    lemma_types_claim_convention(m.types, Side::Foreign);
    lemma_proxies_claim_no_literal(m.types, m.functions, wanted);
    lemma_forwarders_claim_nothing(m.functions, wanted);
    if all_native(m) {
        lemma_no_foreign_declaration_no_linkage_block(m);
    } else {
        lemma_foreign_declaration_one_linkage_block(m);
    }
}

/// The identifier under which the emitted code knows the function.
pub open spec fn local_identifier_of(f: FunctionDeclarationView) -> Seq<char> {
    local_identifier_text(f.associated_type, f.identifier)
}

/// Whether no other function of the module goes by the identifier of the function at `j`.
pub open spec fn alone_with_its_identifier(
    functions: Seq<FunctionDeclarationView>,
    j: int,
) -> bool {
    forall|k: int|
        0 <= k < functions.len() && k != j ==> local_identifier_of(#[trigger] functions[k])
            != local_identifier_of(functions[j])
}

proof fn lemma_single_function_claim(
    functions: Seq<FunctionDeclarationView>,
    j: int,
    side: Side,
)
    requires
        0 <= j < functions.len(),
        alone_with_its_identifier(functions, j),
    ensures
        functions_claims(functions, side, Token::Ident(local_identifier_of(functions[j])))
            == one_if(functions[j].side == side),
    decreases functions.len(),
{
    let wanted = Token::Ident(local_identifier_of(functions[j]));
    let rest = functions.drop_last();
    if j == functions.len() - 1 {
        assert forall|k: int| 0 <= k < rest.len() implies function_claims(
            #[trigger] rest[k],
            wanted,
        ) == 0 by {
            assert(rest[k] == functions[k]);
        }
        lemma_functions_claim_nothing(rest, side, wanted);
    } else {
        assert(rest[j] == functions[j]);
        assert forall|k: int| 0 <= k < rest.len() && k != j implies local_identifier_of(
            #[trigger] rest[k],
        ) != local_identifier_of(rest[j]) by {
            assert(rest[k] == functions[k]);
        }
        lemma_single_function_claim(rest, j, side);
        assert(functions.last() == functions[functions.len() - 1]);
    }
}

proof fn lemma_single_method_claim(
    functions: Seq<FunctionDeclarationView>,
    j: int,
    ty: Seq<char>,
)
    requires
        0 <= j < functions.len(),
        alone_with_its_identifier(functions, j),
    ensures
        method_claims(functions, ty, Token::Ident(local_identifier_of(functions[j]))) == one_if(
            is_method_of(functions[j], ty),
        ),
    decreases functions.len(),
{
    let wanted = Token::Ident(local_identifier_of(functions[j]));
    let rest = functions.drop_last();
    if j == functions.len() - 1 {
        assert forall|k: int| 0 <= k < rest.len() implies wanted != Token::Ident(
            local_identifier_text((#[trigger] rest[k]).associated_type, rest[k].identifier),
        ) by {
            assert(rest[k] == functions[k]);
        }
        lemma_methods_claim_nothing(rest, ty, wanted);
    } else {
        assert(rest[j] == functions[j]);
        assert forall|k: int| 0 <= k < rest.len() && k != j implies local_identifier_of(
            #[trigger] rest[k],
        ) != local_identifier_of(rest[j]) by {
            assert(rest[k] == functions[k]);
        }
        lemma_single_method_claim(rest, j, ty);
        assert(functions.last() == functions[functions.len() - 1]);
    }
}

proof fn lemma_single_forwarder_claim(functions: Seq<FunctionDeclarationView>, j: int)
    requires
        0 <= j < functions.len(),
        alone_with_its_identifier(functions, j),
    ensures
        forwarder_claims(functions, Token::Ident(local_identifier_of(functions[j]))) == one_if(
            is_free_foreign(functions[j]),
        ),
    decreases functions.len(),
{
    let wanted = Token::Ident(local_identifier_of(functions[j]));
    let rest = functions.drop_last();
    if j == functions.len() - 1 {
        assert forall|k: int| 0 <= k < rest.len() implies wanted != Token::Ident(
            local_identifier_text((#[trigger] rest[k]).associated_type, rest[k].identifier),
        ) by {
            assert(rest[k] == functions[k]);
        }
        lemma_forwarders_claim_nothing(rest, wanted);
    } else {
        assert(rest[j] == functions[j]);
        assert forall|k: int| 0 <= k < rest.len() && k != j implies local_identifier_of(
            #[trigger] rest[k],
        ) != local_identifier_of(rest[j]) by {
            assert(rest[k] == functions[k]);
        }
        lemma_single_forwarder_claim(rest, j);
        assert(functions.last() == functions[functions.len() - 1]);
    }
}

proof fn lemma_types_claim_nothing(types: Seq<TypeDeclarationView>, side: Side, wanted: Token)
    requires
        forall|i: int| 0 <= i < types.len() ==> type_claims(#[trigger] types[i], wanted) == 0,
    ensures
        types_claims(types, side, wanted) == 0,
    decreases types.len(),
{
    if types.len() > 0 {
        let rest = types.drop_last();
        assert forall|i: int| 0 <= i < rest.len() implies type_claims(#[trigger] rest[i], wanted)
            == 0 by {
            assert(rest[i] == types[i]);
        }
        lemma_types_claim_nothing(rest, side, wanted);
        assert(types.last() == types[types.len() - 1]);
    }
}

/// How many proxies the types give to a function: one for each foreign type that a
/// foreign function belongs to.
pub open spec fn proxies_of(types: Seq<TypeDeclarationView>, f: FunctionDeclarationView) -> nat {
    match f.associated_type {
        Some(ty) if f.side == Side::Foreign => declared_times(types, Side::Foreign, ty),
        _ => 0,
    }
}

proof fn lemma_proxies_claim_method(
    types: Seq<TypeDeclarationView>,
    functions: Seq<FunctionDeclarationView>,
    j: int,
)
    requires
        0 <= j < functions.len(),
        alone_with_its_identifier(functions, j),
        forall|i: int|
            0 <= i < types.len() ==> free_identifier_text((#[trigger] types[i]).identifier)
                != local_identifier_of(functions[j]),
    ensures
        proxy_claims(types, functions, Token::Ident(local_identifier_of(functions[j])))
            == proxies_of(types, functions[j]),
    decreases types.len(),
{
    if types.len() > 0 {
        let rest = types.drop_last();
        assert forall|i: int| 0 <= i < rest.len() implies free_identifier_text(
            (#[trigger] rest[i]).identifier,
        ) != local_identifier_of(functions[j]) by {
            assert(rest[i] == types[i]);
        }
        lemma_proxies_claim_method(rest, functions, j);
        let t = types[types.len() - 1];
        assert(types.last() == t);
        lemma_single_method_claim(functions, j, t.identifier);
    }
}

/// Whether the module emits a proxy method for the function at `j`: the function is
/// foreign and belongs to a foreign type of the module.
pub open spec fn has_proxy_method(m: BridgeModuleView, j: int) -> bool {
    m.functions[j].side == Side::Foreign && exists|i: int|
        0 <= i < m.types.len() && (#[trigger] m.types[i]).side == Side::Foreign
            && m.functions[j].associated_type == Some(m.types[i].identifier)
}

/// Whether the module emits a forwarding function for the function at `j`: a method of a
/// proxy, or a free function for a foreign function that belongs to no type.
pub open spec fn is_forwarded(m: BridgeModuleView, j: int) -> bool {
    has_proxy_method(m, j) || is_free_foreign(m.functions[j])
}

/// Grouping, counted: where nothing else in the module goes by the identifier of a
/// function, the code of the module holds that identifier once in what carries the
/// function across the boundary, and once more, in the one function that forwards to it,
/// where the function is a foreign function of a foreign type or of no type.
pub proof fn lemma_function_identifier_emitted(m: BridgeModuleView, j: int)
    requires
        m.wf(),
        0 <= j < m.functions.len(),
        !module_names(m, local_identifier_of(m.functions[j])),
        alone_with_its_identifier(m.functions, j),
        forall|i: int|
            0 <= i < m.types.len() ==> free_identifier_text((#[trigger] m.types[i]).identifier)
                != local_identifier_of(m.functions[j]),
    ensures
        occurrences(module_tokens(m), Token::Ident(local_identifier_of(m.functions[j]))) == (
        if is_forwarded(m, j) {
            2nat
        } else {
            1nat
        }),
{
    let f = m.functions[j];
    let text = local_identifier_of(f);
    let wanted = Token::Ident(text);
    lemma_names_start_with_prefix(f.associated_type, f.identifier, f.identifier);
    lemma_prefixed_is_no_fixed_word(text);
    lemma_unnamed_is_minted(m, text);
    lemma_module_census(m, wanted);
    lemma_single_function_claim(m.functions, j, Side::Native);
    lemma_single_function_claim(m.functions, j, Side::Foreign);
    assert forall|i: int| 0 <= i < m.types.len() implies type_claims(
        #[trigger] m.types[i],
        wanted,
    ) == 0 by {}
    lemma_types_claim_nothing(m.types, Side::Native, wanted);
    lemma_types_claim_nothing(m.types, Side::Foreign, wanted);
    lemma_proxies_claim_method(m.types, m.functions, j);
    lemma_single_forwarder_claim(m.functions, j);
    match f.associated_type {
        Some(ty) if f.side == Side::Foreign => {
            assert(f.resolves_in(m.types));
            let i = choose|i: int| 0 <= i < m.types.len() && (#[trigger] m.types[i]).identifier
                == ty;
            lemma_declared_once(m.types, i, Side::Foreign);
            if m.types[i].side != Side::Foreign {
                assert forall|k: int| 0 <= k < m.types.len() implies !((
                #[trigger] m.types[k]).side == Side::Foreign && f.associated_type == Some(
                    m.types[k].identifier,
                )) by {
                    if k != i && m.types[k].identifier == ty {
                        if k < i {
                            assert(m.types[k].identifier != m.types[i].identifier);
                        } else {
                            assert(m.types[i].identifier != m.types[k].identifier);
                        }
                    }
                }
            }
        },
        _ => {},
    }
}

proof fn lemma_free_forwarders_concat(
    a: Seq<FunctionDeclarationView>,
    b: Seq<FunctionDeclarationView>,
)
    ensures
        free_forwarders(a + b) == free_forwarders(a) + free_forwarders(b),
    decreases b.len(),
{
    if b.len() == 0 {
        assert(a + b =~= a);
    } else {
        lemma_free_forwarders_concat(a, b.drop_last());
        assert((a + b).drop_last() =~= a + b.drop_last());
        assert((a + b).last() == b.last());
    }
}

/// A foreign function that belongs to no type has its forwarding function in the foreign
/// section of the module, behind the proxies, after the forwarding functions of those
/// declared before it and before those of the ones declared after it.
pub proof fn lemma_free_function_is_forwarded(m: BridgeModuleView, k: int)
    requires
        0 <= k < m.functions.len(),
        is_free_foreign(m.functions[k]),
    ensures
        foreign_section(m) == proxy_definitions(m.types, m.functions) + free_forwarders(
            m.functions.take(k),
        ) + forwarding_method(m.functions[k]) + free_forwarders(m.functions.skip(k + 1)),
{
    let fs = m.functions;
    let one = seq![fs[k]];
    assert(fs =~= fs.take(k) + one + fs.skip(k + 1));
    lemma_free_forwarders_concat(fs.take(k) + one, fs.skip(k + 1));
    lemma_free_forwarders_concat(fs.take(k), one);
    assert(free_forwarders(one) =~= forwarding_method(fs[k])) by {
        reveal_with_fuel(free_forwarders, 2);
        assert(one.last() == fs[k]);
    }
}

} // verus!
