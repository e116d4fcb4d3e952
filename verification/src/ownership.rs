use crate::census::{group_occurrences, lemma_comma_separated_without, occurrences};
use crate::claims::one_if;
use crate::ir::{
    FunctionDeclarationView, Ownership, ParameterView, SelfReceiverKind, Side, TypeReferenceView,
};
use crate::native::{
    boxed, call_target, exported_free, exported_wrapper, native_body, native_call,
    pointer_access, rebinds, reclaim_block, reclaimed_box,
};
use crate::signature::{
    argument_items, call_arguments, receiver_ownership, signature_items, signature_parameters,
};
use crate::naming::exported_symbol_text;
use crate::syntax::{
    boundary_parameter, boundary_return, c_abi, comma_separated, marker_attribute,
    name_attribute, punct, Word,
};
use crate::tokens::{Delimiter, Token};
use vstd::prelude::*;

verus! {

/// `(name)`: the pointer `name` passed on as the only argument of a call. This is how
/// emitted code gives a pointer away: to `Box::from_raw`, which takes over what the
/// pointer stands for, and to `drop`, which releases it.
pub open spec fn handed_over(name: Seq<char>) -> Token {
    Token::Group(Delimiter::Parenthesis, seq![Token::Ident(name)])
}

/// Whether the parameter is of a declared type and taken by value: the wrapper then takes
/// back ownership of what the parameter's pointer stands for.
pub open spec fn is_taken_over(parameter: ParameterView) -> bool {
    match parameter.ty {
        TypeReferenceView::Declared(_, ownership) => ownership == Ownership::Owned,
        TypeReferenceView::BuiltIn(_) => false,
    }
}

/// Whether the function takes over a parameter of the name.
pub open spec fn takes_over(f: FunctionDeclarationView, name: Seq<char>) -> bool {
    exists|i: int|
        0 <= i < f.parameters.len() && (#[trigger] f.parameters[i]).name == name
            && is_taken_over(f.parameters[i])
}

/// Whether the function has one parameter and that of the name: the call that the
/// wrapper makes then has `(name)` for its arguments.
pub open spec fn passes_alone(f: FunctionDeclarationView, name: Seq<char>) -> bool {
    f.parameters.len() == 1 && f.parameters[0].name == name
}

/// Items with commas between them are at least as long as the first item and the commas.
pub proof fn lemma_comma_separated_length(items: Seq<Seq<Token>>)
    requires
        items.len() > 0,
    ensures
        comma_separated(items).len() >= items[0].len() + items.len() - 1,
    decreases items.len(),
{
    if items.len() >= 2 {
        lemma_comma_separated_length(items.drop_last());
        assert(items.drop_last()[0] == items[0]);
    }
}

/// The block and the argument list say which pointer they are about.
pub proof fn lemma_release_names_its_pointer(a: Seq<char>, b: Seq<char>)
    ensures
        reclaim_block(a) == reclaim_block(b) ==> a == b,
        handed_over(a) == handed_over(b) ==> a == b,
        reclaim_block(a) != handed_over(b),
{
    if reclaim_block(a) == reclaim_block(b) {
        let x = reclaim_block(a)->Group_1;
        let y = reclaim_block(b)->Group_1;
        assert(x[4] == handed_over(a));
        assert(y[4] == handed_over(b));
    }
    if handed_over(a) == handed_over(b) {
        let x = handed_over(a)->Group_1;
        let y = handed_over(b)->Group_1;
        assert(x[0] == Token::Ident(a));
        assert(y[0] == Token::Ident(b));
    }
}

proof fn lemma_signature_holds_no_group(f: FunctionDeclarationView, side: Side, wanted: Token)
    requires
        wanted is Group,
    ensures
        occurrences(signature_parameters(f, side), wanted) == 0,
        signature_parameters(f, side).len() != 1,
{
    broadcast use group_occurrences;

    let items = signature_items(f, side);
    assert forall|i: int| 0 <= i < items.len() implies occurrences(#[trigger] items[i], wanted)
        == 0 && items[i].len() >= 3 by {
        let shift = items.len() - f.parameters.len();
        if i >= shift {
            let parameter = f.parameters[i - shift];
            assert(items[i] == boundary_parameter(parameter, side));
        }
    }
    lemma_comma_separated_without(items, wanted);
    if items.len() > 0 {
        lemma_comma_separated_length(items);
    }
}

proof fn lemma_arguments_hold_no_group(f: FunctionDeclarationView, wanted: Token)
    requires
        wanted is Group,
    ensures
        occurrences(call_arguments(f.parameters), wanted) == 0,
{
    broadcast use group_occurrences;

    let items = argument_items(f.parameters);
    assert forall|i: int| 0 <= i < items.len() implies occurrences(#[trigger] items[i], wanted)
        == 0 by {
        let parameter = f.parameters[i];
        assert(items[i] == seq![Token::Ident(parameter.name)]);
    }
    lemma_comma_separated_without(items, wanted);
}

proof fn lemma_arguments_alone(f: FunctionDeclarationView, name: Seq<char>)
    ensures
        (call_arguments(f.parameters) == seq![Token::Ident(name)]) == passes_alone(f, name),
{
    let items = argument_items(f.parameters);
    let one = seq![Token::Ident(name)];
    if items.len() == 1 {
        let parameter = f.parameters[0];
        assert(items[0] == seq![Token::Ident(parameter.name)]);
        assert(call_arguments(f.parameters)[0] == Token::Ident(parameter.name));
        assert(one[0] == Token::Ident(name));
        if parameter.name == name {
            assert(call_arguments(f.parameters) =~= one);
        }
    } else if items.len() > 1 {
        let parameter = f.parameters[0];
        assert(items[0] == seq![Token::Ident(parameter.name)]);
        lemma_comma_separated_length(items);
    }
}

proof fn lemma_rebinds_release_nothing(f: FunctionDeclarationView, n: int, name: Seq<char>)
    requires
        !takes_over(f, name),
        0 <= n <= f.parameters.len(),
    ensures
        occurrences(rebinds(f.parameters.take(n)), reclaim_block(name)) == 0,
        occurrences(rebinds(f.parameters.take(n)), handed_over(name)) == 0,
    decreases n,
{
    broadcast use group_occurrences;

    if n > 0 {
        lemma_rebinds_release_nothing(f, n - 1, name);
        assert(f.parameters.take(n).drop_last() =~= f.parameters.take(n - 1));
        let parameter = f.parameters[n - 1];
        assert(f.parameters.take(n).last() == parameter);
        assert(!(parameter.name == name && is_taken_over(parameter)));
        lemma_release_names_its_pointer(parameter.name, name);
        lemma_release_names_its_pointer(name, parameter.name);
    }
}

/// How a pointer is reached says whether it is given away: only the access that takes
/// ownership holds the block that reclaims the pointer, once, and hands the pointer over
/// in it.
pub proof fn lemma_pointer_access_releases(ownership: Ownership, name: Seq<char>)
    ensures
        occurrences(pointer_access(ownership, name), reclaim_block(name)) == one_if(
            ownership == Ownership::Owned,
        ),
        occurrences(pointer_access(ownership, name), handed_over(name)) == one_if(
            ownership == Ownership::Owned,
        ),
        pointer_access(ownership, name).len() >= 2,
{
    broadcast use group_occurrences;

    lemma_release_names_its_pointer(name, name);
}

proof fn lemma_native_call_releases(f: FunctionDeclarationView)
    ensures
        occurrences(native_call(f), reclaim_block(Word::This.text())) == one_if(
            f.receiver == SelfReceiverKind::Owned,
        ),
        occurrences(native_call(f), handed_over(Word::This.text())) == one_if(
            f.receiver == SelfReceiverKind::Owned,
        ) + one_if(passes_alone(f, Word::This.text())),
        native_call(f).len() >= 2,
{
    broadcast use group_occurrences;

    let this = Word::This.text();
    lemma_arguments_hold_no_group(f, reclaim_block(this));
    lemma_arguments_hold_no_group(f, handed_over(this));
    lemma_arguments_alone(f, this);
    lemma_release_names_its_pointer(this, this);
    match receiver_ownership(f.receiver) {
        Some(ownership) => {
            lemma_pointer_access_releases(ownership, this);
        },
        None => {},
    }
    assert(occurrences(call_target(f), reclaim_block(this)) == one_if(
        f.receiver == SelfReceiverKind::Owned,
    ));
    assert(occurrences(call_target(f), handed_over(this)) == one_if(
        f.receiver == SelfReceiverKind::Owned,
    ));
}

proof fn lemma_native_body_releases(f: FunctionDeclarationView)
    requires
        !takes_over(f, Word::This.text()),
    ensures
        occurrences(native_body(f), reclaim_block(Word::This.text())) == one_if(
            f.receiver == SelfReceiverKind::Owned,
        ),
        occurrences(native_body(f), handed_over(Word::This.text())) == one_if(
            f.receiver == SelfReceiverKind::Owned,
        ) + one_if(passes_alone(f, Word::This.text())),
{
    broadcast use group_occurrences;

    let this = Word::This.text();
    lemma_native_call_releases(f);
    lemma_rebinds_release_nothing(f, f.parameters.len() as int, this);
    assert(f.parameters.take(f.parameters.len() as int) =~= f.parameters);
    lemma_release_names_its_pointer(this, this);
    assert(occurrences(boxed(native_call(f)), reclaim_block(this)) == occurrences(
        native_call(f),
        reclaim_block(this),
    ));
    assert(occurrences(boxed(native_call(f)), handed_over(this)) == occurrences(
        native_call(f),
        handed_over(this),
    ));
}

proof fn lemma_body_is_no_reclaim_block(f: FunctionDeclarationView, name: Seq<char>)
    requires
        f.has_receiver(),
    ensures
        Token::Group(Delimiter::Brace, native_body(f)) != reclaim_block(name),
{
    broadcast use group_occurrences;

    let dot = punct('.');
    assert(occurrences(call_target(f), dot) >= 1);
    assert(occurrences(native_call(f), dot) >= 1);
    assert(occurrences(boxed(native_call(f)), dot) >= 1);
    assert(occurrences(native_body(f), dot) >= 1);
    assert(occurrences(reclaim_block(name)->Group_1, dot) == 0);
}

proof fn lemma_wrapper_frame_holds_no_release(f: FunctionDeclarationView, wanted: Token)
    requires
        wanted == reclaim_block(Word::This.text()) || wanted == handed_over(Word::This.text()),
        Token::Group(Delimiter::Brace, native_body(f)) != wanted,
    ensures
        occurrences(exported_wrapper(f), wanted) == occurrences(native_body(f), wanted),
{
    broadcast use group_occurrences;

    let this = Word::This.text();
    lemma_signature_holds_no_group(f, Side::Native, wanted);
    lemma_release_names_its_pointer(this, this);
    assert(occurrences(marker_attribute(Word::NoMangle), wanted) == 0);
    assert(occurrences(
        name_attribute(
            Word::ExportName,
            exported_symbol_text(f.associated_type, f.identifier),
        ),
        wanted,
    ) == 0);
    assert(occurrences(c_abi(), wanted) == 0);
    assert(occurrences(boundary_return(f.return_type), wanted) == 0);
    assert(Token::Group(Delimiter::Parenthesis, signature_parameters(f, Side::Native))
        != wanted);
}

/// How often the exported wrapper of a function with a receiver reclaims its `this`
/// pointer, and how often it hands it over: in the block that reclaims it, and where the
/// function's one parameter has that name, as the arguments of the call. A function that
/// takes over a parameter named `this` is left aside: its wrapper reclaims that parameter.
pub proof fn lemma_wrapper_releases_this(f: FunctionDeclarationView)
    requires
        f.has_receiver(),
        !takes_over(f, Word::This.text()),
    ensures
        occurrences(exported_wrapper(f), reclaim_block(Word::This.text())) == one_if(
            f.receiver == SelfReceiverKind::Owned,
        ),
        occurrences(exported_wrapper(f), handed_over(Word::This.text())) == one_if(
            f.receiver == SelfReceiverKind::Owned,
        ) + one_if(passes_alone(f, Word::This.text())),
{
    let this = Word::This.text();
    lemma_native_body_releases(f);
    lemma_body_is_no_reclaim_block(f, this);
    lemma_wrapper_frame_holds_no_release(f, reclaim_block(this));
    lemma_wrapper_frame_holds_no_release(f, handed_over(this));
}

/// Owned-receiver consumption: the wrapper of a function that consumes `self` makes its
/// call on `(*unsafe { Box::from_raw(this) })`, which takes the value out of its box, and
/// holds the block that reclaims `this` that once.
pub proof fn lemma_owned_receiver_is_reclaimed(f: FunctionDeclarationView)
    requires
        f.receiver == SelfReceiverKind::Owned,
        !takes_over(f, Word::This.text()),
    ensures
        call_target(f) == seq![
            Token::Group(
                Delimiter::Parenthesis,
                seq![punct('*')] + reclaimed_box(Word::This.text()),
            ),
            punct('.'),
        ],
        occurrences(exported_wrapper(f), reclaim_block(Word::This.text())) == 1,
{
    lemma_wrapper_releases_this(f);
}

/// Borrow safety: the wrapper of a function that borrows `self` makes its call on a
/// reborrow of `this`, `(unsafe { &*this })` or `(unsafe { &mut *this })`, and holds no
/// block that reclaims `this`. It hands `this` over to nothing either, neither to
/// `Box::from_raw` nor to `drop`: `(this)` occurs only where the function's one parameter
/// has that name, as the arguments of the call.
pub proof fn lemma_borrowed_receiver_is_not_released(f: FunctionDeclarationView)
    requires
        f.receiver == SelfReceiverKind::Borrowed || f.receiver
            == SelfReceiverKind::MutablyBorrowed,
        !takes_over(f, Word::This.text()),
    ensures
        call_target(f) == seq![
            Token::Group(
                Delimiter::Parenthesis,
                seq![
                    Word::Unsafe.token(),
                    Token::Group(
                        Delimiter::Brace,
                        if f.receiver == SelfReceiverKind::Borrowed {
                            seq![punct('&'), punct('*'), Word::This.token()]
                        } else {
                            seq![punct('&'), Word::Mut.token(), punct('*'), Word::This.token()]
                        },
                    ),
                ],
            ),
            punct('.'),
        ],
        occurrences(exported_wrapper(f), reclaim_block(Word::This.text())) == 0,
        occurrences(exported_wrapper(f), handed_over(Word::This.text())) == one_if(
            passes_alone(f, Word::This.text()),
        ),
{
    lemma_wrapper_releases_this(f);
}

/// The release function of a native type is where `this` is given up: reclaimed in one
/// block, and handed over twice, to `Box::from_raw` and to `drop`.
pub proof fn lemma_free_glue_releases(ty: Seq<char>)
    ensures
        occurrences(exported_free(ty), reclaim_block(Word::This.text())) == 1,
        occurrences(exported_free(ty), handed_over(Word::This.text())) == 2,
{
    broadcast use group_occurrences;

    lemma_release_names_its_pointer(Word::This.text(), Word::This.text());
}

} // verus!
