use crate::ir::{
    FunctionDeclaration, FunctionDeclarationView, Ownership, ParameterView,
    SelfReceiverKind, Side,
};
use crate::naming::option_text;
use crate::syntax::{
    boundary_parameter, comma_separated, held_pointer, punct, push_alone, push_boundary_type,
    push_held_pointer, push_receiver_parameter, receiver_parameter,
};
use crate::tokens::{new_stream, push_ident, stream_tokens, Token};
use proc_macro2::TokenStream;
use vstd::prelude::*;

verus! {

/// What a receiver hands over, where there is one.
pub open spec fn receiver_ownership(kind: SelfReceiverKind) -> Option<Ownership> {
    match kind {
        SelfReceiverKind::Static => None,
        SelfReceiverKind::Borrowed => Some(Ownership::Borrowed),
        SelfReceiverKind::MutablyBorrowed => Some(Ownership::MutablyBorrowed),
        SelfReceiverKind::Owned => Some(Ownership::Owned),
    }
}

/// The parameters of a boundary function, one item each: `this` first where the function
/// has a receiver, then the declared parameters in their order.
pub open spec fn signature_items(f: FunctionDeclarationView, side: Side) -> Seq<Seq<Token>> {
    let receiver = match f.associated_type {
        Some(ty) if f.has_receiver() => seq![receiver_parameter(ty, side)],
        _ => Seq::empty(),
    };
    receiver + f.parameters.map_values(|p: ParameterView| boundary_parameter(p, side))
}

/// What stands between the parentheses of a boundary function's header.
pub open spec fn signature_parameters(f: FunctionDeclarationView, side: Side) -> Seq<Token> {
    comma_separated(signature_items(f, side))
}

/// The declared parameters' names, one item each.
pub open spec fn argument_items(parameters: Seq<ParameterView>) -> Seq<Seq<Token>> {
    parameters.map_values(|p: ParameterView| seq![Token::Ident(p.name)])
}

/// The arguments of the call that a native wrapper makes: the parameters by name.
pub open spec fn call_arguments(parameters: Seq<ParameterView>) -> Seq<Token> {
    comma_separated(argument_items(parameters))
}

/// The arguments with which a proxy's method calls its linked declaration: the pointer that
/// the proxy holds where the function has a receiver, then the parameters by name.
pub open spec fn forwarded_arguments(f: FunctionDeclarationView) -> Seq<Token> {
    let receiver = if f.has_receiver() {
        seq![held_pointer()]
    } else {
        Seq::empty()
    };
    comma_separated(receiver + argument_items(f.parameters))
}

/// One more item goes after a comma, unless it is the first.
pub proof fn lemma_comma_separated_push(items: Seq<Seq<Token>>, item: Seq<Token>)
    ensures
        comma_separated(items.push(item)) == if items.len() == 0 {
            item
        } else {
            comma_separated(items) + seq![punct(',')] + item
        },
{
    assert(items.push(item).drop_last() =~= items);
}

impl FunctionDeclaration {
    /// The identifier of the type that the function belongs to, if any.
    pub fn associated_type_name(&self) -> (name: Option<&str>)
        ensures
            option_text(name) == self@.associated_type,
    {
        match &self.associated_type {
            Some(ty) => Some(ty.as_str()),
            None => None,
        }
    }

    /// Whether the function takes `self` in any form.
    pub fn has_receiver(&self) -> (yes: bool)
        ensures
            yes == self@.has_receiver(),
    {
        match self.receiver {
            SelfReceiverKind::Static => false,
            _ => true,
        }
    }
}

/// Puts the declared parameters, each with its boundary type, after what `out` holds
/// already, which is `first` with commas.
pub(crate) fn push_boundary_parameters(
    out: &mut TokenStream,
    func: &FunctionDeclaration,
    side: Side,
    Ghost(first): Ghost<Seq<Seq<Token>>>,
    has_first: bool,
)
    requires
        func@.wf(),
        has_first == (first.len() > 0),
        stream_tokens(*old(out)) == comma_separated(first),
    ensures
        stream_tokens(*final(out)) == comma_separated(
            first + func@.parameters.map_values(|p: ParameterView| boundary_parameter(p, side)),
        ),
{
    let ghost rest = func@.parameters.map_values(|p: ParameterView| boundary_parameter(p, side));
    let mut pending = has_first;
    assert(first + rest.take(0) =~= first);
    let mut i: usize = 0;
    while i < func.parameters.len()
        invariant
            i <= func.parameters.len(),
            func@.wf(),
            rest == func@.parameters.map_values(|p: ParameterView| boundary_parameter(p, side)),
            pending == ((first + rest.take(i as int)).len() > 0),
            stream_tokens(*out) == comma_separated(first + rest.take(i as int)),
        decreases func.parameters.len() - i,
    {
        let ghost before = first + rest.take(i as int);
        let ghost item = boundary_parameter(func@.parameters[i as int], side);
        if pending {
            push_alone(out, ',');
        }
        let parameter = &func.parameters[i];
        assert(parameter@ == func@.parameters[i as int]);
        push_ident(out, parameter.name.as_str());
        push_alone(out, ':');
        push_boundary_type(out, &parameter.ty, side);
        pending = true;
        proof {
            lemma_comma_separated_push(before, item);
            assert(first + rest.take(i + 1) =~= before.push(item));
        }
        i += 1;
    }
    assert(rest.take(i as int) =~= rest);
}

pub(crate) fn signature_parameters_stream(func: &FunctionDeclaration, side: Side) -> (out:
    TokenStream)
    requires
        func@.wf(),
    ensures
        stream_tokens(out) == signature_parameters(func@, side),
{
    let mut out = new_stream();
    if func.has_receiver() {
        match func.associated_type_name() {
            Some(ty) => {
                let ghost first = seq![receiver_parameter(ty@, side)];
                push_receiver_parameter(&mut out, ty, side);
                assert(stream_tokens(out) =~= comma_separated(first));
                push_boundary_parameters(&mut out, func, side, Ghost(first), true);
            },
            None => {},
        }
    } else {
        let ghost first = Seq::<Seq<Token>>::empty();
        push_boundary_parameters(&mut out, func, side, Ghost(first), false);
    }
    out
}

/// Puts the parameters' names after what `out` holds already, which is `first` with commas.
pub(crate) fn push_argument_names(
    out: &mut TokenStream,
    func: &FunctionDeclaration,
    Ghost(first): Ghost<Seq<Seq<Token>>>,
    has_first: bool,
)
    requires
        func@.wf(),
        has_first == (first.len() > 0),
        stream_tokens(*old(out)) == comma_separated(first),
    ensures
        stream_tokens(*final(out)) == comma_separated(first + argument_items(func@.parameters)),
{
    let ghost rest = argument_items(func@.parameters);
    let mut pending = has_first;
    assert(first + rest.take(0) =~= first);
    let mut i: usize = 0;
    while i < func.parameters.len()
        invariant
            i <= func.parameters.len(),
            func@.wf(),
            rest == argument_items(func@.parameters),
            pending == ((first + rest.take(i as int)).len() > 0),
            stream_tokens(*out) == comma_separated(first + rest.take(i as int)),
        decreases func.parameters.len() - i,
    {
        let ghost before = first + rest.take(i as int);
        let ghost item = seq![Token::Ident(func@.parameters[i as int].name)];
        if pending {
            push_alone(out, ',');
        }
        let parameter = &func.parameters[i];
        assert(parameter@ == func@.parameters[i as int]);
        push_ident(out, parameter.name.as_str());
        pending = true;
        proof {
            lemma_comma_separated_push(before, item);
            assert(first + rest.take(i + 1) =~= before.push(item));
        }
        i += 1;
    }
    assert(rest.take(i as int) =~= rest);
}

pub(crate) fn call_arguments_stream(func: &FunctionDeclaration) -> (out: TokenStream)
    requires
        func@.wf(),
    ensures
        stream_tokens(out) == call_arguments(func@.parameters),
{
    let mut out = new_stream();
    let ghost first = Seq::<Seq<Token>>::empty();
    assert(first + argument_items(func@.parameters) =~= argument_items(func@.parameters));
    push_argument_names(&mut out, func, Ghost(first), false);
    out
}

pub(crate) fn forwarded_arguments_stream(func: &FunctionDeclaration) -> (out: TokenStream)
    requires
        func@.wf(),
    ensures
        stream_tokens(out) == forwarded_arguments(func@),
{
    let mut out = new_stream();
    if func.has_receiver() {
        let ghost first = seq![held_pointer()];
        push_held_pointer(&mut out);
        assert(stream_tokens(out) =~= comma_separated(first));
        push_argument_names(&mut out, func, Ghost(first), true);
    } else {
        let ghost first = Seq::<Seq<Token>>::empty();
        push_argument_names(&mut out, func, Ghost(first), false);
    }
    out
}

} // verus!
