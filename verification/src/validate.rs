use crate::assembler::module_tokens;
use crate::ir::{
    declares, distinct_functions, distinct_types, function_views, same_function, type_views,
    BridgeModule, FunctionDeclaration, Parameter, TypeDeclaration, TypeReference,
};
use crate::tokens::{
    is_identifier, is_identifier_continue, is_identifier_start, push_stream, stream_tokens,
};
use proc_macro2::TokenStream;
use vstd::prelude::*;

verus! {

fn starts_identifier(c: char) -> (yes: bool)
    ensures
        yes == is_identifier_start(c),
{
    ('a' <= c && c <= 'z') || ('A' <= c && c <= 'Z') || c == '_'
}

fn continues_identifier(c: char) -> (yes: bool)
    ensures
        yes == is_identifier_continue(c),
{
    starts_identifier(c) || ('0' <= c && c <= '9')
}

/// Whether the text is an identifier that emitted code can hold.
pub fn is_identifier_text(text: &str) -> (yes: bool)
    ensures
        yes == is_identifier(text@),
{
    let length = text.unicode_len();
    if length == 0 {
        return false;
    }
    let first = text.get_char(0);
    if !starts_identifier(first) || (length == 1 && first == '_') {
        return false;
    }
    let mut i: usize = 1;
    while i < length
        invariant
            1 <= i <= length,
            length == text@.len(),
            forall|k: int| 0 <= k < i ==> is_identifier_continue(#[trigger] text@[k]),
        decreases length - i,
    {
        if !continues_identifier(text.get_char(i)) {
            return false;
        }
        i += 1;
    }
    true
}

/// Whether one of the types has the identifier.
pub fn declares_type(types: &Vec<TypeDeclaration>, identifier: &String) -> (yes: bool)
    ensures
        yes == declares(type_views(types@), identifier@),
{
    let ghost views = type_views(types@);
    let mut i: usize = 0;
    while i < types.len()
        invariant
            i <= types.len(),
            views == type_views(types@),
            forall|k: int| 0 <= k < i ==> (#[trigger] views[k]).identifier != identifier@,
        decreases types.len() - i,
    {
        if types[i].identifier == *identifier {
            assert(views[i as int].identifier == identifier@);
            return true;
        }
        i += 1;
    }
    false
}

fn same_optional_text(a: &Option<String>, b: &Option<String>) -> (yes: bool)
    ensures
        yes == (match (a, b) {
            (Some(x), Some(y)) => x@ == y@,
            (None, None) => true,
            _ => false,
        }),
{
    match (a, b) {
        (Some(x), Some(y)) => *x == *y,
        (None, None) => true,
        _ => false,
    }
}

impl TypeReference {
    /// Whether the type's name is an identifier.
    pub fn is_well_formed(&self) -> (yes: bool)
        ensures
            yes == self@.wf(),
    {
        match self {
            TypeReference::BuiltIn(name) => is_identifier_text(name.as_str()),
            TypeReference::Declared(name, _) => is_identifier_text(name.as_str()),
        }
    }

    /// Whether the reference is to a primitive or to one of the types.
    pub fn resolves_in(&self, types: &Vec<TypeDeclaration>) -> (yes: bool)
        ensures
            yes == self@.resolves_in(type_views(types@)),
    {
        match self {
            TypeReference::BuiltIn(_) => true,
            TypeReference::Declared(name, _) => declares_type(types, name),
        }
    }
}

impl Parameter {
    /// Whether the parameter's name and the name of its type are identifiers.
    pub fn is_well_formed(&self) -> (yes: bool)
        ensures
            yes == self@.wf(),
    {
        is_identifier_text(self.name.as_str()) && self.ty.is_well_formed()
    }
}

impl TypeDeclaration {
    /// Whether the type's name is an identifier.
    pub fn is_well_formed(&self) -> (yes: bool)
        ensures
            yes == self@.wf(),
    {
        is_identifier_text(self.identifier.as_str())
    }
}

impl FunctionDeclaration {
    /// Whether every name in the declaration is an identifier and a receiver comes with
    /// a type to belong to.
    pub fn is_well_formed(&self) -> (yes: bool)
        ensures
            yes == self@.wf(),
    {
        if !is_identifier_text(self.identifier.as_str()) {
            return false;
        }
        match &self.associated_type {
            Some(ty) => {
                if !is_identifier_text(ty.as_str()) {
                    return false;
                }
            },
            None => {
                if self.has_receiver() {
                    return false;
                }
            },
        }
        match &self.return_type {
            Some(ty) => {
                if !ty.is_well_formed() {
                    return false;
                }
            },
            None => {},
        }
        let mut i: usize = 0;
        while i < self.parameters.len()
            invariant
                i <= self.parameters.len(),
                forall|k: int| 0 <= k < i ==> (#[trigger] self@.parameters[k]).wf(),
            decreases self.parameters.len() - i,
        {
            assert(self.parameters[i as int]@ == self@.parameters[i as int]);
            if !self.parameters[i].is_well_formed() {
                return false;
            }
            i += 1;
        }
        true
    }

    /// Whether every declared type that the function names is among the types.
    pub fn resolves_in(&self, types: &Vec<TypeDeclaration>) -> (yes: bool)
        ensures
            yes == self@.resolves_in(type_views(types@)),
    {
        match &self.associated_type {
            Some(ty) => {
                if !declares_type(types, ty) {
                    return false;
                }
            },
            None => {},
        }
        match &self.return_type {
            Some(ty) => {
                if !ty.resolves_in(types) {
                    return false;
                }
            },
            None => {},
        }
        let mut i: usize = 0;
        while i < self.parameters.len()
            invariant
                i <= self.parameters.len(),
                forall|k: int|
                    0 <= k < i ==> (#[trigger] self@.parameters[k]).ty.resolves_in(
                        type_views(types@),
                    ),
            decreases self.parameters.len() - i,
        {
            assert(self.parameters[i as int]@ == self@.parameters[i as int]);
            if !self.parameters[i].ty.resolves_in(types) {
                return false;
            }
            i += 1;
        }
        true
    }

    /// Whether the two declare one function: the same name on the same type.
    pub fn is_same_function(&self, other: &FunctionDeclaration) -> (yes: bool)
        ensures
            yes == same_function(self@, other@),
    {
        self.identifier == other.identifier && same_optional_text(
            &self.associated_type,
            &other.associated_type,
        )
    }
}

/// Whether no two of the types have one identifier.
pub fn has_distinct_types(types: &Vec<TypeDeclaration>) -> (yes: bool)
    ensures
        yes == distinct_types(type_views(types@)),
{
    let ghost views = type_views(types@);
    let mut j: usize = 0;
    while j < types.len()
        invariant
            j <= types.len(),
            views == type_views(types@),
            forall|a: int, b: int|
                0 <= a < b < j ==> (#[trigger] views[a]).identifier != (
                #[trigger] views[b]).identifier,
        decreases types.len() - j,
    {
        let mut i: usize = 0;
        while i < j
            invariant
                i <= j < types.len(),
                views == type_views(types@),
                forall|a: int| 0 <= a < i ==> (#[trigger] views[a]).identifier != views[j as int].identifier,
            decreases j - i,
        {
            if types[i].identifier == types[j].identifier {
                assert(views[i as int].identifier == views[j as int].identifier);
                return false;
            }
            i += 1;
        }
        j += 1;
    }
    true
}

/// Whether no two of the functions declare one function.
pub fn has_distinct_functions(functions: &Vec<FunctionDeclaration>) -> (yes: bool)
    ensures
        yes == distinct_functions(function_views(functions@)),
{
    let ghost views = function_views(functions@);
    let mut j: usize = 0;
    while j < functions.len()
        invariant
            j <= functions.len(),
            views == function_views(functions@),
            forall|a: int, b: int|
                0 <= a < b < j ==> !same_function(#[trigger] views[a], #[trigger] views[b]),
        decreases functions.len() - j,
    {
        let mut i: usize = 0;
        while i < j
            invariant
                i <= j < functions.len(),
                views == function_views(functions@),
                forall|a: int| 0 <= a < i ==> !same_function(#[trigger] views[a], views[j as int]),
            decreases j - i,
        {
            if functions[i].is_same_function(&functions[j]) {
                assert(same_function(views[i as int], views[j as int]));
                return false;
            }
            i += 1;
        }
        j += 1;
    }
    true
}

impl BridgeModule {
    /// Whether the module is what a front end hands over: every name an identifier, no
    /// type and no function declared twice, every reference to a declared type resolved.
    pub fn is_well_formed(&self) -> (yes: bool)
        ensures
            yes == self@.wf(),
    {
        if !is_identifier_text(self.name.as_str()) {
            return false;
        }
        let mut i: usize = 0;
        while i < self.types.len()
            invariant
                i <= self.types.len(),
                forall|k: int| 0 <= k < i ==> (#[trigger] self@.types[k]).wf(),
            decreases self.types.len() - i,
        {
            assert(self.types[i as int]@ == self@.types[i as int]);
            if !self.types[i].is_well_formed() {
                return false;
            }
            i += 1;
        }
        let mut i: usize = 0;
        while i < self.functions.len()
            invariant
                i <= self.functions.len(),
                forall|k: int| 0 <= k < i ==> (#[trigger] self@.functions[k]).wf(),
                forall|k: int|
                    0 <= k < i ==> (#[trigger] self@.functions[k]).resolves_in(self@.types),
            decreases self.functions.len() - i,
        {
            assert(self.functions[i as int]@ == self@.functions[i as int]);
            if !self.functions[i].is_well_formed() || !self.functions[i].resolves_in(&self.types) {
                return false;
            }
            i += 1;
        }
        has_distinct_types(&self.types) && has_distinct_functions(&self.functions)
    }

    /// Puts the emitted code of the module at the end of `tokens` where the module is
    /// well formed, and says so; leaves `tokens` as they are where it is not.
    pub fn append_to(&self, tokens: &mut TokenStream) -> (done: bool)
        ensures
            done == self@.wf(),
            done ==> stream_tokens(*final(tokens)) == stream_tokens(*old(tokens)) + module_tokens(
                self@,
            ),
            !done ==> stream_tokens(*final(tokens)) == stream_tokens(*old(tokens)),
    {
        if self.is_well_formed() {
            let stream = self.to_token_stream();
            push_stream(tokens, &stream);
            true
        } else {
            false
        }
    }

    /// The emitted code of the module where the module is well formed, nothing where it
    /// is not.
    pub fn generate(&self) -> (out: Option<TokenStream>)
        ensures
            match out {
                Some(stream) => self@.wf() && stream_tokens(stream) == module_tokens(self@),
                None => !self@.wf(),
            },
    {
        if self.is_well_formed() {
            Some(self.to_token_stream())
        } else {
            None
        }
    }
}

} // verus!
