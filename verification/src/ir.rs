use crate::tokens::is_identifier;
use vstd::prelude::*;

verus! {

/// Which runtime supplies the implementation of a declaration.
#[derive(Clone, Copy, Debug, PartialEq, Eq, Structural)]
pub enum Side {
    /// Compiled on this side of the boundary.
    Native,
    /// Reached through linked declarations only.
    Foreign,
}

/// How a function receives `self`.
#[derive(Clone, Copy, Debug, PartialEq, Eq, Structural)]
pub enum SelfReceiverKind {
    /// No receiver: a free function or a static associated function.
    Static,
    /// `&self`
    Borrowed,
    /// `&mut self`
    MutablyBorrowed,
    /// `self`, consumed by the call.
    Owned,
}

/// How a value of a declared type is handed to a function.
#[derive(Clone, Copy, Debug, PartialEq, Eq, Structural)]
pub enum Ownership {
    /// `&T`
    Borrowed,
    /// `&mut T`
    MutablyBorrowed,
    /// `T`, with the right to release it.
    Owned,
}

/// A type that the module declares.
#[derive(Clone, Debug, PartialEq, Eq)]
pub struct TypeDeclaration {
    pub identifier: String,
    pub side: Side,
}

/// The type of a parameter or of a result.
#[derive(Clone, Debug, PartialEq, Eq)]
pub enum TypeReference {
    /// A primitive type, which crosses the boundary as it is.
    BuiltIn(String),
    /// One of the module's declared types, which crosses as an opaque pointer.
    Declared(String, Ownership),
}

/// A named parameter, the receiver not among them.
#[derive(Clone, Debug, PartialEq, Eq)]
pub struct Parameter {
    pub name: String,
    pub ty: TypeReference,
}

/// A function that the module declares.
#[derive(Clone, Debug, PartialEq, Eq)]
pub struct FunctionDeclaration {
    pub identifier: String,
    pub side: Side,
    /// The identifier of the declared type that the function belongs to, if any.
    pub associated_type: Option<String>,
    pub receiver: SelfReceiverKind,
    pub parameters: Vec<Parameter>,
    pub return_type: Option<TypeReference>,
}

/// A bridge module: its name, its types and its functions, in declaration order.
#[derive(Clone, Debug, PartialEq, Eq)]
pub struct BridgeModule {
    pub name: String,
    pub types: Vec<TypeDeclaration>,
    pub functions: Vec<FunctionDeclaration>,
}

/// A declared type as the contracts see it: its identifier as text.
pub struct TypeDeclarationView {
    pub identifier: Seq<char>,
    pub side: Side,
}

/// A type reference as the contracts see it.
pub enum TypeReferenceView {
    BuiltIn(Seq<char>),
    Declared(Seq<char>, Ownership),
}

/// A parameter as the contracts see it.
pub struct ParameterView {
    pub name: Seq<char>,
    pub ty: TypeReferenceView,
}

/// A declared function as the contracts see it: texts for names, a sequence for the
/// parameters.
pub struct FunctionDeclarationView {
    pub identifier: Seq<char>,
    pub side: Side,
    pub associated_type: Option<Seq<char>>,
    pub receiver: SelfReceiverKind,
    pub parameters: Seq<ParameterView>,
    pub return_type: Option<TypeReferenceView>,
}

/// A bridge module as the contracts see it.
pub struct BridgeModuleView {
    pub name: Seq<char>,
    pub types: Seq<TypeDeclarationView>,
    pub functions: Seq<FunctionDeclarationView>,
}

/// The parameters as values of the model, in their order.
pub open spec fn parameter_views(parameters: Seq<Parameter>) -> Seq<ParameterView> {
    parameters.map_values(|p: Parameter| p@)
}

/// The types as values of the model, in their order.
pub open spec fn type_views(types: Seq<TypeDeclaration>) -> Seq<TypeDeclarationView> {
    types.map_values(|t: TypeDeclaration| t@)
}

/// The functions as values of the model, in their order.
pub open spec fn function_views(functions: Seq<FunctionDeclaration>) -> Seq<
    FunctionDeclarationView,
> {
    functions.map_values(|f: FunctionDeclaration| f@)
}

impl View for TypeDeclaration {
    type V = TypeDeclarationView;

    open spec fn view(&self) -> TypeDeclarationView {
        TypeDeclarationView { identifier: self.identifier@, side: self.side }
    }
}

impl View for TypeReference {
    type V = TypeReferenceView;

    open spec fn view(&self) -> TypeReferenceView {
        match self {
            TypeReference::BuiltIn(name) => TypeReferenceView::BuiltIn(name@),
            TypeReference::Declared(name, ownership) => TypeReferenceView::Declared(
                name@,
                *ownership,
            ),
        }
    }
}

impl View for Parameter {
    type V = ParameterView;

    open spec fn view(&self) -> ParameterView {
        ParameterView { name: self.name@, ty: self.ty@ }
    }
}

impl View for FunctionDeclaration {
    type V = FunctionDeclarationView;

    open spec fn view(&self) -> FunctionDeclarationView {
        FunctionDeclarationView {
            identifier: self.identifier@,
            side: self.side,
            associated_type: match self.associated_type {
                Some(ty) => Some(ty@),
                None => None,
            },
            receiver: self.receiver,
            parameters: parameter_views(self.parameters@),
            return_type: match self.return_type {
                Some(ty) => Some(ty@),
                None => None,
            },
        }
    }
}

impl View for BridgeModule {
    type V = BridgeModuleView;

    open spec fn view(&self) -> BridgeModuleView {
        BridgeModuleView {
            name: self.name@,
            types: type_views(self.types@),
            functions: function_views(self.functions@),
        }
    }
}

impl TypeReferenceView {
    /// The identifier that the reference names.
    pub open spec fn name(self) -> Seq<char> {
        match self {
            TypeReferenceView::BuiltIn(name) => name,
            TypeReferenceView::Declared(name, _) => name,
        }
    }

    /// The name of the type is an identifier.
    pub open spec fn wf(self) -> bool {
        is_identifier(self.name())
    }

    /// Whether the reference is to a primitive or to one of `types`.
    pub open spec fn resolves_in(self, types: Seq<TypeDeclarationView>) -> bool {
        self matches TypeReferenceView::Declared(ty, _) ==> declares(types, ty)
    }
}

impl TypeDeclarationView {
    /// The type's name is an identifier.
    pub open spec fn wf(self) -> bool {
        is_identifier(self.identifier)
    }
}

impl ParameterView {
    /// The parameter's name and the name of its type are identifiers.
    pub open spec fn wf(self) -> bool {
        is_identifier(self.name) && self.ty.wf()
    }
}

impl FunctionDeclarationView {
    /// Whether the emitted code takes a `this` pointer for the function.
    pub open spec fn has_receiver(self) -> bool {
        self.receiver != SelfReceiverKind::Static
    }

    /// Every name is an identifier, and a function with a receiver belongs to a type.
    pub open spec fn wf(self) -> bool {
        &&& is_identifier(self.identifier)
        &&& self.associated_type matches Some(ty) ==> is_identifier(ty)
        &&& self.has_receiver() ==> self.associated_type is Some
        &&& forall|i: int| 0 <= i < self.parameters.len() ==> (#[trigger] self.parameters[i]).wf()
        &&& self.return_type matches Some(ty) ==> ty.wf()
    }

    /// Whether every declared type that the function names is among `types`.
    pub open spec fn resolves_in(self, types: Seq<TypeDeclarationView>) -> bool {
        &&& self.associated_type matches Some(ty) ==> declares(types, ty)
        &&& forall|i: int|
            0 <= i < self.parameters.len() ==> (#[trigger] self.parameters[i]).ty.resolves_in(
                types,
            )
        &&& self.return_type matches Some(ty) ==> ty.resolves_in(types)
    }
}

/// Whether `types` holds a declaration of the identifier.
pub open spec fn declares(types: Seq<TypeDeclarationView>, identifier: Seq<char>) -> bool {
    exists|i: int| 0 <= i < types.len() && #[trigger] types[i].identifier == identifier
}

/// No two of the types have one identifier.
pub open spec fn distinct_types(types: Seq<TypeDeclarationView>) -> bool {
    forall|i: int, j: int|
        0 <= i < j < types.len() ==> (#[trigger] types[i]).identifier != (
        #[trigger] types[j]).identifier
}

/// No two of the functions are declarations of one function.
pub open spec fn distinct_functions(functions: Seq<FunctionDeclarationView>) -> bool {
    forall|i: int, j: int|
        0 <= i < j < functions.len() ==> !same_function(
            #[trigger] functions[i],
            #[trigger] functions[j],
        )
}

impl BridgeModuleView {
    /// What a front end guarantees of a module: every name is an identifier, no type is
    /// declared twice, no function is declared twice for one type, and every reference to a
    /// declared type resolves within the module.
    pub open spec fn wf(self) -> bool {
        &&& is_identifier(self.name)
        &&& forall|i: int| 0 <= i < self.types.len() ==> (#[trigger] self.types[i]).wf()
        &&& distinct_types(self.types)
        &&& forall|i: int| 0 <= i < self.functions.len() ==> (#[trigger] self.functions[i]).wf()
        &&& forall|i: int|
            0 <= i < self.functions.len() ==> (#[trigger] self.functions[i]).resolves_in(
                self.types,
            )
        &&& distinct_functions(self.functions)
    }
}

/// Two declarations of one function: the same name on the same type, or the same free name.
pub open spec fn same_function(a: FunctionDeclarationView, b: FunctionDeclarationView) -> bool {
    a.identifier == b.identifier && a.associated_type == b.associated_type
}

} // verus!
