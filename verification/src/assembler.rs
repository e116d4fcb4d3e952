use crate::foreign::{
    forwarding_method, free_forwarders, forwarding_method_stream, linked_declaration, linked_declaration_stream,
    linked_free, linked_free_stream, proxy_definition, proxy_definition_stream,
};
use crate::ir::{
    function_views, BridgeModule, BridgeModuleView, FunctionDeclaration,
    FunctionDeclarationView, Side, TypeDeclaration, TypeDeclarationView,
};
use crate::native::{exported_free, exported_free_stream, exported_wrapper, exported_wrapper_stream};
use crate::syntax::{c_abi, push_c_abi, push_word, Word};
use crate::tokens::{
    new_stream, push_group, push_ident, push_stream, stream_is_empty, stream_tokens, Delimiter,
    Token,
};
use proc_macro2::TokenStream;
use vstd::prelude::*;

verus! {

/// What crosses the boundary for one function: the wrapper that the native side exports,
/// or the declaration through which the foreign side is reached.
pub open spec fn boundary_function(f: FunctionDeclarationView) -> Seq<Token> {
    match f.side {
        Side::Native => exported_wrapper(f),
        Side::Foreign => linked_declaration(f),
    }
}

/// The one release path of a type: the function that the native side exports, or the
/// declaration of the one that the foreign side supplies.
pub open spec fn free_glue(t: TypeDeclarationView) -> Seq<Token> {
    match t.side {
        Side::Native => exported_free(t.identifier),
        Side::Foreign => linked_free(t.identifier),
    }
}

/// The boundary functions of the functions of one side, in declaration order.
pub open spec fn boundary_functions(functions: Seq<FunctionDeclarationView>, side: Side) -> Seq<
    Token,
>
    decreases functions.len(),
{
    if functions.len() == 0 {
        Seq::empty()
    } else {
        boundary_functions(functions.drop_last(), side) + if functions.last().side == side {
            boundary_function(functions.last())
        } else {
            Seq::empty()
        }
    }
}

/// The free glue of the types of one side, in declaration order.
pub open spec fn free_glues(types: Seq<TypeDeclarationView>, side: Side) -> Seq<Token>
    decreases types.len(),
{
    if types.len() == 0 {
        Seq::empty()
    } else {
        free_glues(types.drop_last(), side) + if types.last().side == side {
            free_glue(types.last())
        } else {
            Seq::empty()
        }
    }
}

/// The proxies of the foreign types, in declaration order, each with the methods that
/// `functions` holds for it.
pub open spec fn proxy_definitions(
    types: Seq<TypeDeclarationView>,
    functions: Seq<FunctionDeclarationView>,
) -> Seq<Token>
    decreases types.len(),
{
    if types.len() == 0 {
        Seq::empty()
    } else {
        proxy_definitions(types.drop_last(), functions) + if types.last().side == Side::Foreign {
            proxy_definition(types.last().identifier, functions)
        } else {
            Seq::empty()
        }
    }
}

/// What the native side exports: a wrapper for each of its functions, then a release
/// function for each of its types.
pub open spec fn native_section(m: BridgeModuleView) -> Seq<Token> {
    boundary_functions(m.functions, Side::Native) + free_glues(m.types, Side::Native)
}

/// What is asked of the foreign side: a declaration for each of its functions, then one
/// for the release function of each of its types.
pub open spec fn linkage_declarations(m: BridgeModuleView) -> Seq<Token> {
    boundary_functions(m.functions, Side::Foreign) + free_glues(m.types, Side::Foreign)
}

/// `extern "C" { declarations }`, or nothing where nothing is asked of the foreign side.
pub open spec fn linkage_block(m: BridgeModuleView) -> Seq<Token> {
    if linkage_declarations(m).len() > 0 {
        c_abi() + seq![Token::Group(Delimiter::Brace, linkage_declarations(m))]
    } else {
        Seq::empty()
    }
}

/// What stands for the foreign side: the proxies of the foreign types, each with its
/// methods, then the forwarding functions of the foreign functions that belong to no type.
pub open spec fn foreign_section(m: BridgeModuleView) -> Seq<Token> {
    proxy_definitions(m.types, m.functions) + free_forwarders(m.functions)
}

/// What stands inside the emitted module: the native section, the foreign section, the
/// linkage block.
pub open spec fn module_body(m: BridgeModuleView) -> Seq<Token> {
    native_section(m) + foreign_section(m) + linkage_block(m)
}

/// The emitted code of a bridge module: `mod name { body }`.
pub open spec fn module_tokens(m: BridgeModuleView) -> Seq<Token> {
    seq![
        Word::Module.token(),
        Token::Ident(m.name),
        Token::Group(Delimiter::Brace, module_body(m)),
    ]
}

impl FunctionDeclaration {
    /// The code that carries the function across the boundary: for a native function the
    /// exported wrapper, for a foreign function the linked declaration.
    pub fn to_extern_c_function_tokens(&self) -> (out: TokenStream)
        requires
            self@.wf(),
        ensures
            stream_tokens(out) == boundary_function(self@),
    {
        match self.side {
            Side::Native => exported_wrapper_stream(self),
            Side::Foreign => linked_declaration_stream(self),
        }
    }

    /// The function through which this side calls the function on the foreign side: a
    /// method for a proxy, or a free function where the function belongs to no type.
    pub fn to_forwarding_method_tokens(&self) -> (out: TokenStream)
        requires
            self@.wf(),
        ensures
            stream_tokens(out) == forwarding_method(self@),
    {
        forwarding_method_stream(self)
    }
}

impl TypeDeclaration {
    /// The release path of the type: for a native type the exported function that drops
    /// the value, for a foreign type the declaration of the foreign release function.
    pub fn to_free_glue_tokens(&self) -> (out: TokenStream)
        requires
            self@.wf(),
        ensures
            stream_tokens(out) == free_glue(self@),
    {
        match self.side {
            Side::Native => exported_free_stream(self.identifier.as_str()),
            Side::Foreign => linked_free_stream(self.identifier.as_str()),
        }
    }

    /// The proxy for the type: the struct, one block with the forwarding methods of those
    /// of `functions` that are foreign functions of the type, and the destructor.
    pub fn to_proxy_tokens(&self, functions: &Vec<FunctionDeclaration>) -> (out: TokenStream)
        requires
            self@.wf(),
            forall|i: int| 0 <= i < functions.len() ==> (#[trigger] functions[i]@).wf(),
        ensures
            stream_tokens(out) == proxy_definition(self@.identifier, function_views(functions@)),
    {
        proxy_definition_stream(&self.identifier, functions)
    }
}

impl BridgeModule {
    fn push_boundary_functions(&self, out: &mut TokenStream, side: Side)
        requires
            self@.wf(),
        ensures
            stream_tokens(*final(out)) == stream_tokens(*old(out)) + boundary_functions(
                self@.functions,
                side,
            ),
    {
        let ghost start = stream_tokens(*out);
        let ghost views = self@.functions;
        assert(views.take(0) =~= Seq::empty());
        let mut i: usize = 0;
        while i < self.functions.len()
            invariant
                i <= self.functions.len(),
                self@.wf(),
                views == self@.functions,
                stream_tokens(*out) == start + boundary_functions(views.take(i as int), side),
            decreases self.functions.len() - i,
        {
            let func = &self.functions[i];
            proof {
                let next = views.take(i + 1);
                assert(next.drop_last() =~= views.take(i as int));
                assert(next.last() == func@);
                assert(func@ == self@.functions[i as int]);
            }
            if func.side == side {
                let tokens = func.to_extern_c_function_tokens();
                push_stream(out, &tokens);
            }
            i += 1;
        }
        assert(views.take(i as int) =~= views);
    }

    fn push_free_glues(&self, out: &mut TokenStream, side: Side)
        requires
            self@.wf(),
        ensures
            stream_tokens(*final(out)) == stream_tokens(*old(out)) + free_glues(
                self@.types,
                side,
            ),
    {
        let ghost start = stream_tokens(*out);
        let ghost views = self@.types;
        assert(views.take(0) =~= Seq::empty());
        let mut i: usize = 0;
        while i < self.types.len()
            invariant
                i <= self.types.len(),
                self@.wf(),
                views == self@.types,
                stream_tokens(*out) == start + free_glues(views.take(i as int), side),
            decreases self.types.len() - i,
        {
            let ty = &self.types[i];
            proof {
                let next = views.take(i + 1);
                assert(next.drop_last() =~= views.take(i as int));
                assert(next.last() == ty@);
                assert(ty@ == self@.types[i as int]);
            }
            if ty.side == side {
                let tokens = ty.to_free_glue_tokens();
                push_stream(out, &tokens);
            }
            i += 1;
        }
        assert(views.take(i as int) =~= views);
    }

    fn push_proxy_definitions(&self, out: &mut TokenStream)
        requires
            self@.wf(),
        ensures
            stream_tokens(*final(out)) == stream_tokens(*old(out)) + proxy_definitions(
                self@.types,
                self@.functions,
            ),
    {
        let ghost start = stream_tokens(*out);
        let ghost views = self@.types;
        assert(views.take(0) =~= Seq::empty());
        assert forall|k: int| 0 <= k < self.functions.len() implies (
        #[trigger] self.functions[k]@).wf() by {
            assert(self.functions[k]@ == self@.functions[k]);
        }
        let mut i: usize = 0;
        while i < self.types.len()
            invariant
                i <= self.types.len(),
                self@.wf(),
                views == self@.types,
                forall|k: int|
                    0 <= k < self.functions.len() ==> (#[trigger] self.functions[k]@).wf(),
                stream_tokens(*out) == start + proxy_definitions(
                    views.take(i as int),
                    self@.functions,
                ),
            decreases self.types.len() - i,
        {
            let ty = &self.types[i];
            proof {
                let next = views.take(i + 1);
                assert(next.drop_last() =~= views.take(i as int));
                assert(next.last() == ty@);
                assert(ty@ == self@.types[i as int]);
            }
            if ty.side == Side::Foreign {
                let tokens = ty.to_proxy_tokens(&self.functions);
                push_stream(out, &tokens);
            }
            i += 1;
        }
        assert(views.take(i as int) =~= views);
    }

    fn push_free_forwarders(&self, out: &mut TokenStream)
        requires
            self@.wf(),
        ensures
            stream_tokens(*final(out)) == stream_tokens(*old(out)) + free_forwarders(
                self@.functions,
            ),
    {
        let ghost start = stream_tokens(*out);
        let ghost views = self@.functions;
        assert(views.take(0) =~= Seq::empty());
        let mut i: usize = 0;
        while i < self.functions.len()
            invariant
                i <= self.functions.len(),
                self@.wf(),
                views == self@.functions,
                stream_tokens(*out) == start + free_forwarders(views.take(i as int)),
            decreases self.functions.len() - i,
        {
            let func = &self.functions[i];
            proof {
                let next = views.take(i + 1);
                assert(next.drop_last() =~= views.take(i as int));
                assert(next.last() == func@);
                assert(func@ == self@.functions[i as int]);
            }
            let free = match func.associated_type_name() {
                Some(_) => false,
                None => true,
            };
            if func.side == Side::Foreign && free {
                let tokens = func.to_forwarding_method_tokens();
                push_stream(out, &tokens);
            }
            i += 1;
        }
        assert(views.take(i as int) =~= views);
    }

    /// The emitted code of the module: within `mod name { .. }` first what the native
    /// side exports, then the proxies of the foreign types and the forwarding functions
    /// of the foreign functions without a type, then the one linkage block, which is left
    /// out where it would be empty.
    pub fn to_token_stream(&self) -> (out: TokenStream)
        requires
            self@.wf(),
        ensures
            stream_tokens(out) == module_tokens(self@),
    {
        let mut body = new_stream();
        self.push_boundary_functions(&mut body, Side::Native);
        self.push_free_glues(&mut body, Side::Native);
        assert(stream_tokens(body) =~= native_section(self@));
        self.push_proxy_definitions(&mut body);
        self.push_free_forwarders(&mut body);
        let mut declarations = new_stream();
        self.push_boundary_functions(&mut declarations, Side::Foreign);
        self.push_free_glues(&mut declarations, Side::Foreign);
        assert(stream_tokens(declarations) =~= linkage_declarations(self@));
        if !stream_is_empty(&declarations) {
            push_c_abi(&mut body);
            push_group(&mut body, Delimiter::Brace, declarations);
        }
        assert(stream_tokens(body) =~= module_body(self@));
        let mut out = new_stream();
        push_word(&mut out, Word::Module);
        push_ident(&mut out, self.name.as_str());
        push_group(&mut out, Delimiter::Brace, body);
        out
    }
}

} // verus!
