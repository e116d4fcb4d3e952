use proc_macro2::{Delimiter, Spacing, TokenStream, TokenTree};
use swift_bridge_ir::ir::{
    BridgeModule, FunctionDeclaration, Ownership, Parameter, SelfReceiverKind, Side,
    TypeDeclaration, TypeReference,
};
use swift_bridge_ir::naming::{
    exported_symbol, free_identifier, free_symbol, local_identifier, SWIFT_BRIDGE_PREFIX,
};
use swift_bridge_ir::validate::{
    declares_type, has_distinct_functions, has_distinct_types, is_identifier_text,
};

fn parse(text: &str) -> TokenStream {
    text.parse::<TokenStream>().unwrap()
}

fn flatten_into(stream: &TokenStream, out: &mut Vec<String>) {
    for tree in stream.clone() {
        match tree {
            TokenTree::Group(group) => {
                let (open, close) = match group.delimiter() {
                    Delimiter::Parenthesis => ("(", ")"),
                    Delimiter::Brace => ("{", "}"),
                    Delimiter::Bracket => ("[", "]"),
                    Delimiter::None => ("", ""),
                };
                out.push(open.to_string());
                flatten_into(&group.stream(), out);
                out.push(close.to_string());
            }
            other => out.push(other.to_string()),
        }
    }
}

fn flatten(stream: &TokenStream) -> Vec<String> {
    let mut out = Vec::new();
    flatten_into(stream, &mut out);
    out
}

fn assert_tokens_eq(left: &TokenStream, right: &TokenStream) {
    assert_eq!(flatten(left), flatten(right), "\nleft:\n{}\nright:\n{}\n", left, right);
}

/// How often the run of tokens `inner` stands in `outer`, at any depth.
fn count_runs(outer: &TokenStream, inner: &TokenStream) -> usize {
    count_words(outer, &flatten(inner))
}

/// How often the run of tokens given one by one stands in `outer`, at any depth.
fn count_opening(outer: &TokenStream, words: &[&str]) -> usize {
    let needle: Vec<String> = words.iter().map(|word| word.to_string()).collect();
    count_words(outer, &needle)
}

fn count_words(outer: &TokenStream, needle: &[String]) -> usize {
    let haystack = flatten(outer);
    assert!(!needle.is_empty());
    let mut count = 0;
    let mut start = 0;
    while start + needle.len() <= haystack.len() {
        if haystack[start..start + needle.len()] == needle[..] {
            count += 1;
        }
        start += 1;
    }
    count
}

fn ty(identifier: &str, side: Side) -> TypeDeclaration {
    TypeDeclaration { identifier: identifier.to_string(), side }
}

fn built_in(name: &str) -> TypeReference {
    TypeReference::BuiltIn(name.to_string())
}

fn declared(name: &str, ownership: Ownership) -> TypeReference {
    TypeReference::Declared(name.to_string(), ownership)
}

fn parameter(name: &str, ty: TypeReference) -> Parameter {
    Parameter { name: name.to_string(), ty }
}

fn function(
    identifier: &str,
    side: Side,
    associated_type: Option<&str>,
    receiver: SelfReceiverKind,
    parameters: Vec<Parameter>,
    return_type: Option<TypeReference>,
) -> FunctionDeclaration {
    FunctionDeclaration {
        identifier: identifier.to_string(),
        side,
        associated_type: associated_type.map(|name| name.to_string()),
        receiver,
        parameters,
        return_type,
    }
}

fn module(name: &str, types: Vec<TypeDeclaration>, functions: Vec<FunctionDeclaration>) -> BridgeModule {
    BridgeModule { name: name.to_string(), types, functions }
}

fn emit(module: &BridgeModule) -> TokenStream {
    assert!(module.is_well_formed());
    module.to_token_stream()
}

fn mixed_module() -> BridgeModule {
    module(
        "bridge",
        vec![
            ty("Stack", Side::Native),
            ty("Player", Side::Foreign),
            ty("Idle", Side::Native),
            ty("Screen", Side::Foreign),
            ty("Quiet", Side::Foreign),
        ],
        vec![
            function(
                "push",
                Side::Native,
                Some("Stack"),
                SelfReceiverKind::MutablyBorrowed,
                vec![parameter("value", built_in("u8"))],
                None,
            ),
            function("play", Side::Foreign, Some("Player"), SelfReceiverKind::Borrowed, vec![], None),
            function("show", Side::Foreign, Some("Screen"), SelfReceiverKind::Borrowed, vec![], None),
            function("log", Side::Foreign, None, SelfReceiverKind::Static, vec![], None),
            function(
                "stop",
                Side::Foreign,
                Some("Player"),
                SelfReceiverKind::MutablyBorrowed,
                vec![],
                Some(built_in("bool")),
            ),
            function("version", Side::Native, None, SelfReceiverKind::Static, vec![], Some(built_in("u32"))),
        ],
    )
}

#[test]
fn symbols_follow_the_naming_scheme() {
    assert_eq!(SWIFT_BRIDGE_PREFIX, "__swift_bridge__");
    assert_eq!(exported_symbol(Some("SomeType"), "new"), "__swift_bridge__$SomeType$new");
    assert_eq!(exported_symbol(None, "some_function"), "__swift_bridge__$some_function");
    assert_eq!(local_identifier(Some("SomeType"), "new"), "__swift_bridge__SomeType_new");
    assert_eq!(local_identifier(None, "some_function"), "__swift_bridge__some_function");
    assert_eq!(free_symbol("Foo"), "__swift_bridge__$Foo$_free");
    assert_eq!(free_identifier("Foo"), "__swift_bridge__Foo__free");
}

#[test]
fn free_symbol_and_free_identifier_differ() {
    assert_ne!(free_symbol("Foo"), free_identifier("Foo"));
    assert_ne!(free_symbol("Foo"), free_symbol("Bar"));
    assert_ne!(free_identifier("Foo"), free_identifier("Bar"));
}

#[test]
fn generating_twice_gives_identical_output() {
    let module = mixed_module();
    let first = emit(&module);
    let second = emit(&module.clone());
    assert_eq!(first.to_string(), second.to_string());
    assert_eq!(flatten(&first), flatten(&second));
}

#[test]
fn every_type_has_exactly_one_free_symbol() {
    let module = mixed_module();
    let tokens = emit(&module);
    for declaration in &module.types {
        let symbol = format!("\"{}\"", free_symbol(&declaration.identifier));
        assert_eq!(count_runs(&tokens, &parse(&symbol)), 1, "{}", declaration.identifier);
        let definition = format!("fn {}", free_identifier(&declaration.identifier));
        assert_eq!(count_runs(&tokens, &parse(&definition)), 1, "{}", declaration.identifier);
        let uses = match declaration.side {
            Side::Native => 1,
            Side::Foreign => 2,
        };
        let identifier = free_identifier(&declaration.identifier);
        assert_eq!(count_runs(&tokens, &parse(&identifier)), uses, "{}", declaration.identifier);
    }
}

#[test]
fn a_type_without_functions_still_has_free_glue() {
    let tokens = emit(&module("foo", vec![ty("Idle", Side::Native), ty("Quiet", Side::Foreign)], vec![]));
    let expected = parse(
        r#"
        mod foo {
            #[no_mangle]
            #[export_name = "__swift_bridge__$Idle$_free"]
            pub extern "C" fn __swift_bridge__Idle__free(this: *mut super::Idle) {
                let this = unsafe { Box::from_raw(this) };
                drop(this);
            }

            pub struct Quiet(*mut std::ffi::c_void);

            impl Drop for Quiet {
                fn drop(&mut self) {
                    unsafe { __swift_bridge__Quiet__free(self.0) }
                }
            }

            extern "C" {
                #[link_name = "__swift_bridge__$Quiet$_free"]
                fn __swift_bridge__Quiet__free(this: *mut std::ffi::c_void);
            }
        }
        "#,
    );
    assert_tokens_eq(&tokens, &expected);
}

#[test]
fn owned_receiver_reclaims_its_pointer() {
    let consume = function("consume", Side::Native, Some("SomeType"), SelfReceiverKind::Owned, vec![], None);
    assert!(consume.is_well_formed());
    let tokens = consume.to_extern_c_function_tokens();
    assert_eq!(count_runs(&tokens, &parse("(* unsafe { Box::from_raw(this) }).consume()")), 1);
    assert_eq!(count_runs(&tokens, &parse("Box::from_raw(this)")), 1);
    assert_eq!(count_runs(&tokens, &parse("& * this")), 0);
    assert_eq!(count_runs(&tokens, &parse("& mut * this")), 0);
}

#[test]
fn borrowed_receivers_never_release_their_pointer() {
    for receiver in [SelfReceiverKind::Borrowed, SelfReceiverKind::MutablyBorrowed] {
        let peek = function(
            "peek",
            Side::Native,
            Some("SomeType"),
            receiver,
            vec![parameter("depth", built_in("u8"))],
            Some(built_in("u8")),
        );
        assert!(peek.is_well_formed());
        let tokens = peek.to_extern_c_function_tokens();
        assert_eq!(count_runs(&tokens, &parse("from_raw")), 0);
        assert_eq!(count_runs(&tokens, &parse("drop")), 0);
        assert_eq!(count_runs(&tokens, &parse("Box")), 0);
        assert_eq!(count_runs(&tokens, &parse("(this)")), 0);
        assert_eq!(count_runs(&tokens, &parse("* this")), 1);
    }
}

#[test]
fn static_functions_take_no_pointer() {
    let new = function("new", Side::Native, Some("SomeType"), SelfReceiverKind::Static, vec![], None);
    let tokens = new.to_extern_c_function_tokens();
    assert_eq!(count_runs(&tokens, &parse("this")), 0);
}

#[test]
fn foreign_methods_are_grouped_by_type_in_declaration_order() {
    let tokens = emit(&mixed_module());
    let player = parse(
        r#"
        impl Player {
            pub fn play(&self) {
                unsafe { __swift_bridge__Player_play(self.0) }
            }

            pub fn stop(&mut self) -> bool {
                unsafe { __swift_bridge__Player_stop(self.0) }
            }
        }
        "#,
    );
    let screen = parse(
        r#"
        impl Screen {
            pub fn show(&self) {
                unsafe { __swift_bridge__Screen_show(self.0) }
            }
        }
        "#,
    );
    assert_eq!(count_runs(&tokens, &player), 1);
    assert_eq!(count_runs(&tokens, &screen), 1);
    assert_eq!(count_opening(&tokens, &["impl", "Player", "{"]), 1);
    assert_eq!(count_opening(&tokens, &["impl", "Screen", "{"]), 1);
    assert_eq!(count_runs(&tokens, &parse("pub fn play")), 1);
    assert_eq!(count_runs(&tokens, &parse("pub fn stop")), 1);
    assert_eq!(count_runs(&tokens, &parse("pub fn show")), 1);
}

#[test]
fn a_type_without_foreign_methods_has_no_method_block() {
    let tokens = emit(&mixed_module());
    assert_eq!(count_runs(&tokens, &parse("pub struct Quiet")), 1);
    assert_eq!(count_runs(&tokens, &parse("impl Drop for Quiet")), 1);
    assert_eq!(count_runs(&tokens, &parse("impl Quiet")), 0);
}

#[test]
fn free_foreign_functions_get_a_forwarding_function() {
    let tokens = emit(&mixed_module());
    assert_eq!(count_runs(&tokens, &parse("fn __swift_bridge__log();")), 1);
    assert_eq!(count_runs(&tokens, &parse("__swift_bridge__log")), 2);
    assert_eq!(
        count_runs(&tokens, &parse("pub fn log() { unsafe { __swift_bridge__log() } }")),
        1
    );
}

#[test]
fn forwarding_functions_keep_parameters_and_result() {
    let tokens = emit(&module(
        "foo",
        vec![ty("Track", Side::Native)],
        vec![
            function(
                "scale",
                Side::Foreign,
                None,
                SelfReceiverKind::Static,
                vec![parameter("factor", built_in("u8")), parameter("this", built_in("u8"))],
                Some(built_in("u8")),
            ),
            function(
                "load",
                Side::Foreign,
                None,
                SelfReceiverKind::Static,
                vec![parameter("from", declared("Track", Ownership::Borrowed))],
                Some(declared("Track", Ownership::Owned)),
            ),
        ],
    ));
    let expected = parse(
        r#"
        mod foo {
            #[no_mangle]
            #[export_name = "__swift_bridge__$Track$_free"]
            pub extern "C" fn __swift_bridge__Track__free(this: *mut super::Track) {
                let this = unsafe { Box::from_raw(this) };
                drop(this);
            }

            pub fn scale(factor: u8, this: u8) -> u8 {
                unsafe { __swift_bridge__scale(factor, this) }
            }

            pub fn load(from: *mut std::ffi::c_void) -> Track {
                Track(unsafe { __swift_bridge__load(from) })
            }

            extern "C" {
                #[link_name = "__swift_bridge__$scale"]
                fn __swift_bridge__scale(factor: u8, this: u8) -> u8;

                #[link_name = "__swift_bridge__$load"]
                fn __swift_bridge__load(from: *mut std::ffi::c_void) -> *mut std::ffi::c_void;
            }
        }
        "#,
    );
    assert_tokens_eq(&tokens, &expected);
}

#[test]
fn a_parameter_named_this_is_passed_on_and_not_released() {
    for receiver in [SelfReceiverKind::Borrowed, SelfReceiverKind::MutablyBorrowed] {
        let peek = function(
            "peek",
            Side::Native,
            Some("Foo"),
            receiver,
            vec![parameter("this", built_in("u8"))],
            None,
        );
        assert!(peek.is_well_formed());
        let tokens = peek.to_extern_c_function_tokens();
        assert_eq!(count_runs(&tokens, &parse("{ Box::from_raw(this) }")), 0);
        assert_eq!(count_runs(&tokens, &parse("from_raw")), 0);
        assert_eq!(count_runs(&tokens, &parse("drop")), 0);
        assert_eq!(count_runs(&tokens, &parse("(this)")), 1);
        assert_eq!(count_runs(&tokens, &parse(".peek(this)")), 1);
    }
}

#[test]
fn a_parameter_taken_over_is_reclaimed_under_its_own_name() {
    let adopt = function(
        "adopt",
        Side::Native,
        Some("Foo"),
        SelfReceiverKind::Borrowed,
        vec![
            parameter("that", declared("Foo", Ownership::Owned)),
            parameter("other", declared("Foo", Ownership::Borrowed)),
        ],
        None,
    );
    assert!(adopt.is_well_formed());
    let tokens = adopt.to_extern_c_function_tokens();
    assert_eq!(count_runs(&tokens, &parse("{ Box::from_raw(that) }")), 1);
    assert_eq!(count_runs(&tokens, &parse("{ Box::from_raw(this) }")), 0);
    assert_eq!(count_runs(&tokens, &parse("{ Box::from_raw(other) }")), 0);
    assert_eq!(count_runs(&tokens, &parse("(this)")), 0);
    let clash = function(
        "adopt",
        Side::Native,
        Some("Foo"),
        SelfReceiverKind::Borrowed,
        vec![parameter("this", declared("Foo", Ownership::Owned))],
        None,
    );
    assert!(clash.is_well_formed());
    let tokens = clash.to_extern_c_function_tokens();
    assert_eq!(count_runs(&tokens, &parse("let this = *unsafe { Box::from_raw(this) };")), 1);
}

#[test]
fn the_code_goes_behind_what_a_stream_holds() {
    let mut tokens = parse("struct Before;");
    assert!(mixed_module().append_to(&mut tokens));
    let mut expected = parse("struct Before;");
    expected.extend(mixed_module().to_token_stream());
    assert_eq!(flatten(&tokens), flatten(&expected));
    assert_eq!(count_opening(&tokens, &["struct", "Before", ";", "mod", "bridge", "{"]), 1);
    let mut untouched = parse("struct Before;");
    assert!(!module("not a name", vec![], vec![]).append_to(&mut untouched));
    assert_tokens_eq(&untouched, &parse("struct Before;"));
}

#[test]
fn names_beyond_ascii_are_rejected() {
    let bad = module("foo", vec![ty("Gr\u{f6}\u{df}e", Side::Foreign)], vec![]);
    assert!(!bad.types[0].is_well_formed());
    assert!(!bad.is_well_formed());
    assert!(bad.generate().is_none());
    let named = function("\u{e4}ndern", Side::Native, None, SelfReceiverKind::Static, vec![], None);
    assert!(!named.is_well_formed());
}

#[test]
fn a_module_without_foreign_declarations_has_no_linkage_block() {
    let tokens = emit(&module(
        "foo",
        vec![ty("Stack", Side::Native)],
        vec![
            function("depth", Side::Native, Some("Stack"), SelfReceiverKind::Borrowed, vec![], Some(built_in("u8"))),
            function("version", Side::Native, None, SelfReceiverKind::Static, vec![], Some(built_in("u32"))),
        ],
    ));
    assert_eq!(count_opening(&tokens, &["extern", "\"C\"", "{"]), 0);
    assert_eq!(count_runs(&tokens, &parse("link_name")), 0);
    assert_eq!(count_runs(&tokens, &parse("pub struct")), 0);
    assert_eq!(count_runs(&tokens, &parse("pub extern \"C\" fn")), 3);
}

#[test]
fn an_empty_module_is_an_empty_namespace() {
    let tokens = emit(&module("foo", vec![], vec![]));
    assert_tokens_eq(&tokens, &parse("mod foo {}"));
}

#[test]
fn a_module_with_foreign_declarations_has_one_linkage_block() {
    let tokens = emit(&mixed_module());
    assert_eq!(count_opening(&tokens, &["extern", "\"C\"", "{"]), 1);
    assert_eq!(count_runs(&tokens, &parse("link_name")), 7);
}

#[test]
fn sections_come_in_the_fixed_order() {
    let tokens = emit(&mixed_module());
    let expected = parse(
        r#"
        mod bridge {
            #[no_mangle]
            #[export_name = "__swift_bridge__$Stack$push"]
            pub extern "C" fn __swift_bridge__Stack_push(this: *mut super::Stack, value: u8) {
                (unsafe { &mut *this }).push(value)
            }

            #[no_mangle]
            #[export_name = "__swift_bridge__$version"]
            pub extern "C" fn __swift_bridge__version() -> u32 {
                super::version()
            }

            #[no_mangle]
            #[export_name = "__swift_bridge__$Stack$_free"]
            pub extern "C" fn __swift_bridge__Stack__free(this: *mut super::Stack) {
                let this = unsafe { Box::from_raw(this) };
                drop(this);
            }

            #[no_mangle]
            #[export_name = "__swift_bridge__$Idle$_free"]
            pub extern "C" fn __swift_bridge__Idle__free(this: *mut super::Idle) {
                let this = unsafe { Box::from_raw(this) };
                drop(this);
            }

            pub struct Player(*mut std::ffi::c_void);

            impl Player {
                pub fn play(&self) {
                    unsafe { __swift_bridge__Player_play(self.0) }
                }

                pub fn stop(&mut self) -> bool {
                    unsafe { __swift_bridge__Player_stop(self.0) }
                }
            }

            impl Drop for Player {
                fn drop(&mut self) {
                    unsafe { __swift_bridge__Player__free(self.0) }
                }
            }

            pub struct Screen(*mut std::ffi::c_void);

            impl Screen {
                pub fn show(&self) {
                    unsafe { __swift_bridge__Screen_show(self.0) }
                }
            }

            impl Drop for Screen {
                fn drop(&mut self) {
                    unsafe { __swift_bridge__Screen__free(self.0) }
                }
            }

            pub struct Quiet(*mut std::ffi::c_void);

            impl Drop for Quiet {
                fn drop(&mut self) {
                    unsafe { __swift_bridge__Quiet__free(self.0) }
                }
            }

            pub fn log() {
                unsafe { __swift_bridge__log() }
            }

            extern "C" {
                #[link_name = "__swift_bridge__$Player$play"]
                fn __swift_bridge__Player_play(this: *mut std::ffi::c_void);

                #[link_name = "__swift_bridge__$Screen$show"]
                fn __swift_bridge__Screen_show(this: *mut std::ffi::c_void);

                #[link_name = "__swift_bridge__$log"]
                fn __swift_bridge__log();

                #[link_name = "__swift_bridge__$Player$stop"]
                fn __swift_bridge__Player_stop(this: *mut std::ffi::c_void) -> bool;

                #[link_name = "__swift_bridge__$Player$_free"]
                fn __swift_bridge__Player__free(this: *mut std::ffi::c_void);

                #[link_name = "__swift_bridge__$Screen$_free"]
                fn __swift_bridge__Screen__free(this: *mut std::ffi::c_void);

                #[link_name = "__swift_bridge__$Quiet$_free"]
                fn __swift_bridge__Quiet__free(this: *mut std::ffi::c_void);
            }
        }
        "#,
    );
    assert_tokens_eq(&tokens, &expected);
}

/// Native type `SomeType` with `new() -> SomeType`: the symbol, and the returned value
/// boxed into an opaque pointer.
#[test]
fn native_constructor_boxes_its_result() {
    let module = module(
        "foo",
        vec![ty("SomeType", Side::Native)],
        vec![function(
            "new",
            Side::Native,
            Some("SomeType"),
            SelfReceiverKind::Static,
            vec![],
            Some(declared("SomeType", Ownership::Owned)),
        )],
    );
    let tokens = emit(&module);
    assert_eq!(count_runs(&tokens, &parse("#[export_name = \"__swift_bridge__$SomeType$new\"]")), 1);
    assert_eq!(
        count_runs(
            &tokens,
            &parse(
                "-> *mut std::ffi::c_void { Box::into_raw(Box::new(super::SomeType::new())) as *mut std::ffi::c_void }"
            )
        ),
        1
    );
}

/// Foreign type `Foo` with `call(&mut self, volume: u8)`.
#[test]
fn foreign_method_gets_proxy_and_declaration() {
    let module = module(
        "foo",
        vec![ty("Foo", Side::Foreign)],
        vec![function(
            "call",
            Side::Foreign,
            Some("Foo"),
            SelfReceiverKind::MutablyBorrowed,
            vec![parameter("volume", built_in("u8"))],
            None,
        )],
    );
    let tokens = emit(&module);
    let expected = parse(
        r#"
        mod foo {
            pub struct Foo(*mut std::ffi::c_void);

            impl Foo {
                pub fn call(&mut self, volume: u8) {
                    unsafe { __swift_bridge__Foo_call(self.0, volume) }
                }
            }

            impl Drop for Foo {
                fn drop(&mut self) {
                    unsafe { __swift_bridge__Foo__free(self.0) }
                }
            }

            extern "C" {
                #[link_name = "__swift_bridge__$Foo$call"]
                fn __swift_bridge__Foo_call(this: *mut std::ffi::c_void, volume: u8);

                #[link_name = "__swift_bridge__$Foo$_free"]
                fn __swift_bridge__Foo__free(this: *mut std::ffi::c_void);
            }
        }
        "#,
    );
    assert_tokens_eq(&tokens, &expected);
    assert_eq!(count_runs(&tokens, &parse("\"__swift_bridge__$Foo$_free\"")), 1);
    assert_eq!(count_runs(&tokens, &parse("fn __swift_bridge__Foo__free")), 1);
}

/// Native free function `some_function(bar: u8)`: `bar` passes through as it is.
#[test]
fn primitive_parameter_passes_through() {
    let some_function = function(
        "some_function",
        Side::Native,
        None,
        SelfReceiverKind::Static,
        vec![parameter("bar", built_in("u8"))],
        None,
    );
    assert!(some_function.is_well_formed());
    let tokens = some_function.to_extern_c_function_tokens();
    let expected = parse(
        r#"
        #[no_mangle]
        #[export_name = "__swift_bridge__$some_function"]
        pub extern "C" fn __swift_bridge__some_function(bar: u8) {
            super::some_function(bar)
        }
        "#,
    );
    assert_tokens_eq(&tokens, &expected);
    assert_eq!(count_runs(&tokens, &parse("*")), 0);
    assert_eq!(count_runs(&tokens, &parse("unsafe")), 0);
}

#[test]
fn declared_parameters_are_rebound_by_their_ownership() {
    let mix = function(
        "mix",
        Side::Native,
        Some("Mixer"),
        SelfReceiverKind::Borrowed,
        vec![
            parameter("left", declared("Track", Ownership::Borrowed)),
            parameter("gain", built_in("f32")),
            parameter("right", declared("Track", Ownership::MutablyBorrowed)),
            parameter("spare", declared("Track", Ownership::Owned)),
        ],
        Some(declared("Track", Ownership::Owned)),
    );
    assert!(mix.is_well_formed());
    let expected = parse(
        r#"
        #[no_mangle]
        #[export_name = "__swift_bridge__$Mixer$mix"]
        pub extern "C" fn __swift_bridge__Mixer_mix(
            this: *mut super::Mixer,
            left: *mut super::Track,
            gain: f32,
            right: *mut super::Track,
            spare: *mut super::Track
        ) -> *mut std::ffi::c_void {
            let left = unsafe { &*left };
            let right = unsafe { &mut *right };
            let spare = *unsafe { Box::from_raw(spare) };
            Box::into_raw(Box::new((unsafe { &*this }).mix(left, gain, right, spare)))
                as *mut std::ffi::c_void
        }
        "#,
    );
    assert_tokens_eq(&mix.to_extern_c_function_tokens(), &expected);
}

#[test]
fn foreign_declarations_take_declared_types_as_opaque_pointers() {
    let blend = function(
        "blend",
        Side::Foreign,
        Some("Mixer"),
        SelfReceiverKind::Owned,
        vec![
            parameter("other", declared("Track", Ownership::Borrowed)),
            parameter("gain", built_in("f32")),
        ],
        Some(declared("Track", Ownership::Owned)),
    );
    assert!(blend.is_well_formed());
    let declaration = parse(
        r#"
        #[link_name = "__swift_bridge__$Mixer$blend"]
        fn __swift_bridge__Mixer_blend(
            this: *mut std::ffi::c_void,
            other: *mut std::ffi::c_void,
            gain: f32
        ) -> *mut std::ffi::c_void;
        "#,
    );
    assert_tokens_eq(&blend.to_extern_c_function_tokens(), &declaration);
    let method = parse(
        r#"
        pub fn blend(self, other: *mut std::ffi::c_void, gain: f32) -> Track {
            Track(unsafe { __swift_bridge__Mixer_blend(self.0, other, gain) })
        }
        "#,
    );
    assert_tokens_eq(&blend.to_forwarding_method_tokens(), &method);
}

#[test]
fn static_foreign_methods_pass_no_pointer() {
    let count = function(
        "count",
        Side::Foreign,
        Some("Mixer"),
        SelfReceiverKind::Static,
        vec![parameter("limit", built_in("u8"))],
        Some(built_in("u8")),
    );
    let method = parse(
        r#"
        pub fn count(limit: u8) -> u8 {
            unsafe { __swift_bridge__Mixer_count(limit) }
        }
        "#,
    );
    assert_tokens_eq(&count.to_forwarding_method_tokens(), &method);
}

#[test]
fn free_glue_depends_on_the_side() {
    let native = ty("Foo", Side::Native).to_free_glue_tokens();
    assert_eq!(count_runs(&native, &parse("Box::from_raw(this)")), 1);
    assert_eq!(count_runs(&native, &parse("drop(this)")), 1);
    let foreign = ty("Foo", Side::Foreign).to_free_glue_tokens();
    assert_tokens_eq(
        &foreign,
        &parse(
            r#"
            #[link_name = "__swift_bridge__$Foo$_free"]
            fn __swift_bridge__Foo__free(this: *mut std::ffi::c_void);
            "#,
        ),
    );
}

#[test]
fn proxies_take_only_the_foreign_functions_of_their_type() {
    let functions = vec![
        function("native_one", Side::Native, Some("Foo"), SelfReceiverKind::Borrowed, vec![], None),
        function("other", Side::Foreign, Some("Bar"), SelfReceiverKind::Borrowed, vec![], None),
        function("free_one", Side::Foreign, None, SelfReceiverKind::Static, vec![], None),
        function("mine", Side::Foreign, Some("Foo"), SelfReceiverKind::Borrowed, vec![], None),
    ];
    let proxy = ty("Foo", Side::Foreign).to_proxy_tokens(&functions);
    let expected = parse(
        r#"
        pub struct Foo(*mut std::ffi::c_void);

        impl Foo {
            pub fn mine(&self) {
                unsafe { __swift_bridge__Foo_mine(self.0) }
            }
        }

        impl Drop for Foo {
            fn drop(&mut self) {
                unsafe { __swift_bridge__Foo__free(self.0) }
            }
        }
        "#,
    );
    assert_tokens_eq(&proxy, &expected);
}

#[test]
fn operators_of_two_characters_are_joined() {
    let answer = function("answer", Side::Native, None, SelfReceiverKind::Static, vec![], Some(built_in("u8")));
    let tokens = answer.to_extern_c_function_tokens();
    let mut joined = Vec::new();
    let mut alone = Vec::new();
    let mut pending = vec![tokens];
    while let Some(stream) = pending.pop() {
        for tree in stream {
            match tree {
                TokenTree::Punct(punct) => match punct.spacing() {
                    Spacing::Joint => joined.push(punct.as_char()),
                    Spacing::Alone => alone.push(punct.as_char()),
                },
                TokenTree::Group(group) => pending.push(group.stream()),
                _ => {}
            }
        }
    }
    joined.sort();
    alone.sort();
    assert_eq!(joined, vec!['-', ':']);
    assert_eq!(alone, vec!['#', '#', ':', '=', '>']);
}

#[test]
fn identifiers_are_ascii_words() {
    assert!(is_identifier_text("foo"));
    assert!(is_identifier_text("Foo9"));
    assert!(is_identifier_text("_foo"));
    assert!(is_identifier_text("__"));
    assert!(is_identifier_text("some_function"));
    assert!(!is_identifier_text(""));
    assert!(!is_identifier_text("_"));
    assert!(!is_identifier_text("9lives"));
    assert!(!is_identifier_text("a-b"));
    assert!(!is_identifier_text("a$b"));
    assert!(!is_identifier_text("a b"));
    assert!(!is_identifier_text("r#fn"));
    assert!(!is_identifier_text("caf\u{e9}"));
    assert!(!is_identifier_text("\u{e4}ndern"));
    assert!(!is_identifier_text("a\u{301}"));
    assert!(!is_identifier_text("a\u{2019}b"));
}

#[test]
fn well_formed_modules_are_accepted() {
    assert!(mixed_module().is_well_formed());
    assert!(mixed_module().generate().is_some());
    assert_eq!(
        mixed_module().generate().unwrap().to_string(),
        mixed_module().to_token_stream().to_string()
    );
}

#[test]
fn a_bad_module_name_is_rejected() {
    let bad = module("not a name", vec![], vec![]);
    assert!(!bad.is_well_formed());
    assert!(bad.generate().is_none());
}

#[test]
fn a_bad_type_name_is_rejected() {
    let bad = module("foo", vec![ty("Some$Type", Side::Native)], vec![]);
    assert!(!bad.types[0].is_well_formed());
    assert!(!bad.is_well_formed());
    assert!(bad.generate().is_none());
}

#[test]
fn a_type_declared_twice_is_rejected() {
    let types = vec![ty("Foo", Side::Native), ty("Bar", Side::Native), ty("Foo", Side::Foreign)];
    assert!(!has_distinct_types(&types));
    assert!(has_distinct_types(&types[..2].to_vec()));
    let bad = module("foo", types, vec![]);
    assert!(!bad.is_well_formed());
    assert!(bad.generate().is_none());
}

#[test]
fn a_function_declared_twice_is_rejected() {
    let new_foo = function("new", Side::Native, Some("Foo"), SelfReceiverKind::Static, vec![], None);
    let new_bar = function("new", Side::Native, Some("Bar"), SelfReceiverKind::Static, vec![], None);
    let new_free = function("new", Side::Native, None, SelfReceiverKind::Static, vec![], None);
    assert!(new_foo.is_same_function(&new_foo.clone()));
    assert!(!new_foo.is_same_function(&new_bar));
    assert!(!new_foo.is_same_function(&new_free));
    assert!(has_distinct_functions(&vec![new_foo.clone(), new_bar.clone(), new_free.clone()]));
    assert!(!has_distinct_functions(&vec![new_foo.clone(), new_bar.clone(), new_foo.clone()]));
    let types = vec![ty("Foo", Side::Native), ty("Bar", Side::Native)];
    assert!(module("foo", types.clone(), vec![new_foo.clone(), new_bar, new_free]).is_well_formed());
    assert!(!module("foo", types, vec![new_foo.clone(), new_foo]).is_well_formed());
}

#[test]
fn an_unresolved_type_is_rejected() {
    let types = vec![ty("Foo", Side::Native)];
    assert!(declares_type(&types, &"Foo".to_string()));
    assert!(!declares_type(&types, &"Bar".to_string()));
    let on_bar = function("new", Side::Native, Some("Bar"), SelfReceiverKind::Static, vec![], None);
    assert!(on_bar.is_well_formed());
    assert!(!on_bar.resolves_in(&types));
    assert!(!module("foo", types.clone(), vec![on_bar]).is_well_formed());
    let takes_bar = function(
        "take",
        Side::Native,
        None,
        SelfReceiverKind::Static,
        vec![parameter("bar", declared("Bar", Ownership::Borrowed))],
        None,
    );
    assert!(!takes_bar.resolves_in(&types));
    assert!(!module("foo", types.clone(), vec![takes_bar]).is_well_formed());
    let gives_bar = function(
        "give",
        Side::Native,
        None,
        SelfReceiverKind::Static,
        vec![],
        Some(declared("Bar", Ownership::Owned)),
    );
    assert!(!gives_bar.resolves_in(&types));
    assert!(!module("foo", types.clone(), vec![gives_bar]).is_well_formed());
    let gives_foo = function(
        "give",
        Side::Native,
        None,
        SelfReceiverKind::Static,
        vec![parameter("n", built_in("u8"))],
        Some(declared("Foo", Ownership::Owned)),
    );
    assert!(gives_foo.resolves_in(&types));
    assert!(module("foo", types, vec![gives_foo]).is_well_formed());
}

#[test]
fn a_receiver_without_a_type_is_rejected() {
    let stray = function("stray", Side::Native, None, SelfReceiverKind::Borrowed, vec![], None);
    assert!(!stray.is_well_formed());
    assert!(!module("foo", vec![], vec![stray]).is_well_formed());
}

#[test]
fn bad_names_inside_a_function_are_rejected() {
    let bad_name = function("9", Side::Native, None, SelfReceiverKind::Static, vec![], None);
    assert!(!bad_name.is_well_formed());
    let bad_owner = function("f", Side::Native, Some(""), SelfReceiverKind::Static, vec![], None);
    assert!(!bad_owner.is_well_formed());
    let bad_parameter = function(
        "f",
        Side::Native,
        None,
        SelfReceiverKind::Static,
        vec![parameter("a", built_in("u8")), parameter("b c", built_in("u8"))],
        None,
    );
    assert!(!bad_parameter.parameters[1].is_well_formed());
    assert!(bad_parameter.parameters[0].is_well_formed());
    assert!(!bad_parameter.is_well_formed());
    let bad_type = function(
        "f",
        Side::Native,
        None,
        SelfReceiverKind::Static,
        vec![parameter("a", built_in("&u8"))],
        None,
    );
    assert!(!bad_type.parameters[0].ty.is_well_formed());
    assert!(!bad_type.is_well_formed());
    let bad_return = function("f", Side::Native, None, SelfReceiverKind::Static, vec![], Some(declared("", Ownership::Owned)));
    assert!(!bad_return.is_well_formed());
}

#[test]
fn receivers_are_reported() {
    let method = function("m", Side::Native, Some("Foo"), SelfReceiverKind::Owned, vec![], None);
    assert!(method.has_receiver());
    assert_eq!(method.associated_type_name(), Some("Foo"));
    let free = function("f", Side::Native, None, SelfReceiverKind::Static, vec![], None);
    assert!(!free.has_receiver());
    assert_eq!(free.associated_type_name(), None);
}
