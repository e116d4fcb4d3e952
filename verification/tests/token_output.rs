use proc_macro2::{Delimiter, TokenStream, TokenTree};
use swift_bridge_ir::ir::{
    BridgeModule, FunctionDeclaration, Ownership, Parameter, SelfReceiverKind, Side,
    TypeDeclaration, TypeReference,
};

fn parse(text: &str) -> TokenStream {
    text.parse::<TokenStream>().unwrap()
}

fn flatten_into(stream: &TokenStream, out: &mut Vec<String>) {
    for tree in stream.clone() {
        match tree {
            TokenTree::Group(group) => {
                let (open, close) = match group.delimiter() {
                    Delimiter::Parenthesis => ("(", ")"),
                    Delimiter::Brace => ("{", "}"),
                    Delimiter::Bracket => ("[", "]"),
                    Delimiter::None => ("", ""),
                };
                out.push(open.to_string());
                flatten_into(&group.stream(), out);
                out.push(close.to_string());
            }
            other => out.push(other.to_string()),
        }
    }
}

fn flatten(stream: &TokenStream) -> Vec<String> {
    let mut out = Vec::new();
    flatten_into(stream, &mut out);
    out
}

fn squeeze(stream: &TokenStream) -> String {
    stream.to_string().split_whitespace().collect()
}

fn assert_tokens_eq(left: &TokenStream, right: &TokenStream) {
    assert_eq!(flatten(left), flatten(right), "\nleft:\n{}\nright:\n{}\n", left, right);
}

fn assert_tokens_contain(outer: &TokenStream, inner: &TokenStream) {
    assert!(
        squeeze(outer).contains(&squeeze(inner)),
        "\nouter:\n{}\ninner:\n{}\n",
        outer,
        inner
    );
}

fn ty(identifier: &str, side: Side) -> TypeDeclaration {
    TypeDeclaration { identifier: identifier.to_string(), side }
}

fn built_in(name: &str) -> TypeReference {
    TypeReference::BuiltIn(name.to_string())
}

fn declared(name: &str, ownership: Ownership) -> TypeReference {
    TypeReference::Declared(name.to_string(), ownership)
}

fn parameter(name: &str, ty: TypeReference) -> Parameter {
    Parameter { name: name.to_string(), ty }
}

fn function(
    identifier: &str,
    side: Side,
    associated_type: Option<&str>,
    receiver: SelfReceiverKind,
    parameters: Vec<Parameter>,
    return_type: Option<TypeReference>,
) -> FunctionDeclaration {
    FunctionDeclaration {
        identifier: identifier.to_string(),
        side,
        associated_type: associated_type.map(|name| name.to_string()),
        receiver,
        parameters,
        return_type,
    }
}

fn module_foo(types: Vec<TypeDeclaration>, functions: Vec<FunctionDeclaration>) -> BridgeModule {
    let module = BridgeModule { name: "foo".to_string(), types, functions };
    assert!(module.is_well_formed());
    module
}

/// A native type gets an exported function that frees the memory behind its pointer.
#[test]
fn free_opaque_rust_type() {
    let module = module_foo(vec![ty("SomeType", Side::Native)], vec![]);
    let expected = parse(
        r#"
        mod foo {
            #[no_mangle]
            #[export_name = "__swift_bridge__$SomeType$_free"]
            pub extern "C" fn __swift_bridge__SomeType__free (
                this: *mut super::SomeType
            ) {
                let this = unsafe { Box::from_raw(this) };
                drop(this);
            }
        }
        "#,
    );

    assert_tokens_eq(&module.to_token_stream(), &expected);
}

/// A freestanding native function with no arguments.
#[test]
fn freestanding_rust_function_no_args() {
    let module = module_foo(
        vec![],
        vec![function("some_function", Side::Native, None, SelfReceiverKind::Static, vec![], None)],
    );
    let expected = parse(
        r#"
        mod foo {
            #[no_mangle]
            #[export_name = "__swift_bridge__$some_function"]
            pub extern "C" fn __swift_bridge__some_function () {
                super::some_function()
            }
        }
        "#,
    );

    assert_tokens_eq(&module.to_token_stream(), &expected);
}

/// A freestanding foreign function gets a linked declaration and a function that calls it.
#[test]
fn freestanding_swift_function_no_args() {
    let module = module_foo(
        vec![],
        vec![function("some_function", Side::Foreign, None, SelfReceiverKind::Static, vec![], None)],
    );
    let expected = parse(
        r#"
        mod foo {
            pub fn some_function () {
                unsafe { __swift_bridge__some_function() }
            }

            extern "C" {
                #[link_name = "__swift_bridge__$some_function"]
                fn __swift_bridge__some_function ();
            }
        }
        "#,
    );

    assert_tokens_eq(&module.to_token_stream(), &expected);
}

/// A freestanding native function with one primitive argument.
#[test]
fn freestanding_rust_one_arg() {
    let module = module_foo(
        vec![],
        vec![function(
            "some_function",
            Side::Native,
            None,
            SelfReceiverKind::Static,
            vec![parameter("bar", built_in("u8"))],
            None,
        )],
    );
    let expected = parse(
        r#"
        mod foo {
            #[no_mangle]
            #[export_name = "__swift_bridge__$some_function"]
            pub extern "C" fn __swift_bridge__some_function (bar: u8) {
                super::some_function(bar)
            }
        }
        "#,
    );

    assert_tokens_eq(&module.to_token_stream(), &expected);
}

/// A freestanding native function with an argument of a declared type.
#[test]
fn freestanding_rust_func_with_declared_type_arg() {
    let module = module_foo(
        vec![ty("MyType", Side::Native)],
        vec![function(
            "some_function",
            Side::Native,
            None,
            SelfReceiverKind::Static,
            vec![parameter("bar", declared("MyType", Ownership::Borrowed))],
            None,
        )],
    );
    let expected = parse(
        r#"
        #[no_mangle]
        #[export_name = "__swift_bridge__$some_function"]
        pub extern "C" fn __swift_bridge__some_function (
            bar: *mut super::MyType
        ) {
            let bar = unsafe { &*bar };
            super::some_function(bar)
        }
        "#,
    );

    assert_tokens_contain(&module.to_token_stream(), &expected);
}

/// A freestanding native function that returns a primitive.
#[test]
fn freestanding_rust_with_built_in_return_type() {
    let module = module_foo(
        vec![],
        vec![function(
            "some_function",
            Side::Native,
            None,
            SelfReceiverKind::Static,
            vec![],
            Some(built_in("u8")),
        )],
    );
    let expected = parse(
        r#"
        mod foo {
            #[no_mangle]
            #[export_name = "__swift_bridge__$some_function"]
            pub extern "C" fn __swift_bridge__some_function () -> u8 {
                super::some_function()
            }
        }
        "#,
    );

    assert_tokens_eq(&module.to_token_stream(), &expected);
}

/// A freestanding native function that returns a declared type.
#[test]
fn freestanding_rust_function_with_declared_return_type() {
    let module = module_foo(
        vec![ty("Foo", Side::Native)],
        vec![function(
            "some_function",
            Side::Native,
            None,
            SelfReceiverKind::Static,
            vec![],
            Some(declared("Foo", Ownership::Owned)),
        )],
    );
    let expected_func = parse(
        r#"
        #[no_mangle]
        #[export_name = "__swift_bridge__$some_function"]
        pub extern "C" fn __swift_bridge__some_function () -> *mut std::ffi::c_void {
            Box::into_raw(Box::new(super::some_function())) as *mut std::ffi::c_void
        }
        "#,
    );

    assert_tokens_contain(&module.to_token_stream(), &expected_func);
}

/// A foreign type gets a struct, a destructor and a linked release function.
#[test]
fn generates_struct_for_swift_type() {
    let module = module_foo(vec![ty("Foo", Side::Foreign)], vec![]);
    let expected = parse(
        r#"
        pub struct Foo(*mut std::ffi::c_void);

        impl Drop for Foo {
            fn drop (&mut self) {
                unsafe { __swift_bridge__Foo__free(self.0) }
            }
        }

        extern "C" {
            #[link_name = "__swift_bridge__$Foo$_free"]
            fn __swift_bridge__Foo__free (this: *mut std::ffi::c_void);
        }
        "#,
    );

    assert_tokens_contain(&module.to_token_stream(), &expected);
}

/// A static method that is associated to a native type.
#[test]
fn associated_rust_static_method_no_args() {
    let module = module_foo(
        vec![ty("SomeType", Side::Native)],
        vec![function(
            "new",
            Side::Native,
            Some("SomeType"),
            SelfReceiverKind::Static,
            vec![],
            Some(declared("SomeType", Ownership::Owned)),
        )],
    );
    let expected = parse(
        r#"
        #[no_mangle]
        #[export_name = "__swift_bridge__$SomeType$new"]
        pub extern "C" fn __swift_bridge__SomeType_new () -> *mut std::ffi::c_void {
            Box::into_raw(Box::new(super::SomeType::new())) as *mut std::ffi::c_void
        }
        "#,
    );

    let tokens = module.functions[0].to_extern_c_function_tokens();
    assert_tokens_eq(&tokens, &expected);
}

/// A static method of a foreign type becomes an associated function of its proxy.
#[test]
fn swift_class_method_no_args() {
    let module = module_foo(
        vec![ty("Foo", Side::Foreign)],
        vec![function(
            "new",
            Side::Foreign,
            Some("Foo"),
            SelfReceiverKind::Static,
            vec![],
            Some(declared("Foo", Ownership::Owned)),
        )],
    );
    let expected = parse(
        r#"
        pub struct Foo(*mut std::ffi::c_void);

        impl Foo {
            pub fn new () -> Foo {
                Foo(unsafe{ __swift_bridge__Foo_new() })
            }
        }

        impl Drop for Foo {
            fn drop (&mut self) {
                unsafe { __swift_bridge__Foo__free(self.0) }
            }
        }

        extern "C" {
            #[link_name = "__swift_bridge__$Foo$new"]
            fn __swift_bridge__Foo_new() -> *mut std::ffi::c_void;

            #[link_name = "__swift_bridge__$Foo$_free"]
            fn __swift_bridge__Foo__free (this: *mut std::ffi::c_void);
        }
        "#,
    );

    assert_tokens_contain(&module.to_token_stream(), &expected);
}

/// A static method with an argument.
#[test]
fn associated_rust_static_method_one_arg() {
    let module = module_foo(
        vec![ty("SomeType", Side::Native)],
        vec![function(
            "new",
            Side::Native,
            Some("SomeType"),
            SelfReceiverKind::Static,
            vec![parameter("foo", built_in("u8"))],
            Some(built_in("u8")),
        )],
    );
    let expected = parse(
        r#"
        #[no_mangle]
        #[export_name = "__swift_bridge__$SomeType$new"]
        pub extern "C" fn __swift_bridge__SomeType_new (foo: u8) -> u8 {
            super::SomeType::new(foo)
        }
        "#,
    );

    let tokens = module.functions[0].to_extern_c_function_tokens();
    assert_tokens_eq(&tokens, &expected);
}

/// A static method that returns nothing.
#[test]
fn associated_static_method_no_return_type() {
    let module = module_foo(
        vec![ty("SomeType", Side::Native)],
        vec![function(
            "new",
            Side::Native,
            Some("SomeType"),
            SelfReceiverKind::Static,
            vec![],
            None,
        )],
    );
    let expected = parse(
        r#"
        #[no_mangle]
        #[export_name = "__swift_bridge__$SomeType$new"]
        pub extern "C" fn __swift_bridge__SomeType_new ()  {
             super::SomeType::new()
        }
        "#,
    );

    let tokens = module.functions[0].to_extern_c_function_tokens();
    assert_tokens_eq(&tokens, &expected);
}

/// A method of a native type that takes `&mut self`.
#[test]
fn associated_rust_method_no_args() {
    let module = module_foo(
        vec![ty("MyType", Side::Native)],
        vec![function(
            "increment",
            Side::Native,
            Some("MyType"),
            SelfReceiverKind::MutablyBorrowed,
            vec![],
            None,
        )],
    );
    let expected = parse(
        r#"
        #[no_mangle]
        #[export_name = "__swift_bridge__$MyType$increment"]
        pub extern "C" fn __swift_bridge__MyType_increment (
            this: *mut super::MyType
        ) {
            (unsafe { &mut *this }).increment()
        }
        "#,
    );

    let tokens = module.functions[0].to_extern_c_function_tokens();
    assert_tokens_eq(&tokens, &expected);
}

/// The instance methods of a foreign type become methods of its proxy.
#[test]
fn swift_instance_methods() {
    let module = module_foo(
        vec![ty("Foo", Side::Foreign)],
        vec![
            function("notify", Side::Foreign, Some("Foo"), SelfReceiverKind::Borrowed, vec![], None),
            function("message", Side::Foreign, Some("Foo"), SelfReceiverKind::Borrowed, vec![], None),
            function(
                "call",
                Side::Foreign,
                Some("Foo"),
                SelfReceiverKind::MutablyBorrowed,
                vec![parameter("volume", built_in("u8"))],
                None,
            ),
        ],
    );
    let expected = parse(
        r#"
        pub struct Foo(*mut std::ffi::c_void);

        impl Foo {
            pub fn notify (&self) {
                unsafe { __swift_bridge__Foo_notify(self.0) }
            }

            pub fn message (&self) {
                unsafe { __swift_bridge__Foo_message(self.0) }
            }

            pub fn call (&mut self, volume: u8) {
                unsafe { __swift_bridge__Foo_call(self.0, volume) }
            }
        }

        impl Drop for Foo {
            fn drop (&mut self) {
                unsafe { __swift_bridge__Foo__free(self.0) }
            }
        }

        extern "C" {
            #[link_name = "__swift_bridge__$Foo$notify"]
            fn __swift_bridge__Foo_notify(this: *mut std::ffi::c_void);

            #[link_name = "__swift_bridge__$Foo$message"]
            fn __swift_bridge__Foo_message(this: *mut std::ffi::c_void);

            #[link_name = "__swift_bridge__$Foo$call"]
            fn __swift_bridge__Foo_call(this: *mut std::ffi::c_void, volume: u8);

            #[link_name = "__swift_bridge__$Foo$_free"]
            fn __swift_bridge__Foo__free (this: *mut std::ffi::c_void);
        }
        "#,
    );

    assert_tokens_contain(&module.to_token_stream(), &expected);
}

/// A method of a native type that takes `&self` and one argument.
#[test]
fn rust_associated_method_one_args() {
    let module = module_foo(
        vec![ty("SomeType", Side::Native)],
        vec![function(
            "message",
            Side::Native,
            Some("SomeType"),
            SelfReceiverKind::Borrowed,
            vec![parameter("val", built_in("u8"))],
            None,
        )],
    );
    let expected = parse(
        r#"
        #[no_mangle]
        #[export_name = "__swift_bridge__$SomeType$message"]
        pub extern "C" fn __swift_bridge__SomeType_message (
            this: *mut super::SomeType,
            val: u8
        ) {
            (unsafe { &*this }).message(val)
        }
        "#,
    );

    let tokens = module.functions[0].to_extern_c_function_tokens();
    assert_tokens_eq(&tokens, &expected);
}

/// A method that takes `self` by value takes the value out of its box.
#[test]
fn associated_method_drops_owned_self() {
    let module = module_foo(
        vec![ty("SomeType", Side::Native)],
        vec![function(
            "consume",
            Side::Native,
            Some("SomeType"),
            SelfReceiverKind::Owned,
            vec![],
            None,
        )],
    );
    let expected = parse(
        r#"
        #[no_mangle]
        #[export_name = "__swift_bridge__$SomeType$consume"]
        pub extern "C" fn __swift_bridge__SomeType_consume (
            this: *mut super::SomeType
        ) {
            (* unsafe { Box::from_raw(this) }).consume()
        }
        "#,
    );

    let tokens = module.functions[0].to_extern_c_function_tokens();
    assert_tokens_eq(&tokens, &expected);
}

/// The tokens of a type's methods reach the module's stream.
#[test]
fn writes_method_tokens() {
    let module = module_foo(
        vec![ty("SomeType", Side::Native)],
        vec![function(
            "new",
            Side::Native,
            Some("SomeType"),
            SelfReceiverKind::Borrowed,
            vec![],
            Some(declared("SomeType", Ownership::Owned)),
        )],
    );
    let tokens = module.to_token_stream();

    assert_tokens_contain(&tokens, &parse("SomeType_new"));
}
