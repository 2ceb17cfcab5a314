use tauri_specta::datatype::{
    has_channel, lookup_type, EnumRepr, Variant, render_type, ExportError, Field, NamedType, Primitive, TypeDescription,
};
use tauri_specta::js_ts::{
    arg_names, arg_usages, function, handle_result, join, maybe_return_as_result_tuple, render_command,
    return_as_result_tuple, tauri_invoke, Arg, Command, CommandResult, Dialect,
};
use tauri_specta::naming::{apply_as_prefix, event_name, wire_name, ItemType};
use tauri_specta::ErrorHandlingMode;

fn prim(p: Primitive) -> TypeDescription {
    TypeDescription::Primitive(p)
}

fn named(id: u64, name: &str, generics: Vec<&str>, ty: TypeDescription) -> NamedType {
    NamedType {
        id,
        name: name.to_string(),
        location: format!("src/types.rs:{}", id),
        docs: String::new(),
        deprecated: None,
        generics: generics.into_iter().map(|g| g.to_string()).collect(),
        ty,
    }
}

fn render(reg: &Vec<NamedType>, t: TypeDescription) -> String {
    render_type(reg, &t).unwrap()
}

#[test]
fn event_wire_name_with_plugin() {
    assert_eq!(
        apply_as_prefix("my-plugin", "demo-event", ItemType::Event),
        "plugin:my-plugin:demo-event"
    );
    assert_eq!(
        wire_name(&Some("my-plugin".to_string()), "demo-event", ItemType::Event),
        "plugin:my-plugin:demo-event"
    );
}

#[test]
fn event_wire_name_without_plugin() {
    assert_eq!(wire_name(&None, "demo-event", ItemType::Event), "demo-event");
}

#[test]
fn command_wire_name_uses_pipes() {
    assert_eq!(
        apply_as_prefix("my-plugin", "hello_world", ItemType::Command),
        "plugin|my-plugin|hello_world"
    );
    assert_eq!(wire_name(&None, "hello_world", ItemType::Command), "hello_world");
}

#[test]
fn primitives_render() {
    let reg = Vec::new();
    assert_eq!(render(&reg, prim(Primitive::Str)), "string");
    assert_eq!(render(&reg, prim(Primitive::Number)), "number");
    assert_eq!(render(&reg, prim(Primitive::BigInt)), "bigint");
    assert_eq!(render(&reg, prim(Primitive::Bool)), "boolean");
    assert_eq!(render(&reg, prim(Primitive::Null)), "null");
    assert_eq!(render(&reg, prim(Primitive::Unknown)), "unknown");
}

#[test]
fn composite_types_render() {
    let reg = Vec::new();
    assert_eq!(render(&reg, TypeDescription::List(Box::new(prim(Primitive::Str)))), "string[]");
    assert_eq!(
        render(&reg, TypeDescription::List(Box::new(TypeDescription::Nullable(Box::new(prim(Primitive::Number)))))),
        "(number | null)[]"
    );
    assert_eq!(
        render(&reg, TypeDescription::Record(Box::new(prim(Primitive::Str)), Box::new(prim(Primitive::Bool)))),
        "{ [key in string]: boolean }"
    );
    assert_eq!(render(&reg, TypeDescription::Tuple(vec![])), "null");
    assert_eq!(
        render(&reg, TypeDescription::Tuple(vec![prim(Primitive::Str), prim(Primitive::Number)])),
        "[string, number]"
    );
    assert_eq!(render(&reg, TypeDescription::Union(vec![])), "never");
    assert_eq!(
        render(
            &reg,
            TypeDescription::Union(vec![
                TypeDescription::Literal("ok".to_string()),
                TypeDescription::Literal("error".to_string())
            ])
        ),
        "\"ok\" | \"error\""
    );
    assert_eq!(render(&reg, TypeDescription::Object(vec![])), "Record<string, never>");
    assert_eq!(
        render(
            &reg,
            TypeDescription::Object(vec![
                Field { name: "a".to_string(), ty: prim(Primitive::Str), optional: false },
                Field { name: "b".to_string(), ty: prim(Primitive::Number), optional: true },
            ])
        ),
        "{ a: string; b?: number }"
    );
}

#[test]
fn dangling_reference_is_an_error() {
    let reg = Vec::new();
    match render_type(&reg, &TypeDescription::Reference(7, vec![])) {
        Err(ExportError::UnknownType(7)) => {}
        other => panic!("unexpected {:?}", other),
    }
}

#[test]
fn wrong_generic_arity_is_an_error() {
    let reg = vec![named(1, "Wrapper", vec!["T"], TypeDescription::Generic("T".to_string()))];
    match render_type(&reg, &TypeDescription::Reference(1, vec![])) {
        Err(ExportError::GenericArity(name, location)) => {
            assert_eq!(name, "Wrapper");
            assert_eq!(location, "src/types.rs:1");
        }
        other => panic!("unexpected {:?}", other),
    }
}

#[test]
fn generic_references_are_substituted() {
    let reg = vec![named(
        1,
        "Wrapper",
        vec!["T"],
        TypeDescription::Object(vec![Field {
            name: "value".to_string(),
            ty: TypeDescription::Generic("T".to_string()),
            optional: false,
        }]),
    )];
    let a = render(&reg, TypeDescription::Reference(1, vec![prim(Primitive::Str)]));
    let b = render(&reg, TypeDescription::Reference(1, vec![prim(Primitive::Number)]));
    assert_eq!(a, "Wrapper<string>");
    assert_eq!(b, "Wrapper<number>");
    assert_ne!(a, b);
}

#[test]
fn lookup_finds_last_registration() {
    let reg = vec![
        named(1, "A", vec![], prim(Primitive::Str)),
        named(2, "B", vec![], prim(Primitive::Str)),
    ];
    assert_eq!(lookup_type(&reg, 2), Some(1));
    assert_eq!(lookup_type(&reg, 3), None);
}

#[test]
fn argument_names_are_lower_camel_case() {
    let args = vec![Arg { name: "foo_bar".to_string(), ty: prim(Primitive::Str) }];
    assert_eq!(arg_names(&args), vec!["fooBar".to_string()]);
}

#[test]
fn usages_of_no_arguments_are_absent() {
    assert_eq!(arg_usages(&vec![]), None);
    assert_eq!(arg_usages(&vec!["a".to_string(), "b".to_string()]), Some("{ a, b }".to_string()));
}

#[test]
fn join_puts_separator_between_parts() {
    assert_eq!(join(&vec![], ", "), "");
    assert_eq!(join(&vec!["x".to_string()], ", "), "x");
    assert_eq!(join(&vec!["x".to_string(), "y".to_string(), "z".to_string()], ", "), "x, y, z");
}

#[test]
fn invoke_call_text() {
    assert_eq!(tauri_invoke("greet", None), "await TAURI_INVOKE(\"greet\")");
    assert_eq!(
        tauri_invoke("greet", Some("{ \"name\": name }".to_string())),
        "await TAURI_INVOKE(\"greet\", { \"name\": name })"
    );
}

#[test]
fn bodies_follow_the_result_kind() {
    let call = "await TAURI_INVOKE(\"x\")";
    assert_eq!(
        maybe_return_as_result_tuple(call, &CommandResult::Unit, ErrorHandlingMode::Result),
        "await TAURI_INVOKE(\"x\");"
    );
    assert_eq!(
        maybe_return_as_result_tuple(call, &CommandResult::Value(prim(Primitive::Str)), ErrorHandlingMode::Result),
        "return await TAURI_INVOKE(\"x\");"
    );
    let fallible = CommandResult::Fallible(prim(Primitive::Str), prim(Primitive::Number));
    assert_eq!(
        maybe_return_as_result_tuple(call, &fallible, ErrorHandlingMode::Throw),
        "return await TAURI_INVOKE(\"x\");"
    );
    assert_eq!(
        maybe_return_as_result_tuple(call, &fallible, ErrorHandlingMode::Result),
        "return await __resultOf__(async () => await TAURI_INVOKE(\"x\"));"
    );
    assert_eq!(return_as_result_tuple("await e"), "return await __resultOf__(async () => await e);");
}

#[test]
fn declared_return_types() {
    let reg = Vec::new();
    let fallible = CommandResult::Fallible(prim(Primitive::Str), prim(Primitive::Number));
    assert_eq!(handle_result(&reg, &CommandResult::Unit, ErrorHandlingMode::Result).unwrap(), "void");
    assert_eq!(handle_result(&reg, &fallible, ErrorHandlingMode::Throw).unwrap(), "string");
    assert_eq!(
        handle_result(&reg, &fallible, ErrorHandlingMode::Result).unwrap(),
        "Result<string, number>"
    );
}

#[test]
fn function_text_layout() {
    assert_eq!(
        function("", "greet", &vec!["name: string".to_string()], Some("string"), "return 1;"),
        "async greet(name: string) : Promise<string> {\n    return 1;\n}"
    );
    assert_eq!(
        function("/** d */\n", "greet", &vec![], None, "x;"),
        "/** d */\nasync greet()  {\n    x;\n}"
    );
}

fn greet_command() -> Command {
    Command {
        name: "greet_user".to_string(),
        args: vec![Arg { name: "foo_bar".to_string(), ty: prim(Primitive::Str) }],
        result: CommandResult::Value(prim(Primitive::Str)),
        docs: "Says hello.".to_string(),
        deprecated: None,
    }
}

#[test]
fn typescript_command_wrapper() {
    let reg = Vec::new();
    let text = render_command(&reg, &None, &greet_command(), Dialect::Typescript, ErrorHandlingMode::Result).unwrap();
    assert_eq!(
        text,
        "/**\n * Says hello.\n */\nasync greetUser(fooBar: string) : Promise<string> {\n    return await TAURI_INVOKE(\"greet_user\", { \"foo_bar\": fooBar });\n}"
    );
}

#[test]
fn jsdoc_command_wrapper() {
    let reg = Vec::new();
    let mut c = greet_command();
    c.deprecated = Some("use hello".to_string());
    let text = render_command(&reg, &Some("my-plugin".to_string()), &c, Dialect::JSDoc, ErrorHandlingMode::Result)
        .unwrap();
    assert_eq!(
        text,
        "/**\n * @deprecated use hello\n * Says hello.\n * @param { string } fooBar\n * @returns { Promise<string> }\n */\nasync greetUser(fooBar)  {\n    return await TAURI_INVOKE(\"plugin|my-plugin|greet_user\", { \"foo_bar\": fooBar });\n}"
    );
}

#[test]
fn error_handling_defaults_to_result() {
    assert_eq!(ErrorHandlingMode::default(), ErrorHandlingMode::Result);
}

#[test]
fn event_names_derive_from_type_names() {
    assert_eq!(event_name("DemoEvent", None), "demo-event");
    assert_eq!(event_name("DemoEvent", Some("custom".to_string())), "custom");
    assert_eq!(event_name("Foo", None), event_name("foo", None));
}

#[test]
fn channel_type_renders() {
    let reg = Vec::new();
    let t = TypeDescription::List(Box::new(TypeDescription::Channel(Box::new(prim(Primitive::Str)))));
    assert!(has_channel(&t));
    assert!(!has_channel(&prim(Primitive::Str)));
    assert_eq!(render(&reg, t), "TAURI_CHANNEL<string>[]");
}

#[test]
fn multi_line_docs_give_one_line_each() {
    let reg = Vec::new();
    let mut c = greet_command();
    c.docs = "a\nb".to_string();
    c.deprecated = Some("old".to_string());
    let text = render_command(&reg, &None, &c, Dialect::Typescript, ErrorHandlingMode::Result).unwrap();
    assert!(text.starts_with("/**\n * @deprecated old\n * a\n * b\n */\nasync greetUser("));
}

fn variants() -> Vec<Variant> {
    vec![
        Variant { name: "A".to_string(), body: None },
        Variant { name: "B".to_string(), body: Some(prim(Primitive::Str)) },
    ]
}

#[test]
fn external_enum_renders() {
    let reg = Vec::new();
    assert_eq!(render(&reg, TypeDescription::Enum(EnumRepr::External, variants())), "\"A\" | { B: string }");
    assert_eq!(render(&reg, TypeDescription::Enum(EnumRepr::External, vec![])), "never");
}

#[test]
fn untagged_enum_renders() {
    let reg = Vec::new();
    assert_eq!(render(&reg, TypeDescription::Enum(EnumRepr::Untagged, variants())), "null | string");
}

#[test]
fn internally_tagged_enum_renders() {
    let reg = Vec::new();
    assert_eq!(
        render(&reg, TypeDescription::Enum(EnumRepr::Internal("type".to_string()), variants())),
        "{ type: \"A\" } | ({ type: \"B\" } & string)"
    );
}

#[test]
fn adjacently_tagged_enum_renders() {
    let reg = Vec::new();
    assert_eq!(
        render(&reg, TypeDescription::Enum(EnumRepr::Adjacent("t".to_string(), "c".to_string()), variants())),
        "{ t: \"A\" } | { t: \"B\"; c: string }"
    );
}

#[test]
fn channel_inside_enum_is_found() {
    let t = TypeDescription::Enum(
        EnumRepr::External,
        vec![Variant { name: "S".to_string(), body: Some(TypeDescription::Channel(Box::new(prim(Primitive::Bool)))) }],
    );
    assert!(has_channel(&t));
}
