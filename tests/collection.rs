use tauri_specta::builder::{Builder, RegistrationError};
use tauri_specta::datatype::{ExportError, Field, NamedType, Primitive, TypeDescription};
use tauri_specta::document::{Language, BANNER, RESULT_HELPER_TS};
use tauri_specta::event::EventRegistry;
use tauri_specta::js_ts::{Arg, Command, CommandResult, Dialect};
use tauri_specta::ErrorHandlingMode;

fn prim(p: Primitive) -> TypeDescription {
    TypeDescription::Primitive(p)
}

fn ts() -> Language {
    Language { dialect: Dialect::Typescript, header: String::new() }
}

fn js() -> Language {
    Language { dialect: Dialect::JSDoc, header: String::new() }
}

fn wrapper_type() -> NamedType {
    NamedType {
        id: 1,
        name: "Wrapper".to_string(),
        location: "src/wrapper.rs:3".to_string(),
        docs: String::new(),
        deprecated: None,
        generics: vec!["T".to_string()],
        ty: TypeDescription::Object(vec![Field {
            name: "value".to_string(),
            ty: TypeDescription::Generic("T".to_string()),
            optional: false,
        }]),
    }
}

fn command(name: &str, args: Vec<(&str, TypeDescription)>, result: CommandResult) -> Command {
    Command {
        name: name.to_string(),
        args: args.into_iter().map(|(n, t)| Arg { name: n.to_string(), ty: t }).collect(),
        result,
        docs: String::new(),
        deprecated: None,
    }
}

fn section<'a>(doc: &'a str, from: &str, to: &str) -> &'a str {
    let start = doc.find(from).unwrap();
    let end = doc.find(to).unwrap();
    &doc[start..end]
}

#[test]
fn empty_collection_document() {
    let doc = Builder::new().export_str(&ts()).unwrap();
    assert_eq!(
        doc,
        format!(
            "{}\n\n/** user-defined commands **/\n\nexport const commands = {{\n\n}}\n\n/** user-defined events **/\n\n\n\n/** user-defined constants **/\n\n\n\n/** user-defined types **/\n\n\n\n/** tauri-specta globals **/\n\n",
            BANNER
        )
    );
}

#[test]
fn header_comes_first() {
    let lang = Language { dialect: Dialect::Typescript, header: "// @ts-nocheck".to_string() };
    let doc = Builder::new().export_str(&lang).unwrap();
    assert!(doc.starts_with(&format!("// @ts-nocheck\n{}\n", BANNER)));
}

#[test]
fn export_is_deterministic() {
    let mut b = Builder::new()
        .typ(wrapper_type())
        .commands(vec![command("hello_world", vec![("my_name", prim(Primitive::Str))], CommandResult::Value(prim(Primitive::Str)))])
        .constant("B".to_string(), serde_json::Value::from(2))
        .constant("A".to_string(), serde_json::Value::from("x"));
    b.try_register_event(5, "demo-event".to_string(), prim(Primitive::Str)).unwrap();
    let first = b.export_str(&ts()).unwrap();
    let second = b.export_str(&ts()).unwrap();
    assert_eq!(first, second);
    assert!(first.find("export const A = \"x\" as const;").unwrap() < first.find("export const B = 2 as const;").unwrap());
}

#[test]
fn argument_naming_round_trip() {
    let b = Builder::new().commands(vec![command(
        "do_it",
        vec![("foo_bar", prim(Primitive::Str))],
        CommandResult::Unit,
    )]);
    let doc = b.export_str(&ts()).unwrap();
    assert!(doc.contains("async doIt(fooBar: string) : Promise<void> {"));
    assert!(doc.contains("await TAURI_INVOKE(\"do_it\", { \"foo_bar\": fooBar });"));
    assert!(doc.contains("import { invoke as TAURI_INVOKE } from \"@tauri-apps/api/core\";"));
}

#[test]
fn result_mode_switch() {
    let cmds = || vec![command("fetch", vec![], CommandResult::Fallible(prim(Primitive::Str), prim(Primitive::Number)))];
    let base = |mode| {
        Builder::new()
            .commands(cmds())
            .constant("LIMIT".to_string(), serde_json::Value::from(3))
            .typ(wrapper_type())
            .error_handling(mode)
    };
    let throw = base(ErrorHandlingMode::Throw).export_str(&ts()).unwrap();
    let result = base(ErrorHandlingMode::Result).export_str(&ts()).unwrap();
    assert!(result.contains("async fetch() : Promise<Result<string, number>> {"));
    assert!(result.contains("return await __resultOf__(async () => await TAURI_INVOKE(\"fetch\"));"));
    assert!(result.ends_with(RESULT_HELPER_TS));
    assert!(throw.contains("async fetch() : Promise<string> {"));
    assert!(throw.contains("return await TAURI_INVOKE(\"fetch\");"));
    assert!(!throw.contains("__resultOf__"));
    let from = "/** user-defined events **/";
    let to = "/** tauri-specta globals **/";
    assert_eq!(section(&throw, from, to), section(&result, from, to));
    assert_eq!(
        throw.split("/** user-defined commands **/").next(),
        result.split("/** user-defined commands **/").next()
    );
}

#[test]
fn no_fallible_command_no_result_helper() {
    let b = Builder::new().commands(vec![command("ping", vec![], CommandResult::Unit)]);
    let doc = b.export_str(&ts()).unwrap();
    assert!(!doc.contains("__resultOf__"));
    let throw = b.error_handling(ErrorHandlingMode::Throw).export_str(&ts()).unwrap();
    assert_eq!(doc, throw);
}

#[test]
fn plugin_event_in_document() {
    let mut b = Builder::new().plugin_name("my-plugin".to_string());
    b.try_register_event(9, "demo-event".to_string(), prim(Primitive::Str)).unwrap();
    let doc = b.export_str(&ts()).unwrap();
    assert!(doc.contains(
        "export const events = __makeEvents__<{\ndemoEvent: string\n}>({\ndemoEvent: \"plugin:my-plugin:demo-event\"\n})"
    ));
    assert!(doc.contains("import * as TAURI_API_EVENT from \"@tauri-apps/api/event\";"));
    assert!(doc.contains("function __makeEvents__"));
}

#[test]
fn event_without_plugin_in_document() {
    let mut b = Builder::new();
    b.try_register_event(9, "demo-event".to_string(), prim(Primitive::Str)).unwrap();
    let doc = b.export_str(&ts()).unwrap();
    assert!(doc.contains("demoEvent: \"demo-event\""));
}

#[test]
fn jsdoc_events_section() {
    let mut b = Builder::new();
    b.try_register_event(9, "demo-event".to_string(), prim(Primitive::Str)).unwrap();
    let doc = b.export_str(&js()).unwrap();
    assert!(doc.contains(
        "/**\n * @type {typeof __makeEvents__<{ demoEvent: string }>}\n */\nconst __typedMakeEvents__ = __makeEvents__;\nexport const events = __typedMakeEvents__({\ndemoEvent: \"demo-event\"\n})"
    ));
}

#[test]
fn colliding_event_names_are_refused() {
    let mut b = Builder::new();
    assert_eq!(b.try_register_event(1, "demo-event".to_string(), prim(Primitive::Str)), Ok(()));
    assert_eq!(
        b.try_register_event(2, "demo_event".to_string(), prim(Primitive::Str)),
        Err(RegistrationError::DuplicateName("demoEvent".to_string()))
    );
    assert_eq!(b.events.len(), 1);
}

#[test]
fn same_event_id_is_refused() {
    let mut b = Builder::new();
    b.try_register_event(1, "first".to_string(), prim(Primitive::Str)).unwrap();
    assert_eq!(
        b.try_register_event(1, "second".to_string(), prim(Primitive::Str)),
        Err(RegistrationError::DuplicateId(1))
    );
}

#[test]
fn events_in_bulk() {
    let b = Builder::new()
        .try_events(vec![(1, "a-b".to_string(), prim(Primitive::Str)), (2, "c".to_string(), prim(Primitive::Bool))])
        .unwrap();
    assert_eq!(b.events.len(), 2);
    assert_eq!(b.events[0].display, "aB");
    let clash = Builder::new().try_events(vec![(1, "Foo".to_string(), prim(Primitive::Str)), (2, "foo".to_string(), prim(Primitive::Str))]);
    assert!(clash.is_err());
}

#[test]
fn reserved_type_name_is_rejected() {
    let mut t = wrapper_type();
    t.name = "__makeEvents__".to_string();
    t.generics = vec![];
    t.ty = prim(Primitive::Str);
    match Builder::new().typ(wrapper_type()).typ(NamedType { id: 2, ..t }).export_str(&ts()) {
        Err(ExportError::ReservedName(name, location)) => {
            assert_eq!(name, "__makeEvents__");
            assert_eq!(location, "src/wrapper.rs:3");
        }
        other => panic!("unexpected {:?}", other),
    }
}

#[test]
fn generic_instantiations_in_two_commands() {
    let b = Builder::new().typ(wrapper_type()).commands(vec![
        command("one", vec![], CommandResult::Value(TypeDescription::Reference(1, vec![prim(Primitive::Str)]))),
        command("two", vec![], CommandResult::Value(TypeDescription::Reference(1, vec![prim(Primitive::Number)]))),
    ]);
    let doc = b.export_str(&ts()).unwrap();
    assert!(doc.contains("async one() : Promise<Wrapper<string>> {"));
    assert!(doc.contains("async two() : Promise<Wrapper<number>> {"));
    assert_eq!(doc.matches("export type Wrapper").count(), 1);
    assert!(doc.contains("export type Wrapper<T> = { value: T }"));
}

#[test]
fn jsdoc_type_declaration() {
    let doc = Builder::new().typ(wrapper_type()).export_str(&js()).unwrap();
    assert!(doc.contains("/**\n * @template T\n * @typedef { { value: T } } Wrapper\n */"));
}

#[test]
fn type_registration_replaces_same_id() {
    let mut t = wrapper_type();
    t.name = "Renamed".to_string();
    let b = Builder::new().typ(wrapper_type()).ty(t);
    assert_eq!(b.types.len(), 1);
    assert_eq!(b.types[0].name, "Renamed");
}

#[test]
fn unknown_reference_fails_export() {
    let b = Builder::new().commands(vec![command("x", vec![], CommandResult::Value(TypeDescription::Reference(42, vec![])))]);
    match b.export_str(&ts()) {
        Err(ExportError::UnknownType(42)) => {}
        other => panic!("unexpected {:?}", other),
    }
}

#[test]
fn constants_section() {
    let b = Builder::new()
        .constant("N".to_string(), serde_json::Value::Null)
        .constant("S".to_string(), serde_json::Value::from("hi"))
        .constant("N".to_string(), serde_json::Value::from(true));
    assert_eq!(b.constants.len(), 2);
    let doc = b.export_str(&ts()).unwrap();
    assert!(doc.contains("export const N = true as const;\nexport const S = \"hi\" as const;"));
    let null_doc = Builder::new().constant("Z".to_string(), serde_json::Value::Null).export_str(&ts()).unwrap();
    assert!(null_doc.contains("export const Z = null;"));
    let js_doc = Builder::new().constant("S".to_string(), serde_json::Value::from("hi")).export_str(&js()).unwrap();
    assert!(js_doc.contains("export const S = \"hi\";"));
}

#[test]
fn mounted_events_resolve_wire_names() {
    let mut b = Builder::new().plugin_name("my-plugin".to_string());
    b.try_register_event(3, "demo-event".to_string(), prim(Primitive::Str)).unwrap();
    let mut registry = EventRegistry::new();
    assert_eq!(registry.try_get_event_name(3, "demo-event"), None);
    b.mount_events(&mut registry);
    assert_eq!(registry.try_get_event_name(3, "demo-event"), Some("plugin:my-plugin:demo-event".to_string()));
    let mut app = Builder::new();
    app.try_register_event(4, "tick".to_string(), prim(Primitive::Number)).unwrap();
    app.mount_events(&mut registry);
    assert_eq!(registry.try_get_event_name(4, "tick"), Some("tick".to_string()));
    assert_eq!(registry.try_get_event_name(3, "demo-event"), Some("plugin:my-plugin:demo-event".to_string()));
}

#[test]
fn channel_argument_imports_channel_class() {
    let chan = TypeDescription::Channel(Box::new(prim(Primitive::Number)));
    let b = Builder::new().commands(vec![command("stream", vec![("on_event", chan)], CommandResult::Unit)]);
    let doc = b.export_str(&ts()).unwrap();
    assert!(doc.contains("import { Channel as TAURI_CHANNEL } from \"@tauri-apps/api/core\";"));
    assert!(doc.contains("async stream(onEvent: TAURI_CHANNEL<number>) : Promise<void> {"));
    let plain = Builder::new().commands(vec![command("ping", vec![], CommandResult::Unit)]).export_str(&ts()).unwrap();
    assert!(!plain.contains("TAURI_CHANNEL"));
}

#[test]
fn two_types_with_one_name_are_rejected() {
    let mut other = wrapper_type();
    other.id = 2;
    other.location = "src/other.rs:9".to_string();
    match Builder::new().typ(wrapper_type()).typ(other).export_str(&ts()) {
        Err(ExportError::DuplicateTypeName(name, location)) => {
            assert_eq!(name, "Wrapper");
            assert_eq!(location, "src/other.rs:9");
        }
        other => panic!("unexpected {:?}", other),
    }
}

#[test]
fn constants_come_out_by_name() {
    let doc = Builder::new()
        .constant("B".to_string(), serde_json::Value::Null)
        .constant("A".to_string(), serde_json::Value::from(1))
        .export_str(&ts())
        .unwrap();
    assert!(doc.contains("/** user-defined constants **/\n\nexport const A = 1 as const;\nexport const B = null;\n\n"));
}

#[test]
fn events_come_out_by_name() {
    let mut b = Builder::new();
    b.try_register_event(1, "b-ev".to_string(), prim(Primitive::Str)).unwrap();
    b.try_register_event(2, "a-ev".to_string(), prim(Primitive::Number)).unwrap();
    assert_eq!(b.events[0].name, "a-ev");
    let doc = b.export_str(&ts()).unwrap();
    assert!(doc.contains("__makeEvents__<{\naEv: number,\nbEv: string\n}>({\naEv: \"a-ev\",\nbEv: \"b-ev\"\n})"));
    let bulk = Builder::new()
        .try_events(vec![(1, "b-ev".to_string(), prim(Primitive::Str)), (2, "a-ev".to_string(), prim(Primitive::Str))])
        .unwrap();
    assert_eq!(bulk.events[0].name, "a-ev");
    assert_eq!(bulk.events[1].name, "b-ev");
}

#[test]
fn globals_section_label() {
    let doc = Builder::new().export_str(&ts()).unwrap();
    assert!(doc.contains("/** tauri-specta globals **/"));
}

#[test]
fn registration_with_free_keys() {
    let mut b = Builder::new();
    b.register_event(1, "demo-event".to_string(), prim(Primitive::Str));
    let bulk = Builder::new().events(vec![(2, "x".to_string(), prim(Primitive::Str)), (3, "w".to_string(), prim(Primitive::Str))]);
    assert_eq!(bulk.events[0].name, "w");
    let mut registry = EventRegistry::new();
    b.mount_events(&mut registry);
    assert_eq!(registry.get_event_name(1, "demo-event"), "demo-event");
}
