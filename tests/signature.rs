use tauri_specta::datatype::{Primitive, TypeDescription};
use tauri_specta::js_ts::CommandResult;
use tauri_specta::typed_command::{
    export_command_datatype, TypedCommandArg, TypedCommandArgAppHandleMarker, TypedCommandArgDeserializeMarker,
    TypedCommandArgStateMarker, TypedCommandArgWindowMarker, TypedCommandResult, TypedCommandResultFuture,
    TypedCommandResultResult, TypedCommandResultSerialize,
};

fn prim(p: Primitive) -> TypeDescription {
    TypeDescription::Primitive(p)
}

fn serialize(t: TypeDescription) -> TypedCommandResult {
    TypedCommandResult::Serialize(TypedCommandResultSerialize { ty: t })
}

#[test]
fn injected_parameters_are_not_exported() {
    let c = export_command_datatype(
        "eleven".to_string(),
        vec![
            ("state".to_string(), TypedCommandArg::State(TypedCommandArgStateMarker)),
            ("a".to_string(), TypedCommandArg::Deserialize(TypedCommandArgDeserializeMarker { ty: prim(Primitive::Str) })),
            ("window".to_string(), TypedCommandArg::Window(TypedCommandArgWindowMarker)),
            ("b".to_string(), TypedCommandArg::Deserialize(TypedCommandArgDeserializeMarker { ty: prim(Primitive::Number) })),
            ("app".to_string(), TypedCommandArg::AppHandle(TypedCommandArgAppHandleMarker)),
        ],
        serialize(prim(Primitive::Str)),
        String::new(),
        None,
    );
    assert_eq!(c.name, "eleven");
    assert_eq!(c.args.len(), 2);
    assert_eq!(c.args[0].name, "a");
    assert_eq!(c.args[1].name, "b");
    assert!(matches!(c.args[1].ty, TypeDescription::Primitive(Primitive::Number)));
    assert!(matches!(c.result, CommandResult::Value(TypeDescription::Primitive(Primitive::Str))));
}

#[test]
fn async_result_is_fallible() {
    let r = TypedCommandResult::Future(TypedCommandResultFuture {
        output: Box::new(TypedCommandResult::Result(TypedCommandResultResult {
            ok: Box::new(serialize(prim(Primitive::Str))),
            err: prim(Primitive::Number),
        })),
    });
    let c = export_command_datatype("four".to_string(), vec![], r, "docs".to_string(), Some("old".to_string()));
    assert!(matches!(
        c.result,
        CommandResult::Fallible(TypeDescription::Primitive(Primitive::Str), TypeDescription::Primitive(Primitive::Number))
    ));
    assert_eq!(c.docs, "docs");
    assert_eq!(c.deprecated, Some("old".to_string()));
}

#[test]
fn async_value_is_plain() {
    let r = TypedCommandResult::Future(TypedCommandResultFuture { output: Box::new(serialize(prim(Primitive::Bool))) });
    let c = export_command_datatype("three".to_string(), vec![], r, String::new(), None);
    assert!(matches!(c.result, CommandResult::Value(TypeDescription::Primitive(Primitive::Bool))));
}
