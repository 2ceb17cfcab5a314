//! From the reflected signature of a backend function to the command that the
//! bindings export: parameters that the runtime injects are left out, and
//! `Result`s and futures are unwrapped.
use vstd::prelude::*;

use crate::datatype::TypeDescription;
use crate::js_ts::{Arg, Command, CommandResult};

verus! {

/// A parameter filled with the window that made the call.
#[derive(Debug)]
pub struct TypedCommandArgWindowMarker;

/// A parameter filled from the runtime's managed state.
#[derive(Debug)]
pub struct TypedCommandArgStateMarker;

/// A parameter filled with the application handle.
#[derive(Debug)]
pub struct TypedCommandArgAppHandleMarker;

/// A parameter deserialized from the invocation payload.
#[derive(Debug)]
pub struct TypedCommandArgDeserializeMarker {
    pub ty: TypeDescription,
}

/// How a parameter of a backend function is filled.
#[derive(Debug)]
pub enum TypedCommandArg {
    Window(TypedCommandArgWindowMarker),
    State(TypedCommandArgStateMarker),
    AppHandle(TypedCommandArgAppHandleMarker),
    Deserialize(TypedCommandArgDeserializeMarker),
}

/// A return value serialized as it is.
#[derive(Debug)]
pub struct TypedCommandResultSerialize {
    pub ty: TypeDescription,
}

/// A `Result` whose success is `ok` and whose error has type `err`.
#[derive(Debug)]
pub struct TypedCommandResultResult {
    pub ok: Box<TypedCommandResult>,
    pub err: TypeDescription,
}

/// A future that resolves to `output`.
#[derive(Debug)]
pub struct TypedCommandResultFuture {
    pub output: Box<TypedCommandResult>,
}

/// What a backend function returns.
#[derive(Debug)]
pub enum TypedCommandResult {
    Serialize(TypedCommandResultSerialize),
    Result(TypedCommandResultResult),
    Future(TypedCommandResultFuture),
}

/// The type of the value that a successful call hands back.
pub open spec fn value_type(r: TypedCommandResult) -> TypeDescription
    decreases r,
{
    match r {
        TypedCommandResult::Serialize(s) => s.ty,
        TypedCommandResult::Result(x) => value_type(*x.ok),
        TypedCommandResult::Future(f) => value_type(*f.output),
    }
}

/// The exported result: a `Result` at the outside, under any futures, is fallible.
pub open spec fn result_kind(r: TypedCommandResult) -> CommandResult
    decreases r,
{
    match r {
        TypedCommandResult::Serialize(s) => CommandResult::Value(s.ty),
        TypedCommandResult::Result(x) => CommandResult::Fallible(value_type(*x.ok), x.err),
        TypedCommandResult::Future(f) => result_kind(*f.output),
    }
}

pub fn into_value_type(r: TypedCommandResult) -> (t: TypeDescription)
    ensures
        t == value_type(r),
    decreases r,
{
    match r {
        TypedCommandResult::Serialize(s) => s.ty,
        TypedCommandResult::Result(x) => into_value_type(*x.ok),
        TypedCommandResult::Future(f) => into_value_type(*f.output),
    }
}

/// The exported form of a backend function's result.
pub fn to_command_result(r: TypedCommandResult) -> (c: CommandResult)
    ensures
        c == result_kind(r),
    decreases r,
{
    match r {
        TypedCommandResult::Serialize(s) => CommandResult::Value(s.ty),
        TypedCommandResult::Result(x) => CommandResult::Fallible(into_value_type(*x.ok), x.err),
        TypedCommandResult::Future(f) => to_command_result(*f.output),
    }
}

/// The parameters that the invocation payload carries, in order.
pub open spec fn payload_args(params: Seq<(String, TypedCommandArg)>) -> Seq<Arg>
    decreases params.len(),
{
    if params.len() == 0 {
        Seq::empty()
    } else {
        let prev = payload_args(params.subrange(0, params.len() - 1));
        match params[params.len() - 1].1 {
            TypedCommandArg::Deserialize(m) => prev.push(Arg { name: params[params.len() - 1].0, ty: m.ty }),
            _ => prev,
        }
    }
}

/// The command exported for a backend function named `name` with the given
/// parameters and result.
pub fn export_command_datatype(
    name: String,
    params: Vec<(String, TypedCommandArg)>,
    result: TypedCommandResult,
    docs: String,
    deprecated: Option<String>,
) -> (c: Command)
    ensures
        c.name == name,
        c.args@ == payload_args(params@),
        c.result == result_kind(result),
        c.docs == docs,
        c.deprecated == deprecated,
{
    let ghost input = params@;
    let mut rest = params;
    let mut args: Vec<Arg> = Vec::new();
    assert(input.subrange(0, 0) =~= Seq::<(String, TypedCommandArg)>::empty());
    assert(input.subrange(0, input.len() as int) =~= input);
    while rest.len() > 0
        invariant
            input == params@,
            rest.len() <= input.len(),
            rest@ == input.subrange(input.len() - rest.len(), input.len() as int),
            args@ == payload_args(input.subrange(0, input.len() - rest.len())),
        decreases rest.len(),
    {
        let ghost k = input.len() - rest.len();
        let (n, p) = rest.remove(0);
        assert(input[k] == (n, p));
        assert(input.subrange(0, k + 1).subrange(0, k) =~= input.subrange(0, k));
        match p {
            TypedCommandArg::Deserialize(m) => {
                args.push(Arg { name: n, ty: m.ty });
            },
            _ => {},
        }
    }
    Command { name, args, result: to_command_result(result), docs, deprecated }
}

} // verus!
