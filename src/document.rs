//! The sections of the bindings document and their assembly.
use vstd::prelude::*;

use crate::builder::{Constant, Event};
use crate::datatype::{
    find_type, has_channel, lemma_generic_instantiation, render_type, text_of, ty_text, uses_channel, ExportError,
    NamedType, TypeDescription,
};
use crate::js_ts::{
    arg_names_of, arg_types_text, lemma_wrapper_generic_argument, base_doc_lines, base_docs, command_text, doc_comment, doc_text, entries_text,
    function_text, invoke_text, join, joined, locals_of, render_command, result_tuple_text, strs, ts_arg_defs,
    usages_text, Command, CommandResult, Dialect,
};
use crate::naming::{lower_camel_of, opt_view, wire_name, wire_name_of, ItemType};
use crate::ErrorHandlingMode;

verus! {

/// The target of an export: a dialect and a header placed above everything else.
#[derive(Debug)]
pub struct Language {
    pub dialect: Dialect,
    pub header: String,
}

pub const BANNER: &'static str = "// Bindings for the backend's commands and events. Do not edit this file manually.";

pub const INVOKE_IMPORT: &'static str = "import { invoke as TAURI_INVOKE } from \"@tauri-apps/api/core\";\n";

pub const CHANNEL_IMPORT: &'static str = "import { Channel as TAURI_CHANNEL } from \"@tauri-apps/api/core\";\n";

pub const EVENT_IMPORT: &'static str = "import * as TAURI_API_EVENT from \"@tauri-apps/api/event\";\n";

pub const RESULT_HELPER_TS: &'static str = "export type Result<T, E> =\n  | { status: \"ok\"; data: T }\n  | { status: \"error\"; error: E };\n\nasync function __resultOf__<T, E>(call: () => Promise<T>): Promise<Result<T, E>> {\n    try {\n        return { status: \"ok\", data: await call() };\n    } catch (e) {\n        if (e instanceof Error) throw e;\n        else return { status: \"error\", error: e as any };\n    }\n}\n";

pub const RESULT_HELPER_JS: &'static str = "async function __resultOf__(call) {\n    try {\n        return { status: \"ok\", data: await call() };\n    } catch (e) {\n        if (e instanceof Error) throw e;\n        else return { status: \"error\", error: e };\n    }\n}\n";

pub const EVENTS_HELPER_TS: &'static str = "type __EventObj__<T> = {\n    listen: (cb: TAURI_API_EVENT.EventCallback<T>) => ReturnType<typeof TAURI_API_EVENT.listen<T>>;\n    once: (cb: TAURI_API_EVENT.EventCallback<T>) => ReturnType<typeof TAURI_API_EVENT.once<T>>;\n    emit: (payload: T) => ReturnType<typeof TAURI_API_EVENT.emit>;\n};\n\nfunction __makeEvents__<T extends Record<string, any>>(mappings: Record<keyof T, string>) {\n    return new Proxy({} as unknown as { [K in keyof T]: __EventObj__<T[K]> }, {\n        get: (_, event) => {\n            const name = mappings[event as keyof T];\n            return {\n                listen: (arg: any) => TAURI_API_EVENT.listen(name, arg),\n                once: (arg: any) => TAURI_API_EVENT.once(name, arg),\n                emit: (arg: any) => TAURI_API_EVENT.emit(name, arg),\n            };\n        },\n    });\n}\n";

pub const EVENTS_HELPER_JS: &'static str = "function __makeEvents__(mappings) {\n    return new Proxy({}, {\n        get: (_, event) => {\n            const name = mappings[event];\n            return {\n                listen: (arg) => TAURI_API_EVENT.listen(name, arg),\n                once: (arg) => TAURI_API_EVENT.once(name, arg),\n                emit: (arg) => TAURI_API_EVENT.emit(name, arg),\n            };\n        },\n    });\n}\n";

/// The identifiers that the generated runtime helpers take.
pub open spec fn is_reserved(n: Seq<char>) -> bool {
    n == "TAURI_INVOKE"@ || n == "TAURI_CHANNEL"@ || n == "TAURI_API_EVENT"@ || n == "Channel"@ || n == "Result"@ || n
        == "__makeEvents__"@ || n == "__typedMakeEvents__"@ || n == "__EventObj__"@ || n == "__resultOf__"@
}

fn reserved(n: &String) -> (r: bool)
    ensures
        r == is_reserved(n@),
{
    *n == String::from_str("TAURI_INVOKE") || *n == String::from_str("TAURI_CHANNEL") || *n == String::from_str("TAURI_API_EVENT") || *n == String::from_str(
        "Channel",
    ) || *n == String::from_str("Result") || *n == String::from_str("__makeEvents__") || *n == String::from_str(
        "__typedMakeEvents__",
    ) || *n == String::from_str("__EventObj__") || *n == String::from_str("__resultOf__")
}

/// The index of the first type whose name is reserved, or -1.
pub open spec fn first_reserved(ts: Seq<NamedType>) -> int
    decreases ts.len(),
{
    if ts.len() == 0 {
        -1
    } else {
        let r = first_reserved(ts.subrange(0, ts.len() - 1));
        if r >= 0 {
            r
        } else if is_reserved(ts[ts.len() - 1].name@) {
            ts.len() - 1
        } else {
            -1
        }
    }
}

proof fn lemma_first_reserved_stays(ts: Seq<NamedType>, i: int, n: int)
    requires
        0 < i <= n <= ts.len(),
        first_reserved(ts.subrange(0, i)) >= 0,
    ensures
        first_reserved(ts.subrange(0, n)) == first_reserved(ts.subrange(0, i)),
    decreases n - i,
{
    if n > i {
        lemma_first_reserved_stays(ts, i, n - 1);
        assert(ts.subrange(0, n).subrange(0, n - 1) =~= ts.subrange(0, n - 1));
    }
}

pub proof fn lemma_first_reserved_bounds(ts: Seq<NamedType>)
    ensures
        -1 <= first_reserved(ts) < ts.len(),
        first_reserved(ts) >= 0 ==> is_reserved(ts[first_reserved(ts)].name@),
        forall|j: int| 0 <= j < ts.len() && (first_reserved(ts) < 0 || j < first_reserved(ts)) ==> !is_reserved(
            #[trigger] ts[j].name@,
        ),
    decreases ts.len(),
{
    if ts.len() > 0 {
        let p = ts.subrange(0, ts.len() - 1);
        lemma_first_reserved_bounds(p);
        assert forall|j: int|
            0 <= j < ts.len() && (first_reserved(ts) < 0 || j < first_reserved(ts)) implies !is_reserved(
            #[trigger] ts[j].name@,
        ) by {
            if j < ts.len() - 1 {
                assert(ts[j] == p[j]);
            }
        }
    }
}

/// Finds the first named type that takes a reserved name.
pub fn detect_reserved_name_collision(ts: &Vec<NamedType>) -> (r: Option<ExportError>)
    ensures
        match r {
            Some(e) => first_reserved(ts@) >= 0 && e == ExportError::ReservedName(
                ts@[first_reserved(ts@)].name,
                ts@[first_reserved(ts@)].location,
            ),
            None => first_reserved(ts@) == -1,
        },
{
    proof {
        lemma_first_reserved_bounds(ts@);
    }
    let mut i: usize = 0;
    assert(ts@.subrange(0, 0) =~= Seq::<NamedType>::empty());
    while i < ts.len()
        invariant
            i <= ts.len(),
            first_reserved(ts@.subrange(0, i as int)) == -1,
        decreases ts.len() - i,
    {
        assert(ts@.subrange(0, i + 1).subrange(0, i as int) =~= ts@.subrange(0, i as int));
        if reserved(&ts[i].name) {
            proof {
                lemma_first_reserved_stays(ts@, i + 1, ts.len() as int);
                assert(ts@.subrange(0, ts.len() as int) =~= ts@);
            }
            return Some(ExportError::ReservedName(ts[i].name.clone(), ts[i].location.clone()));
        }
        i += 1;
    }
    assert(ts@.subrange(0, ts.len() as int) =~= ts@);
    None
}

/// Wraps a list of rendered items: `before`, the items joined by `sep`, `after`.
pub open spec fn lift(r: Result<Seq<Seq<char>>, ExportError>, before: Seq<char>, sep: Seq<char>, after: Seq<char>) -> Result<
    Seq<char>,
    ExportError,
> {
    match r {
        Ok(l) => Ok(before + joined(l, sep) + after),
        Err(e) => Err(e),
    }
}

/// The wrappers of the first `n` commands, or the first fault.
pub open spec fn commands_list(
    reg: Seq<NamedType>,
    plugin_name: Option<Seq<char>>,
    cmds: Seq<Command>,
    n: int,
    dialect: Dialect,
    mode: ErrorHandlingMode,
) -> Result<Seq<Seq<char>>, ExportError>
    decreases n,
{
    if n <= 0 || n > cmds.len() {
        Ok(Seq::empty())
    } else {
        match commands_list(reg, plugin_name, cmds, n - 1, dialect, mode) {
            Err(e) => Err(e),
            Ok(p) => match command_text(
                reg,
                plugin_name,
                cmds[n - 1],
                lower_camel_of(cmds[n - 1].name@),
                locals_of(cmds[n - 1].args@),
                dialect,
                mode,
            ) {
                Err(e) => Err(e),
                Ok(x) => Ok(p.push(x)),
            },
        }
    }
}

proof fn lemma_commands_fault_stays(
    reg: Seq<NamedType>,
    plugin_name: Option<Seq<char>>,
    cmds: Seq<Command>,
    i: int,
    n: int,
    dialect: Dialect,
    mode: ErrorHandlingMode,
)
    requires
        0 < i <= n <= cmds.len(),
        commands_list(reg, plugin_name, cmds, i, dialect, mode) is Err,
    ensures
        commands_list(reg, plugin_name, cmds, n, dialect, mode) == commands_list(
            reg,
            plugin_name,
            cmds,
            i,
            dialect,
            mode,
        ),
    decreases n - i,
{
    if n > i {
        lemma_commands_fault_stays(reg, plugin_name, cmds, i, n - 1, dialect, mode);
    }
}

pub open spec fn commands_section(
    reg: Seq<NamedType>,
    plugin_name: Option<Seq<char>>,
    cmds: Seq<Command>,
    dialect: Dialect,
    mode: ErrorHandlingMode,
) -> Result<Seq<char>, ExportError> {
    lift(
        commands_list(reg, plugin_name, cmds, cmds.len() as int, dialect, mode),
        "export const commands = {\n"@,
        ",\n"@,
        "\n}"@,
    )
}

/// Renders the `commands` object.
pub fn render_commands(
    reg: &Vec<NamedType>,
    plugin_name: &Option<String>,
    cmds: &Vec<Command>,
    dialect: Dialect,
    mode: ErrorHandlingMode,
) -> (r: Result<String, ExportError>)
    ensures
        text_of(r) == commands_section(reg@, opt_view(*plugin_name), cmds@, dialect, mode),
{
    let mut v: Vec<String> = Vec::new();
    let mut i: usize = 0;
    assert(strs(v@) =~= Seq::<Seq<char>>::empty());
    while i < cmds.len()
        invariant
            i <= cmds.len(),
            commands_list(reg@, opt_view(*plugin_name), cmds@, i as int, dialect, mode) == Ok::<
                Seq<Seq<char>>,
                ExportError,
            >(strs(v@)),
        decreases cmds.len() - i,
    {
        match render_command(reg, plugin_name, &cmds[i], dialect, mode) {
            Err(e) => {
                proof {
                    lemma_commands_fault_stays(
                        reg@,
                        opt_view(*plugin_name),
                        cmds@,
                        i + 1,
                        cmds.len() as int,
                        dialect,
                        mode,
                    );
                }
                return Err(e);
            },
            Ok(x) => {
                let ghost old_v = v@;
                v.push(x);
                assert(strs(v@) =~= strs(old_v).push(x@));
            },
        }
        i += 1;
    }
    let mut s = String::from_str("export const commands = {\n");
    s.append(join(&v, ",\n").as_str());
    s.append("\n}");
    Ok(s)
}

/// `<key>: <payload type>` for the first `n` events, or the first fault.
pub open spec fn event_types_list(reg: Seq<NamedType>, events: Seq<Event>, n: int) -> Result<
    Seq<Seq<char>>,
    ExportError,
>
    decreases n,
{
    if n <= 0 || n > events.len() {
        Ok(Seq::empty())
    } else {
        match event_types_list(reg, events, n - 1) {
            Err(e) => Err(e),
            Ok(p) => match ty_text(reg, events[n - 1].payload) {
                Err(e) => Err(e),
                Ok(x) => Ok(p.push(events[n - 1].display@ + ": "@ + x)),
            },
        }
    }
}

proof fn lemma_event_types_fault_stays(reg: Seq<NamedType>, events: Seq<Event>, i: int, n: int)
    requires
        0 < i <= n <= events.len(),
        event_types_list(reg, events, i) is Err,
    ensures
        event_types_list(reg, events, n) == event_types_list(reg, events, i),
    decreases n - i,
{
    if n > i {
        lemma_event_types_fault_stays(reg, events, i, n - 1);
    }
}

pub fn events_types(reg: &Vec<NamedType>, events: &Vec<Event>) -> (r: Result<Vec<String>, ExportError>)
    ensures
        match r {
            Ok(v) => event_types_list(reg@, events@, events.len() as int) == Ok::<Seq<Seq<char>>, ExportError>(
                strs(v@),
            ),
            Err(e) => event_types_list(reg@, events@, events.len() as int) == Err::<
                Seq<Seq<char>>,
                ExportError,
            >(e),
        },
{
    let mut v: Vec<String> = Vec::new();
    let mut i: usize = 0;
    assert(strs(v@) =~= Seq::<Seq<char>>::empty());
    while i < events.len()
        invariant
            i <= events.len(),
            event_types_list(reg@, events@, i as int) == Ok::<Seq<Seq<char>>, ExportError>(strs(v@)),
        decreases events.len() - i,
    {
        match render_type(reg, &events[i].payload) {
            Err(e) => {
                proof {
                    lemma_event_types_fault_stays(reg@, events@, i + 1, events.len() as int);
                }
                return Err(e);
            },
            Ok(x) => {
                let mut entry = events[i].display.clone();
                entry.append(": ");
                entry.append(x.as_str());
                let ghost old_v = v@;
                v.push(entry);
                assert(strs(v@) =~= strs(old_v).push(entry@));
            },
        }
        i += 1;
    }
    Ok(v)
}

/// `<key>: "<wire name>"` for each event.
pub open spec fn event_map_entries(plugin_name: Option<Seq<char>>, events: Seq<Event>) -> Seq<Seq<char>> {
    Seq::new(
        events.len(),
        |i: int| events[i].display@ + ": \""@ + wire_name_of(plugin_name, events[i].name@, ItemType::Event) + "\""@,
    )
}

pub fn events_map(plugin_name: &Option<String>, events: &Vec<Event>) -> (r: Vec<String>)
    ensures
        strs(r@) == event_map_entries(opt_view(*plugin_name), events@),
{
    let mut v: Vec<String> = Vec::new();
    let mut i: usize = 0;
    while i < events.len()
        invariant
            i <= events.len(),
            strs(v@) =~= event_map_entries(opt_view(*plugin_name), events@).subrange(0, i as int),
        decreases events.len() - i,
    {
        let mut entry = events[i].display.clone();
        entry.append(": \"");
        let w = wire_name(plugin_name, events[i].name.as_str(), ItemType::Event);
        entry.append(w.as_str());
        entry.append("\"");
        let ghost old_v = v@;
        v.push(entry);
        assert(strs(v@) =~= strs(old_v).push(entry@));
        i += 1;
    }
    v
}

/// The payload type entries and the joined name entries of the events.
pub fn events_data(reg: &Vec<NamedType>, plugin_name: &Option<String>, events: &Vec<Event>) -> (r: Result<
    (Vec<String>, String),
    ExportError,
>)
    ensures
        match r {
            Ok((types, map)) => event_types_list(reg@, events@, events.len() as int) == Ok::<
                Seq<Seq<char>>,
                ExportError,
            >(strs(types@)) && map@ == joined(event_map_entries(opt_view(*plugin_name), events@), ",\n"@),
            Err(e) => event_types_list(reg@, events@, events.len() as int) == Err::<Seq<Seq<char>>, ExportError>(
                e,
            ),
        },
{
    let types = match events_types(reg, events) {
        Err(e) => return Err(e),
        Ok(t) => t,
    };
    Ok((types, join(&events_map(plugin_name, events), ",\n")))
}

/// The `events` object: nothing when no event is registered.
pub open spec fn events_section(
    reg: Seq<NamedType>,
    plugin_name: Option<Seq<char>>,
    events: Seq<Event>,
    dialect: Dialect,
) -> Result<Seq<char>, ExportError> {
    if events.len() == 0 {
        Ok(Seq::empty())
    } else {
        match event_types_list(reg, events, events.len() as int) {
            Err(e) => Err(e),
            Ok(types) => {
                let map = joined(event_map_entries(plugin_name, events), ",\n"@);
                Ok(
                    match dialect {
                        Dialect::Typescript => "export const events = __makeEvents__<{\n"@ + joined(
                            types,
                            ",\n"@,
                        ) + "\n}>({\n"@ + map + "\n})"@,
                        Dialect::JSDoc => doc_text(
                            seq!["@type {typeof __makeEvents__<{ "@ + joined(types, ", "@) + " }>}"@],
                        ) + "const __typedMakeEvents__ = __makeEvents__;\nexport const events = __typedMakeEvents__({\n"@
                            + map + "\n})"@,
                    },
                )
            },
        }
    }
}

pub fn render_events(reg: &Vec<NamedType>, plugin_name: &Option<String>, events: &Vec<Event>, dialect: Dialect) -> (r:
    Result<String, ExportError>)
    ensures
        text_of(r) == events_section(reg@, opt_view(*plugin_name), events@, dialect),
{
    if events.len() == 0 {
        return Ok(String::new());
    }
    let (types, map) = match events_data(reg, plugin_name, events) {
        Err(e) => return Err(e),
        Ok(d) => d,
    };
    match dialect {
        Dialect::Typescript => {
            let mut s = String::from_str("export const events = __makeEvents__<{\n");
            s.append(join(&types, ",\n").as_str());
            s.append("\n}>({\n");
            s.append(map.as_str());
            s.append("\n})");
            Ok(s)
        },
        Dialect::JSDoc => {
            let mut line = String::from_str("@type {typeof __makeEvents__<{ ");
            line.append(join(&types, ", ").as_str());
            line.append(" }>}");
            let lines = vec![line];
            assert(strs(lines@) =~= seq![line@]);
            let mut s = doc_comment(&lines);
            s.append("const __typedMakeEvents__ = __makeEvents__;\nexport const events = __typedMakeEvents__({\n");
            s.append(map.as_str());
            s.append("\n})");
            Ok(s)
        },
    }
}

/// `export const <name> = <json>;` for the first `n` constants, marked
/// `as const` when `as_const` holds and the value is not null.
pub open spec fn constants_list(cs: Seq<Constant>, n: int, as_const: bool) -> Result<Seq<Seq<char>>, ExportError>
    decreases n,
{
    if n <= 0 || n > cs.len() {
        Ok(Seq::empty())
    } else {
        match constants_list(cs, n - 1, as_const) {
            Err(e) => Err(e),
            Ok(p) => match cs[n - 1].json {
                None => Err(ExportError::ConstantSerialization(cs[n - 1].name)),
                Some(j) => Ok(
                    p.push(
                        "export const "@ + cs[n - 1].name@ + " = "@ + j@ + (if as_const && !cs[n - 1].is_null {
                            " as const"@
                        } else {
                            Seq::empty()
                        }) + ";"@,
                    ),
                ),
            },
        }
    }
}

proof fn lemma_constants_fault_stays(cs: Seq<Constant>, i: int, n: int, as_const: bool)
    requires
        0 < i <= n <= cs.len(),
        constants_list(cs, i, as_const) is Err,
    ensures
        constants_list(cs, n, as_const) == constants_list(cs, i, as_const),
    decreases n - i,
{
    if n > i {
        lemma_constants_fault_stays(cs, i, n - 1, as_const);
    }
}

pub open spec fn constants_section(cs: Seq<Constant>, dialect: Dialect) -> Result<Seq<char>, ExportError> {
    lift(constants_list(cs, cs.len() as int, dialect == Dialect::Typescript), Seq::empty(), "\n"@, Seq::empty())
}

pub fn render_constants(cs: &Vec<Constant>, dialect: Dialect) -> (r: Result<String, ExportError>)
    ensures
        text_of(r) == constants_section(cs@, dialect),
{
    proof {
        reveal_strlit("");
    }
    let as_const = dialect == Dialect::Typescript;
    let mut v: Vec<String> = Vec::new();
    let mut i: usize = 0;
    assert(strs(v@) =~= Seq::<Seq<char>>::empty());
    while i < cs.len()
        invariant
            i <= cs.len(),
            as_const == (dialect == Dialect::Typescript),
            constants_list(cs@, i as int, as_const) == Ok::<Seq<Seq<char>>, ExportError>(strs(v@)),
        decreases cs.len() - i,
    {
        let c = &cs[i];
        match &c.json {
            None => {
                proof {
                    lemma_constants_fault_stays(cs@, i + 1, cs.len() as int, as_const);
                }
                return Err(ExportError::ConstantSerialization(c.name.clone()));
            },
            Some(j) => {
                let mut line = String::from_str("export const ");
                line.append(c.name.as_str());
                line.append(" = ");
                line.append(j.as_str());
                if as_const && !c.is_null {
                    line.append(" as const");
                }
                line.append(";");
                let ghost old_v = v@;
                v.push(line);
                assert(strs(v@) =~= strs(old_v).push(line@));
            },
        }
        i += 1;
    }
    Ok(join(&v, "\n"))
}

/// `<T, U>` for generic parameters, nothing without them.
pub open spec fn generics_text(gs: Seq<Seq<char>>) -> Seq<char> {
    if gs.len() == 0 {
        Seq::empty()
    } else {
        "<"@ + joined(gs, ", "@) + ">"@
    }
}

/// The declaration of a named type.
pub open spec fn decl_text(reg: Seq<NamedType>, nt: NamedType, dialect: Dialect) -> Result<Seq<char>, ExportError> {
    match ty_text(reg, nt.ty) {
        Err(e) => Err(e),
        Ok(t) => {
            let docs = base_doc_lines(nt.docs@, opt_view(nt.deprecated));
            let gs = strs(nt.generics@);
            Ok(
                match dialect {
                    Dialect::Typescript => doc_text(docs) + "export type "@ + nt.name@ + generics_text(gs) + " = "@
                        + t,
                    Dialect::JSDoc => doc_text(
                        docs + (if gs.len() == 0 {
                            Seq::empty()
                        } else {
                            seq!["@template "@ + joined(gs, ", "@)]
                        }) + seq!["@typedef { "@ + t + " } "@ + nt.name@],
                    ),
                },
            )
        },
    }
}

pub fn render_declaration(reg: &Vec<NamedType>, nt: &NamedType, dialect: Dialect) -> (r: Result<String, ExportError>)
    ensures
        text_of(r) == decl_text(reg@, *nt, dialect),
{
    proof {
        reveal_strlit("");
    }
    let t = match render_type(reg, &nt.ty) {
        Err(e) => return Err(e),
        Ok(t) => t,
    };
    let mut docs = base_docs(&nt.docs, &nt.deprecated);
    assert(strs(nt.generics@).len() == nt.generics.len());
    match dialect {
        Dialect::Typescript => {
            let mut s = doc_comment(&docs);
            let ghost head = s@;
            s.append("export type ");
            s.append(nt.name.as_str());
            if nt.generics.len() > 0 {
                s.append("<");
                s.append(join(&nt.generics, ", ").as_str());
                s.append(">");
            }
            s.append(" = ");
            s.append(t.as_str());
            assert(s@ =~= head + "export type "@ + nt.name@ + generics_text(strs(nt.generics@)) + " = "@ + t@);
            Ok(s)
        },
        Dialect::JSDoc => {
            let ghost base = strs(docs@);
            if nt.generics.len() > 0 {
                let mut l = String::from_str("@template ");
                l.append(join(&nt.generics, ", ").as_str());
                docs.push(l);
            }
            let ghost mid = strs(docs@);
            let mut l = String::from_str("@typedef { ");
            l.append(t.as_str());
            l.append(" } ");
            l.append(nt.name.as_str());
            docs.push(l);
            proof {
                assert(strs(docs@) =~= mid.push(l@));
                assert(strs(docs@) =~= base + (if strs(nt.generics@).len() == 0 {
                    Seq::empty()
                } else {
                    seq!["@template "@ + joined(strs(nt.generics@), ", "@)]
                }) + seq![l@]);
            }
            Ok(doc_comment(&docs))
        },
    }
}

/// The declarations of the first `n` named types, or the first fault.
pub open spec fn decls_list(reg: Seq<NamedType>, ts: Seq<NamedType>, n: int, dialect: Dialect) -> Result<
    Seq<Seq<char>>,
    ExportError,
>
    decreases n,
{
    if n <= 0 || n > ts.len() {
        Ok(Seq::empty())
    } else {
        match decls_list(reg, ts, n - 1, dialect) {
            Err(e) => Err(e),
            Ok(p) => match decl_text(reg, ts[n - 1], dialect) {
                Err(e) => Err(e),
                Ok(x) => Ok(p.push(x)),
            },
        }
    }
}

proof fn lemma_decls_fault_stays(reg: Seq<NamedType>, ts: Seq<NamedType>, i: int, n: int, dialect: Dialect)
    requires
        0 < i <= n <= ts.len(),
        decls_list(reg, ts, i, dialect) is Err,
    ensures
        decls_list(reg, ts, n, dialect) == decls_list(reg, ts, i, dialect),
    decreases n - i,
{
    if n > i {
        lemma_decls_fault_stays(reg, ts, i, n - 1, dialect);
    }
}

/// Every registered type, declared once, in registration order.
pub open spec fn types_section(reg: Seq<NamedType>, dialect: Dialect) -> Result<Seq<char>, ExportError> {
    lift(decls_list(reg, reg, reg.len() as int, dialect), Seq::empty(), "\n"@, Seq::empty())
}

pub fn render_types(reg: &Vec<NamedType>, dialect: Dialect) -> (r: Result<String, ExportError>)
    ensures
        text_of(r) == types_section(reg@, dialect),
{
    proof {
        reveal_strlit("");
    }
    let mut v: Vec<String> = Vec::new();
    let mut i: usize = 0;
    assert(strs(v@) =~= Seq::<Seq<char>>::empty());
    while i < reg.len()
        invariant
            i <= reg.len(),
            decls_list(reg@, reg@, i as int, dialect) == Ok::<Seq<Seq<char>>, ExportError>(strs(v@)),
        decreases reg.len() - i,
    {
        match render_declaration(reg, &reg[i], dialect) {
            Err(e) => {
                proof {
                    lemma_decls_fault_stays(reg@, reg@, i + 1, reg.len() as int, dialect);
                }
                return Err(e);
            },
            Ok(x) => {
                let ghost old_v = v@;
                v.push(x);
                assert(strs(v@) =~= strs(old_v).push(x@));
            },
        }
        i += 1;
    }
    Ok(join(&v, "\n"))
}

/// Whether some command can fail.
pub open spec fn has_fallible(cmds: Seq<Command>) -> bool {
    exists|i: int| 0 <= i < cmds.len() && #[trigger] cmds[i].result is Fallible
}

fn any_fallible(cmds: &Vec<Command>) -> (r: bool)
    ensures
        r == has_fallible(cmds@),
{
    let mut i: usize = 0;
    while i < cmds.len()
        invariant
            i <= cmds.len(),
            forall|j: int| 0 <= j < i ==> !(#[trigger] cmds@[j].result is Fallible),
        decreases cmds.len() - i,
    {
        if let CommandResult::Fallible(_, _) = &cmds[i].result {
            assert(cmds@[i as int].result is Fallible);
            return true;
        }
        i += 1;
    }
    false
}

/// Whether a channel occurs in an argument or in the result of `c`.
pub open spec fn command_uses_channel(c: Command) -> bool {
    (exists|j: int| 0 <= j < c.args.len() && uses_channel(#[trigger] c.args@[j].ty)) || match c.result {
        CommandResult::Unit => false,
        CommandResult::Value(t) => uses_channel(t),
        CommandResult::Fallible(t, e) => uses_channel(t) || uses_channel(e),
    }
}

/// Whether some command takes or returns a channel.
pub open spec fn commands_use_channel(cmds: Seq<Command>) -> bool {
    exists|i: int| 0 <= i < cmds.len() && command_uses_channel(#[trigger] cmds[i])
}

fn command_has_channel(c: &Command) -> (r: bool)
    ensures
        r == command_uses_channel(*c),
{
    let mut j: usize = 0;
    while j < c.args.len()
        invariant
            j <= c.args.len(),
            forall|k: int| 0 <= k < j ==> !uses_channel(#[trigger] c.args@[k].ty),
        decreases c.args.len() - j,
    {
        if has_channel(&c.args[j].ty) {
            return true;
        }
        j += 1;
    }
    match &c.result {
        CommandResult::Unit => false,
        CommandResult::Value(t) => has_channel(t),
        CommandResult::Fallible(t, e) => has_channel(t) || has_channel(e),
    }
}

fn any_channel(cmds: &Vec<Command>) -> (r: bool)
    ensures
        r == commands_use_channel(cmds@),
{
    let mut i: usize = 0;
    while i < cmds.len()
        invariant
            i <= cmds.len(),
            forall|k: int| 0 <= k < i ==> !command_uses_channel(#[trigger] cmds@[k]),
        decreases cmds.len() - i,
    {
        if command_has_channel(&cmds[i]) {
            return true;
        }
        i += 1;
    }
    false
}

/// The imports of the runtime: the invoke function when there are commands,
/// the channel class when a command uses one, the event module when there
/// are events.
pub open spec fn imports_text(has_commands: bool, has_channel: bool, has_events: bool) -> Seq<char> {
    (if has_commands {
        INVOKE_IMPORT@
    } else {
        Seq::empty()
    }) + (if has_channel {
        CHANNEL_IMPORT@
    } else {
        Seq::empty()
    }) + (if has_events {
        EVENT_IMPORT@
    } else {
        Seq::empty()
    })
}

/// The runtime helpers: the result helper when it is used, the event factory
/// when there are events.
pub open spec fn globals_text(dialect: Dialect, needs_result: bool, has_events: bool) -> Seq<char> {
    (if needs_result {
        match dialect {
            Dialect::Typescript => RESULT_HELPER_TS@,
            Dialect::JSDoc => RESULT_HELPER_JS@,
        }
    } else {
        Seq::empty()
    }) + (if has_events {
        match dialect {
            Dialect::Typescript => EVENTS_HELPER_TS@,
            Dialect::JSDoc => EVENTS_HELPER_JS@,
        }
    } else {
        Seq::empty()
    })
}

/// The sections in their fixed order.
pub open spec fn assemble(
    header: Seq<char>,
    imports: Seq<char>,
    commands: Seq<char>,
    events: Seq<char>,
    constants: Seq<char>,
    types: Seq<char>,
    globals: Seq<char>,
) -> Seq<char> {
    (if header.len() == 0 {
        Seq::empty()
    } else {
        header + "\n"@
    }) + BANNER@ + "\n"@ + imports + "\n/** user-defined commands **/\n\n"@ + commands
        + "\n\n/** user-defined events **/\n\n"@ + events + "\n\n/** user-defined constants **/\n\n"@ + constants
        + "\n\n/** user-defined types **/\n\n"@ + types + "\n\n/** tauri-specta globals **/\n\n"@ + globals
}

/// The bindings document for the given parts of a collection, or the first
/// fault: a reserved type name, a type name taken twice, then the commands, events, constants and
/// type declarations in that order.
pub open spec fn document_text(
    reg: Seq<NamedType>,
    plugin_name: Option<Seq<char>>,
    cmds: Seq<Command>,
    events: Seq<Event>,
    constants: Seq<Constant>,
    mode: ErrorHandlingMode,
    dialect: Dialect,
    header: Seq<char>,
) -> Result<Seq<char>, ExportError> {
    let k = first_reserved(reg);
    let d = first_duplicate(reg);
    if k >= 0 {
        Err(ExportError::ReservedName(reg[k].name, reg[k].location))
    } else if d >= 0 {
        Err(ExportError::DuplicateTypeName(reg[d].name, reg[d].location))
    } else {
        match commands_section(reg, plugin_name, cmds, dialect, mode) {
            Err(e) => Err(e),
            Ok(c) => match events_section(reg, plugin_name, events, dialect) {
                Err(e) => Err(e),
                Ok(ev) => match constants_section(constants, dialect) {
                    Err(e) => Err(e),
                    Ok(cs) => match types_section(reg, dialect) {
                        Err(e) => Err(e),
                        Ok(ts) => Ok(
                            assemble(
                                header,
                                imports_text(cmds.len() > 0, commands_use_channel(cmds), events.len() > 0),
                                c,
                                ev,
                                cs,
                                ts,
                                globals_text(
                                    dialect,
                                    mode == ErrorHandlingMode::Result && has_fallible(cmds),
                                    events.len() > 0,
                                ),
                            ),
                        ),
                    },
                },
            },
        }
    }
}

fn imports_part(has_commands: bool, has_channel: bool, has_events: bool) -> (r: String)
    ensures
        r@ == imports_text(has_commands, has_channel, has_events),
{
    proof {
        reveal_strlit("");
    }
    let mut s = String::new();
    if has_commands {
        s.append(INVOKE_IMPORT);
    }
    if has_channel {
        s.append(CHANNEL_IMPORT);
    }
    if has_events {
        s.append(EVENT_IMPORT);
    }
    s
}

fn globals_part(dialect: Dialect, needs_result: bool, has_events: bool) -> (r: String)
    ensures
        r@ == globals_text(dialect, needs_result, has_events),
{
    proof {
        reveal_strlit("");
    }
    let mut s = String::new();
    if needs_result {
        match dialect {
            Dialect::Typescript => s.append(RESULT_HELPER_TS),
            Dialect::JSDoc => s.append(RESULT_HELPER_JS),
        }
    }
    if has_events {
        match dialect {
            Dialect::Typescript => s.append(EVENTS_HELPER_TS),
            Dialect::JSDoc => s.append(EVENTS_HELPER_JS),
        }
    }
    s
}

fn assemble_parts(
    header: &String,
    imports: &String,
    commands: &String,
    events: &String,
    constants: &String,
    types: &String,
    globals: &String,
) -> (r: String)
    ensures
        r@ == assemble(header@, imports@, commands@, events@, constants@, types@, globals@),
{
    proof {
        reveal_strlit("");
    }
    let mut s = String::new();
    if header.as_str().unicode_len() > 0 {
        s.append(header.as_str());
        s.append("\n");
    }
    s.append(BANNER);
    s.append("\n");
    s.append(imports.as_str());
    s.append("\n/** user-defined commands **/\n\n");
    s.append(commands.as_str());
    s.append("\n\n/** user-defined events **/\n\n");
    s.append(events.as_str());
    s.append("\n\n/** user-defined constants **/\n\n");
    s.append(constants.as_str());
    s.append("\n\n/** user-defined types **/\n\n");
    s.append(types.as_str());
    s.append("\n\n/** tauri-specta globals **/\n\n");
    s.append(globals.as_str());
    s
}

/// A command that cannot fail renders the same in both error handling modes.
pub proof fn lemma_infallible_command_mode_independent(
    reg: Seq<NamedType>,
    plugin_name: Option<Seq<char>>,
    c: Command,
    name: Seq<char>,
    locals: Seq<Seq<char>>,
    dialect: Dialect,
)
    requires
        !(c.result is Fallible),
    ensures
        command_text(reg, plugin_name, c, name, locals, dialect, ErrorHandlingMode::Throw) == command_text(
            reg,
            plugin_name,
            c,
            name,
            locals,
            dialect,
            ErrorHandlingMode::Result,
        ),
{
}

proof fn lemma_commands_mode_independent(
    reg: Seq<NamedType>,
    plugin_name: Option<Seq<char>>,
    cmds: Seq<Command>,
    n: int,
    dialect: Dialect,
)
    requires
        !has_fallible(cmds),
    ensures
        commands_list(reg, plugin_name, cmds, n, dialect, ErrorHandlingMode::Throw) == commands_list(
            reg,
            plugin_name,
            cmds,
            n,
            dialect,
            ErrorHandlingMode::Result,
        ),
    decreases n,
{
    if 0 < n <= cmds.len() {
        lemma_commands_mode_independent(reg, plugin_name, cmds, n - 1, dialect);
        assert(!(cmds[n - 1].result is Fallible));
    }
}

/// Switching between the two error handling modes changes the document only
/// where a command can fail: without such a command the documents are equal;
/// with one, the runtime helpers differ exactly by the result helper, and a
/// fallible Typescript wrapper differs only in its declared return type and in
/// handing the invocation to that helper.
pub proof fn lemma_result_mode_switch(
    reg: Seq<NamedType>,
    plugin_name: Option<Seq<char>>,
    cmds: Seq<Command>,
    events: Seq<Event>,
    constants: Seq<Constant>,
    dialect: Dialect,
    header: Seq<char>,
    c: Command,
)
    ensures
        !has_fallible(cmds) ==> document_text(
            reg,
            plugin_name,
            cmds,
            events,
            constants,
            ErrorHandlingMode::Throw,
            dialect,
            header,
        ) == document_text(reg, plugin_name, cmds, events, constants, ErrorHandlingMode::Result, dialect, header),
        has_fallible(cmds) ==> globals_text(dialect, true, events.len() > 0) == (match dialect {
            Dialect::Typescript => RESULT_HELPER_TS@,
            Dialect::JSDoc => RESULT_HELPER_JS@,
        }) + globals_text(dialect, false, events.len() > 0),
        ({
            let locals = locals_of(c.args@);
            let name = lower_camel_of(c.name@);
            let invoke = invoke_text(
                wire_name_of(plugin_name, c.name@, ItemType::Command),
                usages_text(entries_text(arg_names_of(c.args@), locals)),
            );
            let docs = doc_text(base_doc_lines(c.docs@, opt_view(c.deprecated)));
            c.result is Fallible && arg_types_text(reg, c.args@, c.args.len() as int) is Ok && ty_text(
                reg,
                c.result->Fallible_0,
            ) is Ok && ty_text(reg, c.result->Fallible_1) is Ok ==> {
                let defs = ts_arg_defs(locals, arg_types_text(reg, c.args@, c.args.len() as int)->Ok_0);
                let ok = ty_text(reg, c.result->Fallible_0)->Ok_0;
                let err = ty_text(reg, c.result->Fallible_1)->Ok_0;
                &&& command_text(reg, plugin_name, c, name, locals, Dialect::Typescript, ErrorHandlingMode::Throw)
                    == Ok::<Seq<char>, ExportError>(
                    function_text(docs, name, defs, Some(ok), "return "@ + invoke + ";"@),
                )
                &&& command_text(reg, plugin_name, c, name, locals, Dialect::Typescript, ErrorHandlingMode::Result)
                    == Ok::<Seq<char>, ExportError>(
                    function_text(
                        docs,
                        name,
                        defs,
                        Some("Result<"@ + ok + ", "@ + err + ">"@),
                        result_tuple_text(invoke),
                    ),
                )
            }
        }),
{
    reveal_strlit("");
    if !has_fallible(cmds) {
        lemma_commands_mode_independent(reg, plugin_name, cmds, cmds.len() as int, dialect);
    }
    assert(Seq::<char>::empty() + globals_text(dialect, false, events.len() > 0) =~= globals_text(
        dialect,
        false,
        events.len() > 0,
    ));
}

/// Whether a type registered before position `j` has the name of the type at `j`.
pub open spec fn name_taken_before(ts: Seq<NamedType>, j: int) -> bool {
    exists|i: int| 0 <= i < j && #[trigger] ts[i].name@ == ts[j].name@
}

/// The index of the first type whose name an earlier type has, or -1.
pub open spec fn first_duplicate(ts: Seq<NamedType>) -> int
    decreases ts.len(),
{
    if ts.len() == 0 {
        -1
    } else {
        let r = first_duplicate(ts.subrange(0, ts.len() - 1));
        if r >= 0 {
            r
        } else if name_taken_before(ts, ts.len() - 1) {
            ts.len() - 1
        } else {
            -1
        }
    }
}

proof fn lemma_first_duplicate_stays(ts: Seq<NamedType>, i: int, n: int)
    requires
        0 < i <= n <= ts.len(),
        first_duplicate(ts.subrange(0, i)) >= 0,
    ensures
        first_duplicate(ts.subrange(0, n)) == first_duplicate(ts.subrange(0, i)),
    decreases n - i,
{
    if n > i {
        lemma_first_duplicate_stays(ts, i, n - 1);
        assert(ts.subrange(0, n).subrange(0, n - 1) =~= ts.subrange(0, n - 1));
    }
}

pub proof fn lemma_first_duplicate_bounds(ts: Seq<NamedType>)
    ensures
        -1 <= first_duplicate(ts) < ts.len(),
        first_duplicate(ts) >= 0 ==> name_taken_before(ts, first_duplicate(ts)),
    decreases ts.len(),
{
    if ts.len() > 0 {
        let p = ts.subrange(0, ts.len() - 1);
        lemma_first_duplicate_bounds(p);
        let r = first_duplicate(p);
        if r >= 0 {
            let i = choose|i: int| 0 <= i < r && #[trigger] p[i].name@ == p[r].name@;
            assert(ts[i] == p[i] && ts[r] == p[r]);
        }
    }
}

/// Finds the first named type whose name an earlier registered type has.
pub fn detect_duplicate_type_name(ts: &Vec<NamedType>) -> (r: Option<ExportError>)
    ensures
        match r {
            Some(e) => first_duplicate(ts@) >= 0 && e == ExportError::DuplicateTypeName(
                ts@[first_duplicate(ts@)].name,
                ts@[first_duplicate(ts@)].location,
            ),
            None => first_duplicate(ts@) == -1,
        },
{
    proof {
        lemma_first_duplicate_bounds(ts@);
    }
    let mut j: usize = 0;
    assert(ts@.subrange(0, 0) =~= Seq::<NamedType>::empty());
    while j < ts.len()
        invariant
            j <= ts.len(),
            first_duplicate(ts@.subrange(0, j as int)) == -1,
        decreases ts.len() - j,
    {
        let ghost p = ts@.subrange(0, j + 1);
        assert(p.subrange(0, j as int) =~= ts@.subrange(0, j as int));
        let mut i: usize = 0;
        while i < j
            invariant
                i <= j < ts.len(),
                p == ts@.subrange(0, j + 1),
                first_duplicate(ts@.subrange(0, j as int)) == -1,
                forall|k: int| 0 <= k < i ==> #[trigger] ts@[k].name@ != ts@[j as int].name@,
            decreases j - i,
        {
            if ts[i].name == ts[j].name {
                proof {
                    assert(p[i as int].name@ == p[j as int].name@);
                    assert(name_taken_before(p, j as int));
                    assert(p.subrange(0, j as int) =~= ts@.subrange(0, j as int));
                    assert(first_duplicate(p) == j as int);
                    assert(p == ts@.subrange(0, j + 1));
                    lemma_first_duplicate_stays(ts@, j + 1, ts.len() as int);
                    assert(ts@.subrange(0, ts.len() as int) =~= ts@);
                }
                return Some(ExportError::DuplicateTypeName(ts[j].name.clone(), ts[j].location.clone()));
            }
            i += 1;
        }
        proof {
            if name_taken_before(p, j as int) {
                let k = choose|k: int| 0 <= k < j && #[trigger] p[k].name@ == p[j as int].name@;
                assert(ts@[k].name@ == ts@[j as int].name@);
            }
        }
        j += 1;
    }
    assert(ts@.subrange(0, ts.len() as int) =~= ts@);
    None
}

/// The rendered commands list holds one wrapper per command, in order.
pub proof fn lemma_commands_list_elements(
    reg: Seq<NamedType>,
    plugin_name: Option<Seq<char>>,
    cmds: Seq<Command>,
    n: int,
    dialect: Dialect,
    mode: ErrorHandlingMode,
)
    requires
        0 <= n <= cmds.len(),
        commands_list(reg, plugin_name, cmds, n, dialect, mode) is Ok,
    ensures
        commands_list(reg, plugin_name, cmds, n, dialect, mode)->Ok_0.len() == n,
        forall|k: int|
            0 <= k < n ==> Ok::<Seq<char>, ExportError>(
                #[trigger] commands_list(reg, plugin_name, cmds, n, dialect, mode)->Ok_0[k],
            ) == command_text(
                reg,
                plugin_name,
                cmds[k],
                lower_camel_of(cmds[k].name@),
                locals_of(cmds[k].args@),
                dialect,
                mode,
            ),
    decreases n,
{
    if n > 0 {
        lemma_commands_list_elements(reg, plugin_name, cmds, n - 1, dialect, mode);
    }
}

/// Two Typescript wrappers whose arguments reference one generic named type
/// of one parameter, with the arguments `a` and `b`, each declare their own
/// instance: `Name<a>` at the first call site and `Name<b>` at the second,
/// and the two differ where `a` and `b` render differently.
pub proof fn lemma_generic_instances_in_commands(
    reg: Seq<NamedType>,
    plugin_name: Option<Seq<char>>,
    cmds: Seq<Command>,
    mode: ErrorHandlingMode,
    k1: int,
    i1: int,
    k2: int,
    i2: int,
    id: u64,
    a: TypeDescription,
    b: TypeDescription,
    args_a: Vec<TypeDescription>,
    args_b: Vec<TypeDescription>,
)
    requires
        commands_list(reg, plugin_name, cmds, cmds.len() as int, Dialect::Typescript, mode) is Ok,
        0 <= k1 < cmds.len(),
        0 <= k2 < cmds.len(),
        0 <= i1 < cmds[k1].args.len(),
        0 <= i2 < cmds[k2].args.len(),
        cmds[k1].args[i1].ty == TypeDescription::Reference(id, args_a),
        cmds[k2].args[i2].ty == TypeDescription::Reference(id, args_b),
        find_type(reg, id) >= 0,
        reg[find_type(reg, id)].generics.len() == 1,
        args_a@ == seq![a],
        args_b@ == seq![b],
        ty_text(reg, a) is Ok,
        ty_text(reg, b) is Ok,
    ensures
        ({
            let l = commands_list(reg, plugin_name, cmds, cmds.len() as int, Dialect::Typescript, mode)->Ok_0;
            let c1 = cmds[k1];
            let c2 = cmds[k2];
            let defs1 = ts_arg_defs(locals_of(c1.args@), arg_types_text(reg, c1.args@, c1.args.len() as int)->Ok_0);
            let defs2 = ts_arg_defs(locals_of(c2.args@), arg_types_text(reg, c2.args@, c2.args.len() as int)->Ok_0);
            let name = reg[find_type(reg, id)].name@;
            &&& Ok::<Seq<char>, ExportError>(l[k1]) == command_text(
                reg,
                plugin_name,
                c1,
                lower_camel_of(c1.name@),
                locals_of(c1.args@),
                Dialect::Typescript,
                mode,
            )
            &&& Ok::<Seq<char>, ExportError>(l[k2]) == command_text(
                reg,
                plugin_name,
                c2,
                lower_camel_of(c2.name@),
                locals_of(c2.args@),
                Dialect::Typescript,
                mode,
            )
            &&& defs1[i1] == lower_camel_of(c1.args[i1].name@) + ": "@ + name + "<"@ + ty_text(reg, a)->Ok_0 + ">"@
            &&& defs2[i2] == lower_camel_of(c2.args[i2].name@) + ": "@ + name + "<"@ + ty_text(reg, b)->Ok_0 + ">"@
            &&& ty_text(reg, a) != ty_text(reg, b) ==> ty_text(reg, TypeDescription::Reference(id, args_a))
                != ty_text(reg, TypeDescription::Reference(id, args_b))
        }),
{
    let n = cmds.len() as int;
    lemma_commands_list_elements(reg, plugin_name, cmds, n, Dialect::Typescript, mode);
    let l = commands_list(reg, plugin_name, cmds, n, Dialect::Typescript, mode)->Ok_0;
    assert(Ok::<Seq<char>, ExportError>(l[k1]) == command_text(
        reg,
        plugin_name,
        cmds[k1],
        lower_camel_of(cmds[k1].name@),
        locals_of(cmds[k1].args@),
        Dialect::Typescript,
        mode,
    ));
    assert(Ok::<Seq<char>, ExportError>(l[k2]) == command_text(
        reg,
        plugin_name,
        cmds[k2],
        lower_camel_of(cmds[k2].name@),
        locals_of(cmds[k2].args@),
        Dialect::Typescript,
        mode,
    ));
    lemma_wrapper_generic_argument(reg, plugin_name, cmds[k1], mode, i1, id, a, args_a);
    lemma_wrapper_generic_argument(reg, plugin_name, cmds[k2], mode, i2, id, b, args_b);
    lemma_generic_instantiation(reg, id, a, b, args_a, args_b);
}

/// One collection exported in both error handling modes, where both exports
/// succeed: the documents share header, imports, events, constants and type
/// declarations; their helpers differ exactly by the result helper, present in
/// Result mode when a command can fail; and their commands objects hold one
/// wrapper per command, equal for every command that cannot fail.
pub proof fn lemma_result_mode_document(
    reg: Seq<NamedType>,
    plugin_name: Option<Seq<char>>,
    cmds: Seq<Command>,
    events: Seq<Event>,
    constants: Seq<Constant>,
    dialect: Dialect,
    header: Seq<char>,
)
    requires
        document_text(reg, plugin_name, cmds, events, constants, ErrorHandlingMode::Throw, dialect, header) is Ok,
        document_text(reg, plugin_name, cmds, events, constants, ErrorHandlingMode::Result, dialect, header) is Ok,
    ensures
        ({
            let n = cmds.len() as int;
            let lt = commands_list(reg, plugin_name, cmds, n, dialect, ErrorHandlingMode::Throw)->Ok_0;
            let lr = commands_list(reg, plugin_name, cmds, n, dialect, ErrorHandlingMode::Result)->Ok_0;
            let ev = events_section(reg, plugin_name, events, dialect)->Ok_0;
            let cs = constants_section(constants, dialect)->Ok_0;
            let ts = types_section(reg, dialect)->Ok_0;
            let imports = imports_text(cmds.len() > 0, commands_use_channel(cmds), events.len() > 0);
            let g = globals_text(dialect, false, events.len() > 0);
            &&& document_text(reg, plugin_name, cmds, events, constants, ErrorHandlingMode::Throw, dialect, header)
                == Ok::<Seq<char>, ExportError>(
                assemble(header, imports, "export const commands = {\n"@ + joined(lt, ",\n"@) + "\n}"@, ev, cs, ts, g),
            )
            &&& document_text(reg, plugin_name, cmds, events, constants, ErrorHandlingMode::Result, dialect, header)
                == Ok::<Seq<char>, ExportError>(
                assemble(
                    header,
                    imports,
                    "export const commands = {\n"@ + joined(lr, ",\n"@) + "\n}"@,
                    ev,
                    cs,
                    ts,
                    if has_fallible(cmds) {
                        (match dialect {
                            Dialect::Typescript => RESULT_HELPER_TS@,
                            Dialect::JSDoc => RESULT_HELPER_JS@,
                        }) + g
                    } else {
                        g
                    },
                ),
            )
            &&& lt.len() == n && lr.len() == n
            &&& forall|k: int| 0 <= k < n && !(cmds[k].result is Fallible) ==> #[trigger] lt[k] == lr[k]
        }),
{
    let n = cmds.len() as int;
    lemma_commands_list_elements(reg, plugin_name, cmds, n, dialect, ErrorHandlingMode::Throw);
    lemma_commands_list_elements(reg, plugin_name, cmds, n, dialect, ErrorHandlingMode::Result);
    let lt = commands_list(reg, plugin_name, cmds, n, dialect, ErrorHandlingMode::Throw)->Ok_0;
    let lr = commands_list(reg, plugin_name, cmds, n, dialect, ErrorHandlingMode::Result)->Ok_0;
    assert forall|k: int| 0 <= k < n && !(cmds[k].result is Fallible) implies #[trigger] lt[k] == lr[k] by {
        lemma_infallible_command_mode_independent(
            reg,
            plugin_name,
            cmds[k],
            lower_camel_of(cmds[k].name@),
            locals_of(cmds[k].args@),
            dialect,
        );
        assert(Ok::<Seq<char>, ExportError>(lt[k]) == Ok::<Seq<char>, ExportError>(lr[k]));
    }
    reveal_strlit("");
    assert(Seq::<char>::empty() + globals_text(dialect, false, events.len() > 0) =~= globals_text(
        dialect,
        false,
        events.len() > 0,
    ));
}

/// A collection whose export succeeds declares each registered named type
/// exactly once, in registration order, whatever references its commands
/// make: the types section of the document joins one declaration per type.
pub proof fn lemma_document_declares_each_type_once(
    reg: Seq<NamedType>,
    plugin_name: Option<Seq<char>>,
    cmds: Seq<Command>,
    events: Seq<Event>,
    constants: Seq<Constant>,
    mode: ErrorHandlingMode,
    dialect: Dialect,
    header: Seq<char>,
)
    requires
        document_text(reg, plugin_name, cmds, events, constants, mode, dialect, header) is Ok,
    ensures
        decls_list(reg, reg, reg.len() as int, dialect) is Ok,
        ({
            let l = decls_list(reg, reg, reg.len() as int, dialect)->Ok_0;
            &&& types_section(reg, dialect) == Ok::<Seq<char>, ExportError>(joined(l, "\n"@))
            &&& l.len() == reg.len()
            &&& forall|j: int|
                0 <= j < reg.len() ==> Ok::<Seq<char>, ExportError>(#[trigger] l[j]) == decl_text(reg, reg[j], dialect)
        }),
{
    reveal_strlit("");
    assert(decls_list(reg, reg, reg.len() as int, dialect) is Ok);
    let l = decls_list(reg, reg, reg.len() as int, dialect)->Ok_0;
    assert(Seq::<char>::empty() + joined(l, "\n"@) + Seq::<char>::empty() =~= joined(l, "\n"@));
    lemma_one_declaration_per_type(reg, reg.len() as int, dialect);
}

/// A named type that takes a reserved name makes the export fail with a
/// reserved-name error that names a reserved type, the first one, with its
/// location.
pub proof fn lemma_reserved_name_rejected(
    reg: Seq<NamedType>,
    plugin_name: Option<Seq<char>>,
    cmds: Seq<Command>,
    events: Seq<Event>,
    constants: Seq<Constant>,
    mode: ErrorHandlingMode,
    dialect: Dialect,
    header: Seq<char>,
    i: int,
)
    requires
        0 <= i < reg.len(),
        is_reserved(reg[i].name@),
    ensures
        0 <= first_reserved(reg) <= i,
        is_reserved(reg[first_reserved(reg)].name@),
        document_text(reg, plugin_name, cmds, events, constants, mode, dialect, header) == Err::<
            Seq<char>,
            ExportError,
        >(ExportError::ReservedName(reg[first_reserved(reg)].name, reg[first_reserved(reg)].location)),
{
    lemma_first_reserved_bounds(reg);
}

/// Each registered named type is declared exactly once, at its place in
/// registration order, however many references it has.
pub proof fn lemma_one_declaration_per_type(reg: Seq<NamedType>, n: int, dialect: Dialect)
    requires
        0 <= n <= reg.len(),
        decls_list(reg, reg, n, dialect) is Ok,
    ensures
        decls_list(reg, reg, n, dialect)->Ok_0.len() == n,
        forall|j: int|
            0 <= j < n ==> Ok::<Seq<char>, ExportError>(#[trigger] decls_list(reg, reg, n, dialect)->Ok_0[j])
                == decl_text(reg, reg[j], dialect),
    decreases n,
{
    if n > 0 {
        lemma_one_declaration_per_type(reg, n - 1, dialect);
    }
}

/// The document is a function of the collection and the language alone:
/// exporting equal collections gives the same text.
pub proof fn lemma_export_deterministic(
    reg: Seq<NamedType>,
    plugin_name: Option<Seq<char>>,
    cmds: Seq<Command>,
    events: Seq<Event>,
    constants: Seq<Constant>,
    mode: ErrorHandlingMode,
    dialect: Dialect,
    header: Seq<char>,
    r1: Result<Seq<char>, ExportError>,
    r2: Result<Seq<char>, ExportError>,
)
    requires
        r1 == document_text(reg, plugin_name, cmds, events, constants, mode, dialect, header),
        r2 == document_text(reg, plugin_name, cmds, events, constants, mode, dialect, header),
    ensures
        r1 == r2,
{
}

/// Renders the bindings document.
pub fn render_all_parts(
    reg: &Vec<NamedType>,
    plugin_name: &Option<String>,
    cmds: &Vec<Command>,
    events: &Vec<Event>,
    constants: &Vec<Constant>,
    mode: ErrorHandlingMode,
    language: &Language,
) -> (r: Result<String, ExportError>)
    ensures
        text_of(r) == document_text(
            reg@,
            opt_view(*plugin_name),
            cmds@,
            events@,
            constants@,
            mode,
            language.dialect,
            language.header@,
        ),
{
    proof {
        reveal_strlit("");
    }
    match detect_reserved_name_collision(reg) {
        Some(e) => return Err(e),
        None => {},
    }
    match detect_duplicate_type_name(reg) {
        Some(e) => return Err(e),
        None => {},
    }
    let dialect = language.dialect;
    let c = match render_commands(reg, plugin_name, cmds, dialect, mode) {
        Err(e) => return Err(e),
        Ok(x) => x,
    };
    let ev = match render_events(reg, plugin_name, events, dialect) {
        Err(e) => return Err(e),
        Ok(x) => x,
    };
    let cs = match render_constants(constants, dialect) {
        Err(e) => return Err(e),
        Ok(x) => x,
    };
    let ts = match render_types(reg, dialect) {
        Err(e) => return Err(e),
        Ok(x) => x,
    };
    let needs_result = mode == ErrorHandlingMode::Result && any_fallible(cmds);
    let imports = imports_part(cmds.len() > 0, any_channel(cmds), events.len() > 0);
    let globals = globals_part(dialect, needs_result, events.len() > 0);
    let s = assemble_parts(&language.header, &imports, &c, &ev, &cs, &ts, &globals);
    Ok(s)
}

} // verus!
