//! Text shared by the Typescript and JSDoc bindings: command wrappers, their
//! bodies and documentation comments.
use vstd::prelude::*;

use crate::datatype::{
    find_type, lemma_generic_instantiation, render_type, text_of, ty_text, ExportError, NamedType, TypeDescription,
};
use crate::naming::{lower_camel_of, opt_view, to_lower_camel, wire_name, wire_name_of, ItemType};
use crate::ErrorHandlingMode;

verus! {

/// The two target dialects.
#[derive(Clone, Copy, Debug, PartialEq, Eq, Structural)]
pub enum Dialect {
    /// Types are written as annotations.
    Typescript,
    /// Types are written inside documentation comments.
    JSDoc,
}

/// A named, typed parameter of a command.
#[derive(Debug)]
pub struct Arg {
    pub name: String,
    pub ty: TypeDescription,
}

/// What a command hands back.
#[derive(Debug)]
pub enum CommandResult {
    Unit,
    Value(TypeDescription),
    /// A success type and an error type.
    Fallible(TypeDescription, TypeDescription),
}

/// A backend operation exported as a client-callable wrapper.
#[derive(Debug)]
pub struct Command {
    pub name: String,
    pub args: Vec<Arg>,
    pub result: CommandResult,
    pub docs: String,
    pub deprecated: Option<String>,
}

pub open spec fn strs(v: Seq<String>) -> Seq<Seq<char>> {
    v.map_values(|s: String| s@)
}

/// The parts joined by `sep`.
pub open spec fn joined(parts: Seq<Seq<char>>, sep: Seq<char>) -> Seq<char>
    decreases parts.len(),
{
    if parts.len() == 0 {
        Seq::empty()
    } else if parts.len() == 1 {
        parts[0]
    } else {
        joined(parts.subrange(0, parts.len() - 1), sep) + sep + parts[parts.len() - 1]
    }
}

/// Joins the parts with `sep` between each two of them.
pub fn join(parts: &Vec<String>, sep: &str) -> (r: String)
    ensures
        r@ == joined(strs(parts@), sep@),
{
    let mut s = String::new();
    let mut i: usize = 0;
    while i < parts.len()
        invariant
            i <= parts.len(),
            s@ == joined(strs(parts@).subrange(0, i as int), sep@),
        decreases parts.len() - i,
    {
        assert(strs(parts@).subrange(0, i + 1).subrange(0, i as int) =~= strs(parts@).subrange(0, i as int));
        if i > 0 {
            s.append(sep);
        }
        s.append(parts[i].as_str());
        i += 1;
    }
    assert(strs(parts@).subrange(0, parts.len() as int) =~= strs(parts@));
    s
}

/// ` * <line>\n` for each line.
pub open spec fn lines_text(lines: Seq<Seq<char>>) -> Seq<char>
    decreases lines.len(),
{
    if lines.len() == 0 {
        Seq::empty()
    } else {
        lines_text(lines.subrange(0, lines.len() - 1)) + " * "@ + lines[lines.len() - 1] + "\n"@
    }
}

/// A documentation comment holding the lines, or nothing when there are none.
pub open spec fn doc_text(lines: Seq<Seq<char>>) -> Seq<char> {
    if lines.len() == 0 {
        Seq::empty()
    } else {
        "/**\n"@ + lines_text(lines) + " */\n"@
    }
}

/// Renders the lines as a documentation comment.
pub fn doc_comment(lines: &Vec<String>) -> (r: String)
    ensures
        r@ == doc_text(strs(lines@)),
{
    if lines.len() == 0 {
        proof {
            reveal_strlit("");
        }
        return String::new();
    }
    let mut s = String::from_str("/**\n");
    let mut i: usize = 0;
    while i < lines.len()
        invariant
            i <= lines.len(),
            s@ == "/**\n"@ + lines_text(strs(lines@).subrange(0, i as int)),
        decreases lines.len() - i,
    {
        assert(strs(lines@).subrange(0, i + 1).subrange(0, i as int) =~= strs(lines@).subrange(0, i as int));
        s.append(" * ");
        s.append(lines[i].as_str());
        s.append("\n");
        i += 1;
    }
    assert(strs(lines@).subrange(0, lines.len() as int) =~= strs(lines@));
    s.append(" */\n");
    s
}

/// The pieces of `s` between newlines from position `i` on, the current
/// piece having started at `start`: what `str::split('\n')` gives.
pub open spec fn split_from(s: Seq<char>, i: int, start: int) -> Seq<Seq<char>>
    decreases s.len() - i,
{
    if i >= s.len() {
        seq![s.subrange(start, s.len() as int)]
    } else if s[i] == '\n' {
        seq![s.subrange(start, i)] + split_from(s, i + 1, i + 1)
    } else {
        split_from(s, i + 1, start)
    }
}

/// The lines of a documentation text.
pub open spec fn doc_lines_of(s: Seq<char>) -> Seq<Seq<char>> {
    split_from(s, 0, 0)
}

/// The documentation lines of an item: its deprecation note, then one line
/// per line of its docs.
pub open spec fn base_doc_lines(docs: Seq<char>, deprecated: Option<Seq<char>>) -> Seq<Seq<char>> {
    (match deprecated {
        Some(d) => seq!["@deprecated "@ + d],
        None => Seq::empty(),
    }) + (if docs.len() > 0 {
        doc_lines_of(docs)
    } else {
        Seq::empty()
    })
}

pub fn base_docs(docs: &String, deprecated: &Option<String>) -> (r: Vec<String>)
    ensures
        strs(r@) == base_doc_lines(docs@, opt_view(*deprecated)),
{
    let mut r: Vec<String> = Vec::new();
    match deprecated {
        Some(d) => {
            let mut line = String::from_str("@deprecated ");
            line.append(d.as_str());
            r.push(line);
        },
        None => {},
    }
    let ghost head = strs(r@);
    assert(head =~= match opt_view(*deprecated) {
        Some(d) => seq!["@deprecated "@ + d],
        None => Seq::<Seq<char>>::empty(),
    });
    let s = docs.as_str();
    let n = s.unicode_len();
    if n > 0 {
        let mut start: usize = 0;
        let mut i: usize = 0;
        while i < n
            invariant
                start <= i <= n,
                n == s@.len(),
                s@ == docs@,
                strs(r@) + split_from(s@, i as int, start as int) == head + doc_lines_of(s@),
            decreases n - i,
        {
            if s.get_char(i) == '\n' {
                let piece = String::from_str(s.substring_char(start, i));
                let ghost old_r = strs(r@);
                r.push(piece);
                proof {
                    assert(strs(r@) =~= old_r.push(piece@));
                    assert(split_from(s@, i as int, start as int) == seq![s@.subrange(start as int, i as int)]
                        + split_from(s@, i + 1, i + 1));
                    assert(old_r.push(piece@) + split_from(s@, i + 1, i + 1) =~= old_r + (seq![piece@]
                        + split_from(s@, i + 1, i + 1)));
                }
                start = i + 1;
            }
            i += 1;
        }
        let piece = String::from_str(s.substring_char(start, n));
        let ghost old_r = strs(r@);
        r.push(piece);
        proof {
            assert(strs(r@) =~= old_r.push(piece@));
            assert(old_r + seq![piece@] =~= old_r.push(piece@));
        }
    } else {
        assert(strs(r@) =~= head + Seq::<Seq<char>>::empty());
    }
    r
}

/// `{ a, b }`, or nothing when there are no entries.
pub open spec fn usages_text(args: Seq<Seq<char>>) -> Option<Seq<char>> {
    if args.len() == 0 {
        None
    } else {
        Some("{ "@ + joined(args, ", "@) + " }"@)
    }
}

/// The argument object of an invocation, from its entries.
pub fn arg_usages(args: &Vec<String>) -> (r: Option<String>)
    ensures
        match r {
            Some(s) => usages_text(strs(args@)) == Some(s@),
            None => usages_text(strs(args@)) is None,
        },
{
    if args.len() == 0 {
        None
    } else {
        let mut s = String::from_str("{ ");
        let j = join(args, ", ");
        s.append(j.as_str());
        s.append(" }");
        Some(s)
    }
}

/// `"<wire>": <local>`: the payload key is the name as declared, the value the
/// wrapper's own parameter.
pub open spec fn entry_text(wire: Seq<char>, local: Seq<char>) -> Seq<char> {
    "\""@ + wire + "\": "@ + local
}

pub open spec fn arg_names_of(args: Seq<Arg>) -> Seq<Seq<char>> {
    args.map_values(|a: Arg| a.name@)
}

pub open spec fn entries_text(names: Seq<Seq<char>>, locals: Seq<Seq<char>>) -> Seq<Seq<char>> {
    Seq::new(names.len(), |i: int| entry_text(names[i], locals[i]))
}

/// The payload entries of an invocation.
pub fn arg_entries(args: &Vec<Arg>, locals: &Vec<String>) -> (r: Vec<String>)
    requires
        locals.len() == args.len(),
    ensures
        strs(r@) == entries_text(arg_names_of(args@), strs(locals@)),
{
    let mut r: Vec<String> = Vec::new();
    let mut i: usize = 0;
    while i < args.len()
        invariant
            i <= args.len(),
            locals.len() == args.len(),
            strs(r@) =~= entries_text(arg_names_of(args@), strs(locals@)).subrange(0, i as int),
        decreases args.len() - i,
    {
        let mut e = String::from_str("\"");
        e.append(args[i].name.as_str());
        e.append("\": ");
        e.append(locals[i].as_str());
        let ghost old_r = r@;
        r.push(e);
        proof {
            assert(strs(locals@)[i as int] == locals@[i as int]@);
            assert(arg_names_of(args@)[i as int] == args@[i as int].name@);
            assert(strs(r@) =~= strs(old_r).push(e@));
        }
        i += 1;
    }
    r
}

/// The awaited call of the runtime's invoke function.
pub open spec fn invoke_text(name: Seq<char>, usages: Option<Seq<char>>) -> Seq<char> {
    "await TAURI_INVOKE(\""@ + name + "\""@ + match usages {
        Some(u) => ", "@ + u,
        None => Seq::empty(),
    } + ")"@
}

pub fn tauri_invoke(name: &str, arg_usages: Option<String>) -> (r: String)
    ensures
        r@ == invoke_text(name@, opt_view(arg_usages)),
{
    proof {
        reveal_strlit("");
    }
    let mut s = String::from_str("await TAURI_INVOKE(\"");
    s.append(name);
    s.append("\"");
    match arg_usages {
        Some(u) => {
            s.append(", ");
            s.append(u.as_str());
        },
        None => {},
    }
    s.append(")");
    s
}

/// The statement that hands the awaited invocation `expr` to the result
/// helper, which returns its outcome as a tagged result.
pub open spec fn result_tuple_text(expr: Seq<char>) -> Seq<char> {
    "return await __resultOf__(async () => "@ + expr + ");"@
}

pub fn return_as_result_tuple(expr: &str) -> (r: String)
    ensures
        r@ == result_tuple_text(expr@),
{
    let mut s = String::from_str("return await __resultOf__(async () => ");
    s.append(expr);
    s.append(");");
    s
}

/// The body of a command wrapper around the awaited invocation `expr`.
pub open spec fn body_text(expr: Seq<char>, result: CommandResult, mode: ErrorHandlingMode) -> Seq<char> {
    match result {
        CommandResult::Unit => expr + ";"@,
        CommandResult::Value(_) => "return "@ + expr + ";"@,
        CommandResult::Fallible(_, _) => match mode {
            ErrorHandlingMode::Throw => "return "@ + expr + ";"@,
            ErrorHandlingMode::Result => result_tuple_text(expr),
        },
    }
}

pub fn maybe_return_as_result_tuple(expr: &str, result: &CommandResult, mode: ErrorHandlingMode) -> (r: String)
    ensures
        r@ == body_text(expr@, *result, mode),
{
    match result {
        CommandResult::Unit => {
            let mut s = String::from_str(expr);
            s.append(";");
            s
        },
        CommandResult::Fallible(_, _) if mode == ErrorHandlingMode::Result => return_as_result_tuple(expr),
        _ => {
            let mut s = String::from_str("return ");
            s.append(expr);
            s.append(";");
            s
        },
    }
}

/// The declared return type of a wrapper, before it is wrapped in a promise.
pub open spec fn return_text(reg: Seq<NamedType>, result: CommandResult, mode: ErrorHandlingMode) -> Result<
    Seq<char>,
    ExportError,
> {
    match result {
        CommandResult::Unit => Ok("void"@),
        CommandResult::Value(t) => ty_text(reg, t),
        CommandResult::Fallible(t, e) => match mode {
            ErrorHandlingMode::Throw => ty_text(reg, t),
            ErrorHandlingMode::Result => match ty_text(reg, t) {
                Err(x) => Err(x),
                Ok(tt) => match ty_text(reg, e) {
                    Err(x) => Err(x),
                    Ok(et) => Ok("Result<"@ + tt + ", "@ + et + ">"@),
                },
            },
        },
    }
}

pub fn handle_result(reg: &Vec<NamedType>, result: &CommandResult, mode: ErrorHandlingMode) -> (r: Result<
    String,
    ExportError,
>)
    ensures
        text_of(r) == return_text(reg@, *result, mode),
{
    match result {
        CommandResult::Unit => Ok(String::from_str("void")),
        CommandResult::Value(t) => render_type(reg, t),
        CommandResult::Fallible(t, e) => {
            if mode == ErrorHandlingMode::Throw {
                render_type(reg, t)
            } else {
                match render_type(reg, t) {
                    Err(x) => Err(x),
                    Ok(tt) => match render_type(reg, e) {
                        Err(x) => Err(x),
                        Ok(et) => {
                            let mut s = String::from_str("Result<");
                            s.append(tt.as_str());
                            s.append(", ");
                            s.append(et.as_str());
                            s.append(">");
                            Ok(s)
                        },
                    },
                }
            }
        },
    }
}

/// The body of the wrapper of `c`, whose parameters are named `locals`.
pub open spec fn command_body_text(
    plugin_name: Option<Seq<char>>,
    c: Command,
    locals: Seq<Seq<char>>,
    mode: ErrorHandlingMode,
) -> Seq<char> {
    body_text(
        invoke_text(
            wire_name_of(plugin_name, c.name@, ItemType::Command),
            usages_text(entries_text(arg_names_of(c.args@), locals)),
        ),
        c.result,
        mode,
    )
}

pub fn command_body(plugin_name: &Option<String>, c: &Command, locals: &Vec<String>, mode: ErrorHandlingMode) -> (r: String)
    requires
        locals.len() == c.args.len(),
    ensures
        r@ == command_body_text(opt_view(*plugin_name), *c, strs(locals@), mode),
{
    let name = wire_name(plugin_name, c.name.as_str(), ItemType::Command);
    let entries = arg_entries(&c.args, locals);
    let invoke = tauri_invoke(name.as_str(), arg_usages(&entries));
    maybe_return_as_result_tuple(invoke.as_str(), &c.result, mode)
}

/// An async method of the commands object.
pub open spec fn function_text(
    docs: Seq<char>,
    name: Seq<char>,
    args: Seq<Seq<char>>,
    return_type: Option<Seq<char>>,
    body: Seq<char>,
) -> Seq<char> {
    docs + "async "@ + name + "("@ + joined(args, ", "@) + ") "@ + match return_type {
        Some(t) => ": Promise<"@ + t + ">"@,
        None => Seq::empty(),
    } + " {\n    "@ + body + "\n}"@
}

pub fn function(docs: &str, name: &str, args: &Vec<String>, return_type: Option<&str>, body: &str) -> (r: String)
    ensures
        r@ == function_text(
            docs@,
            name@,
            strs(args@),
            match return_type {
                Some(t) => Some(t@),
                None => None,
            },
            body@,
        ),
{
    proof {
        reveal_strlit("");
    }
    let mut s = String::from_str(docs);
    s.append("async ");
    s.append(name);
    s.append("(");
    let a = join(args, ", ");
    s.append(a.as_str());
    s.append(") ");
    match return_type {
        Some(t) => {
            s.append(": Promise<");
            s.append(t);
            s.append(">");
        },
        None => {},
    }
    s.append(" {\n    ");
    s.append(body);
    s.append("\n}");
    s
}

/// The rendered types of the first `n` arguments, or the first fault.
pub open spec fn arg_types_text(reg: Seq<NamedType>, args: Seq<Arg>, n: int) -> Result<Seq<Seq<char>>, ExportError>
    decreases n,
{
    if n <= 0 || n > args.len() {
        Ok(Seq::empty())
    } else {
        match arg_types_text(reg, args, n - 1) {
            Err(e) => Err(e),
            Ok(p) => match ty_text(reg, args[n - 1].ty) {
                Err(e) => Err(e),
                Ok(x) => Ok(p.push(x)),
            },
        }
    }
}

proof fn lemma_arg_types_len(reg: Seq<NamedType>, args: Seq<Arg>, n: int)
    requires
        0 <= n <= args.len(),
        arg_types_text(reg, args, n) is Ok,
    ensures
        arg_types_text(reg, args, n)->Ok_0.len() == n,
    decreases n,
{
    if n > 0 {
        lemma_arg_types_len(reg, args, n - 1);
    }
}

proof fn lemma_arg_types_fault_stays(reg: Seq<NamedType>, args: Seq<Arg>, i: int, n: int)
    requires
        0 < i <= n <= args.len(),
        arg_types_text(reg, args, i) is Err,
    ensures
        arg_types_text(reg, args, n) == arg_types_text(reg, args, i),
    decreases n - i,
{
    if n > i {
        lemma_arg_types_fault_stays(reg, args, i, n - 1);
    }
}

/// Renders the type of each argument.
pub fn arg_types(reg: &Vec<NamedType>, args: &Vec<Arg>) -> (r: Result<Vec<String>, ExportError>)
    ensures
        match r {
            Ok(v) => arg_types_text(reg@, args@, args.len() as int) == Ok::<Seq<Seq<char>>, ExportError>(
                strs(v@),
            ),
            Err(e) => arg_types_text(reg@, args@, args.len() as int) == Err::<Seq<Seq<char>>, ExportError>(
                e,
            ),
        },
{
    let mut v: Vec<String> = Vec::new();
    let mut i: usize = 0;
    assert(strs(v@) =~= Seq::<Seq<char>>::empty());
    while i < args.len()
        invariant
            i <= args.len(),
            arg_types_text(reg@, args@, i as int) == Ok::<Seq<Seq<char>>, ExportError>(strs(v@)),
        decreases args.len() - i,
    {
        match render_type(reg, &args[i].ty) {
            Err(e) => {
                proof {
                    lemma_arg_types_fault_stays(reg@, args@, i + 1, args.len() as int);
                }
                return Err(e);
            },
            Ok(x) => {
                let ghost old_v = v@;
                v.push(x);
                assert(strs(v@) =~= strs(old_v).push(x@));
            },
        }
        i += 1;
    }
    Ok(v)
}

/// The lower camel case form of each argument's name: the wrapper's parameters.
pub open spec fn locals_of(args: Seq<Arg>) -> Seq<Seq<char>> {
    Seq::new(args.len(), |i: int| lower_camel_of(args[i].name@))
}

/// The wrapper's parameter names, one per argument.
pub fn arg_names(args: &Vec<Arg>) -> (r: Vec<String>)
    ensures
        strs(r@) == locals_of(args@),
{
    let mut r: Vec<String> = Vec::new();
    let mut i: usize = 0;
    while i < args.len()
        invariant
            i <= args.len(),
            strs(r@) =~= locals_of(args@).subrange(0, i as int),
        decreases args.len() - i,
    {
        let ghost old_r = r@;
        r.push(to_lower_camel(args[i].name.as_str()));
        assert(strs(r@) =~= strs(old_r).push(r@[i as int]@));
        i += 1;
    }
    r
}

/// `<local>: <type>` for each parameter.
pub open spec fn ts_arg_defs(locals: Seq<Seq<char>>, types: Seq<Seq<char>>) -> Seq<Seq<char>> {
    Seq::new(locals.len(), |i: int| locals[i] + ": "@ + types[i])
}

/// `@param { <type> } <local>` for each parameter.
pub open spec fn js_param_lines(locals: Seq<Seq<char>>, types: Seq<Seq<char>>) -> Seq<Seq<char>> {
    Seq::new(locals.len(), |i: int| "@param { "@ + types[i] + " } "@ + locals[i])
}

fn pair_lines(locals: &Vec<String>, types: &Vec<String>, dialect: Dialect) -> (r: Vec<String>)
    requires
        locals.len() == types.len(),
    ensures
        strs(r@) == match dialect {
            Dialect::Typescript => ts_arg_defs(strs(locals@), strs(types@)),
            Dialect::JSDoc => js_param_lines(strs(locals@), strs(types@)),
        },
{
    let mut r: Vec<String> = Vec::new();
    let mut i: usize = 0;
    while i < locals.len()
        invariant
            i <= locals.len(),
            locals.len() == types.len(),
            strs(r@) =~= (match dialect {
                Dialect::Typescript => ts_arg_defs(strs(locals@), strs(types@)),
                Dialect::JSDoc => js_param_lines(strs(locals@), strs(types@)),
            }).subrange(0, i as int),
        decreases locals.len() - i,
    {
        let line = match dialect {
            Dialect::Typescript => {
                let mut l = locals[i].clone();
                l.append(": ");
                l.append(types[i].as_str());
                l
            },
            Dialect::JSDoc => {
                let mut l = String::from_str("@param { ");
                l.append(types[i].as_str());
                l.append(" } ");
                l.append(locals[i].as_str());
                l
            },
        };
        let ghost old_r = r@;
        r.push(line);
        proof {
            assert(strs(locals@)[i as int] == locals@[i as int]@);
            assert(strs(types@)[i as int] == types@[i as int]@);
            assert(strs(r@) =~= strs(old_r).push(line@));
        }
        i += 1;
    }
    assert(strs(r@) =~= match dialect {
        Dialect::Typescript => ts_arg_defs(strs(locals@), strs(types@)),
        Dialect::JSDoc => js_param_lines(strs(locals@), strs(types@)),
    });
    r
}

/// The wrapper of command `c` under the method name `name`, with parameters `locals`.
pub open spec fn command_text(
    reg: Seq<NamedType>,
    plugin_name: Option<Seq<char>>,
    c: Command,
    name: Seq<char>,
    locals: Seq<Seq<char>>,
    dialect: Dialect,
    mode: ErrorHandlingMode,
) -> Result<Seq<char>, ExportError> {
    match arg_types_text(reg, c.args@, c.args.len() as int) {
        Err(e) => Err(e),
        Ok(types) => match return_text(reg, c.result, mode) {
            Err(e) => Err(e),
            Ok(ret) => {
                let docs = base_doc_lines(c.docs@, opt_view(c.deprecated));
                let body = command_body_text(plugin_name, c, locals, mode);
                Ok(
                    match dialect {
                        Dialect::Typescript => function_text(
                            doc_text(docs),
                            name,
                            ts_arg_defs(locals, types),
                            Some(ret),
                            body,
                        ),
                        Dialect::JSDoc => function_text(
                            doc_text(
                                docs + js_param_lines(locals, types) + seq![
                                    "@return"@ + "s { Promise<"@ + ret + "> }"@,
                                ],
                            ),
                            name,
                            locals,
                            None,
                            body,
                        ),
                    },
                )
            },
        },
    }
}

/// Each parameter of a generated wrapper is the lower camel case form of the
/// argument's name, while the invocation sends its value under the name as
/// declared.
pub proof fn lemma_argument_naming(c: Command, i: int, types: Seq<Seq<char>>)
    requires
        0 <= i < c.args.len(),
        types.len() == c.args.len(),
    ensures
        ts_arg_defs(locals_of(c.args@), types)[i] == lower_camel_of(c.args[i].name@) + ": "@ + types[i],
        js_param_lines(locals_of(c.args@), types)[i] == "@param { "@ + types[i] + " } "@ + lower_camel_of(
            c.args[i].name@,
        ),
        entries_text(arg_names_of(c.args@), locals_of(c.args@))[i] == "\""@ + c.args[i].name@ + "\": "@
            + lower_camel_of(c.args[i].name@),
{
}

/// Renders the wrapper of `c`, given its method name and parameter names.
pub fn render_command_named(
    reg: &Vec<NamedType>,
    plugin_name: &Option<String>,
    c: &Command,
    name: &str,
    locals: &Vec<String>,
    dialect: Dialect,
    mode: ErrorHandlingMode,
) -> (r: Result<String, ExportError>)
    requires
        locals.len() == c.args.len(),
    ensures
        text_of(r) == command_text(reg@, opt_view(*plugin_name), *c, name@, strs(locals@), dialect, mode),
{
    let types = match arg_types(reg, &c.args) {
        Err(e) => return Err(e),
        Ok(t) => t,
    };
    proof {
        lemma_arg_types_len(reg@, c.args@, c.args.len() as int);
        assert(strs(types@).len() == types.len());
    }
    let ret = match handle_result(reg, &c.result, mode) {
        Err(e) => return Err(e),
        Ok(t) => t,
    };
    let body = command_body(plugin_name, c, locals, mode);
    let mut docs = base_docs(&c.docs, &c.deprecated);
    let pairs = pair_lines(locals, &types, dialect);
    match dialect {
        Dialect::Typescript => {
            let d = doc_comment(&docs);
            Ok(function(d.as_str(), name, &pairs, Some(ret.as_str()), body.as_str()))
        },
        Dialect::JSDoc => {
            let ghost base = strs(docs@);
            let mut ret_line = String::from_str("@return");
            ret_line.append("s { Promise<");
            ret_line.append(ret.as_str());
            ret_line.append("> }");
            let mut k: usize = 0;
            while k < pairs.len()
                invariant
                    k <= pairs.len(),
                    strs(docs@) =~= base + strs(pairs@).subrange(0, k as int),
                decreases pairs.len() - k,
            {
                let ghost old_d = docs@;
                docs.push(pairs[k].clone());
                assert(strs(docs@) =~= strs(old_d).push(pairs@[k as int]@));
                k += 1;
            }
            let ghost old_d = docs@;
            docs.push(ret_line);
            proof {
                assert(strs(pairs@).subrange(0, pairs.len() as int) =~= strs(pairs@));
                assert(strs(docs@) =~= strs(old_d).push(ret_line@));
                assert(strs(docs@) =~= base_doc_lines(c.docs@, opt_view(c.deprecated)) + js_param_lines(
                    strs(locals@),
                    strs(types@),
                ) + seq![ret_line@]);
            }
            let d = doc_comment(&docs);
            Ok(function(d.as_str(), name, locals, None, body.as_str()))
        },
    }
}

/// The Typescript wrapper of a command declares each argument under the lower
/// camel case form of its name, and its invocation sends that parameter under
/// the name as declared.
pub proof fn lemma_wrapper_argument_naming(
    reg: Seq<NamedType>,
    plugin_name: Option<Seq<char>>,
    c: Command,
    mode: ErrorHandlingMode,
    i: int,
)
    requires
        0 <= i < c.args.len(),
        command_text(
            reg,
            plugin_name,
            c,
            lower_camel_of(c.name@),
            locals_of(c.args@),
            Dialect::Typescript,
            mode,
        ) is Ok,
    ensures
        ({
            let locals = locals_of(c.args@);
            let types = arg_types_text(reg, c.args@, c.args.len() as int)->Ok_0;
            let entries = entries_text(arg_names_of(c.args@), locals);
            &&& command_text(reg, plugin_name, c, lower_camel_of(c.name@), locals, Dialect::Typescript, mode)
                == Ok::<Seq<char>, ExportError>(
                function_text(
                    doc_text(base_doc_lines(c.docs@, opt_view(c.deprecated))),
                    lower_camel_of(c.name@),
                    ts_arg_defs(locals, types),
                    Some(return_text(reg, c.result, mode)->Ok_0),
                    body_text(
                        invoke_text(wire_name_of(plugin_name, c.name@, ItemType::Command), usages_text(entries)),
                        c.result,
                        mode,
                    ),
                ),
            )
            &&& ts_arg_defs(locals, types)[i] == lower_camel_of(c.args[i].name@) + ": "@ + types[i]
            &&& entries[i] == "\""@ + c.args[i].name@ + "\": "@ + lower_camel_of(c.args[i].name@)
        }),
{
}

/// The rendered argument types are those of the arguments, in order.
pub proof fn lemma_arg_types_elements(reg: Seq<NamedType>, args: Seq<Arg>, n: int)
    requires
        0 <= n <= args.len(),
        arg_types_text(reg, args, n) is Ok,
    ensures
        arg_types_text(reg, args, n)->Ok_0.len() == n,
        forall|k: int|
            0 <= k < n ==> Ok::<Seq<char>, ExportError>(#[trigger] arg_types_text(reg, args, n)->Ok_0[k]) == ty_text(
                reg,
                args[k].ty,
            ),
    decreases n,
{
    if n > 0 {
        lemma_arg_types_elements(reg, args, n - 1);
    }
}

/// A parameter of a generic named type of one parameter, referenced with the
/// argument `a`, is declared by the Typescript wrapper as `<local>: Name<a>`:
/// each wrapper substitutes its own argument.
pub proof fn lemma_wrapper_generic_argument(
    reg: Seq<NamedType>,
    plugin_name: Option<Seq<char>>,
    c: Command,
    mode: ErrorHandlingMode,
    i: int,
    id: u64,
    a: TypeDescription,
    args_a: Vec<TypeDescription>,
)
    requires
        0 <= i < c.args.len(),
        c.args[i].ty == TypeDescription::Reference(id, args_a),
        find_type(reg, id) >= 0,
        reg[find_type(reg, id)].generics.len() == 1,
        args_a@ == seq![a],
        ty_text(reg, a) is Ok,
        arg_types_text(reg, c.args@, c.args.len() as int) is Ok,
    ensures
        ts_arg_defs(locals_of(c.args@), arg_types_text(reg, c.args@, c.args.len() as int)->Ok_0)[i]
            == lower_camel_of(c.args[i].name@) + ": "@ + reg[find_type(reg, id)].name@ + "<"@ + ty_text(
            reg,
            a,
        )->Ok_0 + ">"@,
{
    lemma_arg_types_elements(reg, c.args@, c.args.len() as int);
    lemma_generic_instantiation(reg, id, a, a, args_a, args_a);
    let types = arg_types_text(reg, c.args@, c.args.len() as int)->Ok_0;
    assert(Ok::<Seq<char>, ExportError>(types[i]) == ty_text(reg, c.args@[i].ty));
}

/// Renders the wrapper of `c`: its method and parameters are named in lower camel case.
pub fn render_command(
    reg: &Vec<NamedType>,
    plugin_name: &Option<String>,
    c: &Command,
    dialect: Dialect,
    mode: ErrorHandlingMode,
) -> (r: Result<String, ExportError>)
    ensures
        text_of(r) == command_text(
            reg@,
            opt_view(*plugin_name),
            *c,
            lower_camel_of(c.name@),
            locals_of(c.args@),
            dialect,
            mode,
        ),
{
    let name = to_lower_camel(c.name.as_str());
    let locals = arg_names(&c.args);
    assert(strs(locals@).len() == locals.len());
    render_command_named(reg, plugin_name, c, name.as_str(), &locals, dialect, mode)
}

} // verus!
