//! The collection of commands, events, named types and constants, and the
//! assembly of the bindings document.
use vstd::prelude::*;

use crate::datatype::{
    find_type, lemma_find_type_bounds, lookup_type, text_of, ExportError, NamedType, TypeDescription,
};
use crate::document::{document_text, render_all_parts, Language};
use crate::event::{clone_name, meta_index, EventRegistry};
use crate::js_ts::Command;
use crate::naming::{
    lemma_name_lt_total, lemma_name_lt_transitive, lower_camel_of, name_lt, opt_view, str_lt, to_lower_camel,
};
use crate::ErrorHandlingMode;

verus! {

#[verifier::external_type_specification]
#[verifier::external_body]
pub struct ExJsonValue(serde_json::Value);

/// The JSON text that serde_json writes for a value.
pub uninterp spec fn json_of(v: serde_json::Value) -> Seq<char>;

/// Relies on `serde_json::Value::is_null`: the value is `Null`, the one value
/// whose JSON text is `null`.
pub assume_specification[ serde_json::Value::is_null ](v: &serde_json::Value) -> (r: bool)
    ensures
        r == (json_of(*v) == "null"@),
;

/// Relies on `serde_json::to_string`: the JSON text of a value. It fails only
/// where a `Serialize` impl fails or a map key is not a string, and the impl
/// for `Value` does neither, so the text is always there.
#[verifier::external_body]
fn json_text(v: &serde_json::Value) -> (r: Option<String>)
    ensures
        r is Some && r->Some_0@ == json_of(*v),
{
    serde_json::to_string(v).ok()
}

/// A backend-to-client notification.
#[derive(Debug)]
pub struct Event {
    /// The stable id of the payload type.
    pub id: u64,
    /// The name as declared: the wire name outside any plugin.
    pub name: String,
    /// The key of the event in the generated `events` object.
    pub display: String,
    pub payload: TypeDescription,
}

/// A named value exported as a constant.
#[derive(Debug)]
pub struct Constant {
    pub name: String,
    /// The JSON text of the value, `None` where it could not be serialized.
    pub json: Option<String>,
    pub is_null: bool,
}

/// Why an event could not be registered.
#[derive(Debug, PartialEq, Eq)]
pub enum RegistrationError {
    /// An event with the same stable id is registered.
    DuplicateId(u64),
    /// An event whose key in the `events` object is the same is registered.
    DuplicateName(String),
}

/// The accumulated bindings: what is exported, and how.
#[derive(Debug)]
pub struct Builder {
    pub plugin_name: Option<String>,
    pub commands: Vec<Command>,
    pub events: Vec<Event>,
    pub types: Vec<NamedType>,
    pub constants: Vec<Constant>,
    pub error_handling: ErrorHandlingMode,
}

pub open spec fn event_id_taken(events: Seq<Event>, id: u64) -> bool {
    exists|i: int| 0 <= i < events.len() && #[trigger] events[i].id == id
}

pub open spec fn event_display_taken(events: Seq<Event>, display: Seq<char>) -> bool {
    exists|i: int| 0 <= i < events.len() && #[trigger] events[i].display@ == display
}

/// Events have distinct ids and distinct keys, each key the lower camel case
/// of the event's name, and are held ascending by name.
pub open spec fn events_wf(es: Seq<Event>) -> bool {
    &&& forall|i: int, j: int| 0 <= i < j < es.len() ==> #[trigger] es[i].id != #[trigger] es[j].id
    &&& forall|i: int, j: int| 0 <= i < j < es.len() ==> #[trigger] es[i].display@ != #[trigger] es[j].display@
    &&& forall|i: int| 0 <= i < es.len() ==> #[trigger] es[i].display@ == lower_camel_of(es[i].name@)
    &&& forall|i: int, j: int| 0 <= i < j < es.len() ==> name_lt(#[trigger] es[i].name@, #[trigger] es[j].name@)
}

/// `es` is `old` with a new event (`id`, `name`, `payload`) inserted at `p`.
pub open spec fn event_placed(
    old: Seq<Event>,
    es: Seq<Event>,
    id: u64,
    name: String,
    payload: TypeDescription,
    p: int,
) -> bool {
    &&& 0 <= p <= old.len()
    &&& p < es.len()
    &&& es == old.insert(p, es[p])
    &&& es[p].id == id
    &&& es[p].name == name
    &&& es[p].display@ == lower_camel_of(name@)
    &&& es[p].payload == payload
}

/// Some event of `es` is the entry `x`.
pub open spec fn has_event_for(es: Seq<Event>, x: (u64, String, TypeDescription)) -> bool {
    exists|i: int| 0 <= i < es.len() && #[trigger] event_matches(es[i], x)
}

/// The event `e` is one of the first `n` entries.
pub open spec fn has_entry_for(input: Seq<(u64, String, TypeDescription)>, n: int, e: Event) -> bool {
    exists|j: int| 0 <= j < n && #[trigger] event_matches(e, input[j])
}

/// Every one of the first `n` entries has an event in `es`.
pub open spec fn events_cover(es: Seq<Event>, input: Seq<(u64, String, TypeDescription)>, n: int) -> bool {
    forall|j: int| 0 <= j < n ==> #[trigger] has_event_for(es, input[j])
}

/// Every event of `es` is one of the first `n` entries.
pub open spec fn events_from(es: Seq<Event>, input: Seq<(u64, String, TypeDescription)>, n: int) -> bool {
    forall|i: int| 0 <= i < es.len() ==> #[trigger] has_entry_for(input, n, es[i])
}

/// The registered event `e` is the entry `x` = (id, name, payload).
pub open spec fn event_matches(e: Event, x: (u64, String, TypeDescription)) -> bool {
    e.id == x.0 && e.name == x.1 && e.display@ == lower_camel_of(x.1@) && e.payload == x.2
}

proof fn lemma_events_refused(
    old_events: Seq<Event>,
    input: Seq<(u64, String, TypeDescription)>,
    cur: int,
    e: RegistrationError,
)
    requires
        0 <= cur < input.len(),
        events_from(old_events, input, cur),
        match e {
            RegistrationError::DuplicateId(_) => event_id_taken(old_events, input[cur].0),
            RegistrationError::DuplicateName(_) => event_display_taken(old_events, lower_camel_of(input[cur].1@)),
        },
    ensures
        !events_clash_free(input),
{
    match e {
        RegistrationError::DuplicateId(_) => {
            let i = choose|i: int| 0 <= i < old_events.len() && #[trigger] old_events[i].id == input[cur].0;
            assert(has_entry_for(input, cur, old_events[i]));
            let j = choose|j: int| 0 <= j < cur && #[trigger] event_matches(old_events[i], input[j]);
            assert(input[j].0 == input[cur].0);
        },
        RegistrationError::DuplicateName(_) => {
            let i = choose|i: int|
                0 <= i < old_events.len() && #[trigger] old_events[i].display@ == lower_camel_of(input[cur].1@);
            assert(has_entry_for(input, cur, old_events[i]));
            let j = choose|j: int| 0 <= j < cur && #[trigger] event_matches(old_events[i], input[j]);
            assert(lower_camel_of(input[j].1@) == lower_camel_of(input[cur].1@));
            assert(input[j].0 != input[cur].0 ==> !events_clash_free(input));
        },
    }
}

proof fn lemma_events_accepted(
    old_events: Seq<Event>,
    es: Seq<Event>,
    input: Seq<(u64, String, TypeDescription)>,
    cur: int,
    p: int,
)
    requires
        0 <= cur < input.len(),
        event_placed(old_events, es, input[cur].0, input[cur].1, input[cur].2, p),
        !event_id_taken(old_events, input[cur].0),
        !event_display_taken(old_events, lower_camel_of(input[cur].1@)),
        events_cover(old_events, input, cur),
        events_from(old_events, input, cur),
        events_clash_free(input.subrange(0, cur)),
    ensures
        events_cover(es, input, cur + 1),
        events_from(es, input, cur + 1),
        events_clash_free(input.subrange(0, cur + 1)),
        es.len() == old_events.len() + 1,
{
    old_events.insert_ensures(p, es[p]);
    lemma_events_accepted_inputs(old_events, es, input, cur, p);
    lemma_events_accepted_events(old_events, es, input, cur, p);
    lemma_events_accepted_clash(old_events, input, cur);
}

proof fn lemma_events_accepted_inputs(
    old_events: Seq<Event>,
    es: Seq<Event>,
    input: Seq<(u64, String, TypeDescription)>,
    cur: int,
    p: int,
)
    requires
        0 <= cur < input.len(),
        event_placed(old_events, es, input[cur].0, input[cur].1, input[cur].2, p),
        events_cover(old_events, input, cur),
    ensures
        events_cover(es, input, cur + 1),
{
    old_events.insert_ensures(p, es[p]);
    assert forall|j: int| 0 <= j < cur + 1 implies #[trigger] has_event_for(es, input[j]) by {
        if j == cur {
            assert(event_matches(es[p], input[j]));
        } else {
            assert(has_event_for(old_events, input[j]));
            let i0 = choose|i0: int| 0 <= i0 < old_events.len() && #[trigger] event_matches(old_events[i0], input[j]);
            if i0 < p {
                assert(es[i0] == old_events[i0]);
                assert(event_matches(es[i0], input[j]));
            } else {
                assert(es[i0 + 1] == old_events[i0]);
                assert(event_matches(es[i0 + 1], input[j]));
            }
        }
    }
}

proof fn lemma_events_accepted_events(
    old_events: Seq<Event>,
    es: Seq<Event>,
    input: Seq<(u64, String, TypeDescription)>,
    cur: int,
    p: int,
)
    requires
        0 <= cur < input.len(),
        event_placed(old_events, es, input[cur].0, input[cur].1, input[cur].2, p),
        events_from(old_events, input, cur),
    ensures
        events_from(es, input, cur + 1),
{
    old_events.insert_ensures(p, es[p]);
    assert forall|i: int| 0 <= i < es.len() implies #[trigger] has_entry_for(input, cur + 1, es[i]) by {
        if i == p {
            assert(event_matches(es[i], input[cur]));
        } else {
            let i0 = if i < p { i } else { i - 1 };
            assert(es[i] == old_events[i0]);
            assert(has_entry_for(input, cur, old_events[i0]));
            let j0 = choose|j0: int| 0 <= j0 < cur && #[trigger] event_matches(old_events[i0], input[j0]);
            assert(event_matches(es[i], input[j0]));
        }
    }
}

proof fn lemma_events_accepted_clash(old_events: Seq<Event>, input: Seq<(u64, String, TypeDescription)>, cur: int)
    requires
        0 <= cur < input.len(),
        !event_id_taken(old_events, input[cur].0),
        !event_display_taken(old_events, lower_camel_of(input[cur].1@)),
        events_cover(old_events, input, cur),
        events_clash_free(input.subrange(0, cur)),
    ensures
        events_clash_free(input.subrange(0, cur + 1)),
{
    let q = input.subrange(0, cur + 1);
    assert forall|a: int, c: int| 0 <= a < c < q.len() implies #[trigger] q[a].0 != #[trigger] q[c].0
        && lower_camel_of(q[a].1@) != lower_camel_of(q[c].1@) by {
        if c < cur {
            assert(q[a] == input.subrange(0, cur)[a] && q[c] == input.subrange(0, cur)[c]);
        } else {
            assert(q[a] == input[a] && q[c] == input[cur]);
            assert(has_event_for(old_events, input[a]));
            let i0 = choose|i0: int| 0 <= i0 < old_events.len() && #[trigger] event_matches(old_events[i0], input[a]);
            if old_events[i0].id == input[cur].0 {
                assert(event_id_taken(old_events, input[cur].0));
            }
            if old_events[i0].display@ == lower_camel_of(input[cur].1@) {
                assert(event_display_taken(old_events, lower_camel_of(input[cur].1@)));
            }
        }
    }
}

proof fn lemma_event_insert_wf(old: Seq<Event>, e: Event, p: int)
    requires
        events_wf(old),
        0 <= p <= old.len(),
        forall|k: int| 0 <= k < old.len() ==> #[trigger] old[k].id != e.id,
        forall|k: int| 0 <= k < old.len() ==> #[trigger] old[k].display@ != e.display@,
        e.display@ == lower_camel_of(e.name@),
        forall|k: int| 0 <= k < p ==> !name_lt(e.name@, #[trigger] old[k].name@),
        p < old.len() ==> name_lt(e.name@, old[p].name@),
    ensures
        events_wf(old.insert(p, e)),
{
    let es = old.insert(p, e);
    old.insert_ensures(p, e);
    assert forall|k: int| 0 <= k < old.len() implies #[trigger] old[k].name@ != e.name@ by {
        assert(old[k].display@ == lower_camel_of(old[k].name@));
    }
    assert forall|k: int| 0 <= k < p implies name_lt(#[trigger] old[k].name@, e.name@) by {
        lemma_name_lt_total(old[k].name@, e.name@);
    }
    assert forall|k: int| p <= k < old.len() implies name_lt(e.name@, #[trigger] old[k].name@) by {
        if k > p {
            lemma_name_lt_transitive(e.name@, old[p].name@, old[k].name@);
        }
    }
    assert forall|a: int, b: int| 0 <= a < b < es.len() implies #[trigger] es[a].id != #[trigger] es[b].id
        && es[a].display@ != es[b].display@ && name_lt(es[a].name@, es[b].name@) by {
        if b < p {
            assert(es[a] == old[a] && es[b] == old[b]);
        } else if b == p {
            assert(es[a] == old[a]);
        } else if a < p {
            assert(es[a] == old[a] && es[b] == old[b - 1]);
            lemma_name_lt_transitive(old[a].name@, e.name@, old[b - 1].name@);
        } else if a == p {
            assert(es[b] == old[b - 1]);
        } else {
            assert(es[a] == old[a - 1] && es[b] == old[b - 1]);
        }
    }
    assert forall|a: int| 0 <= a < es.len() implies #[trigger] es[a].display@ == lower_camel_of(es[a].name@) by {
        if a < p {
            assert(es[a] == old[a]);
        } else if a > p {
            assert(es[a] == old[a - 1]);
        }
    }
    assert forall|a: int, b: int| 0 <= a < b < es.len() implies #[trigger] es[a].display@
        != #[trigger] es[b].display@ by {
        assert(es[a].id != es[b].id);
    }
    assert forall|a: int, b: int| 0 <= a < b < es.len() implies name_lt(
        #[trigger] es[a].name@,
        #[trigger] es[b].name@,
    ) by {
        assert(es[a].id != es[b].id);
    }
}

/// No two of the events share an id or a lower camel case key.
pub open spec fn events_clash_free(evs: Seq<(u64, String, TypeDescription)>) -> bool {
    forall|i: int, j: int|
        0 <= i < j < evs.len() ==> #[trigger] evs[i].0 != #[trigger] evs[j].0 && lower_camel_of(evs[i].1@)
            != lower_camel_of(evs[j].1@)
}

/// `cs` is `old` with the constant `name`, holding the JSON text of `value`,
/// at position `p`: in place of the one of that name, or inserted there.
pub open spec fn constant_placed(
    old: Seq<Constant>,
    cs: Seq<Constant>,
    name: String,
    value: serde_json::Value,
    p: int,
) -> bool {
    &&& 0 <= p < cs.len()
    &&& cs[p].name == name
    &&& cs[p].json is Some
    &&& cs[p].json->Some_0@ == json_of(value)
    &&& cs[p].is_null == (json_of(value) == "null"@)
    &&& constant_index(old, name@) >= 0 ==> p == constant_index(old, name@) && cs == old.update(p, cs[p])
    &&& constant_index(old, name@) < 0 ==> cs == old.insert(p, cs[p])
}

pub open spec fn constant_index(cs: Seq<Constant>, name: Seq<char>) -> int
    decreases cs.len(),
{
    if cs.len() == 0 {
        -1
    } else if cs[cs.len() - 1].name@ == name {
        cs.len() - 1
    } else {
        constant_index(cs.subrange(0, cs.len() - 1), name)
    }
}

impl Builder {
    /// Events are well formed (see [`events_wf`]); named types have distinct
    /// ids; constants are held ascending by name.
    pub open spec fn wf(&self) -> bool {
        &&& events_wf(self.events@)
        &&& forall|i: int, j: int|
            0 <= i < j < self.types.len() ==> #[trigger] self.types[i].id != #[trigger] self.types[j].id
        &&& forall|i: int, j: int|
            0 <= i < j < self.constants.len() ==> name_lt(
                #[trigger] self.constants[i].name@,
                #[trigger] self.constants[j].name@,
            )
    }

    /// An empty collection that reports errors as results.
    pub fn new() -> (r: Self)
        ensures
            r.wf(),
            r.plugin_name is None,
            r.commands@.len() == 0,
            r.events@.len() == 0,
            r.types@.len() == 0,
            r.constants@.len() == 0,
            r.error_handling == ErrorHandlingMode::Result,
    {
        Builder {
            plugin_name: None,
            commands: Vec::new(),
            events: Vec::new(),
            types: Vec::new(),
            constants: Vec::new(),
            error_handling: ErrorHandlingMode::Result,
        }
    }

    /// Exports on behalf of the named plugin.
    pub fn plugin_name(self, plugin_name: String) -> (r: Self)
        ensures
            r.plugin_name == Some(plugin_name),
            r.commands == self.commands,
            r.events == self.events,
            r.types == self.types,
            r.constants == self.constants,
            r.error_handling == self.error_handling,
            self.wf() ==> r.wf(),
    {
        Builder { plugin_name: Some(plugin_name), ..self }
    }

    /// Sets the commands, replacing those registered before. Command names are
    /// not checked for uniqueness.
    pub fn commands(self, commands: Vec<Command>) -> (r: Self)
        ensures
            r.commands == commands,
            r.plugin_name == self.plugin_name,
            r.events == self.events,
            r.types == self.types,
            r.constants == self.constants,
            r.error_handling == self.error_handling,
            self.wf() ==> r.wf(),
    {
        Builder { commands, ..self }
    }

    /// Sets how fallible commands report their errors.
    pub fn error_handling(self, error_handling: ErrorHandlingMode) -> (r: Self)
        ensures
            r.error_handling == error_handling,
            r.plugin_name == self.plugin_name,
            r.commands == self.commands,
            r.events == self.events,
            r.types == self.types,
            r.constants == self.constants,
            self.wf() ==> r.wf(),
    {
        Builder { error_handling, ..self }
    }

    /// Adds a named type to export, replacing the one with the same id.
    pub fn typ(self, t: NamedType) -> (r: Self)
        ensures
            find_type(self.types@, t.id) >= 0 ==> r.types@ == self.types@.update(find_type(self.types@, t.id), t),
            find_type(self.types@, t.id) < 0 ==> r.types@ == self.types@.push(t),
            r.plugin_name == self.plugin_name,
            r.commands == self.commands,
            r.events == self.events,
            r.constants == self.constants,
            r.error_handling == self.error_handling,
            self.wf() ==> r.wf(),
    {
        let mut types = self.types;
        proof {
            lemma_find_type_bounds(types@, t.id);
        }
        match lookup_type(&types, t.id) {
            Some(i) => {
                types.set(i, t);
            },
            None => {
                proof {
                    lemma_find_type_absent(types@, t.id);
                }
                types.push(t);
            },
        }
        Builder { types, ..self }
    }

    /// Adds a named type to export; the older name of [`Builder::typ`].
    pub fn ty(self, t: NamedType) -> (r: Self)
        ensures
            find_type(self.types@, t.id) >= 0 ==> r.types@ == self.types@.update(find_type(self.types@, t.id), t),
            find_type(self.types@, t.id) < 0 ==> r.types@ == self.types@.push(t),
            r.plugin_name == self.plugin_name,
            r.commands == self.commands,
            r.events == self.events,
            r.constants == self.constants,
            r.error_handling == self.error_handling,
            self.wf() ==> r.wf(),
    {
        self.typ(t)
    }

    /// Sets the events, given as (id, name, payload), replacing those
    /// registered before, when no two of them share an id or a key; registering
    /// such a pair is a programming mistake, left out here
    /// ([`Builder::try_events`] tests first). Each entry becomes one event, and
    /// a well-formed result holds them ascending by name.
    pub fn events(self, list: Vec<(u64, String, TypeDescription)>) -> (b: Self)
        requires
            events_clash_free(list@),
        ensures
            b.events@.len() == list@.len() && events_cover(b.events@, list@, list@.len() as int) && events_from(
                b.events@,
                list@,
                list@.len() as int,
            ) && b.plugin_name == self.plugin_name && b.commands == self.commands && b.types == self.types
                && b.constants == self.constants && b.error_handling == self.error_handling && (self.wf()
                ==> b.wf()),
    {
        match self.try_events(list) {
            Ok(b) => b,
            Err(_) => unreached(),
        }
    }

    /// Sets the events, given as (id, name, payload), replacing those
    /// registered before; refused when two of them share an id or a key. Each
    /// entry becomes one event, and a well-formed result holds them ascending
    /// by name.
    pub fn try_events(self, list: Vec<(u64, String, TypeDescription)>) -> (r: Result<Self, RegistrationError>)
        ensures
            match r {
                Ok(b) => events_clash_free(list@) && b.events@.len() == list@.len() && events_cover(b.events@, list@, list@.len() as int) && events_from(b.events@, list@, list@.len() as int)
                    && b.plugin_name == self.plugin_name && b.commands == self.commands && b.types == self.types
                    && b.constants == self.constants && b.error_handling == self.error_handling && (self.wf()
                    ==> b.wf()),
                Err(_) => !events_clash_free(list@),
            },
    {
        let ghost input = list@;
        let ghost was_wf = self.wf();
        let mut b = Builder { events: Vec::new(), ..self };
        let mut rest = list;
        assert(input.subrange(0, 0) =~= Seq::<(u64, String, TypeDescription)>::empty());
        assert(input.subrange(0, input.len() as int) =~= input);
        while rest.len() > 0
            invariant
                input == list@,
                rest.len() <= input.len(),
                rest@ == input.subrange(input.len() - rest.len(), input.len() as int),
                b.events@.len() == input.len() - rest.len(),
                events_cover(b.events@, input, input.len() - rest.len()),
                events_from(b.events@, input, input.len() - rest.len()),
                events_clash_free(input.subrange(0, input.len() - rest.len())),
                b.plugin_name == self.plugin_name,
                b.commands == self.commands,
                b.types == self.types,
                b.constants == self.constants,
                b.error_handling == self.error_handling,
                was_wf ==> b.wf(),
            decreases rest.len(),
        {
            let ghost cur = input.len() - rest.len();
            let ghost old_events = b.events@;
            let (id, name, payload) = rest.remove(0);
            assert(input[cur] == (id, name, payload));
            match b.try_register_event(id, name, payload) {
                Err(e) => {
                    proof {
                        lemma_events_refused(old_events, input, cur, e);
                    }
                    return Err(e);
                },
                Ok(()) => {
                    proof {
                        let p = choose|p: int|
                            #[trigger] event_placed(old_events, b.events@, id, input[cur].1, input[cur].2, p);
                        lemma_events_accepted(old_events, b.events@, input, cur, p);
                    }
                },
            }
        }
        Ok(b)
    }

    /// Adds a constant, replacing the one with the same name; a new name goes
    /// where it keeps the constants ascending by name.
    pub fn constant(self, name: String, value: serde_json::Value) -> (r: Self)
        ensures
            exists|p: int| #[trigger] constant_placed(self.constants@, r.constants@, name, value, p),
            r.plugin_name == self.plugin_name,
            r.commands == self.commands,
            r.events == self.events,
            r.types == self.types,
            r.error_handling == self.error_handling,
            self.wf() ==> r.wf(),
    {
        let json = json_text(&value);
        let is_null = value.is_null();
        let c = Constant { name, json, is_null };
        let ghost cv = c;
        let mut constants = self.constants;
        let ghost old_cs = constants@;
        proof {
            lemma_constant_index_bounds(old_cs, c.name@);
        }
        match find_constant(&constants, &c.name) {
            Some(i) => {
                constants.set(i, c);
                proof {
                    if self.wf() {
                        assert forall|a: int, b: int|
                            0 <= a < b < constants@.len() implies name_lt(
                            #[trigger] constants@[a].name@,
                            #[trigger] constants@[b].name@,
                        ) by {
                            assert(old_cs[a].name@ == constants@[a].name@);
                            assert(old_cs[b].name@ == constants@[b].name@);
                        }
                    }
                    assert(constants@[i as int] == cv);
                    assert(constants@ =~= old_cs.update(i as int, constants@[i as int]));
                }
                let r = Builder { constants, ..self };
                assert(constant_placed(self.constants@, r.constants@, name, value, i as int));
                r
            },
            None => {
                proof {
                    lemma_constant_index_absent(old_cs, c.name@);
                }
                let mut p: usize = 0;
                while p < constants.len() && !str_lt(c.name.as_str(), constants[p].name.as_str())
                    invariant
                        p <= constants.len(),
                        constants@ == old_cs,
                        forall|k: int| 0 <= k < p ==> !name_lt(c.name@, #[trigger] old_cs[k].name@),
                    decreases constants.len() - p,
                {
                    p += 1;
                }
                let ghost cn = c.name@;
                constants.insert(p, c);
                proof {
                    if self.wf() {
                        assert forall|k: int| 0 <= k < p implies name_lt(#[trigger] old_cs[k].name@, cn) by {
                            lemma_name_lt_total(old_cs[k].name@, cn);
                        }
                        assert forall|k: int| p <= k < old_cs.len() implies name_lt(cn, #[trigger] old_cs[k].name@) by {
                            if k > p {
                                lemma_name_lt_transitive(cn, old_cs[p as int].name@, old_cs[k].name@);
                            }
                        }
                        assert forall|a: int, b: int|
                            0 <= a < b < constants@.len() implies name_lt(
                            #[trigger] constants@[a].name@,
                            #[trigger] constants@[b].name@,
                        ) by {
                            if b < p {
                                assert(constants@[a] == old_cs[a] && constants@[b] == old_cs[b]);
                            } else if b == p {
                                assert(constants@[a] == old_cs[a]);
                            } else if a < p {
                                assert(constants@[a] == old_cs[a] && constants@[b] == old_cs[b - 1]);
                                lemma_name_lt_transitive(old_cs[a].name@, cn, old_cs[b - 1].name@);
                            } else if a == p {
                                assert(constants@[b] == old_cs[b - 1]);
                            } else {
                                assert(constants@[a] == old_cs[a - 1] && constants@[b] == old_cs[b - 1]);
                            }
                        }
                    }
                    assert(constants@[p as int] == cv);
                    assert(constants@ =~= old_cs.insert(p as int, constants@[p as int]));
                }
                let r = Builder { constants, ..self };
                assert(constant_placed(self.constants@, r.constants@, name, value, p as int));
                r
            },
        }
    }

    /// Whether an event with this id or whose key would be `display` is registered.
    pub fn event_conflict(&self, id: u64, display: &String) -> (r: Option<RegistrationError>)
        ensures
            match r {
                Some(RegistrationError::DuplicateId(x)) => x == id && event_id_taken(self.events@, id),
                Some(RegistrationError::DuplicateName(n)) => n@ == display@ && !event_id_taken(self.events@, id)
                    && event_display_taken(self.events@, display@),
                None => !event_id_taken(self.events@, id) && !event_display_taken(self.events@, display@),
            },
    {
        let mut i: usize = 0;
        while i < self.events.len()
            invariant
                i <= self.events.len(),
                forall|j: int| 0 <= j < i ==> #[trigger] self.events@[j].id != id,
            decreases self.events.len() - i,
        {
            if self.events[i].id == id {
                assert(event_id_taken(self.events@, id));
                return Some(RegistrationError::DuplicateId(id));
            }
            i += 1;
        }
        assert(!event_id_taken(self.events@, id));
        let mut k: usize = 0;
        while k < self.events.len()
            invariant
                k <= self.events.len(),
                !event_id_taken(self.events@, id),
                forall|j: int| 0 <= j < k ==> #[trigger] self.events@[j].display@ != display@,
            decreases self.events.len() - k,
        {
            if self.events[k].display == *display {
                assert(event_display_taken(self.events@, display@));
                return Some(RegistrationError::DuplicateName(display.clone()));
            }
            k += 1;
        }
        None
    }

    /// Mounts the events of this collection: each resolves from now on to
    /// this collection's plugin name; other events keep their entries.
    pub fn mount_events(&self, registry: &mut EventRegistry)
        ensures
            forall|i: int|
                0 <= i < self.events@.len() ==> meta_index(final(registry).entries@, #[trigger] self.events@[i].id)
                    >= 0 && opt_view(
                    final(registry).entries@[meta_index(final(registry).entries@, self.events@[i].id)].plugin_name,
                ) == opt_view(self.plugin_name),
            forall|other: u64|
                (forall|i: int| 0 <= i < self.events@.len() ==> #[trigger] self.events@[i].id != other) ==> (
                #[trigger] meta_index(final(registry).entries@, other)) == meta_index(old(registry).entries@, other),
            forall|k: int|
                0 <= k < old(registry).entries@.len() ==> #[trigger] final(registry).entries@[k]
                    == old(registry).entries@[k],
    {
        let mut i: usize = 0;
        while i < self.events.len()
            invariant
                i <= self.events.len(),
                forall|j: int|
                    0 <= j < i ==> meta_index(registry.entries@, #[trigger] self.events@[j].id) >= 0 && opt_view(
                        registry.entries@[meta_index(registry.entries@, self.events@[j].id)].plugin_name,
                    ) == opt_view(self.plugin_name),
                forall|other: u64|
                    (forall|j: int| 0 <= j < i ==> #[trigger] self.events@[j].id != other) ==> (
                    #[trigger] meta_index(registry.entries@, other)) == meta_index(old(registry).entries@, other),
                forall|k: int|
                    0 <= k < old(registry).entries@.len() ==> #[trigger] registry.entries@[k]
                        == old(registry).entries@[k],
                registry.entries@.len() >= old(registry).entries@.len(),
            decreases self.events.len() - i,
        {
            let ghost before = registry.entries@;
            let id = self.events[i].id;
            registry.insert(id, clone_name(&self.plugin_name));
            proof {
                assert forall|j: int|
                    0 <= j < i + 1 implies meta_index(registry.entries@, #[trigger] self.events@[j].id) >= 0
                    && opt_view(registry.entries@[meta_index(registry.entries@, self.events@[j].id)].plugin_name)
                    == opt_view(self.plugin_name) by {
                    if self.events@[j].id != id {
                        assert(meta_index(registry.entries@, self.events@[j].id) == meta_index(
                            before,
                            self.events@[j].id,
                        ));
                        crate::event::lemma_meta_index_bounds(before, self.events@[j].id);
                    }
                }
                assert forall|other: u64|
                    (forall|j: int| 0 <= j < i + 1 ==> #[trigger] self.events@[j].id != other) implies (
                    #[trigger] meta_index(registry.entries@, other)) == meta_index(old(registry).entries@, other) by {
                    assert(self.events@[i as int].id != other);
                    assert forall|j: int| 0 <= j < i implies #[trigger] self.events@[j].id != other by {}
                }
            }
            i += 1;
        }
    }

    /// The bindings document of this collection.
    pub open spec fn export_text(&self, language: Language) -> Result<Seq<char>, ExportError> {
        document_text(
            self.types@,
            opt_view(self.plugin_name),
            self.commands@,
            self.events@,
            self.constants@,
            self.error_handling,
            language.dialect,
            language.header@,
        )
    }

    /// Renders the bindings document; nothing is written anywhere.
    pub fn export_str(&self, language: &Language) -> (r: Result<String, ExportError>)
        ensures
            text_of(r) == self.export_text(*language),
    {
        render_all_parts(
            &self.types,
            &self.plugin_name,
            &self.commands,
            &self.events,
            &self.constants,
            self.error_handling,
            language,
        )
    }

    /// Registers an event whose id and whose key in the `events` object are
    /// free; registering a taken one is a programming mistake, left out here
    /// ([`Builder::try_register_event`] tests first). The new event goes where
    /// it keeps the events ascending by name.
    pub fn register_event(&mut self, id: u64, name: String, payload: TypeDescription)
        requires
            !event_id_taken(old(self).events@, id),
            !event_display_taken(old(self).events@, lower_camel_of(name@)),
        ensures
            exists|p: int| #[trigger] event_placed(old(self).events@, final(self).events@, id, name, payload, p),
            final(self).plugin_name == old(self).plugin_name,
            final(self).commands == old(self).commands,
            final(self).types == old(self).types,
            final(self).constants == old(self).constants,
            final(self).error_handling == old(self).error_handling,
            old(self).wf() ==> final(self).wf(),
    {
        let display = to_lower_camel(name.as_str());
        let ghost old_events = self.events@;
        let mut p: usize = 0;
        while p < self.events.len() && !str_lt(name.as_str(), self.events[p].name.as_str())
            invariant
                p <= self.events.len(),
                self.events@ == old_events,
                forall|k: int| 0 <= k < p ==> !name_lt(name@, #[trigger] old_events[k].name@),
            decreases self.events.len() - p,
        {
            p += 1;
        }
        let e = Event { id, name, display, payload };
        let ghost ev = e;
        self.events.insert(p, e);
        proof {
            assert forall|k: int| 0 <= k < old_events.len() implies #[trigger] old_events[k].id != id by {
                if old_events[k].id == id {
                    assert(event_id_taken(old_events, id));
                }
            }
            assert forall|k: int| 0 <= k < old_events.len() implies #[trigger] old_events[k].display@
                != ev.display@ by {
                if old_events[k].display@ == ev.display@ {
                    assert(event_display_taken(old_events, ev.display@));
                }
            }
            if old(self).wf() {
                lemma_event_insert_wf(old_events, ev, p as int);
            }
            assert(self.events@ =~= old_events.insert(p as int, ev));
            assert(event_placed(old_events, self.events@, id, ev.name, ev.payload, p as int));
        }
    }

    /// Registers an event; one whose id or whose key in the `events` object is
    /// already taken is refused, and the collection is left unchanged.
    pub fn try_register_event(&mut self, id: u64, name: String, payload: TypeDescription) -> (r: Result<
        (),
        RegistrationError,
    >)
        ensures
            match r {
                Ok(()) => !event_id_taken(old(self).events@, id) && !event_display_taken(
                    old(self).events@,
                    lower_camel_of(name@),
                ) && exists|p: int|
                    #[trigger] event_placed(old(self).events@, final(self).events@, id, name, payload, p),
                Err(RegistrationError::DuplicateId(x)) => x == id && event_id_taken(old(self).events@, id)
                    && final(self).events == old(self).events,
                Err(RegistrationError::DuplicateName(n)) => n@ == lower_camel_of(name@) && !event_id_taken(
                    old(self).events@,
                    id,
                ) && event_display_taken(old(self).events@, lower_camel_of(name@))
                    && final(self).events == old(self).events,
            },
            final(self).plugin_name == old(self).plugin_name,
            final(self).commands == old(self).commands,
            final(self).types == old(self).types,
            final(self).constants == old(self).constants,
            final(self).error_handling == old(self).error_handling,
            old(self).wf() ==> final(self).wf(),
    {
        let display = to_lower_camel(name.as_str());
        match self.event_conflict(id, &display) {
            Some(e) => Err(e),
            None => {
                self.register_event(id, name, payload);
                Ok(())
            },
        }
    }
}

/// Two event names with the same lower camel case form collide: once one of
/// them is registered in a well-formed collection, the key of the other is
/// taken, so `register_event` refuses it with `DuplicateName`.
pub proof fn lemma_colliding_event_names(b: Builder, i: int, name: Seq<char>)
    requires
        b.wf(),
        0 <= i < b.events.len(),
        lower_camel_of(b.events[i].name@) == lower_camel_of(name),
    ensures
        event_display_taken(b.events@, lower_camel_of(name)),
{
    assert(b.events@[i].display@ == lower_camel_of(name));
}

impl Default for Builder {
    fn default() -> (r: Self)
        ensures
            r.wf(),
            r.plugin_name is None,
            r.commands@.len() == 0,
            r.events@.len() == 0,
            r.types@.len() == 0,
            r.constants@.len() == 0,
            r.error_handling == ErrorHandlingMode::Result,
    {
        Builder::new()
    }
}

proof fn lemma_find_type_absent(reg: Seq<NamedType>, id: u64)
    requires
        find_type(reg, id) == -1,
    ensures
        forall|i: int| 0 <= i < reg.len() ==> #[trigger] reg[i].id != id,
    decreases reg.len(),
{
    if reg.len() > 0 {
        lemma_find_type_absent(reg.subrange(0, reg.len() - 1), id);
        assert forall|i: int| 0 <= i < reg.len() implies #[trigger] reg[i].id != id by {
            if i < reg.len() - 1 {
                assert(reg.subrange(0, reg.len() - 1)[i] == reg[i]);
            }
        }
    }
}

proof fn lemma_constant_index_bounds(cs: Seq<Constant>, name: Seq<char>)
    ensures
        -1 <= constant_index(cs, name) < cs.len(),
        constant_index(cs, name) >= 0 ==> cs[constant_index(cs, name)].name@ == name,
    decreases cs.len(),
{
    if cs.len() > 0 && cs[cs.len() - 1].name@ != name {
        lemma_constant_index_bounds(cs.subrange(0, cs.len() - 1), name);
    }
}

proof fn lemma_constant_index_absent(cs: Seq<Constant>, name: Seq<char>)
    requires
        constant_index(cs, name) == -1,
    ensures
        forall|i: int| 0 <= i < cs.len() ==> #[trigger] cs[i].name@ != name,
    decreases cs.len(),
{
    if cs.len() > 0 {
        lemma_constant_index_absent(cs.subrange(0, cs.len() - 1), name);
        assert forall|i: int| 0 <= i < cs.len() implies #[trigger] cs[i].name@ != name by {
            if i < cs.len() - 1 {
                assert(cs.subrange(0, cs.len() - 1)[i] == cs[i]);
            }
        }
    }
}

/// The position of the last constant with the given name.
fn find_constant(cs: &Vec<Constant>, name: &String) -> (r: Option<usize>)
    ensures
        match r {
            Some(i) => i as int == constant_index(cs@, name@) && i < cs.len(),
            None => constant_index(cs@, name@) == -1,
        },
{
    let mut j: usize = cs.len();
    assert(cs@.subrange(0, j as int) =~= cs@);
    while j > 0
        invariant
            j <= cs.len(),
            constant_index(cs@, name@) == constant_index(cs@.subrange(0, j as int), name@),
        decreases j,
    {
        assert(cs@.subrange(0, j as int).subrange(0, j - 1) =~= cs@.subrange(0, j - 1));
        if cs[j - 1].name == *name {
            return Some(j - 1);
        }
        j = j - 1;
    }
    None
}

} // verus!
