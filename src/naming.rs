//! Wire names of commands and events, and the casing of generated identifiers.
use vstd::prelude::*;

verus! {

/// What the lower camel case conversion of heck makes of a text.
pub uninterp spec fn lower_camel_of(s: Seq<char>) -> Seq<char>;

/// Relies on `heck::ToLowerCamelCase::to_lower_camel_case` for `str`: its
/// result depends on the characters of the input alone.
#[verifier::external_body]
pub(crate) fn to_lower_camel(s: &str) -> (r: String)
    ensures
        r@ == lower_camel_of(s@),
{
    heck::ToLowerCamelCase::to_lower_camel_case(s)
}

/// What the kebab case conversion of heck makes of a text.
pub uninterp spec fn kebab_of(s: Seq<char>) -> Seq<char>;

/// Relies on `heck::ToKebabCase::to_kebab_case` for `str`: its result depends
/// on the characters of the input alone.
#[verifier::external_body]
pub(crate) fn to_kebab(s: &str) -> (r: String)
    ensures
        r@ == kebab_of(s@),
{
    heck::ToKebabCase::to_kebab_case(s)
}

/// The declared name of an event: the name given explicitly, else the kebab
/// case form of the payload type's name.
pub open spec fn event_name_of(payload_name: Seq<char>, explicit: Option<Seq<char>>) -> Seq<char> {
    match explicit {
        Some(n) => n,
        None => kebab_of(payload_name),
    }
}

pub fn event_name(payload_name: &str, explicit: Option<String>) -> (r: String)
    ensures
        r@ == event_name_of(payload_name@, opt_view(explicit)),
{
    match explicit {
        Some(n) => n,
        None => to_kebab(payload_name),
    }
}

/// Lexicographic order of texts by code point: the order of `str`.
pub open spec fn name_lt(a: Seq<char>, b: Seq<char>) -> bool
    decreases a.len(),
{
    if a.len() == 0 {
        b.len() > 0
    } else if b.len() == 0 {
        false
    } else if a[0] != b[0] {
        a[0] < b[0]
    } else {
        name_lt(a.subrange(1, a.len() as int), b.subrange(1, b.len() as int))
    }
}

/// Whether `a` comes before `b` in the order of [`name_lt`].
pub fn str_lt(a: &str, b: &str) -> (r: bool)
    ensures
        r == name_lt(a@, b@),
{
    let n = a.unicode_len();
    let m = b.unicode_len();
    let mut i: usize = 0;
    assert(a@.subrange(0, n as int) =~= a@);
    assert(b@.subrange(0, m as int) =~= b@);
    while i < n && i < m
        invariant
            n == a@.len(),
            m == b@.len(),
            i <= n,
            i <= m,
            name_lt(a@, b@) == name_lt(a@.subrange(i as int, n as int), b@.subrange(i as int, m as int)),
        decreases n - i,
    {
        let x = a.get_char(i);
        let y = b.get_char(i);
        let ghost ta = a@.subrange(i as int, n as int);
        let ghost tb = b@.subrange(i as int, m as int);
        assert(ta[0] == x && tb[0] == y);
        if x != y {
            return x < y;
        }
        assert(ta.subrange(1, ta.len() as int) =~= a@.subrange(i + 1, n as int));
        assert(tb.subrange(1, tb.len() as int) =~= b@.subrange(i + 1, m as int));
        i += 1;
    }
    i < m
}

pub proof fn lemma_name_lt_irreflexive(a: Seq<char>)
    ensures
        !name_lt(a, a),
    decreases a.len(),
{
    if a.len() > 0 {
        lemma_name_lt_irreflexive(a.subrange(1, a.len() as int));
    }
}

pub proof fn lemma_name_lt_total(a: Seq<char>, b: Seq<char>)
    ensures
        a != b ==> name_lt(a, b) || name_lt(b, a),
        !(name_lt(a, b) && name_lt(b, a)),
    decreases a.len(),
{
    if a.len() > 0 && b.len() > 0 && a[0] == b[0] {
        let ta = a.subrange(1, a.len() as int);
        let tb = b.subrange(1, b.len() as int);
        lemma_name_lt_total(ta, tb);
        if ta == tb {
            assert(a =~= seq![a[0]] + ta);
            assert(b =~= seq![b[0]] + tb);
        }
    } else if a.len() == 0 && b.len() == 0 {
        assert(a =~= b);
    }
}

pub proof fn lemma_name_lt_transitive(a: Seq<char>, b: Seq<char>, c: Seq<char>)
    requires
        name_lt(a, b),
        name_lt(b, c),
    ensures
        name_lt(a, c),
    decreases a.len(),
{
    if a.len() > 0 && b.len() > 0 && c.len() > 0 && a[0] == b[0] && b[0] == c[0] {
        lemma_name_lt_transitive(
            a.subrange(1, a.len() as int),
            b.subrange(1, b.len() as int),
            c.subrange(1, c.len() as int),
        );
    }
}

/// The kind of item whose wire name is being built.
#[derive(Clone, Copy, Debug, PartialEq, Eq, Structural)]
pub enum ItemType {
    Event,
    Command,
}

/// The delimiter between the parts of a plugin-scoped wire name.
pub open spec fn delimiter(item_type: ItemType) -> Seq<char> {
    match item_type {
        ItemType::Event => ":"@,
        ItemType::Command => "|"@,
    }
}

/// `plugin<d><plugin_name><d><s>`, where `<d>` is `:` for events and `|` for commands.
pub open spec fn prefixed(plugin_name: Seq<char>, s: Seq<char>, item_type: ItemType) -> Seq<char> {
    "plugin"@ + delimiter(item_type) + plugin_name + delimiter(item_type) + s
}

/// The wire name of an item: prefixed when it belongs to a plugin, the raw name otherwise.
pub open spec fn wire_name_of(plugin_name: Option<Seq<char>>, s: Seq<char>, item_type: ItemType) -> Seq<char> {
    match plugin_name {
        Some(p) => prefixed(p, s, item_type),
        None => s,
    }
}

pub open spec fn opt_view(o: Option<String>) -> Option<Seq<char>> {
    match o {
        Some(s) => Some(s@),
        None => None,
    }
}

/// Qualifies `s` with the plugin that owns it.
pub fn apply_as_prefix(plugin_name: &str, s: &str, item_type: ItemType) -> (r: String)
    ensures
        r@ == prefixed(plugin_name@, s@, item_type),
{
    let d = match item_type {
        ItemType::Event => ":",
        ItemType::Command => "|",
    };
    let mut r = String::from_str("plugin");
    r.append(d);
    r.append(plugin_name);
    r.append(d);
    r.append(s);
    r
}

/// The name under which the runtime knows an item.
pub fn wire_name(plugin_name: &Option<String>, s: &str, item_type: ItemType) -> (r: String)
    ensures
        r@ == wire_name_of(opt_view(*plugin_name), s@, item_type),
{
    match plugin_name {
        Some(p) => apply_as_prefix(p.as_str(), s, item_type),
        None => String::from_str(s),
    }
}

/// An event registered under a plugin carries the plugin's name between colons;
/// the same event outside any plugin keeps its own name.
pub proof fn lemma_event_plugin_prefix(plugin_name: Seq<char>, event_name: Seq<char>)
    ensures
        wire_name_of(Some(plugin_name), event_name, ItemType::Event)
            == "plugin:"@ + plugin_name + ":"@ + event_name,
        wire_name_of(None, event_name, ItemType::Event) == event_name,
{
    reveal_strlit("plugin:");
    reveal_strlit("plugin");
    reveal_strlit(":");
    assert(("plugin"@ + ":"@) =~= "plugin:"@);
    assert("plugin"@ + ":"@ + plugin_name + ":"@ + event_name
        =~= "plugin:"@ + plugin_name + ":"@ + event_name);
}

} // verus!
