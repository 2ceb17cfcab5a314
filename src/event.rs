//! The runtime table from an event's id to the plugin that mounted it, from
//! which the wire name of an event is resolved.
use vstd::prelude::*;

use crate::naming::{opt_view, wire_name, wire_name_of, ItemType};

verus! {

/// What the runtime knows of a mounted event.
#[derive(Debug)]
pub struct EventRegistryMeta {
    pub id: u64,
    pub plugin_name: Option<String>,
}

/// The mounted events; a later entry for an id takes over from earlier ones.
#[derive(Debug)]
pub struct EventRegistry {
    pub entries: Vec<EventRegistryMeta>,
}

/// The index of the entry in force for `id`, the last one, or -1.
pub open spec fn meta_index(es: Seq<EventRegistryMeta>, id: u64) -> int
    decreases es.len(),
{
    if es.len() == 0 {
        -1
    } else if es[es.len() - 1].id == id {
        es.len() - 1
    } else {
        meta_index(es.subrange(0, es.len() - 1), id)
    }
}

pub proof fn lemma_meta_index_bounds(es: Seq<EventRegistryMeta>, id: u64)
    ensures
        -1 <= meta_index(es, id) < es.len(),
        meta_index(es, id) >= 0 ==> es[meta_index(es, id)].id == id,
    decreases es.len(),
{
    if es.len() > 0 && es[es.len() - 1].id != id {
        lemma_meta_index_bounds(es.subrange(0, es.len() - 1), id);
    }
}

proof fn lemma_meta_index_push(es: Seq<EventRegistryMeta>, m: EventRegistryMeta, id: u64)
    ensures
        meta_index(es.push(m), id) == if m.id == id {
            es.len() as int
        } else {
            meta_index(es, id)
        },
{
    assert(es.push(m).subrange(0, es.len() as int) =~= es);
}

pub fn clone_name(o: &Option<String>) -> (r: Option<String>)
    ensures
        opt_view(r) == opt_view(*o),
{
    match o {
        Some(p) => Some(p.clone()),
        None => None,
    }
}

impl EventRegistry {
    pub fn new() -> (r: Self)
        ensures
            r.entries@.len() == 0,
    {
        EventRegistry { entries: Vec::new() }
    }

    /// Records that event `id` belongs to `plugin_name`.
    pub fn insert(&mut self, id: u64, plugin_name: Option<String>)
        ensures
            final(self).entries@.len() == old(self).entries@.len() + 1,
            meta_index(final(self).entries@, id) == old(self).entries@.len(),
            final(self).entries@[old(self).entries@.len() as int].plugin_name == plugin_name,
            forall|other: u64|
                other != id ==> #[trigger] meta_index(final(self).entries@, other) == meta_index(
                    old(self).entries@,
                    other,
                ),
            forall|k: int|
                0 <= k < old(self).entries@.len() ==> #[trigger] final(self).entries@[k] == old(self).entries@[k],
    {
        let m = EventRegistryMeta { id, plugin_name };
        proof {
            assert forall|other: u64| true implies #[trigger] meta_index(self.entries@.push(m), other) == if m.id
                == other {
                self.entries@.len() as int
            } else {
                meta_index(self.entries@, other)
            } by {
                lemma_meta_index_push(self.entries@, m, other);
            }
        }
        self.entries.push(m);
    }

    /// The wire name of the mounted event `id` declared as `name`: prefixed
    /// with the plugin it was mounted for, if any. Using an event that was never
    /// mounted is a programming mistake, left out here
    /// ([`EventRegistry::try_get_event_name`] tests first).
    pub fn get_event_name(&self, id: u64, name: &str) -> (r: String)
        requires
            meta_index(self.entries@, id) >= 0,
        ensures
            r@ == wire_name_of(
                opt_view(self.entries@[meta_index(self.entries@, id)].plugin_name),
                name@,
                ItemType::Event,
            ),
    {
        match self.try_get_event_name(id, name) {
            Some(s) => s,
            None => unreached(),
        }
    }

    /// The wire name of event `id` declared as `name`: prefixed with the plugin
    /// it was mounted for, if any; `None` when it was never mounted.
    pub fn try_get_event_name(&self, id: u64, name: &str) -> (r: Option<String>)
        ensures
            match r {
                Some(s) => meta_index(self.entries@, id) >= 0 && s@ == wire_name_of(
                    opt_view(self.entries@[meta_index(self.entries@, id)].plugin_name),
                    name@,
                    ItemType::Event,
                ),
                None => meta_index(self.entries@, id) == -1,
            },
    {
        let mut j: usize = self.entries.len();
        assert(self.entries@.subrange(0, j as int) =~= self.entries@);
        while j > 0
            invariant
                j <= self.entries.len(),
                meta_index(self.entries@, id) == meta_index(self.entries@.subrange(0, j as int), id),
            decreases j,
        {
            assert(self.entries@.subrange(0, j as int).subrange(0, j - 1) =~= self.entries@.subrange(0, j - 1));
            if self.entries[j - 1].id == id {
                return Some(wire_name(&self.entries[j - 1].plugin_name, name, ItemType::Event));
            }
            j = j - 1;
        }
        None
    }
}

} // verus!
