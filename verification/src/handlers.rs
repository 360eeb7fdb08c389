//! The registry of script callbacks: one handler per hotkey binding, and a
//! list of handlers per event name, run in registration order.
use vstd::prelude::*;
use crate::text::str_eq;

verus! {

/// Whether the names of `pairs` are pairwise distinct.
pub open spec fn names_unique<T>(pairs: Seq<(String, T)>) -> bool {
    forall|i: int, j: int| 0 <= i < j < pairs.len() ==> (#[trigger] pairs[i]).0@ != (#[trigger] pairs[j]).0@
}

/// The value registered under `name`, if any.
pub open spec fn lookup<T>(pairs: Seq<(String, T)>, name: Seq<char>) -> Option<T> {
    if exists|i: int| 0 <= i < pairs.len() && (#[trigger] pairs[i]).0@ == name {
        let i = choose|i: int| 0 <= i < pairs.len() && (#[trigger] pairs[i]).0@ == name;
        Some(pairs[i].1)
    } else {
        None
    }
}

/// Script callbacks by hotkey binding and by event name.
#[derive(Debug)]
pub struct ScriptHandlers<H> {
    hotkeys: Vec<(String, H)>,
    events: Vec<(String, Vec<H>)>,
}

/// The handlers of an event as a sequence (empty when none is registered).
pub open spec fn event_list<H>(events: Seq<(String, Vec<H>)>, name: Seq<char>) -> Seq<H> {
    match lookup(events, name) {
        Some(v) => v@,
        None => seq![],
    }
}

fn position<T>(pairs: &Vec<(String, T)>, name: &str) -> (r: Option<usize>)
    requires
        names_unique(pairs@),
    ensures
        match r {
            Some(i) => i < pairs@.len() && pairs@[i as int].0@ == name@ && lookup(pairs@, name@) == Some(
                pairs@[i as int].1,
            ),
            None => lookup(pairs@, name@) is None && forall|j: int|
                0 <= j < pairs@.len() ==> (#[trigger] pairs@[j]).0@ != name@,
        },
{
    let mut i: usize = 0;
    while i < pairs.len()
        invariant
            i <= pairs@.len(),
            names_unique(pairs@),
            forall|j: int| 0 <= j < i ==> (#[trigger] pairs@[j]).0@ != name@,
        decreases pairs@.len() - i,
    {
        if str_eq(pairs[i].0.as_str(), name) {
            proof {
                let k = choose|k: int| 0 <= k < pairs@.len() && (#[trigger] pairs@[k]).0@ == name@;
                if k != i as int {
                    assert(pairs@[k].0@ != pairs@[i as int].0@);
                }
            }
            return Some(i);
        }
        i = i + 1;
    }
    None
}

/// Changing the value at a position keeps the names, so lookups of other
/// names are unchanged and the name at that position finds the new value.
proof fn lemma_lookup_update<T>(pairs: Seq<(String, T)>, i: int, v: (String, T), name: Seq<char>)
    requires
        names_unique(pairs),
        0 <= i < pairs.len(),
        v.0@ == pairs[i].0@,
    ensures
        names_unique(pairs.update(i, v)),
        lookup(pairs.update(i, v), name) == (if name == v.0@ { Some(v.1) } else { lookup(pairs, name) }),
{
    let u = pairs.update(i, v);
    assert forall|a: int, b: int| 0 <= a < b < u.len() implies (#[trigger] u[a]).0@ != (#[trigger] u[b]).0@ by {
        assert(pairs[a].0@ != pairs[b].0@);
    }
    if name == v.0@ {
        assert(u[i].0@ == name);
        let k = choose|k: int| 0 <= k < u.len() && (#[trigger] u[k]).0@ == name;
        if k != i {
            assert(u[k].0@ != u[i].0@);
        }
    } else {
        if exists|k: int| 0 <= k < u.len() && (#[trigger] u[k]).0@ == name {
            let k = choose|k: int| 0 <= k < u.len() && (#[trigger] u[k]).0@ == name;
            assert(pairs[k].0@ == name);
            let m = choose|m: int| 0 <= m < pairs.len() && (#[trigger] pairs[m]).0@ == name;
            if m != k {
                assert(pairs[m].0@ != pairs[k].0@);
            }
        }
        if exists|k: int| 0 <= k < pairs.len() && (#[trigger] pairs[k]).0@ == name {
            let k = choose|k: int| 0 <= k < pairs.len() && (#[trigger] pairs[k]).0@ == name;
            assert(u[k].0@ == name);
        }
    }
}

/// Adding a new name keeps the names distinct; it finds the new value and
/// other names find what they found.
proof fn lemma_lookup_push<T>(pairs: Seq<(String, T)>, v: (String, T), name: Seq<char>)
    requires
        names_unique(pairs),
        forall|j: int| 0 <= j < pairs.len() ==> (#[trigger] pairs[j]).0@ != v.0@,
    ensures
        names_unique(pairs.push(v)),
        lookup(pairs.push(v), name) == (if name == v.0@ { Some(v.1) } else { lookup(pairs, name) }),
{
    let u = pairs.push(v);
    assert forall|a: int, b: int| 0 <= a < b < u.len() implies (#[trigger] u[a]).0@ != (#[trigger] u[b]).0@ by {
        if b < pairs.len() {
            assert(pairs[a].0@ != pairs[b].0@);
        } else {
            assert(u[a] == pairs[a]);
        }
    }
    if name == v.0@ {
        assert(u[pairs.len() as int].0@ == name);
        let k = choose|k: int| 0 <= k < u.len() && (#[trigger] u[k]).0@ == name;
        if k < pairs.len() {
            assert(pairs[k].0@ == name);
        }
    } else {
        if exists|k: int| 0 <= k < u.len() && (#[trigger] u[k]).0@ == name {
            let k = choose|k: int| 0 <= k < u.len() && (#[trigger] u[k]).0@ == name;
            assert(k < pairs.len());
            assert(pairs[k].0@ == name);
            let m = choose|m: int| 0 <= m < pairs.len() && (#[trigger] pairs[m]).0@ == name;
            if m != k {
                assert(pairs[m].0@ != pairs[k].0@);
            }
        }
        if exists|k: int| 0 <= k < pairs.len() && (#[trigger] pairs[k]).0@ == name {
            let k = choose|k: int| 0 <= k < pairs.len() && (#[trigger] pairs[k]).0@ == name;
            assert(u[k].0@ == name);
        }
    }
}

impl<H> ScriptHandlers<H> {
    /// The registry is well formed: no binding and no event name twice.
    pub closed spec fn wf(&self) -> bool {
        names_unique(self.hotkeys@) && names_unique(self.events@)
    }

    /// The handler registered for a hotkey binding.
    pub closed spec fn spec_hotkey(&self, binding: Seq<char>) -> Option<H> {
        lookup(self.hotkeys@, binding)
    }

    /// The handlers registered for an event, in registration order.
    pub closed spec fn spec_event(&self, name: Seq<char>) -> Seq<H> {
        event_list(self.events@, name)
    }

    /// An empty registry.
    pub fn new() -> (r: ScriptHandlers<H>)
        ensures
            r.wf(),
            forall|b: Seq<char>| #[trigger] r.spec_hotkey(b) is None,
            forall|n: Seq<char>| #[trigger] r.spec_event(n).len() == 0,
    {
        ScriptHandlers { hotkeys: Vec::new(), events: Vec::new() }
    }

    /// Registers the handler of a hotkey binding, replacing any earlier one.
    pub fn register_hotkey(&mut self, binding: String, handler: H)
        requires
            old(self).wf(),
        ensures
            final(self).wf(),
            final(self).spec_hotkey(binding@) == Some(handler),
            forall|b: Seq<char>| b != binding@ ==> #[trigger] final(self).spec_hotkey(b) == old(self).spec_hotkey(b),
            forall|n: Seq<char>| #[trigger] final(self).spec_event(n) == old(self).spec_event(n),
    {
        let ghost name = binding@;
        match position(&self.hotkeys, binding.as_str()) {
            Some(i) => {
                let ghost before = self.hotkeys@;
                self.hotkeys.set(i, (binding, handler));
                proof {
                    assert forall|b: Seq<char>| #[trigger] lookup(self.hotkeys@, b) == (if b == name {
                        Some(handler)
                    } else {
                        lookup(before, b)
                    }) by {
                        lemma_lookup_update(before, i as int, self.hotkeys@[i as int], b);
                    }
                    lemma_lookup_update(before, i as int, self.hotkeys@[i as int], name);
                }
            },
            None => {
                let ghost before = self.hotkeys@;
                self.hotkeys.push((binding, handler));
                proof {
                    assert forall|b: Seq<char>| #[trigger] lookup(self.hotkeys@, b) == (if b == name {
                        Some(handler)
                    } else {
                        lookup(before, b)
                    }) by {
                        lemma_lookup_push(before, self.hotkeys@.last(), b);
                    }
                    lemma_lookup_push(before, self.hotkeys@.last(), name);
                }
            },
        }
    }

    /// Adds a handler for an event after the ones already registered.
    pub fn register_event_handler(&mut self, event_name: String, handler: H)
        requires
            old(self).wf(),
        ensures
            final(self).wf(),
            final(self).spec_event(event_name@) == old(self).spec_event(event_name@).push(handler),
            forall|n: Seq<char>| n != event_name@ ==> #[trigger] final(self).spec_event(n) == old(self).spec_event(n),
            forall|b: Seq<char>| #[trigger] final(self).spec_hotkey(b) == old(self).spec_hotkey(b),
    {
        let ghost name = event_name@;
        match position(&self.events, event_name.as_str()) {
            Some(i) => {
                let ghost before = self.events@;
                let (n, mut list) = self.events.remove(i);
                let ghost old_list = list@;
                list.push(handler);
                self.events.insert(i, (n, list));
                proof {
                    assert(self.events@ == before.update(i as int, self.events@[i as int]));
                    assert forall|b: Seq<char>| #[trigger] event_list(self.events@, b) == (if b == name {
                        old_list.push(handler)
                    } else {
                        event_list(before, b)
                    }) by {
                        lemma_lookup_update(before, i as int, self.events@[i as int], b);
                    }
                    lemma_lookup_update(before, i as int, self.events@[i as int], name);
                }
            },
            None => {
                let ghost before = self.events@;
                let mut list: Vec<H> = Vec::new();
                list.push(handler);
                self.events.push((event_name, list));
                proof {
                    assert forall|b: Seq<char>| #[trigger] event_list(self.events@, b) == (if b == name {
                        seq![handler]
                    } else {
                        event_list(before, b)
                    }) by {
                        lemma_lookup_push(before, self.events@.last(), b);
                    }
                    lemma_lookup_push(before, self.events@.last(), name);
                    assert(Seq::<H>::empty().push(handler) =~= seq![handler]);
                }
            },
        }
    }

    /// The handler of a hotkey binding.
    pub fn hotkey(&self, binding: &str) -> (r: Option<&H>)
        requires
            self.wf(),
        ensures
            match r {
                Some(h) => self.spec_hotkey(binding@) == Some(*h),
                None => self.spec_hotkey(binding@) is None,
            },
    {
        match position(&self.hotkeys, binding) {
            Some(i) => Some(&self.hotkeys[i].1),
            None => None,
        }
    }

    /// The handlers of an event, in registration order.
    pub fn event_handlers(&self, event_name: &str) -> (r: &[H])
        requires
            self.wf(),
        ensures
            r@ == self.spec_event(event_name@),
    {
        match position(&self.events, event_name) {
            Some(i) => self.events[i].1.as_slice(),
            None => &[],
        }
    }

    /// Forgets every handler.
    pub fn clear(&mut self)
        ensures
            final(self).wf(),
            forall|b: Seq<char>| #[trigger] final(self).spec_hotkey(b) is None,
            forall|n: Seq<char>| #[trigger] final(self).spec_event(n).len() == 0,
    {
        self.hotkeys.clear();
        self.events.clear();
    }
}

} // verus!
