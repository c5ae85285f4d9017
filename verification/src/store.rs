//! The shared per-request state store: a mapping from a middleware-chosen
//! namespace key and a request id to an opaque string value.
//!
//! The store lives as long as the owning service instance, but the
//! orchestrator clears it at the start of every call, so its contents are
//! behaviorally request-scoped. That bounds memory growth across a keep-alive
//! connection issuing many requests; the corollary is that a middleware must
//! never assume data survives from one request to the next.

use vstd::prelude::*;

verus! {

/// One binding held by the store.
pub struct StateEntry {
    pub key: String,
    pub req_id: u64,
    pub value: String,
}

/// The mathematical content of a sequence of bindings: a later binding for the
/// same `(key, request id)` pair shadows an earlier one.
pub open spec fn entries_map(s: Seq<StateEntry>) -> Map<(Seq<char>, u64), Seq<char>>
    decreases s.len(),
{
    if s.len() == 0 {
        Map::empty()
    } else {
        entries_map(s.drop_last()).insert((s.last().key@, s.last().req_id), s.last().value@)
    }
}

/// The binding for `(k, id)` in a sequence of entries, if any.
pub open spec fn entries_at(s: Seq<StateEntry>, k: Seq<char>, id: u64) -> Option<Seq<char>> {
    if entries_map(s).dom().contains((k, id)) {
        Some(entries_map(s)[(k, id)])
    } else {
        None
    }
}

/// The mapping `(key, request id) -> value` that middlewares use to pass data
/// between the phases of one request. Its abstract value is a `Map` from the
/// pair of key and request id to the stored string.
pub struct StateStore {
    entries: Vec<StateEntry>,
}

impl View for StateStore {
    type V = Map<(Seq<char>, u64), Seq<char>>;

    closed spec fn view(&self) -> Map<(Seq<char>, u64), Seq<char>> {
        entries_map(self.entries@)
    }
}

impl StateStore {
    /// An empty store.
    pub fn new() -> (r: StateStore)
        ensures
            r@ == Map::<(Seq<char>, u64), Seq<char>>::empty(),
    {
        StateStore { entries: Vec::new() }
    }

    /// Record `value` under `(key, req_id)`, shadowing any earlier binding for
    /// the same pair.
    pub fn set(&mut self, key: &str, req_id: u64, value: &str)
        ensures
            final(self)@ == old(self)@.insert((key@, req_id), value@),
    {
        let entry = StateEntry { key: key.to_owned(), req_id, value: value.to_owned() };
        self.entries.push(entry);
        proof {
            assert(self.entries@.drop_last() =~= old(self).entries@);
        }
    }

    /// Drop every binding. The orchestrator calls this at the start of each
    /// request, which is what makes the store request-scoped in behavior.
    pub fn clear(&mut self)
        ensures
            final(self)@ == Map::<(Seq<char>, u64), Seq<char>>::empty(),
    {
        self.entries = Vec::new();
        proof {
            assert(self.entries@.len() == 0);
        }
    }

    /// Look up the value recorded under `(key, req_id)`, if any.
    pub fn get(&self, key: &str, req_id: u64) -> (r: Option<String>)
        ensures
            match r {
                Some(v) => self@.dom().contains((key@, req_id)) && v@ == self@[(key@, req_id)],
                None => !self@.dom().contains((key@, req_id)),
            },
    {
        let k: String = key.to_owned();
        let ghost s = self.entries@;
        let mut i: usize = self.entries.len();
        proof {
            assert(s.take(i as int) =~= s);
        }
        while i > 0
            invariant
                i <= s.len(),
                s == self.entries@,
                k@ == key@,
                entries_at(s, key@, req_id) == entries_at(s.take(i as int), key@, req_id),
            decreases i,
        {
            i = i - 1;
            let e = &self.entries[i];
            proof {
                assert(s.take(i + 1).last() == s[i as int]);
                assert(s.take(i + 1).drop_last() =~= s.take(i as int));
            }
            if e.key == k && e.req_id == req_id {
                assert(entries_at(s.take(i + 1), key@, req_id) == Some(e.value@));
                return Some(e.value.clone());
            }
            proof {
                assert(entries_at(s.take(i + 1), key@, req_id)
                    == entries_at(s.take(i as int), key@, req_id));
            }
        }
        proof {
            assert(s.take(0) =~= Seq::<StateEntry>::empty());
        }
        None
    }
}

} // verus!
