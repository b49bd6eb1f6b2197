use vstd::prelude::*;
use crate::error::PtyError;
use crate::text::same_text;
use vstd::string::*;

verus! {

/// One live session as the proofs see it: its id, the generation it was
/// started under, and the owned pty handle.
struct Entry<H> {
    id: String,
    generation: u64,
    handle: H,
}

/// The id and generation of a live session; its handle is stored apart.
struct Key {
    id: String,
    generation: u64,
}

/// What the registry records for a live session id: its generation and handle.
pub type Slot<H> = (u64, H);

/// The map denoted by a sequence of entries; a later entry for an id would
/// shadow an earlier one, but the registry never holds two.
spec fn slots_of<H>(s: Seq<Entry<H>>) -> Map<Seq<char>, Slot<H>>
    decreases s.len(),
{
    if s.len() == 0 {
        Map::empty()
    } else {
        slots_of(s.drop_last()).insert(s.last().id@, (s.last().generation, s.last().handle))
    }
}

spec fn distinct_keys(s: Seq<Key>) -> bool {
    forall|i: int, j: int| 0 <= i < j < s.len() ==> s[i].id@ != s[j].id@
}

spec fn distinct_ids<H>(s: Seq<Entry<H>>) -> bool {
    forall|i: int, j: int| 0 <= i < j < s.len() ==> s[i].id@ != s[j].id@
}

proof fn lemma_slots_dom<H>(s: Seq<Entry<H>>, k: Seq<char>)
    ensures
        slots_of(s).contains_key(k) <==> exists|i: int| 0 <= i < s.len() && s[i].id@ == k,
    decreases s.len(),
{
    if s.len() > 0 {
        lemma_slots_dom(s.drop_last(), k);
        if slots_of(s.drop_last()).contains_key(k) {
            let i = choose|i: int| 0 <= i < s.drop_last().len() && s.drop_last()[i].id@ == k;
            assert(s[i].id@ == k);
        }
        if exists|i: int| 0 <= i < s.len() && s[i].id@ == k {
            let i = choose|i: int| 0 <= i < s.len() && s[i].id@ == k;
            if i < s.len() - 1 {
                assert(s.drop_last()[i].id@ == k);
            }
        }
    }
}

proof fn lemma_slots_value<H>(s: Seq<Entry<H>>, i: int)
    requires
        distinct_ids(s),
        0 <= i < s.len(),
    ensures
        slots_of(s).contains_key(s[i].id@),
        slots_of(s)[s[i].id@] == (s[i].generation, s[i].handle),
    decreases s.len(),
{
    if i < s.len() - 1 {
        let t = s.drop_last();
        assert(t[i] == s[i]);
        assert(distinct_ids(t));
        lemma_slots_value(t, i);
        assert(s.last().id@ != s[i].id@);
    }
}

/// A sequence with distinct ids denotes exactly the ids it holds, each with its own slot.
proof fn lemma_slots_char<H>(s: Seq<Entry<H>>)
    requires
        distinct_ids(s),
    ensures
        forall|k: Seq<char>|
            #[trigger] slots_of(s).contains_key(k) <==> exists|i: int|
                0 <= i < s.len() && s[i].id@ == k,
        forall|i: int|
            0 <= i < s.len() ==> slots_of(s)[#[trigger] s[i].id@] == (s[i].generation, s[i].handle),
{
    assert forall|k: Seq<char>|
        #[trigger] slots_of(s).contains_key(k) <==> exists|i: int| 0 <= i < s.len() && s[i].id@ == k by {
        lemma_slots_dom(s, k);
    }
    assert forall|i: int| 0 <= i < s.len() implies slots_of(s)[#[trigger] s[i].id@] == (
        s[i].generation,
        s[i].handle,
    ) by {
        lemma_slots_value(s, i);
    }
}

proof fn lemma_slots_remove<H>(s: Seq<Entry<H>>, i: int)
    requires
        distinct_ids(s),
        0 <= i < s.len(),
    ensures
        distinct_ids(s.remove(i)),
        slots_of(s.remove(i)) == slots_of(s).remove(s[i].id@),
{
    let t = s.remove(i);
    assert forall|a: int, b: int| 0 <= a < b < t.len() implies t[a].id@ != t[b].id@ by {
        let a2 = if a < i { a } else { a + 1 };
        let b2 = if b < i { b } else { b + 1 };
        assert(t[a] == s[a2] && t[b] == s[b2]);
    }
    lemma_slots_char(s);
    lemma_slots_char(t);
    let k0 = s[i].id@;
    assert forall|k: Seq<char>| #[trigger]
        slots_of(t).contains_key(k) <==> slots_of(s).remove(k0).contains_key(k) by {
        if slots_of(t).contains_key(k) {
            let j = choose|j: int| 0 <= j < t.len() && t[j].id@ == k;
            let j2 = if j < i { j } else { j + 1 };
            assert(s[j2].id@ == k);
            assert(j2 != i);
        }
        if slots_of(s).remove(k0).contains_key(k) {
            let j = choose|j: int| 0 <= j < s.len() && s[j].id@ == k;
            assert(j != i);
            let j2 = if j < i { j } else { j - 1 };
            assert(t[j2].id@ == k);
        }
    }
    assert forall|k: Seq<char>| #[trigger] slots_of(t).contains_key(k) implies slots_of(t)[k]
        == slots_of(s)[k] by {
        let j = choose|j: int| 0 <= j < t.len() && t[j].id@ == k;
        let j2 = if j < i { j } else { j + 1 };
        assert(t[j] == s[j2]);
    }
    assert(slots_of(t) =~= slots_of(s).remove(k0));
}

proof fn lemma_slots_update<H>(s: Seq<Entry<H>>, i: int, e: Entry<H>)
    requires
        distinct_ids(s),
        0 <= i < s.len(),
        e.id@ == s[i].id@,
    ensures
        distinct_ids(s.update(i, e)),
        slots_of(s.update(i, e)) == slots_of(s).insert(e.id@, (e.generation, e.handle)),
{
    let t = s.update(i, e);
    assert forall|a: int, b: int| 0 <= a < b < t.len() implies t[a].id@ != t[b].id@ by {
        assert(t[a].id@ == s[a].id@ && t[b].id@ == s[b].id@);
    }
    lemma_slots_char(s);
    lemma_slots_char(t);
    let m = slots_of(s).insert(e.id@, (e.generation, e.handle));
    assert forall|k: Seq<char>| #[trigger] slots_of(t).contains_key(k) <==> m.contains_key(k) by {
        if slots_of(t).contains_key(k) {
            let j = choose|j: int| 0 <= j < t.len() && t[j].id@ == k;
            assert(s[j].id@ == k);
        }
        if m.contains_key(k) && k != e.id@ {
            let j = choose|j: int| 0 <= j < s.len() && s[j].id@ == k;
            assert(t[j].id@ == k);
        }
        if k == e.id@ {
            assert(t[i].id@ == k);
        }
    }
    assert forall|k: Seq<char>| #[trigger] slots_of(t).contains_key(k) implies slots_of(t)[k]
        == m[k] by {
        let j = choose|j: int| 0 <= j < t.len() && t[j].id@ == k;
        if j != i {
            assert(t[j] == s[j]);
        }
    }
    assert(slots_of(t) =~= m);
}

proof fn lemma_slots_push<H>(s: Seq<Entry<H>>, e: Entry<H>)
    requires
        distinct_ids(s),
        !slots_of(s).contains_key(e.id@),
    ensures
        distinct_ids(s.push(e)),
        slots_of(s.push(e)) == slots_of(s).insert(e.id@, (e.generation, e.handle)),
{
    let t = s.push(e);
    assert(t.drop_last() =~= s);
    lemma_slots_char(s);
    assert forall|a: int, b: int| 0 <= a < b < t.len() implies t[a].id@ != t[b].id@ by {
        if b == s.len() {
            assert(t[a] == s[a]);
        } else {
            assert(t[a] == s[a] && t[b] == s[b]);
        }
    }
}

/// The registry after a reader loop's cleanup of session `id` started under
/// `generation`: the entry goes only if it is still that session.
pub open spec fn after_cleanup<H>(m: Map<Seq<char>, Slot<H>>, id: Seq<char>, generation: u64) -> Map<
    Seq<char>,
    Slot<H>,
> {
    if m.contains_key(id) && m[id].0 == generation {
        m.remove(id)
    } else {
        m
    }
}

/// The text of the error for an operation on an id that is not live.
pub open spec fn not_found_text(id: Seq<char>) -> Seq<char> {
    "No PTY session found for terminal "@ + id
}

fn not_found_message(id: &str) -> (r: String)
    ensures
        r@ == not_found_text(id@),
{
    let mut m = String::from_str("No PTY session found for terminal ");
    m.append(id);
    m
}

/// The table of live sessions. Presence of an id is the sole definition of a
/// live session; each id holds at most one handle, and each entry carries the
/// generation under which it was started, so that a reader loop of an earlier
/// session under the same id can never remove a later one.
pub struct Registry<H> {
    keys: Vec<Key>,
    handles: Vec<H>,
    next_generation: u64,
}

impl<H> Registry<H> {
    spec fn entries(&self) -> Seq<Entry<H>> {
        Seq::new(
            self.keys@.len(),
            |i: int|
                Entry {
                    id: self.keys@[i].id,
                    generation: self.keys@[i].generation,
                    handle: self.handles@[i],
                },
        )
    }

    /// Distinct keys make distinct entries.
    proof fn lemma_entries(&self)
        requires
            self.keys@.len() == self.handles@.len(),
            distinct_keys(self.keys@),
        ensures
            distinct_ids(self.entries()),
            forall|i: int|
                0 <= i < self.keys@.len() ==> (#[trigger] self.entries()[i]).id == self.keys@[i].id
                    && self.entries()[i].generation == self.keys@[i].generation
                    && self.entries()[i].handle == self.handles@[i],
    {
    }

    #[verifier::type_invariant]
    spec fn inv(&self) -> bool {
        &&& self.keys@.len() == self.handles@.len()
        &&& distinct_keys(self.keys@)
        &&& forall|i: int|
            0 <= i < self.keys@.len() ==> #[trigger] self.keys@[i].generation < self.next_generation
    }

    /// The live sessions: id to (generation, handle).
    pub closed spec fn view(&self) -> Map<Seq<char>, Slot<H>> {
        slots_of(self.entries())
    }

    /// The generation that the next start will be given.
    pub closed spec fn next_gen(&self) -> u64 {
        self.next_generation
    }

    /// An empty registry.
    pub fn new() -> (r: Self)
        ensures
            r@ == Map::<Seq<char>, Slot<H>>::empty(),
            r.next_gen() == 0,
    {
        let r = Registry { keys: Vec::new(), handles: Vec::new(), next_generation: 0 };
        assert(r.entries().len() == 0);
        r
    }

    /// Moves the entries out, leaving the registry empty for the moment.
    fn take_entries(&mut self) -> (r: (Vec<Key>, Vec<H>))
        ensures
            r.0@ == old(self).keys@,
            r.1@ == old(self).handles@,
            final(self).keys@.len() == 0,
            final(self).handles@.len() == 0,
            final(self).next_generation == old(self).next_generation,
    {
        let mut other = Registry { keys: Vec::new(), handles: Vec::new(), next_generation: self.next_generation };
        std::mem::swap(self, &mut other);
        let Registry { keys, handles, next_generation } = other;
        (keys, handles)
    }

    /// Position of the entry for `id`, if any.
    fn find(&self, id: &str) -> (r: Option<usize>)
        ensures
            match r {
                Some(i) => i < self.keys@.len() && self.keys@[i as int].id@ == id@,
                None => !self@.contains_key(id@),
            },
    {
        proof {
            use_type_invariant(self);
            self.lemma_entries();
            lemma_slots_char(self.entries());
        }
        let mut i: usize = 0;
        while i < self.keys.len()
            invariant
                i <= self.keys@.len(),
                forall|j: int| 0 <= j < i ==> self.keys@[j].id@ != id@,
            decreases self.keys@.len() - i,
        {
            if same_text(self.keys[i].id.as_str(), id) {
                return Some(i);
            }
            i = i + 1;
        }
        proof {
            assert forall|j: int| 0 <= j < self.entries().len() implies self.entries()[j].id@ != id@ by {
                assert(self.entries()[j].id == self.keys@[j].id);
            }
        }
        None
    }

    /// Whether `id` names a live session.
    pub fn is_live(&self, id: &str) -> (r: bool)
        ensures
            r == self@.contains_key(id@),
    {
        proof {
            use_type_invariant(self);
            self.lemma_entries();
            lemma_slots_char(self.entries());
        }
        match self.find(id) {
            Some(i) => {
                assert(self.entries()[i as int].id == self.keys@[i as int].id);
                true
            },
            None => false,
        }
    }

    /// Removes the entry at `i`, handing back its handle.
    fn remove_at(&mut self, i: usize) -> (r: H)
        requires
            i < old(self).keys@.len(),
        ensures
            final(self)@ == old(self)@.remove(old(self).keys@[i as int].id@),
            final(self).next_gen() == old(self).next_gen(),
            r == old(self)@[old(self).keys@[i as int].id@].1,
    {
        proof {
            use_type_invariant(&*self);
            self.lemma_entries();
            lemma_slots_value(self.entries(), i as int);
            lemma_slots_remove(self.entries(), i as int);
        }
        let ghost before = self.entries();
        let (mut keys, mut handles) = self.take_entries();
        keys.remove(i);
        let h = handles.remove(i);
        let next_generation = self.next_generation;
        let ghost rebuilt = Registry { keys, handles, next_generation };
        assert(rebuilt.entries() =~= before.remove(i as int));
        *self = Registry { keys, handles, next_generation };
        h
    }

    /// Ends the session `id` if it is live, dropping its handle (which closes
    /// the pty and ends the child). Closing an id that is not live is no error.
    pub fn close(&mut self, id: &str) -> (r: Result<(), PtyError>)
        ensures
            r is Ok,
            final(self)@ == old(self)@.remove(id@),
            final(self).next_gen() == old(self).next_gen(),
    {
        match self.find(id) {
            None => {
                assert(self@.remove(id@) =~= self@);
            },
            Some(i) => {
                proof {
                    use_type_invariant(&*self);
                    self.lemma_entries();
                    lemma_slots_value(self.entries(), i as int);
                }
                let retired = self.remove_at(i);
            },
        }
        Ok(())
    }

    /// The reader loop's cleanup: ends the session `id` only if it is still the
    /// one started under `generation`; a later session under the same id stays.
    /// Returns whether an entry was removed.
    pub fn close_generation(&mut self, id: &str, generation: u64) -> (r: bool)
        ensures
            r == (old(self)@.contains_key(id@) && old(self)@[id@].0 == generation),
            final(self)@ == after_cleanup(old(self)@, id@, generation),
            final(self).next_gen() == old(self).next_gen(),
    {
        match self.find(id) {
            None => false,
            Some(i) => {
                proof {
                    use_type_invariant(&*self);
                    self.lemma_entries();
                    lemma_slots_value(self.entries(), i as int);
                }
                if self.keys[i].generation != generation {
                    return false;
                }
                let retired = self.remove_at(i);
                true
            },
        }
    }

    /// Installs a freshly spawned session under `id` and gives it the next
    /// generation. A spawn failure installs nothing and comes back as a spawn
    /// error; so does a registry whose generations are used up, which drops
    /// the new handle. A handle that was already live under `id` (a start that
    /// raced ahead) is dropped, so that at no time do two handles share an id.
    pub fn install(&mut self, id: String, spawned: Result<H, String>) -> (r: Result<u64, PtyError>)
        ensures
            match spawned {
                Err(m) => {
                    &&& r == Err::<u64, PtyError>(PtyError::Spawn(m))
                    &&& final(self)@ == old(self)@
                    &&& final(self).next_gen() == old(self).next_gen()
                },
                Ok(h) => if old(self).next_gen() < u64::MAX {
                    &&& r == Ok::<u64, PtyError>(old(self).next_gen())
                    &&& forall|k: Seq<char>| #[trigger]
                        old(self)@.contains_key(k) ==> old(self)@[k].0 < old(self).next_gen()
                    &&& final(self)@ == old(self)@.insert(id@, (old(self).next_gen(), h))
                    &&& final(self).next_gen() == old(self).next_gen() + 1
                } else {
                    &&& r is Err
                    &&& r->Err_0 is Spawn
                    &&& final(self)@ == old(self)@
                    &&& final(self).next_gen() == old(self).next_gen()
                },
            },
    {
        let h = match spawned {
            Err(m) => {
                return Err(PtyError::Spawn(m));
            },
            Ok(h) => h,
        };
        if self.next_generation == u64::MAX {
            return Err(PtyError::Spawn(String::from_str("session generations exhausted")));
        }
        let generation = self.next_generation;
        proof {
            use_type_invariant(&*self);
            self.lemma_entries();
            lemma_slots_char(self.entries());
            assert forall|k: Seq<char>| #[trigger] self@.contains_key(k) implies self@[k].0
                < generation by {
                let j = choose|j: int| 0 <= j < self.entries().len() && self.entries()[j].id@ == k;
                assert(self.keys@[j].generation < generation);
            }
        }
        let closed = self.close(id.as_str());
        proof {
            use_type_invariant(&*self);
            self.lemma_entries();
            lemma_slots_char(self.entries());
            lemma_slots_push(self.entries(), Entry { id, generation, handle: h });
        }
        let ghost before = self.entries();
        let ghost e = Entry { id, generation, handle: h };
        let (mut keys, mut handles) = self.take_entries();
        let ghost old_keys = keys;
        keys.push(Key { id, generation });
        handles.push(h);
        let next_generation: u64 = generation + 1;
        let ghost rebuilt = Registry { keys, handles, next_generation };
        assert(rebuilt.entries() =~= before.push(e));
        assert forall|a: int, b: int| 0 <= a < b < keys@.len() implies keys@[a].id@ != keys@[b].id@ by {
            assert(rebuilt.entries()[a].id == keys@[a].id);
            assert(rebuilt.entries()[b].id == keys@[b].id);
        }
        assert forall|a: int| 0 <= a < keys@.len() implies #[trigger] keys@[a].generation < next_generation by {
            if a < keys@.len() - 1 {
                assert(keys@[a] == old_keys@[a]);
            }
        }
        *self = Registry { keys, handles, next_generation };
        Ok(generation)
    }

    /// The handle of the live session `id`, to write to or resize; the set of
    /// live sessions and their generations stay as they are.
    pub fn handle_mut(&mut self, id: &str) -> (r: Result<&mut H, PtyError>)
        ensures
            old(self)@.contains_key(id@) <==> r is Ok,
            final(self).next_gen() == old(self).next_gen(),
            match r {
                Ok(h) => {
                    &&& *h == old(self)@[id@].1
                    &&& final(self)@ == old(self)@.insert(id@, (old(self)@[id@].0, *final(h)))
                },
                Err(e) => {
                    &&& e is NotFound
                    &&& e->NotFound_0@ == not_found_text(id@)
                    &&& final(self)@ == old(self)@
                },
            },
    {
        match self.find(id) {
            None => Err(PtyError::NotFound(not_found_message(id))),
            Some(i) => {
                proof {
                    use_type_invariant(&*self);
            self.lemma_entries();
                    lemma_slots_value(self.entries(), i as int);
                }
                let ghost before = self.entries();
                let ghost k = self.keys@[i as int];
                let h = &mut self.handles[i];
                proof {
                    let e = Entry { id: k.id, generation: k.generation, handle: *final(h) };
                    lemma_slots_update(before, i as int, e);
                    assert(after_borrow(*self).entries() =~= before.update(i as int, e));
                }
                Ok(h)
            },
        }
    }
}

} // verus!
