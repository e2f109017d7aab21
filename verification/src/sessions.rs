//! The open terminal sessions, one per container, each with the handle that
//! carries the user's keystrokes to it.
use vstd::prelude::*;

verus! {

/// The open terminal sessions, keyed by container id.
pub struct TerminalSessions<T> {
    entries: Vec<(String, T)>,
}

pub open spec fn entries_map<T>(es: Seq<(String, T)>) -> Map<Seq<char>, T>
    decreases es.len(),
{
    if es.len() == 0 {
        Map::empty()
    } else {
        entries_map(es.drop_last()).insert(es.last().0@, es.last().1)
    }
}

pub open spec fn keys_distinct<T>(es: Seq<(String, T)>) -> bool {
    forall|i: int, j: int|
        0 <= i < es.len() && 0 <= j < es.len() && i != j ==> #[trigger] es[i].0@ != #[trigger] es[j].0@
}

proof fn lemma_entries_map_has<T>(es: Seq<(String, T)>, j: int)
    requires
        keys_distinct(es),
        0 <= j < es.len(),
    ensures
        entries_map(es).contains_key(es[j].0@),
        entries_map(es)[es[j].0@] == es[j].1,
    decreases es.len(),
{
    if j < es.len() - 1 {
        lemma_entries_map_has(es.drop_last(), j);
        assert(es.drop_last()[j] == es[j]);
    }
}

proof fn lemma_entries_map_lacks<T>(es: Seq<(String, T)>, k: Seq<char>)
    requires
        forall|i: int| 0 <= i < es.len() ==> #[trigger] es[i].0@ != k,
    ensures
        !entries_map(es).contains_key(k),
    decreases es.len(),
{
    if es.len() > 0 {
        assert(es[es.len() - 1].0@ != k);
        assert forall|i: int| 0 <= i < es.drop_last().len() implies #[trigger] es.drop_last()[i].0@ != k by {
            assert(es.drop_last()[i] == es[i]);
        }
        lemma_entries_map_lacks(es.drop_last(), k);
    }
}

proof fn lemma_entries_map_remove<T>(es: Seq<(String, T)>, j: int)
    requires
        keys_distinct(es),
        0 <= j < es.len(),
    ensures
        entries_map(es.remove(j)) == entries_map(es).remove(es[j].0@),
        keys_distinct(es.remove(j)),
    decreases es.len(),
{
    let n = es.len() - 1;
    let k = es[j].0@;
    assert forall|a: int, b: int|
        0 <= a < es.remove(j).len() && 0 <= b < es.remove(j).len() && a != b implies #[trigger] es.remove(j)[a].0@
            != #[trigger] es.remove(j)[b].0@ by {
        let a2 = if a < j { a } else { a + 1 };
        let b2 = if b < j { b } else { b + 1 };
        assert(es.remove(j)[a] == es[a2]);
        assert(es.remove(j)[b] == es[b2]);
    }
    if j == n {
        assert(es.remove(j) =~= es.drop_last());
        assert forall|i: int| 0 <= i < es.drop_last().len() implies #[trigger] es.drop_last()[i].0@ != k by {
            assert(es.drop_last()[i] == es[i]);
        }
        lemma_entries_map_lacks(es.drop_last(), k);
        assert(entries_map(es.remove(j)) =~= entries_map(es).remove(k));
    } else {
        let d = es.drop_last();
        assert(keys_distinct(d)) by {
            assert forall|a: int, b: int|
                0 <= a < d.len() && 0 <= b < d.len() && a != b implies #[trigger] d[a].0@ != #[trigger] d[b].0@ by {
                assert(d[a] == es[a]);
                assert(d[b] == es[b]);
            }
        }
        assert(d[j] == es[j]);
        lemma_entries_map_remove(d, j);
        assert(es.remove(j).drop_last() =~= d.remove(j));
        assert(es.remove(j).last() == es.last());
        assert(es.last().0@ != k);
        assert(entries_map(es.remove(j)) =~= entries_map(es).remove(k));
    }
}

proof fn lemma_entries_map_update<T>(es: Seq<(String, T)>, j: int, e: (String, T))
    requires
        keys_distinct(es),
        0 <= j < es.len(),
        e.0@ == es[j].0@,
    ensures
        entries_map(es.update(j, e)) == entries_map(es).insert(e.0@, e.1),
        keys_distinct(es.update(j, e)),
    decreases es.len(),
{
    let n = es.len() - 1;
    let es2 = es.update(j, e);
    assert forall|a: int, b: int|
        0 <= a < es2.len() && 0 <= b < es2.len() && a != b implies #[trigger] es2[a].0@
            != #[trigger] es2[b].0@ by {
        assert(es2[a].0@ == es[a].0@);
        assert(es2[b].0@ == es[b].0@);
    }
    if j == n {
        assert(es2.drop_last() =~= es.drop_last());
        assert(entries_map(es2) =~= entries_map(es).insert(e.0@, e.1));
    } else {
        let d = es.drop_last();
        assert(keys_distinct(d)) by {
            assert forall|a: int, b: int|
                0 <= a < d.len() && 0 <= b < d.len() && a != b implies #[trigger] d[a].0@ != #[trigger] d[b].0@ by {
                assert(d[a] == es[a]);
                assert(d[b] == es[b]);
            }
        }
        lemma_entries_map_update(d, j, e);
        assert(es2.drop_last() =~= d.update(j, e));
        assert(es[n].0@ != es[j].0@);
        assert(entries_map(es2) =~= entries_map(es).insert(e.0@, e.1));
    }
}

fn position<T>(entries: &Vec<(String, T)>, id: &String) -> (r: Option<usize>)
    ensures
        match r {
            Some(j) => j < entries.len() && entries@[j as int].0@ == id@,
            None => forall|i: int| 0 <= i < entries.len() ==> #[trigger] entries@[i].0@ != id@,
        },
{
    let mut j: usize = 0;
    while j < entries.len()
        invariant
            j <= entries.len(),
            forall|i: int| 0 <= i < j ==> #[trigger] entries@[i].0@ != id@,
        decreases entries.len() - j,
    {
        if entries[j].0 == *id {
            return Some(j);
        }
        j = j + 1;
    }
    None
}

impl<T> TerminalSessions<T> {
    /// No container id occurs twice.
    #[verifier::type_invariant]
    spec fn keys_unique(self) -> bool {
        keys_distinct(self.entries@)
    }

    /// The sessions as a map from container id to handle.
    pub closed spec fn view(&self) -> Map<Seq<char>, T> {
        entries_map(self.entries@)
    }

    /// No session is open.
    pub fn new() -> (r: Self)
        ensures
            r.view() == Map::<Seq<char>, T>::empty(),
    {
        TerminalSessions { entries: Vec::new() }
    }

    /// Opens (or replaces) the session of container `id`.
    pub fn insert(&mut self, id: String, handle: T)
        ensures
            final(self).view() == old(self).view().insert(id@, handle),
    {
        proof {
            use_type_invariant(&*self);
        }
        let mut es: Vec<(String, T)> = Vec::new();
        std::mem::swap(&mut es, &mut self.entries);
        match position(&es, &id) {
            Some(j) => {
                proof {
                    lemma_entries_map_update(es@, j as int, (id, handle));
                }
                es.set(j, (id, handle));
            },
            None => {
                let ghost old_es = es@;
                es.push((id, handle));
                proof {
                    assert(es@.drop_last() =~= old_es);
                    assert forall|a: int, b: int|
                        0 <= a < es@.len() && 0 <= b < es@.len() && a != b implies
                        #[trigger] es@[a].0@ != #[trigger] es@[b].0@ by {
                        if a < old_es.len() {
                            assert(es@[a] == old_es[a]);
                        }
                        if b < old_es.len() {
                            assert(es@[b] == old_es[b]);
                        }
                    }
                }
            },
        }
        self.entries = es;
    }

    /// Closes the session of container `id`, if one is open.
    pub fn remove(&mut self, id: &String)
        ensures
            final(self).view() == old(self).view().remove(id@),
    {
        proof {
            use_type_invariant(&*self);
        }
        let mut es: Vec<(String, T)> = Vec::new();
        std::mem::swap(&mut es, &mut self.entries);
        match position(&es, id) {
            Some(j) => {
                proof {
                    lemma_entries_map_remove(es@, j as int);
                }
                es.remove(j);
            },
            None => {
                proof {
                    lemma_entries_map_lacks(es@, id@);
                    assert(entries_map(es@) =~= entries_map(es@).remove(id@));
                }
            },
        }
        self.entries = es;
    }

    /// The handle of the session of container `id`, if one is open.
    pub fn get(&self, id: &String) -> (r: Option<&T>)
        ensures
            match r {
                Some(h) => self.view().contains_key(id@) && *h == self.view()[id@],
                None => !self.view().contains_key(id@),
            },
    {
        proof {
            use_type_invariant(self);
        }
        match position(&self.entries, id) {
            Some(j) => {
                proof {
                    lemma_entries_map_has(self.entries@, j as int);
                }
                Some(&self.entries[j].1)
            },
            None => {
                proof {
                    lemma_entries_map_lacks(self.entries@, id@);
                }
                None
            },
        }
    }

    /// The handle that input for container `id` goes to; without an open
    /// session, the error the user is shown.
    pub fn session_for(&self, id: &String) -> (r: Result<&T, String>)
        ensures
            match r {
                Ok(h) => self.view().contains_key(id@) && *h == self.view()[id@],
                Err(e) => !self.view().contains_key(id@) && e@
                    == "No active terminal session for this container"@,
            },
    {
        match self.get(id) {
            Some(h) => Ok(h),
            None => Err(String::from_str("No active terminal session for this container")),
        }
    }
}

/// What a lookup gives back after `insert`: the handle just stored for
/// that container, and for any other container what was there before.
pub proof fn lemma_lookup_after_insert<T>(
    before: TerminalSessions<T>,
    after: TerminalSessions<T>,
    id: Seq<char>,
    h: T,
    other: Seq<char>,
)
    requires
        after.view() == before.view().insert(id, h),
    ensures
        after.view().contains_key(id),
        after.view()[id] == h,
        other != id ==> (after.view().contains_key(other) <==> before.view().contains_key(other)),
        other != id && before.view().contains_key(other) ==> after.view()[other] == before.view()[other],
{
}

/// After `remove`, a lookup of that container finds no session (so input
/// for it is refused), and the other sessions are untouched.
pub proof fn lemma_lookup_after_remove<T>(
    before: TerminalSessions<T>,
    after: TerminalSessions<T>,
    id: Seq<char>,
    other: Seq<char>,
)
    requires
        after.view() == before.view().remove(id),
    ensures
        !after.view().contains_key(id),
        other != id ==> (after.view().contains_key(other) <==> before.view().contains_key(other)),
        other != id && before.view().contains_key(other) ==> after.view()[other] == before.view()[other],
{
}

} // verus!
