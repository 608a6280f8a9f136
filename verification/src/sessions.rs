//! The running sessions of the application, by key: each carries the number it was
//! started under, so that a session that ends removes itself only while it is still
//! the one recorded under its key.
use vstd::prelude::*;
use crate::text::str_eq;

verus! {

/// No key occurs twice.
pub open spec fn keys_distinct<T>(s: Seq<(Seq<char>, u64, T)>) -> bool {
    forall|i: int, j: int| 0 <= i < j < s.len() ==> #[trigger] s[i].0 != #[trigger] s[j].0
}

/// The map from key to session number and session that a list of entries holds.
pub open spec fn entries_map<T>(s: Seq<(Seq<char>, u64, T)>) -> Map<Seq<char>, (u64, T)>
    decreases s.len(),
{
    if s.len() == 0 {
        Map::empty()
    } else {
        entries_map(s.drop_last()).insert(s.last().0, (s.last().1, s.last().2))
    }
}

proof fn lemma_entries_map_absent<T>(s: Seq<(Seq<char>, u64, T)>, k: Seq<char>)
    requires
        forall|i: int| 0 <= i < s.len() ==> #[trigger] s[i].0 != k,
    ensures
        !entries_map(s).contains_key(k),
    decreases s.len(),
{
    if s.len() > 0 {
        assert forall|i: int| 0 <= i < s.drop_last().len() implies #[trigger] s.drop_last()[i].0 != k by {
            assert(s.drop_last()[i] == s[i]);
        }
        lemma_entries_map_absent(s.drop_last(), k);
        assert(s[s.len() - 1].0 != k);
    }
}

proof fn lemma_entries_map_present<T>(s: Seq<(Seq<char>, u64, T)>, k: Seq<char>)
    requires
        entries_map(s).contains_key(k),
    ensures
        exists|i: int| 0 <= i < s.len() && #[trigger] s[i].0 == k,
    decreases s.len(),
{
    if s.len() > 0 && s.last().0 != k {
        lemma_entries_map_present(s.drop_last(), k);
        let i = choose|i: int| 0 <= i < s.drop_last().len() && #[trigger] s.drop_last()[i].0 == k;
        assert(s[i] == s.drop_last()[i]);
    } else if s.len() > 0 {
        assert(s[s.len() - 1].0 == k);
    }
}

proof fn lemma_entries_map_index<T>(s: Seq<(Seq<char>, u64, T)>, i: int)
    requires
        keys_distinct(s),
        0 <= i < s.len(),
    ensures
        entries_map(s).contains_key(s[i].0),
        entries_map(s)[s[i].0] == (s[i].1, s[i].2),
    decreases s.len(),
{
    if i < s.len() - 1 {
        let t = s.drop_last();
        assert(t[i] == s[i]);
        assert(keys_distinct(t)) by {
            assert forall|a: int, b: int| 0 <= a < b < t.len() implies #[trigger] t[a].0 != #[trigger] t[b].0 by {
                assert(t[a] == s[a] && t[b] == s[b]);
            }
        }
        lemma_entries_map_index(t, i);
        assert(s[i].0 != s[s.len() - 1].0);
    }
}

proof fn lemma_distinct_drop_last<T>(s: Seq<(Seq<char>, u64, T)>)
    requires
        keys_distinct(s),
        s.len() > 0,
    ensures
        keys_distinct(s.drop_last()),
        !entries_map(s.drop_last()).contains_key(s.last().0),
{
    let t = s.drop_last();
    assert forall|a: int, b: int| 0 <= a < b < t.len() implies #[trigger] t[a].0 != #[trigger] t[b].0 by {
        assert(t[a] == s[a] && t[b] == s[b]);
    }
    assert forall|i: int| 0 <= i < t.len() implies #[trigger] t[i].0 != s.last().0 by {
        assert(t[i] == s[i]);
        assert(s[s.len() - 1] == s.last());
    }
    lemma_entries_map_absent(t, s.last().0);
}

proof fn lemma_entries_map_remove<T>(s: Seq<(Seq<char>, u64, T)>, i: int)
    requires
        keys_distinct(s),
        0 <= i < s.len(),
    ensures
        keys_distinct(s.remove(i)),
        entries_map(s.remove(i)) == entries_map(s).remove(s[i].0),
    decreases s.len(),
{
    let r = s.remove(i);
    assert forall|a: int, b: int| 0 <= a < b < r.len() implies #[trigger] r[a].0 != #[trigger] r[b].0 by {
        let a2 = if a < i { a } else { a + 1 };
        let b2 = if b < i { b } else { b + 1 };
        assert(r[a] == s[a2] && r[b] == s[b2]);
    }
    lemma_distinct_drop_last(s);
    if i == s.len() - 1 {
        assert(r =~= s.drop_last());
        assert(entries_map(r) =~= entries_map(s).remove(s[i].0));
    } else {
        let t = s.drop_last();
        assert(t[i] == s[i]);
        lemma_entries_map_remove(t, i);
        assert(r =~= t.remove(i).push(s.last()));
        assert(r.drop_last() =~= t.remove(i));
        assert(s[i].0 != s[s.len() - 1].0);
        assert(entries_map(r) =~= entries_map(s).remove(s[i].0));
    }
}

proof fn lemma_entries_map_update<T>(s: Seq<(Seq<char>, u64, T)>, i: int, id: u64, v: T)
    requires
        keys_distinct(s),
        0 <= i < s.len(),
    ensures
        keys_distinct(s.update(i, (s[i].0, id, v))),
        entries_map(s.update(i, (s[i].0, id, v))) == entries_map(s).insert(s[i].0, (id, v)),
    decreases s.len(),
{
    let u = s.update(i, (s[i].0, id, v));
    assert forall|a: int, b: int| 0 <= a < b < u.len() implies #[trigger] u[a].0 != #[trigger] u[b].0 by {
        assert(u[a].0 == s[a].0 && u[b].0 == s[b].0);
    }
    lemma_distinct_drop_last(s);
    if i == s.len() - 1 {
        assert(u.drop_last() =~= s.drop_last());
        assert(entries_map(u) =~= entries_map(s).insert(s[i].0, (id, v)));
    } else {
        let t = s.drop_last();
        assert(t[i] == s[i]);
        lemma_entries_map_update(t, i, id, v);
        assert(u.drop_last() =~= t.update(i, (s[i].0, id, v)));
        assert(u.last() == s.last());
        assert(s[i].0 != s[s.len() - 1].0);
        assert(entries_map(u) =~= entries_map(s).insert(s[i].0, (id, v)));
    }
}

proof fn lemma_keys_distinct_remove<T>(s: Seq<(Seq<char>, u64, T)>, i: int)
    requires
        keys_distinct(s),
        0 <= i < s.len(),
    ensures
        keys_distinct(s.remove(i)),
{
    let r = s.remove(i);
    assert forall|a: int, b: int| 0 <= a < b < r.len() implies #[trigger] r[a].0 != #[trigger] r[b].0 by {
        let a0 = if a < i { a } else { a + 1 };
        let b0 = if b < i { b } else { b + 1 };
        assert(r[a] == s[a0]);
        assert(r[b] == s[b0]);
    }
}

/// Whether the session under `key` in `m` is the one started under `id`.
pub open spec fn is_current_in<T>(m: Map<Seq<char>, (u64, T)>, key: Seq<char>, id: u64) -> bool {
    m.contains_key(key) && m[key].0 == id
}

/// The sessions after the one started under `id` removes itself from under `key`:
/// it is gone when it was the current one there; otherwise nothing changes.
pub open spec fn removed_if_current<T>(m: Map<Seq<char>, (u64, T)>, key: Seq<char>, id: u64) -> Map<Seq<char>, (u64, T)> {
    if is_current_in(m, key, id) {
        m.remove(key)
    } else {
        m
    }
}

/// The running sessions by key, each with the number it was started under.
pub struct SessionTable<T> {
    entries: Vec<(String, u64, T)>,
}

/// A session recorded under a key: its number and itself.
pub open spec fn entry_v<T>(e: (String, u64, T)) -> (Seq<char>, u64, T) {
    (e.0@, e.1, e.2)
}

impl<T> View for SessionTable<T> {
    type V = Map<Seq<char>, (u64, T)>;

    closed spec fn view(&self) -> Map<Seq<char>, (u64, T)> {
        entries_map(self.entries@.map_values(|e: (String, u64, T)| entry_v(e)))
    }
}

impl<T> SessionTable<T> {
    closed spec fn flat(&self) -> Seq<(Seq<char>, u64, T)> {
        self.entries@.map_values(|e: (String, u64, T)| entry_v(e))
    }

    /// The invariant: no key twice.
    #[verifier::type_invariant]
    closed spec fn wf(&self) -> bool {
        keys_distinct(self.flat())
    }

    /// A table with no session.
    pub fn new() -> (r: SessionTable<T>)
        ensures
            r@ == Map::<Seq<char>, (u64, T)>::empty(),
    {
        let entries: Vec<(String, u64, T)> = Vec::new();
        assert(entries@.map_values(|e: (String, u64, T)| entry_v(e)) =~= Seq::<(Seq<char>, u64, T)>::empty());
        let r = SessionTable { entries };
        assert(r.flat() =~= Seq::<(Seq<char>, u64, T)>::empty());
        r
    }

    /// The position of the entry under `key`, if any.
    fn find(&self, key: &str) -> (r: Option<usize>)
        ensures
            match r {
                Some(i) => i < self.entries@.len() && self.entries@[i as int].0@ == key@ && self@.contains_key(key@)
                    && self@[key@] == (self.entries@[i as int].1, self.entries@[i as int].2),
                None => !self@.contains_key(key@),
            },
    {
        proof {
            use_type_invariant(self);
        }
        let ghost f = self.flat();
        let n = self.entries.len();
        let mut i: usize = 0;
        while i < n
            invariant
                n == self.entries@.len(),
                i <= n,
                f == self.flat(),
                keys_distinct(f),
                forall|j: int| 0 <= j < i ==> #[trigger] f[j].0 != key@,
            decreases n - i,
        {
            if str_eq(self.entries[i].0.as_str(), key) {
                proof {
                    assert(f[i as int] == entry_v(self.entries@[i as int]));
                    lemma_entries_map_index(f, i as int);
                }
                return Some(i);
            }
            assert(f[i as int] == entry_v(self.entries@[i as int]));
            i = i + 1;
        }
        proof {
            lemma_entries_map_absent(f, key@);
        }
        None
    }

    /// The number of the session under `key`, if any.
    pub fn session_id(&self, key: &str) -> (r: Option<u64>)
        ensures
            r == (if self@.contains_key(key@) {
                Some(self@[key@].0)
            } else {
                None
            }),
    {
        match self.find(key) {
            Some(i) => Some(self.entries[i].1),
            None => None,
        }
    }

    /// The session under `key`, if any.
    pub fn get(&self, key: &str) -> (r: Option<&T>)
        ensures
            match r {
                Some(t) => self@.contains_key(key@) && *t == self@[key@].1,
                None => !self@.contains_key(key@),
            },
    {
        match self.find(key) {
            Some(i) => Some(&self.entries[i].2),
            None => None,
        }
    }

    /// Whether the session under `key` is the one started under `id`.
    pub fn is_current(&self, key: &str, id: u64) -> (r: bool)
        ensures
            r == is_current_in(self@, key@, id),
    {
        match self.find(key) {
            Some(i) => self.entries[i].1 == id,
            None => false,
        }
    }

    /// Records `session`, started under `id`, under `key`, in place of any session
    /// there, which is returned.
    pub fn insert(&mut self, key: String, id: u64, session: T) -> (r: Option<(u64, T)>)
        ensures
            final(self)@ == old(self)@.insert(key@, (id, session)),
            r == (if old(self)@.contains_key(key@) {
                Some(old(self)@[key@])
            } else {
                None
            }),
    {
        proof {
            use_type_invariant(&*self);
        }
        let ghost f = self.flat();
        let found = self.find(key.as_str());
        let mut entries: Vec<(String, u64, T)> = Vec::new();
        std::mem::swap(&mut entries, &mut self.entries);
        let ghost fe = entries@.map_values(|e: (String, u64, T)| entry_v(e));
        assert(fe == f);
        match found {
            Some(i) => {
                let ghost kv = key@;
                let (k, old_id, old_session) = entries.remove(i);
                entries.insert(i, (key, id, session));
                proof {
                    assert(entries@.map_values(|e: (String, u64, T)| entry_v(e)) =~= f.update(i as int, (f[i as int].0, id, session)));
                    lemma_entries_map_update(f, i as int, id, session);
                }
                self.entries = entries;
                Some((old_id, old_session))
            },
            None => {
                let ghost kv = key@;
                entries.push((key, id, session));
                proof {
                    let nf = entries@.map_values(|e: (String, u64, T)| entry_v(e));
                    assert(nf =~= f.push((kv, id, session)));
                    assert(nf.drop_last() =~= f);
                    assert forall|a: int, b: int| 0 <= a < b < nf.len() implies #[trigger] nf[a].0 != #[trigger] nf[b].0 by {
                        if b == f.len() {
                            if f[a].0 == kv {
                                lemma_entries_map_index(f, a);
                            }
                        }
                    }
                }
                self.entries = entries;
                None
            },
        }
    }

    /// Takes out the session under `key`, if any.
    pub fn remove(&mut self, key: &str) -> (r: Option<(u64, T)>)
        ensures
            final(self)@ == old(self)@.remove(key@),
            r == (if old(self)@.contains_key(key@) {
                Some(old(self)@[key@])
            } else {
                None
            }),
    {
        proof {
            use_type_invariant(&*self);
        }
        let ghost f = self.flat();
        match self.find(key) {
            Some(i) => {
                let mut entries: Vec<(String, u64, T)> = Vec::new();
                std::mem::swap(&mut entries, &mut self.entries);
                let (_k, id, session) = entries.remove(i);
                proof {
                    assert(entries@.map_values(|e: (String, u64, T)| entry_v(e)) =~= f.remove(i as int));
                    lemma_entries_map_remove(f, i as int);
                    lemma_keys_distinct_remove(f, i as int);
                }
                self.entries = entries;
                Some((id, session))
            },
            None => {
                assert(old(self)@.remove(key@) =~= old(self)@);
                None
            },
        }
    }

    /// Removes the session under `key` when it is the one started under `id`, and
    /// says whether it did.
    pub fn remove_if_current(&mut self, key: &str, id: u64) -> (r: bool)
        ensures
            r == is_current_in(old(self)@, key@, id),
            final(self)@ == removed_if_current(old(self)@, key@, id),
    {
        proof {
            use_type_invariant(&*self);
        }
        let ghost f = self.flat();
        match self.find(key) {
            Some(i) => {
                if self.entries[i].1 == id {
                    let mut entries: Vec<(String, u64, T)> = Vec::new();
                    std::mem::swap(&mut entries, &mut self.entries);
                    entries.remove(i);
                    proof {
                        assert(entries@.map_values(|e: (String, u64, T)| entry_v(e)) =~= f.remove(i as int));
                        lemma_entries_map_remove(f, i as int);
                        lemma_keys_distinct_remove(f, i as int);
                    }
                    self.entries = entries;
                    true
                } else {
                    false
                }
            },
            None => false,
        }
    }

    /// Takes out every session, with its key and number, leaving the table empty.
    pub fn drain(&mut self) -> (r: Vec<(String, u64, T)>)
        ensures
            final(self)@ == Map::<Seq<char>, (u64, T)>::empty(),
            keys_distinct(r@.map_values(|e: (String, u64, T)| entry_v(e))),
            entries_map(r@.map_values(|e: (String, u64, T)| entry_v(e))) == old(self)@,
    {
        proof {
            use_type_invariant(&*self);
        }
        let mut taken: Vec<(String, u64, T)> = Vec::new();
        std::mem::swap(&mut taken, &mut self.entries);
        assert(self.flat() =~= Seq::<(Seq<char>, u64, T)>::empty());
        taken
    }
}

// ---------------------------------------------------------------------------
// Laws
// ---------------------------------------------------------------------------
/// A session just recorded under a key is the current one there, and the sessions
/// under the other keys are left as they were.
pub proof fn law_recorded_session_is_current<T>(m: Map<Seq<char>, (u64, T)>, key: Seq<char>, id: u64, session: T, other: Seq<char>)
    ensures
        m.insert(key, (id, session)).contains_key(key),
        m.insert(key, (id, session))[key].0 == id,
        other != key ==> (m.insert(key, (id, session)).contains_key(other) == m.contains_key(other)),
        other != key && m.contains_key(other) ==> m.insert(key, (id, session))[other] == m[other],
{
}

/// A session that ends after another one was started under its key leaves the
/// newer one in place: removal under the older number changes nothing.
pub proof fn law_stale_session_keeps_replacement<T>(
    m: Map<Seq<char>, (u64, T)>,
    key: Seq<char>,
    stale: u64,
    id: u64,
    session: T,
)
    requires
        stale != id,
    ensures
        removed_if_current(m.insert(key, (id, session)), key, stale) == m.insert(key, (id, session)),
{
}

/// A session that ends while it is the current one under its key removes itself,
/// and only itself.
pub proof fn law_current_session_removes_itself<T>(m: Map<Seq<char>, (u64, T)>, key: Seq<char>, id: u64, session: T)
    ensures
        removed_if_current(m.insert(key, (id, session)), key, id) == m.remove(key),
{
    assert(m.insert(key, (id, session)).remove(key) =~= m.remove(key));
}

// ---------------------------------------------------------------------------
// Terminal sessions
// ---------------------------------------------------------------------------
/// The size a terminal is opened with: 120 columns by 32 rows.
pub const INITIAL_TERMINAL_COLUMNS: u16 = 120;

/// The rows of a newly opened terminal.
pub const INITIAL_TERMINAL_ROWS: u16 = 32;

/// The size a terminal is resized to: at least 40 columns and 12 rows.
pub fn resized_terminal_size(cols: u16, rows: u16) -> (r: (u16, u16))
    ensures
        r.0 == (if cols < 40 { 40 } else { cols }),
        r.1 == (if rows < 12 { 12 } else { rows }),
{
    let c = if cols < 40 { 40 } else { cols };
    let r = if rows < 12 { 12 } else { rows };
    (c, r)
}

} // verus!
