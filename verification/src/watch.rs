//! The directory watch registry: one entry per watched path, never
//! duplicated. The watcher resource itself is whatever the shell pairs a
//! path with — the registry only guards the keying, so watch is idempotent
//! and unwatch of an unknown path is a no-op.
use vstd::prelude::*;

verus! {

/// The fixed debounce window of a folder watcher, in seconds: within one
/// window all qualifying changes collapse into a single notification.
pub const DEBOUNCE_WINDOW_SECS: u64 = 2;

/// One debounced notification kind: a settled change, or one still going
/// on when the window closed.
#[derive(Debug, Clone, Copy, PartialEq, Eq, Structural)]
pub enum WatchEventKind {
    Settled,
    Ongoing,
}

/// Whether a batch of debounced notifications warrants telling the shell
/// the folder changed: exactly when some change settled within the window.
pub fn should_notify(kinds: &Vec<WatchEventKind>) -> (r: bool)
    ensures
        r <==> exists|i: int| 0 <= i < kinds@.len() && kinds@[i] == WatchEventKind::Settled,
{
    let mut i: usize = 0;
    while i < kinds.len()
        invariant
            i <= kinds@.len(),
            forall|j: int| 0 <= j < i ==> kinds@[j] != WatchEventKind::Settled,
        decreases kinds@.len() - i,
    {
        if kinds[i] == WatchEventKind::Settled {
            return true;
        }
        i = i + 1;
    }
    false
}

/// The mapping a sequence of keyed entries stands for, later entries
/// shadowing earlier ones (the registry never lets two share a key).
pub open spec fn map_of_entries<R>(entries: Seq<(String, R)>) -> Map<Seq<char>, R>
    decreases entries.len(),
{
    if entries.len() == 0 {
        Map::empty()
    } else {
        map_of_entries(entries.drop_last()).insert(entries.last().0@, entries.last().1)
    }
}

/// No two entries share a key.
pub open spec fn unique_keys<R>(entries: Seq<(String, R)>) -> bool {
    forall|i: int, j: int|
        0 <= i < j < entries.len() ==> (#[trigger] entries[i]).0@ != (#[trigger] entries[j]).0@
}

/// A key is in the mapping exactly when some entry holds it.
pub proof fn lemma_map_of_entries_contains<R>(entries: Seq<(String, R)>, key: Seq<char>)
    ensures
        map_of_entries(entries).contains_key(key) <==> exists|i: int|
            0 <= i < entries.len() && (#[trigger] entries[i]).0@ == key,
    decreases entries.len(),
{
    if entries.len() == 0 {
    } else {
        lemma_map_of_entries_contains(entries.drop_last(), key);
        if entries.last().0@ == key {
            assert((entries[entries.len() - 1]).0@ == key);
        } else {
            if map_of_entries(entries).contains_key(key) {
                let i = choose|i: int|
                    0 <= i < entries.drop_last().len() && (#[trigger] entries.drop_last()[i]).0@
                        == key;
                assert((entries[i]).0@ == key);
            }
            if exists|i: int| 0 <= i < entries.len() && (#[trigger] entries[i]).0@ == key {
                let i = choose|i: int| 0 <= i < entries.len() && (#[trigger] entries[i]).0@ == key;
                assert((entries.drop_last()[i]).0@ == key);
            }
        }
    }
}

/// Each entry's key maps to that entry's resource.
pub proof fn lemma_map_of_entries_value<R>(entries: Seq<(String, R)>, i: int)
    requires
        unique_keys(entries),
        0 <= i < entries.len(),
    ensures
        map_of_entries(entries).contains_key(entries[i].0@),
        map_of_entries(entries)[entries[i].0@] == entries[i].1,
    decreases entries.len(),
{
    if i == entries.len() - 1 {
    } else {
        assert(unique_keys(entries.drop_last()));
        lemma_map_of_entries_value(entries.drop_last(), i);
        assert((entries[i]).0@ != (entries[entries.len() - 1]).0@);
    }
}

/// Removing the entry at `i` removes exactly its key from the mapping.
pub proof fn lemma_map_of_entries_remove<R>(entries: Seq<(String, R)>, i: int)
    requires
        unique_keys(entries),
        0 <= i < entries.len(),
    ensures
        map_of_entries(entries.remove(i)) == map_of_entries(entries).remove(entries[i].0@),
    decreases entries.len(),
{
    if i == entries.len() - 1 {
        assert(entries.remove(i) =~= entries.drop_last());
        lemma_map_of_entries_contains(entries.drop_last(), entries[i].0@);
        assert(!map_of_entries(entries.drop_last()).contains_key(entries[i].0@));
        assert(map_of_entries(entries).remove(entries[i].0@) =~= map_of_entries(
            entries.drop_last(),
        ));
    } else {
        assert(unique_keys(entries.drop_last()));
        lemma_map_of_entries_remove(entries.drop_last(), i);
        assert(entries.remove(i).drop_last() =~= entries.drop_last().remove(i));
        assert(entries.remove(i).last() == entries.last());
        assert((entries[i]).0@ != (entries[entries.len() - 1]).0@);
        assert(map_of_entries(entries.drop_last()).remove(entries[i].0@).insert(
            entries.last().0@,
            entries.last().1,
        ) =~= map_of_entries(entries.drop_last()).insert(
            entries.last().0@,
            entries.last().1,
        ).remove(entries[i].0@));
    }
}

/// Under unique keys the mapping has exactly one member per entry.
pub proof fn lemma_map_of_entries_len<R>(entries: Seq<(String, R)>)
    requires
        unique_keys(entries),
    ensures
        map_of_entries(entries).dom().finite(),
        map_of_entries(entries).dom().len() == entries.len(),
    decreases entries.len(),
{
    if entries.len() == 0 {
        assert(map_of_entries(entries).dom() =~= Set::<Seq<char>>::empty());
    } else {
        assert(unique_keys(entries.drop_last()));
        lemma_map_of_entries_len(entries.drop_last());
        lemma_map_of_entries_contains(entries.drop_last(), entries.last().0@);
        assert(!map_of_entries(entries.drop_last()).contains_key(entries.last().0@));
        assert(map_of_entries(entries).dom() =~= map_of_entries(
            entries.drop_last(),
        ).dom().insert(entries.last().0@));
    }
}

/// The keyed set of active watchers. `R` is the watcher resource the shell
/// pairs each path with.
pub struct WatchRegistry<R> {
    entries: Vec<(String, R)>,
}

impl<R> View for WatchRegistry<R> {
    type V = Map<Seq<char>, R>;

    closed spec fn view(&self) -> Map<Seq<char>, R> {
        map_of_entries(self.entries@)
    }
}

impl<R> WatchRegistry<R> {
    /// The registry never holds two entries for one path.
    pub closed spec fn well_formed(&self) -> bool {
        unique_keys(self.entries@)
    }

    pub fn new() -> (r: Self)
        ensures
            r.well_formed(),
            r@ == Map::<Seq<char>, R>::empty(),
    {
        WatchRegistry { entries: Vec::new() }
    }

    /// Where `path`'s entry sits, if it has one.
    fn find_index(&self, path: &String) -> (r: Option<usize>)
        ensures
            match r {
                Some(i) => i < self.entries@.len() && self.entries@[i as int].0@ == path@,
                None => forall|i: int|
                    0 <= i < self.entries@.len() ==> (#[trigger] self.entries@[i]).0@ != path@,
            },
    {
        let mut i: usize = 0;
        while i < self.entries.len()
            invariant
                i <= self.entries@.len(),
                forall|j: int| 0 <= j < i ==> (#[trigger] self.entries@[j]).0@ != path@,
            decreases self.entries@.len() - i,
        {
            if self.entries[i].0 == *path {
                return Some(i);
            }
            i = i + 1;
        }
        None
    }

    /// Whether `path` is already being watched.
    pub fn contains_path(&self, path: &String) -> (r: bool)
        requires
            self.well_formed(),
        ensures
            r == self@.contains_key(path@),
    {
        proof {
            lemma_map_of_entries_contains(self.entries@, path@);
        }
        match self.find_index(path) {
            Some(i) => true,
            None => false,
        }
    }

    /// Registers a watcher for a path not yet watched.
    pub fn insert(&mut self, path: String, resource: R)
        requires
            old(self).well_formed(),
            !old(self)@.contains_key(path@),
        ensures
            final(self).well_formed(),
            final(self)@ == old(self)@.insert(path@, resource),
    {
        proof {
            lemma_map_of_entries_contains(self.entries@, path@);
        }
        let ghost before = self.entries@;
        self.entries.push((path, resource));
        proof {
            assert(self.entries@.drop_last() =~= before);
            assert(forall|i: int|
                0 <= i < before.len() ==> (#[trigger] self.entries@[i]) == before[i]);
        }
    }

    /// Removes and hands back the watcher of `path`, if one is registered,
    /// for the caller to dispose; a no-op on an unwatched path.
    pub fn remove(&mut self, path: &String) -> (r: Option<R>)
        requires
            old(self).well_formed(),
        ensures
            final(self).well_formed(),
            final(self)@ == old(self)@.remove(path@),
            r is Some <==> old(self)@.contains_key(path@),
            old(self)@.contains_key(path@) ==> r == Some(old(self)@[path@]),
    {
        proof {
            lemma_map_of_entries_contains(self.entries@, path@);
        }
        match self.find_index(path) {
            None => {
                proof {
                    assert(old(self)@.remove(path@) =~= old(self)@);
                }
                None
            },
            Some(i) => {
                proof {
                    lemma_map_of_entries_value(self.entries@, i as int);
                    lemma_map_of_entries_remove(self.entries@, i as int);
                    let es = self.entries@;
                    assert forall|a: int, b: int|
                        0 <= a < b < es.remove(i as int).len() implies (#[trigger] es.remove(
                        i as int,
                    )[a]).0@ != (#[trigger] es.remove(i as int)[b]).0@ by {
                        if a < i && b < i {
                            assert(es.remove(i as int)[a] == es[a] && es.remove(i as int)[b]
                                == es[b]);
                        } else if a < i {
                            assert(es.remove(i as int)[a] == es[a] && es.remove(i as int)[b] == es[b
                                + 1]);
                        } else {
                            assert(es.remove(i as int)[a] == es[a + 1] && es.remove(i as int)[b]
                                == es[b + 1]);
                        }
                    }
                }
                let entry = self.entries.remove(i);
                Some(entry.1)
            },
        }
    }

    /// How many distinct paths are watched: exactly the registry's size.
    pub fn watched_count(&self) -> (r: usize)
        requires
            self.well_formed(),
        ensures
            r == self@.dom().len(),
    {
        proof {
            lemma_map_of_entries_len(self.entries@);
        }
        self.entries.len()
    }
}

/// The registry after a watch request: a new entry if the path was absent,
/// untouched — same size, same resources — if it was already watched.
pub open spec fn watched_after<R>(m: Map<Seq<char>, R>, path: Seq<char>, resource: R) -> Map<
    Seq<char>,
    R,
> {
    if m.contains_key(path) {
        m
    } else {
        m.insert(path, resource)
    }
}

/// The registry after an unwatch request.
pub open spec fn unwatched_after<R>(m: Map<Seq<char>, R>, path: Seq<char>) -> Map<Seq<char>, R> {
    m.remove(path)
}

/// Watching the same path twice leaves exactly one entry for it: the
/// second request changes nothing, whatever resource it brought, and a
/// first watch of an absent path grows the registry by exactly one.
pub proof fn lemma_watch_idempotent<R>(
    m: Map<Seq<char>, R>,
    path: Seq<char>,
    first: R,
    second: R,
)
    ensures
        watched_after(watched_after(m, path, first), path, second) == watched_after(
            m,
            path,
            first,
        ),
        m.contains_key(path) ==> watched_after(m, path, first) == m,
        !m.contains_key(path) && m.dom().finite() ==> watched_after(m, path, first).dom().len()
            == m.dom().len() + 1,
{
    if !m.contains_key(path) {
        assert(watched_after(m, path, first).contains_key(path));
        if m.dom().finite() {
            assert(m.insert(path, first).dom() =~= m.dom().insert(path));
        }
    }
}

/// Unwatching a never-watched path is a no-op.
pub proof fn lemma_unwatch_absent_is_noop<R>(m: Map<Seq<char>, R>, path: Seq<char>)
    requires
        !m.contains_key(path),
    ensures
        unwatched_after(m, path) == m,
{
    assert(m.remove(path) =~= m);
}

} // verus!
