//! The credential cache of the vault actor: one password for each snapshot
//! path. It is owned by the actor; no answer of the actor ever holds a
//! password.

use vstd::prelude::*;

verus! {

/// A snapshot path and the password that was last recorded for it.
pub type Entry = (Seq<char>, Seq<char>);

/// The position of the last entry for `path`, or -1 if there is none.
pub open spec fn last_match(entries: Seq<Entry>, path: Seq<char>) -> int
    decreases entries.len(),
{
    if entries.len() == 0 {
        -1
    } else if entries.last().0 == path {
        entries.len() - 1
    } else {
        last_match(entries.drop_last(), path)
    }
}

/// The password recorded for `path`, if there is one.
pub open spec fn lookup(entries: Seq<Entry>, path: Seq<char>) -> Option<Seq<char>> {
    let i = last_match(entries, path);
    if i < 0 {
        None
    } else {
        Some(entries[i].1)
    }
}

/// The entries after `password` was recorded for `path`: the entry of the
/// path is overwritten where there is one, and added where there is none.
pub open spec fn record(entries: Seq<Entry>, path: Seq<char>, password: Seq<char>) -> Seq<Entry> {
    let i = last_match(entries, path);
    if i < 0 {
        entries.push((path, password))
    } else {
        entries.update(i, (path, password))
    }
}

/// Where `last_match` points, and that nothing behind it matches.
pub proof fn lemma_last_match(entries: Seq<Entry>, path: Seq<char>)
    ensures
        -1 <= last_match(entries, path) < entries.len(),
        last_match(entries, path) >= 0 ==> entries[last_match(entries, path)].0 == path,
        forall|j: int| last_match(entries, path) < j < entries.len() ==> entries[j].0 != path,
    decreases entries.len(),
{
    if entries.len() > 0 && entries.last().0 != path {
        let front = entries.drop_last();
        lemma_last_match(front, path);
        assert forall|j: int| last_match(entries, path) < j < entries.len() implies entries[j].0
            != path by {
            if j < front.len() {
                assert(front[j] == entries[j]);
            }
        }
    }
}

/// An entry for `path` with nothing matching behind it is the last match.
pub proof fn lemma_last_match_is(entries: Seq<Entry>, path: Seq<char>, i: int)
    requires
        -1 <= i < entries.len(),
        i >= 0 ==> entries[i].0 == path,
        forall|j: int| i < j < entries.len() ==> entries[j].0 != path,
    ensures
        last_match(entries, path) == i,
    decreases entries.len(),
{
    if entries.len() > 0 && entries.last().0 != path {
        let front = entries.drop_last();
        assert forall|j: int| i < j < front.len() implies front[j].0 != path by {
            assert(front[j] == entries[j]);
        }
        lemma_last_match_is(front, path, i);
    }
}

/// Write, then read: after a password was recorded for a path, that path
/// yields the new password and every other path yields what it did before.
pub proof fn lemma_record_then_lookup(
    entries: Seq<Entry>,
    path: Seq<char>,
    password: Seq<char>,
    other: Seq<char>,
)
    ensures
        lookup(record(entries, path, password), other) == if other == path {
            Some(password)
        } else {
            lookup(entries, other)
        },
{
    let after = record(entries, path, password);
    let i = last_match(entries, path);
    let k = last_match(entries, other);
    lemma_last_match(entries, path);
    lemma_last_match(entries, other);
    if other == path {
        if i < 0 {
            lemma_last_match_is(after, path, entries.len() as int);
        } else {
            lemma_last_match_is(after, path, i);
        }
    } else {
        lemma_last_match_is(after, other, k);
    }
}

/// What the entries of a cache stand for.
pub open spec fn entries_view(entries: Seq<(String, String)>) -> Seq<Entry> {
    entries.map_values(|e: (String, String)| (e.0@, e.1@))
}

/// Looks for the last entry of `path`.
fn find_entry(entries: &Vec<(String, String)>, path: &String) -> (r: Option<usize>)
    ensures
        r.is_some() <==> last_match(entries_view(entries@), path@) >= 0,
        r matches Some(i) ==> i < entries.len() && i as int == last_match(
            entries_view(entries@),
            path@,
        ),
{
    let ghost view = entries_view(entries@);
    let mut i: usize = entries.len();
    while i > 0
        invariant
            i <= entries.len(),
            view == entries_view(entries@),
            forall|j: int| i <= j < entries.len() ==> view[j].0 != path@,
        decreases i,
    {
        i -= 1;
        if entries[i].0 == *path {
            proof {
                assert(view[i as int].0 == path@);
                lemma_last_match_is(view, path@, i as int);
            }
            return Some(i);
        }
    }
    proof {
        lemma_last_match_is(view, path@, -1);
    }
    None
}

/// The credential cache: for each snapshot path the password that was
/// recorded for it last.
pub struct PasswordStore {
    entries: Vec<(String, String)>,
}

impl View for PasswordStore {
    type V = Seq<Entry>;

    closed spec fn view(&self) -> Seq<Entry> {
        entries_view(self.entries@)
    }
}

impl PasswordStore {
    /// A cache that holds no password.
    pub fn new() -> (r: PasswordStore)
        ensures
            r@ == Seq::<Entry>::empty(),
    {
        let r = PasswordStore { entries: Vec::new() };
        assert(entries_view(r.entries@) =~= Seq::<Entry>::empty());
        r
    }

    /// Records `password` for `snapshot_path`, over what was recorded
    /// before.
    pub fn set_password(&mut self, snapshot_path: String, password: String)
        ensures
            final(self)@ == record(old(self)@, snapshot_path@, password@),
            forall|other: Seq<char>|
                #[trigger] lookup(final(self)@, other) == if other == snapshot_path@ {
                    Some(password@)
                } else {
                    lookup(old(self)@, other)
                },
    {
        let ghost before = entries_view(self.entries@);
        let ghost p = snapshot_path@;
        let ghost w = password@;
        match find_entry(&self.entries, &snapshot_path) {
            Some(i) => {
                self.entries.set(i, (snapshot_path, password));
                assert(entries_view(self.entries@) =~= before.update(i as int, (p, w)));
            },
            None => {
                self.entries.push((snapshot_path, password));
                assert(entries_view(self.entries@) =~= before.push((p, w)));
            },
        }
        proof {
            assert forall|other: Seq<char>| #[trigger]
                lookup(record(before, p, w), other) == if other == p {
                    Some(w)
                } else {
                    lookup(before, other)
                } by {
                lemma_record_then_lookup(before, p, w, other);
            }
        }
    }

    /// The password that was recorded for `snapshot_path`, if any.
    pub fn get_password(&self, snapshot_path: &String) -> (r: Option<String>)
        ensures
            r.is_some() <==> lookup(self@, snapshot_path@).is_some(),
            r matches Some(p) ==> Some(p@) == lookup(self@, snapshot_path@),
    {
        match find_entry(&self.entries, snapshot_path) {
            Some(i) => {
                assert(entries_view(self.entries@)[i as int].1 == self.entries[i as int].1@);
                Some(self.entries[i].1.clone())
            },
            None => None,
        }
    }
}

} // verus!
