//! An in-memory object store honouring the semantics the gateway relies
//! on: one object per name within the bucket, last write wins, overwrite
//! atomic from the caller's perspective. It stands in for the external
//! store capability in proofs and tests; the live gateway talks to the
//! real store at the process edge and hands the handlers the outcomes.

use vstd::prelude::*;
use crate::errors::StoreFault;

verus! {

/// One stored object: its key and its content bytes.
pub struct StoredObject {
    pub name: String,
    pub content: Vec<u8>,
}

/// Metadata of one object as a stat reports it: the object key, its size
/// in bytes, and the last-modified timestamp if the store knows one.
pub struct StatData {
    pub object: String,
    pub size: u64,
    pub last_modified: Option<String>,
}

/// Whether each name occurs at most once among the entries.
pub open spec fn unique_names(entries: Seq<(Seq<char>, Seq<u8>)>) -> bool {
    forall|i: int, j: int| 0 <= i < j < entries.len() ==> entries[i].0 != entries[j].0
}

/// The name-to-content mapping induced by a sequence of entries, later
/// entries overriding earlier ones.
pub open spec fn map_of(entries: Seq<(Seq<char>, Seq<u8>)>) -> Map<Seq<char>, Seq<u8>>
    decreases entries.len(),
{
    if entries.len() == 0 {
        Map::empty()
    } else {
        map_of(entries.drop_last()).insert(entries.last().0, entries.last().1)
    }
}

/// A name no entry carries is not in the induced mapping.
proof fn lemma_map_of_absent(entries: Seq<(Seq<char>, Seq<u8>)>, name: Seq<char>)
    requires
        forall|i: int| 0 <= i < entries.len() ==> entries[i].0 != name,
    ensures
        !map_of(entries).contains_key(name),
    decreases entries.len(),
{
    if entries.len() > 0 {
        lemma_map_of_absent(entries.drop_last(), name);
    }
}

/// The induced mapping takes a name to the content of its last entry.
proof fn lemma_map_of_found(entries: Seq<(Seq<char>, Seq<u8>)>, name: Seq<char>, i: int)
    requires
        0 <= i < entries.len(),
        entries[i].0 == name,
        forall|j: int| i < j < entries.len() ==> entries[j].0 != name,
    ensures
        map_of(entries).contains_key(name),
        map_of(entries)[name] == entries[i].1,
    decreases entries.len(),
{
    if i == entries.len() - 1 {
    } else {
        lemma_map_of_found(entries.drop_last(), name, i);
    }
}

/// Replacing the content of the entry that carries a name updates exactly
/// that name's mapping.
proof fn lemma_map_of_update(
    entries: Seq<(Seq<char>, Seq<u8>)>,
    i: int,
    name: Seq<char>,
    content: Seq<u8>,
)
    requires
        unique_names(entries),
        0 <= i < entries.len(),
        entries[i].0 == name,
    ensures
        map_of(entries.update(i, (name, content))) =~= map_of(entries).insert(name, content),
    decreases entries.len(),
{
    let updated = entries.update(i, (name, content));
    if i == entries.len() - 1 {
        assert(updated.drop_last() =~= entries.drop_last());
    } else {
        assert(updated.drop_last() =~= entries.drop_last().update(i, (name, content)));
        lemma_map_of_update(entries.drop_last(), i, name, content);
        assert(entries.last().0 != name);
    }
}

/// Appending an entry inserts its mapping.
proof fn lemma_map_of_push(entries: Seq<(Seq<char>, Seq<u8>)>, name: Seq<char>, content: Seq<u8>)
    ensures
        map_of(entries.push((name, content))) =~= map_of(entries).insert(name, content),
{
    assert(entries.push((name, content)).drop_last() =~= entries);
}

/// Copy a byte buffer.
fn copy_bytes(src: &Vec<u8>) -> (r: Vec<u8>)
    ensures
        r@ == src@,
{
    let mut r: Vec<u8> = Vec::new();
    let mut i: usize = 0;
    while i < src.len()
        invariant
            i <= src@.len(),
            r@ =~= src@.subrange(0, i as int),
        decreases src@.len() - i,
    {
        r.push(src[i]);
        i += 1;
    }
    proof {
        assert(r@ =~= src@);
    }
    r
}

/// The in-memory store: a bucket's objects in insertion order.
pub struct MemoryStore {
    entries: Vec<StoredObject>,
}

impl MemoryStore {
    /// The (name, content) pairs, in insertion order.
    pub closed spec fn entries_view(&self) -> Seq<(Seq<char>, Seq<u8>)> {
        Seq::new(self.entries@.len(), |i: int| (self.entries@[i].name@, self.entries@[i].content@))
    }

    /// The object names, in insertion order.
    pub open spec fn names(&self) -> Seq<Seq<char>> {
        Seq::new(self.entries_view().len(), |i: int| self.entries_view()[i].0)
    }

    /// The name-to-content mapping the store realizes.
    pub open spec fn contents(&self) -> Map<Seq<char>, Seq<u8>> {
        map_of(self.entries_view())
    }

    /// Well-formed: one object per name.
    pub open spec fn wf(&self) -> bool {
        unique_names(self.entries_view())
    }

    /// An empty bucket.
    pub fn new() -> (s: MemoryStore)
        ensures
            s.wf(),
            s.contents() == Map::<Seq<char>, Seq<u8>>::empty(),
            s.names() == Seq::<Seq<char>>::empty(),
    {
        let s = MemoryStore { entries: Vec::new() };
        proof {
            assert(s.names() =~= Seq::<Seq<char>>::empty());
            assert(s.contents() =~= Map::<Seq<char>, Seq<u8>>::empty());
        }
        s
    }

    /// The index of the entry carrying a name, if any.
    fn find(&self, name: &String) -> (idx: Option<usize>)
        ensures
            match idx {
                Some(i) => i < self.entries_view().len() && self.entries_view()[i as int].0
                    == name@,
                None => forall|i: int|
                    0 <= i < self.entries_view().len() ==> self.entries_view()[i].0 != name@,
            },
    {
        let n = self.entries.len();
        let mut i: usize = 0;
        while i < n
            invariant
                n == self.entries@.len(),
                i <= n,
                forall|j: int| 0 <= j < i ==> self.entries_view()[j].0 != name@,
            decreases n - i,
        {
            if self.entries[i].name == *name {
                return Some(i);
            }
            i += 1;
        }
        None
    }

    /// Store content under a name, overwriting any object of the same name:
    /// last write wins, and the set of listed names gains the name only if
    /// it was absent.
    pub fn put(&mut self, name: &String, content: Vec<u8>)
        requires
            old(self).wf(),
        ensures
            final(self).wf(),
            final(self).contents() == old(self).contents().insert(name@, content@),
            old(self).contents().contains_key(name@) ==> final(self).names() == old(self).names(),
            !old(self).contents().contains_key(name@) ==> final(self).names() == old(
                self,
            ).names().push(name@),
    {
        let ghost e_old = self.entries_view();
        let idx = self.find(name);
        match idx {
            Some(i) => {
                proof {
                    lemma_map_of_found(e_old, name@, i as int);
                }
                self.entries.remove(i);
                self.entries.insert(i, StoredObject { name: name.clone(), content });
                proof {
                    assert(self.entries_view() =~= e_old.update(i as int, (name@, content@)));
                    lemma_map_of_update(e_old, i as int, name@, content@);
                    assert(self.names() =~= old(self).names());
                }
            },
            None => {
                proof {
                    lemma_map_of_absent(e_old, name@);
                }
                self.entries.push(StoredObject { name: name.clone(), content });
                proof {
                    assert(self.entries_view() =~= e_old.push((name@, content@)));
                    lemma_map_of_push(e_old, name@, content@);
                    assert(self.names() =~= old(self).names().push(name@));
                }
            },
        }
    }

    /// Fetch the content stored under a name; a missing name is reported
    /// as the store's HTTP not-found.
    pub fn fetch(&self, name: &String) -> (r: Result<Vec<u8>, StoreFault>)
        requires
            self.wf(),
        ensures
            self.contents().contains_key(name@) ==> (r matches Ok(c) && c@
                == self.contents()[name@]),
            !self.contents().contains_key(name@) ==> r == Err::<Vec<u8>, StoreFault>(
                StoreFault::Http(404),
            ),
    {
        match self.find(name) {
            Some(i) => {
                proof {
                    lemma_map_of_found(self.entries_view(), name@, i as int);
                }
                Ok(copy_bytes(&self.entries[i].content))
            },
            None => {
                proof {
                    lemma_map_of_absent(self.entries_view(), name@);
                }
                Err(StoreFault::Http(404))
            },
        }
    }

    /// Stat the object stored under a name: its size in bytes, with no
    /// last-modified timestamp reported. A missing name is the store's
    /// HTTP not-found.
    pub fn stat(&self, name: &String) -> (r: Result<StatData, StoreFault>)
        requires
            self.wf(),
        ensures
            self.contents().contains_key(name@) ==> (r matches Ok(d) && d.object@ == name@
                && d.size as nat == self.contents()[name@].len() && d.last_modified is None),
            !self.contents().contains_key(name@) ==> r == Err::<StatData, StoreFault>(
                StoreFault::Http(404),
            ),
    {
        match self.find(name) {
            Some(i) => {
                proof {
                    lemma_map_of_found(self.entries_view(), name@, i as int);
                }
                Ok(
                    StatData {
                        object: name.clone(),
                        size: self.entries[i].content.len() as u64,
                        last_modified: None,
                    },
                )
            },
            None => {
                proof {
                    lemma_map_of_absent(self.entries_view(), name@);
                }
                Err(StoreFault::Http(404))
            },
        }
    }

    /// All object names, in insertion order.
    pub fn list_names(&self) -> (r: Vec<String>)
        ensures
            r@.len() == self.names().len(),
            forall|i: int| 0 <= i < r@.len() ==> r@[i]@ == self.names()[i],
    {
        let n = self.entries.len();
        let mut r: Vec<String> = Vec::new();
        let mut i: usize = 0;
        while i < n
            invariant
                n == self.entries@.len(),
                i <= n,
                r@.len() == i,
                forall|j: int| 0 <= j < i ==> r@[j]@ == self.names()[j],
            decreases n - i,
        {
            r.push(self.entries[i].name.clone());
            i += 1;
        }
        r
    }
}

/// Law: in any store state reached by storing `content` under `name`, that
/// name is present and maps to exactly `content` — a put followed by a
/// fetch of the same name returns what was stored.
pub proof fn lemma_put_then_fetch(
    pre: MemoryStore,
    post: MemoryStore,
    name: Seq<char>,
    content: Seq<u8>,
)
    requires
        post.contents() == pre.contents().insert(name, content),
    ensures
        post.contents().contains_key(name),
        post.contents()[name] == content,
{
}

} // verus!
