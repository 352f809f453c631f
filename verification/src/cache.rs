//! The resource reader capability and the caller-supplied cache that shares
//! parsed tilesets and templates by canonical path. A load routine checks
//! the cache before reading, and inserts before returning, so one path is
//! parsed at most once per cache lifetime. The cache is never implicitly
//! cleared.

use crate::template::Template;
use crate::tileset::Tileset;
use std::sync::Arc;
use vstd::prelude::*;

verus! {

/// The capability to obtain a resource's bytes by path. Implementors decide
/// what a path means (a filesystem, an archive, memory); nothing is assumed
/// of what they yield, and every outcome is handled.
pub trait ResourceReader {
    /// Obtains the bytes at a path, or the reader's own failure message.
    fn read_from(&mut self, path: &String) -> Result<Vec<u8>, String>;
}

fn copy_bytes(v: &Vec<u8>) -> (r: Vec<u8>)
    ensures
        r@ == v@,
{
    let mut out: Vec<u8> = Vec::new();
    let mut i: usize = 0;
    while i < v.len()
        invariant
            i <= v@.len(),
            out@ == v@.subrange(0, i as int),
        decreases v@.len() - i,
    {
        out.push(v[i]);
        proof {
            assert(out@ =~= v@.subrange(0, i + 1));
        }
        i = i + 1;
    }
    proof {
        assert(out@ =~= v@);
    }
    out
}

/// A reader over an in-memory table of resources, counting how many times
/// it was consulted.
pub struct InMemoryReader {
    pub files: Vec<(String, Vec<u8>)>,
    /// How many times `read_from` ran.
    pub reads: u64,
}

impl InMemoryReader {
    pub fn new(files: Vec<(String, Vec<u8>)>) -> (r: InMemoryReader)
        ensures
            r.files == files,
            r.reads == 0,
    {
        InMemoryReader { files, reads: 0 }
    }

    pub fn read_count(&self) -> (r: u64)
        ensures
            r == self.reads,
    {
        self.reads
    }
}

impl ResourceReader for InMemoryReader {
    fn read_from(&mut self, path: &String) -> Result<Vec<u8>, String> {
        if self.reads < 0xFFFF_FFFF_FFFF_FFFF {
            self.reads = self.reads + 1;
        }
        let mut i: usize = 0;
        while i < self.files.len()
            invariant
                i <= self.files@.len(),
            decreases self.files@.len() - i,
        {
            if self.files[i].0.eq(path) {
                return Ok(copy_bytes(&self.files[i].1));
            }
            i = i + 1;
        }
        Err(String::from_str("no such resource"))
    }
}

/// Relies on alloc::sync::Arc::clone: another handle to the same shared
/// allocation, equal to the one cloned.
#[verifier::external_body]
pub fn share_arc<T>(x: &Arc<T>) -> (r: Arc<T>)
    ensures
        r == *x,
{
    Arc::clone(x)
}

/// The mapping an association list denotes; later entries win, and the
/// cache keeps each path once.
pub open spec fn assoc_map<T>(entries: Seq<(String, Arc<T>)>) -> Map<Seq<char>, T>
    decreases entries.len(),
{
    if entries.len() == 0 {
        Map::empty()
    } else {
        assoc_map(entries.drop_last()).insert(entries.last().0@, *entries.last().1)
    }
}

proof fn lemma_assoc_map_get<T>(entries: Seq<(String, Arc<T>)>, i: int)
    requires
        0 <= i < entries.len(),
        forall|a: int, b: int|
            0 <= a < b < entries.len() ==> #[trigger] entries[a].0@ != #[trigger] entries[b].0@,
    ensures
        assoc_map(entries).contains_key(entries[i].0@),
        assoc_map(entries)[entries[i].0@] == *entries[i].1,
    decreases entries.len(),
{
    if i < entries.len() - 1 {
        lemma_assoc_map_get(entries.drop_last(), i);
        assert(entries.last().0@ != entries[i].0@);
    }
}

proof fn lemma_assoc_map_absent<T>(entries: Seq<(String, Arc<T>)>, k: Seq<char>)
    requires
        forall|i: int| 0 <= i < entries.len() ==> #[trigger] entries[i].0@ != k,
    ensures
        !assoc_map(entries).contains_key(k),
    decreases entries.len(),
{
    if entries.len() > 0 {
        lemma_assoc_map_absent(entries.drop_last(), k);
    }
}

/// The cache of parsed resources, keyed by canonical path, holding shared
/// handles. Supplied by the caller; reusing one across loads is what makes
/// cross-document sharing work.
pub struct ResourceCache {
    pub tilesets: Vec<(String, Arc<Tileset>)>,
    pub templates: Vec<(String, Arc<Template>)>,
}

impl ResourceCache {
    /// What the cache holds for tilesets, by path.
    pub open spec fn tilesets_view(self) -> Map<Seq<char>, Tileset> {
        assoc_map(self.tilesets@)
    }

    /// What the cache holds for templates, by path.
    pub open spec fn templates_view(self) -> Map<Seq<char>, Template> {
        assoc_map(self.templates@)
    }

    /// Each path is held at most once.
    pub open spec fn wf(self) -> bool {
        (forall|a: int, b: int|
            0 <= a < b < self.tilesets@.len() ==> #[trigger] self.tilesets@[a].0@
                != #[trigger] self.tilesets@[b].0@) && (forall|a: int, b: int|
            0 <= a < b < self.templates@.len() ==> #[trigger] self.templates@[a].0@
                != #[trigger] self.templates@[b].0@)
    }

    /// An empty cache.
    pub fn new() -> (r: ResourceCache)
        ensures
            r.wf(),
            r.tilesets_view() =~= Map::<Seq<char>, Tileset>::empty(),
            r.templates_view() =~= Map::<Seq<char>, Template>::empty(),
    {
        ResourceCache { tilesets: Vec::new(), templates: Vec::new() }
    }

    /// The shared handle cached for a tileset path, if one is held.
    pub fn get_tileset(&self, path: &String) -> (r: Option<Arc<Tileset>>)
        requires
            self.wf(),
        ensures
            match r {
                Some(ts) => self.tilesets_view().contains_key(path@) && *ts
                    == self.tilesets_view()[path@],
                None => !self.tilesets_view().contains_key(path@),
            },
    {
        let mut i: usize = 0;
        while i < self.tilesets.len()
            invariant
                self.wf(),
                i <= self.tilesets@.len(),
                forall|k: int| 0 <= k < i ==> #[trigger] self.tilesets@[k].0@ != path@,
            decreases self.tilesets@.len() - i,
        {
            if self.tilesets[i].0.eq(path) {
                proof {
                    lemma_assoc_map_get(self.tilesets@, i as int);
                }
                return Some(share_arc(&self.tilesets[i].1));
            }
            i = i + 1;
        }
        proof {
            lemma_assoc_map_absent(self.tilesets@, path@);
        }
        None
    }

    /// Caches a tileset handle under a path not yet held.
    pub fn insert_tileset(&mut self, path: String, ts: Arc<Tileset>)
        requires
            old(self).wf(),
            !old(self).tilesets_view().contains_key(path@),
        ensures
            final(self).wf(),
            final(self).tilesets_view() == old(self).tilesets_view().insert(path@, *ts),
            final(self).templates_view() == old(self).templates_view(),
    {
        proof {
            assert(self.tilesets@.push((path, ts)).drop_last() =~= self.tilesets@);
            assert forall|i: int| 0 <= i < self.tilesets@.len() implies #[trigger] self.tilesets@[i].0@
                != path@ by {
                lemma_assoc_map_get(self.tilesets@, i);
            }
        }
        self.tilesets.push((path, ts));
        proof {
            assert forall|a: int, b: int|
                0 <= a < b < self.tilesets@.len() implies #[trigger] self.tilesets@[a].0@
                != #[trigger] self.tilesets@[b].0@ by {
                if b < self.tilesets@.len() - 1 {
                    assert(old(self).tilesets@[a].0@ != old(self).tilesets@[b].0@);
                }
            }
        }
    }

    /// The shared handle cached for a template path, if one is held.
    pub fn get_template(&self, path: &String) -> (r: Option<Arc<Template>>)
        requires
            self.wf(),
        ensures
            match r {
                Some(t) => self.templates_view().contains_key(path@) && *t
                    == self.templates_view()[path@],
                None => !self.templates_view().contains_key(path@),
            },
    {
        let mut i: usize = 0;
        while i < self.templates.len()
            invariant
                self.wf(),
                i <= self.templates@.len(),
                forall|k: int| 0 <= k < i ==> #[trigger] self.templates@[k].0@ != path@,
            decreases self.templates@.len() - i,
        {
            if self.templates[i].0.eq(path) {
                proof {
                    lemma_assoc_map_get(self.templates@, i as int);
                }
                return Some(share_arc(&self.templates[i].1));
            }
            i = i + 1;
        }
        proof {
            lemma_assoc_map_absent(self.templates@, path@);
        }
        None
    }

    /// Caches a template handle under a path not yet held.
    pub fn insert_template(&mut self, path: String, t: Arc<Template>)
        requires
            old(self).wf(),
            !old(self).templates_view().contains_key(path@),
        ensures
            final(self).wf(),
            final(self).templates_view() == old(self).templates_view().insert(path@, *t),
            final(self).tilesets_view() == old(self).tilesets_view(),
    {
        proof {
            assert(self.templates@.push((path, t)).drop_last() =~= self.templates@);
            assert forall|i: int|
                0 <= i < self.templates@.len() implies #[trigger] self.templates@[i].0@
                != path@ by {
                lemma_assoc_map_get(self.templates@, i);
            }
        }
        self.templates.push((path, t));
        proof {
            assert forall|a: int, b: int|
                0 <= a < b < self.templates@.len() implies #[trigger] self.templates@[a].0@
                != #[trigger] self.templates@[b].0@ by {
                if b < self.templates@.len() - 1 {
                    assert(old(self).templates@[a].0@ != old(self).templates@[b].0@);
                }
            }
        }
    }
}

/// One cache only ever grows: everything held before a load is held, with
/// the same handle, after it.
pub open spec fn cache_extends(post: ResourceCache, pre: ResourceCache) -> bool {
    (forall|k: Seq<char>|
        pre.tilesets_view().contains_key(k) ==> #[trigger] post.tilesets_view().contains_key(k)
            && post.tilesets_view()[k] == pre.tilesets_view()[k]) && (forall|k: Seq<char>|
        pre.templates_view().contains_key(k) ==> #[trigger] post.templates_view().contains_key(k)
            && post.templates_view()[k] == pre.templates_view()[k])
}

/// Growing is transitive: two loads in a row still preserve everything the
/// first one found.
pub broadcast proof fn lemma_cache_extends_trans(
    c2: ResourceCache,
    c1: ResourceCache,
    c0: ResourceCache,
)
    ensures
        (#[trigger] cache_extends(c2, c1) && #[trigger] cache_extends(c1, c0)) ==> cache_extends(
            c2,
            c0,
        ),
{
    if cache_extends(c2, c1) && cache_extends(c1, c0) {
        assert forall|k: Seq<char>|
            c0.tilesets_view().contains_key(k) implies #[trigger] c2.tilesets_view().contains_key(
            k,
        ) && c2.tilesets_view()[k] == c0.tilesets_view()[k] by {
            assert(c1.tilesets_view().contains_key(k));
        }
        assert forall|k: Seq<char>|
            c0.templates_view().contains_key(k) implies #[trigger] c2.templates_view().contains_key(
            k,
        ) && c2.templates_view()[k] == c0.templates_view()[k] by {
            assert(c1.templates_view().contains_key(k));
        }
    }
}

} // verus!
