//! The archive listing cache kept by the service around the parser: an
//! association list from archive path to its file listing, with unique
//! keys.  `clear` and `insert` are its only mutators, as the service
//! requires; readers take their own copy of a listing.

use vstd::prelude::*;

verus! {

/// One file of an archive listing.
#[derive(Clone, Debug, PartialEq, Eq)]
pub struct MpqFileInfo {
    pub name: String,
    pub size: u64,
}

#[verifier::ext_equal]
pub struct MpqFileInfoV {
    pub name: Seq<char>,
    pub size: u64,
}

impl DeepView for MpqFileInfo {
    type V = MpqFileInfoV;

    open spec fn deep_view(&self) -> MpqFileInfoV {
        MpqFileInfoV { name: self.name.deep_view(), size: self.size }
    }
}

/// First match of a key in an association list.
pub open spec fn assoc_find(s: Seq<(Seq<char>, Seq<MpqFileInfoV>)>, key: Seq<char>) -> Option<
    Seq<MpqFileInfoV>,
>
    decreases s.len(),
{
    if s.len() == 0 {
        None
    } else if s[0].0 == key {
        Some(s[0].1)
    } else {
        assoc_find(s.subrange(1, s.len() as int), key)
    }
}

/// A cache of archive listings keyed by archive path.
pub struct MpqCache {
    archives: Vec<(String, Vec<MpqFileInfo>)>,
}

impl MpqCache {
    /// The stored entries, in insertion order.
    pub closed spec fn entries(self) -> Seq<(Seq<char>, Seq<MpqFileInfoV>)> {
        self.archives.deep_view()
    }

    /// Keys are unique.
    pub closed spec fn wf(self) -> bool {
        forall|i: int, j: int|
            0 <= i < j < self.archives.deep_view().len() ==> #[trigger] self.archives.deep_view()[i].0
                != #[trigger] self.archives.deep_view()[j].0
    }

    /// An empty cache.
    pub fn new() -> (r: MpqCache)
        ensures
            r.entries() == Seq::<(Seq<char>, Seq<MpqFileInfoV>)>::empty(),
            r.wf(),
    {
        let r = MpqCache { archives: Vec::new() };
        proof {
            assert(r.entries() =~= Seq::<(Seq<char>, Seq<MpqFileInfoV>)>::empty());
        }
        r
    }

    /// The listing stored under `path`, if any.
    pub fn lookup(&self, path: &String) -> (r: Option<&Vec<MpqFileInfo>>)
        ensures
            match r {
                Some(v) => assoc_find(self.entries(), path@) == Some(v.deep_view()),
                None => assoc_find(self.entries(), path@) is None,
            },
    {
        let ghost es = self.entries();
        proof {
            assert(es.subrange(0, es.len() as int) =~= es);
        }
        let mut i: usize = 0;
        while i < self.archives.len()
            invariant
                es == self.entries(),
                es.len() == self.archives@.len(),
                0 <= i <= self.archives@.len(),
                assoc_find(es, path@) == assoc_find(es.subrange(i as int, es.len() as int), path@),
                forall|k: int| 0 <= k < es.len() ==> #[trigger] es[k] == self.archives@[k].deep_view(),
            decreases self.archives.len() - i,
        {
            let entry = &self.archives[i];
            if entry.0.eq(path) {
                proof {
                    assert(es.subrange(i as int, es.len() as int)[0] == es[i as int]);
                }
                return Some(&self.archives[i].1);
            }
            proof {
                let tail = es.subrange(i as int, es.len() as int);
                assert(tail.subrange(1, tail.len() as int) =~= es.subrange(
                    i + 1,
                    es.len() as int,
                ));
            }
            i = i + 1;
        }
        proof {
            assert(es.subrange(es.len() as int, es.len() as int) =~= Seq::<
                (Seq<char>, Seq<MpqFileInfoV>),
            >::empty());
        }
        None
    }

    /// Stores `files` under `path`, replacing any earlier listing for the
    /// same path and leaving every other entry as it was.
    pub fn insert(&mut self, path: String, files: Vec<MpqFileInfo>) -> (r: ())
        requires
            old(self).wf(),
        ensures
            final(self).wf(),
            assoc_find(final(self).entries(), path@) == Some(files.deep_view()),
            forall|key: Seq<char>|
                key != path@ ==> #[trigger] assoc_find(final(self).entries(), key) == assoc_find(
                    old(self).entries(),
                    key,
                ),
    {
        let ghost es = self.entries();
        let ghost pathv = path@;
        let ghost filesv = files.deep_view();
        let mut i: usize = 0;
        while i < self.archives.len()
            invariant
                es == self.entries(),
                es == old(self).entries(),
                self.wf(),
                es.len() == self.archives@.len(),
                0 <= i <= self.archives@.len(),
                pathv == path@,
                filesv == files.deep_view(),
                forall|k: int| 0 <= k < i ==> #[trigger] es[k].0 != pathv,
                forall|k: int| 0 <= k < es.len() ==> #[trigger] es[k] == self.archives@[k].deep_view(),
            decreases self.archives.len() - i,
        {
            let matches_here = self.archives[i].0.eq(&path);
            if matches_here {
                let ghost pre = *self;
                let ghost xg = (path, files);
                self.archives[i] = (path, files);
                proof {
                    assert(self.archives@ == pre.archives@.update(i as int, xg));
                    assert(xg.deep_view() =~= (pathv, filesv));
                    assert(pre.archives.deep_view() == es);
                    crate::model::lemma_deep_view_update(
                        pre.archives,
                        self.archives,
                        i as int,
                        xg,
                    );
                    assert(self.entries() =~= es.update(i as int, (pathv, filesv)));
                    lemma_assoc_find_update(es, self.entries(), i as int, pathv, filesv);
                    assert(forall|k: int|
                        0 <= k < self.entries().len() ==> (#[trigger] self.entries()[k]).0
                            == es[k].0);
                    assert forall|a: int, b: int|
                        0 <= a < b < self.archives.deep_view().len() implies #[trigger] self
                        .archives.deep_view()[a].0 != #[trigger] self.archives.deep_view()[b].0 by {
                        assert(es[a].0 != es[b].0);
                    }
                }
                return ;
            }
            i = i + 1;
        }
        let ghost pre = *self;
        let ghost xg = (path, files);
        self.archives.push((path, files));
        proof {
            crate::model::lemma_deep_view_push(pre.archives, self.archives, xg);
            assert(self.entries() =~= es.push((pathv, filesv)));
            lemma_assoc_find_push(es, pathv, filesv);
            assert forall|a: int, b: int|
                0 <= a < b < self.archives.deep_view().len() implies #[trigger] self.archives
                .deep_view()[a].0 != #[trigger] self.archives.deep_view()[b].0 by {
                if b < es.len() {
                    assert(es[a].0 != es[b].0);
                } else {
                    assert(es[a].0 != pathv);
                }
            }
        }
    }

    /// Drops every entry.
    pub fn clear(&mut self) -> (r: ())
        ensures
            final(self).entries() == Seq::<(Seq<char>, Seq<MpqFileInfoV>)>::empty(),
            final(self).wf(),
    {
        self.archives.clear();
        proof {
            assert(self.entries() =~= Seq::<(Seq<char>, Seq<MpqFileInfoV>)>::empty());
        }
    }
}

/// Finding in a list whose first `i` keys miss, after replacing index `i`
/// with the sought key: the sought key finds the new listing; other keys
/// find what they found before.
proof fn lemma_assoc_find_update(
    es: Seq<(Seq<char>, Seq<MpqFileInfoV>)>,
    es2: Seq<(Seq<char>, Seq<MpqFileInfoV>)>,
    i: int,
    pathv: Seq<char>,
    filesv: Seq<MpqFileInfoV>,
)
    requires
        0 <= i < es.len(),
        es2 == es.update(i, (pathv, filesv)),
        es[i].0 == pathv,
        forall|k: int| 0 <= k < i ==> #[trigger] es[k].0 != pathv,
        forall|a: int, b: int| 0 <= a < b < es.len() ==> #[trigger] es[a].0 != #[trigger] es[b].0,
    ensures
        assoc_find(es2, pathv) == Some(filesv),
        forall|key: Seq<char>|
            key != pathv ==> #[trigger] assoc_find(es2, key) == assoc_find(es, key),
    decreases es.len(),
{
    if i == 0 {
        assert(es2[0].0 == pathv);
        assert forall|key: Seq<char>| key != pathv implies #[trigger] assoc_find(es2, key)
            == assoc_find(es, key) by {
            assert(es2.subrange(1, es2.len() as int) =~= es.subrange(1, es.len() as int));
            assert(assoc_find(es2, key) == assoc_find(es2.subrange(1, es2.len() as int), key));
            assert(assoc_find(es, key) == assoc_find(es.subrange(1, es.len() as int), key));
        }
    } else {
        let t = es.subrange(1, es.len() as int);
        let t2 = es2.subrange(1, es2.len() as int);
        assert(t2 =~= t.update(i - 1, (pathv, filesv)));
        assert(forall|k: int| 0 <= k < i - 1 ==> #[trigger] t[k].0 != pathv);
        assert(forall|a: int, b: int|
            0 <= a < b < t.len() ==> #[trigger] t[a].0 != #[trigger] t[b].0);
        lemma_assoc_find_update(t, t2, i - 1, pathv, filesv);
        assert(es2[0] == es[0]);
        assert(es[0].0 != pathv);
        assert(assoc_find(es2, pathv) == assoc_find(t2, pathv));
        assert forall|key: Seq<char>| key != pathv implies #[trigger] assoc_find(es2, key)
            == assoc_find(es, key) by {
            if es[0].0 != key {
                assert(assoc_find(es, key) == assoc_find(t, key));
                assert(assoc_find(es2, key) == assoc_find(t2, key));
            }
        }
    }
}

/// Finding in a list with no matching key, after appending the sought key:
/// the sought key finds the appended listing; other keys are unaffected.
proof fn lemma_assoc_find_push(
    es: Seq<(Seq<char>, Seq<MpqFileInfoV>)>,
    pathv: Seq<char>,
    filesv: Seq<MpqFileInfoV>,
)
    requires
        forall|k: int| 0 <= k < es.len() ==> #[trigger] es[k].0 != pathv,
    ensures
        assoc_find(es.push((pathv, filesv)), pathv) == Some(filesv),
        forall|key: Seq<char>|
            key != pathv ==> #[trigger] assoc_find(es.push((pathv, filesv)), key) == assoc_find(
                es,
                key,
            ),
    decreases es.len(),
{
    if es.len() == 0 {
        let p = es.push((pathv, filesv));
        assert(p[0] == (pathv, filesv));
        assert forall|key: Seq<char>| key != pathv implies #[trigger] assoc_find(
            es.push((pathv, filesv)),
            key,
        ) == assoc_find(es, key) by {
            assert(p.subrange(1, p.len() as int) =~= Seq::<
                (Seq<char>, Seq<MpqFileInfoV>),
            >::empty());
            assert(assoc_find(p, key) == assoc_find(p.subrange(1, p.len() as int), key));
        }
    } else {
        let t = es.subrange(1, es.len() as int);
        lemma_assoc_find_push(t, pathv, filesv);
        let p = es.push((pathv, filesv));
        assert(p.subrange(1, p.len() as int) =~= t.push((pathv, filesv)));
        assert(es[0].0 != pathv);
        assert(assoc_find(p, pathv) == assoc_find(t.push((pathv, filesv)), pathv));
        assert forall|key: Seq<char>| key != pathv implies #[trigger] assoc_find(p, key)
            == assoc_find(es, key) by {
            if es[0].0 != key {
                assert(assoc_find(es, key) == assoc_find(t, key));
                assert(assoc_find(p, key) == assoc_find(t.push((pathv, filesv)), key));
            }
        }
    }
}

/// Makes sure the optional cache slot holds a cache: an absent slot gets a
/// fresh empty cache, a present one is kept as it is.
pub fn init_cache(slot: &mut Option<MpqCache>)
    ensures
        (*final(slot)) is Some,
        (*old(slot)) is Some ==> *final(slot) == *old(slot),
        (*old(slot)) is None ==> (*final(slot))->0.entries() == Seq::<
            (Seq<char>, Seq<MpqFileInfoV>),
        >::empty() && (*final(slot))->0.wf(),
{
    if slot.is_none() {
        *slot = Some(MpqCache::new());
    }
}

} // verus!
