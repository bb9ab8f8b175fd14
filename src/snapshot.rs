use vstd::prelude::*;

verus! {

/// The mapping that a sequence of `(path, digest)` records describes: each
/// record sets its path, and a later record for a path overrides an earlier one.
pub open spec fn map_of(s: Seq<(Seq<char>, Seq<char>)>) -> Map<Seq<char>, Seq<char>>
    decreases s.len(),
{
    if s.len() == 0 {
        Map::empty()
    } else {
        map_of(s.drop_last()).insert(s.last().0, s.last().1)
    }
}

/// No two records name the same path.
pub open spec fn unique_paths(s: Seq<(Seq<char>, Seq<char>)>) -> bool {
    forall|i: int, j: int| 0 <= i < s.len() && 0 <= j < s.len() && i != j ==> s[i].0 != s[j].0
}

/// The change-set of `new` against the baseline `old`: every entry of `new` whose
/// path is absent from `old` or carries another digest there.
pub open spec fn changed(
    old: Map<Seq<char>, Seq<char>>,
    new: Map<Seq<char>, Seq<char>>,
) -> Map<Seq<char>, Seq<char>> {
    Map::new(
        |p: Seq<char>| new.contains_key(p) && !(old.contains_key(p) && old[p] == new[p]),
        |p: Seq<char>| new[p],
    )
}

/// The baseline after a cycle: `old` with every entry of the change-set laid over it.
pub open spec fn merged(
    old: Map<Seq<char>, Seq<char>>,
    diff: Map<Seq<char>, Seq<char>>,
) -> Map<Seq<char>, Seq<char>> {
    old.union_prefer_right(diff)
}

proof fn lemma_map_of_dom(s: Seq<(Seq<char>, Seq<char>)>, p: Seq<char>)
    ensures
        map_of(s).contains_key(p) <==> exists|i: int| 0 <= i < s.len() && s[i].0 == p,
    decreases s.len(),
{
    if s.len() > 0 {
        lemma_map_of_dom(s.drop_last(), p);
        if map_of(s.drop_last()).contains_key(p) {
            let i = choose|i: int| 0 <= i < s.drop_last().len() && s.drop_last()[i].0 == p;
            assert(s[i].0 == p);
        }
        if exists|i: int| 0 <= i < s.len() && s[i].0 == p {
            let i = choose|i: int| 0 <= i < s.len() && s[i].0 == p;
            if i < s.len() - 1 {
                assert(s.drop_last()[i].0 == p);
            }
        }
    }
}

proof fn lemma_map_of_at(s: Seq<(Seq<char>, Seq<char>)>, i: int)
    requires
        unique_paths(s),
        0 <= i < s.len(),
    ensures
        map_of(s).contains_key(s[i].0),
        map_of(s)[s[i].0] == s[i].1,
    decreases s.len(),
{
    if i < s.len() - 1 {
        let d = s.drop_last();
        assert(unique_paths(d));
        assert(d[i] == s[i]);
        lemma_map_of_at(d, i);
        assert(s.last().0 != s[i].0);
    }
}

proof fn lemma_map_of_update(s: Seq<(Seq<char>, Seq<char>)>, i: int, v: Seq<char>)
    requires
        unique_paths(s),
        0 <= i < s.len(),
    ensures
        unique_paths(s.update(i, (s[i].0, v))),
        map_of(s.update(i, (s[i].0, v))) =~= map_of(s).insert(s[i].0, v),
    decreases s.len(),
{
    let t = s.update(i, (s[i].0, v));
    assert(forall|j: int| 0 <= j < s.len() ==> t[j].0 == s[j].0);
    if i == s.len() - 1 {
        assert(t.drop_last() =~= s.drop_last());
    } else {
        let d = s.drop_last();
        assert(unique_paths(d));
        assert(t.drop_last() =~= d.update(i, (d[i].0, v)));
        lemma_map_of_update(d, i, v);
        assert(s.last().0 != s[i].0);
    }
}

proof fn lemma_take_step(s: Seq<(Seq<char>, Seq<char>)>, i: int)
    requires
        0 <= i < s.len(),
    ensures
        map_of(s.take(i + 1)) == map_of(s.take(i)).insert(s[i].0, s[i].1),
{
    assert(s.take(i + 1).drop_last() =~= s.take(i));
}

/// The record of one scan of a directory tree: the digest of each file's contents by
/// path, and the time in milliseconds since the epoch at which the scan started.
pub struct ShaFile {
    files: Vec<(String, String)>,
    timestamp: u128,
}

impl View for ShaFile {
    type V = Map<Seq<char>, Seq<char>>;

    closed spec fn view(&self) -> Map<Seq<char>, Seq<char>> {
        map_of(self.records())
    }
}

/// Relies on std::time::SystemTime::now: the wall clock, in milliseconds since the
/// epoch; `None` when the clock reads before the epoch.
#[verifier::external_body]
fn clock_millis() -> Option<u128> {
    match std::time::SystemTime::now().duration_since(std::time::UNIX_EPOCH) {
        Ok(d) => Some(d.as_millis()),
        Err(_) => None,
    }
}

impl ShaFile {
    /// The records in the order in which they are held.
    pub closed spec fn records(&self) -> Seq<(Seq<char>, Seq<char>)> {
        self.files@.map_values(|e: (String, String)| (e.0@, e.1@))
    }

    /// The paths in the order in which they are held.
    pub closed spec fn paths(&self) -> Seq<Seq<char>> {
        self.records().map_values(|e: (Seq<char>, Seq<char>)| e.0)
    }

    /// Well-formedness: no path is held twice.
    pub closed spec fn wf(&self) -> bool {
        unique_paths(self.records())
    }

    /// The paths of a well-formed record are distinct, and they are exactly the
    /// paths of its mapping.
    pub proof fn lemma_paths(&self)
        requires
            self.wf(),
        ensures
            self.paths().no_duplicates(),
            forall|p: Seq<char>| #[trigger] self@.contains_key(p) <==> self.paths().contains(p),
            self.paths().len() == self.len_spec(),
    {
        let r = self.records();
        assert forall|p: Seq<char>| #[trigger] self@.contains_key(p) <==> self.paths().contains(p) by {
            lemma_map_of_dom(r, p);
            if self.paths().contains(p) {
                let i = choose|i: int| 0 <= i < self.paths().len() && self.paths()[i] == p;
                assert(r[i].0 == p);
            }
            if self@.contains_key(p) {
                let i = choose|i: int| 0 <= i < r.len() && r[i].0 == p;
                assert(self.paths()[i] == p);
            }
        }
    }

    /// The time, in milliseconds since the epoch, at which the scan started.
    pub closed spec fn stamp(&self) -> u128 {
        self.timestamp
    }

    /// The time, in milliseconds since the epoch, at which the scan started.
    pub fn timestamp(&self) -> (r: u128)
        ensures
            r == self.stamp(),
    {
        self.timestamp
    }

    /// The number of paths held.
    pub closed spec fn len_spec(&self) -> nat {
        self.files@.len()
    }

    /// An empty record stamped with the current time; with the epoch itself if the
    /// clock reads before the epoch.
    pub fn new() -> (r: ShaFile)
        ensures
            r.wf(),
            r@ == Map::<Seq<char>, Seq<char>>::empty(),
            r.paths() == Seq::<Seq<char>>::empty(),
    {
        match clock_millis() {
            Some(now) => ShaFile::at(now),
            None => ShaFile::at(0),
        }
    }

    /// An empty record stamped with `timestamp`.
    pub fn at(timestamp: u128) -> (r: ShaFile)
        ensures
            r.wf(),
            r@ == Map::<Seq<char>, Seq<char>>::empty(),
            r.paths() == Seq::<Seq<char>>::empty(),
            r.stamp() == timestamp,
    {
        let r = ShaFile { files: Vec::new(), timestamp };
        assert(r.records() =~= Seq::empty());
        assert(r.paths() =~= Seq::empty());
        r
    }

    /// The number of paths held.
    pub fn len(&self) -> (r: usize)
        ensures
            r == self.len_spec(),
            r == self.paths().len(),
    {
        self.files.len()
    }

    /// The `i`-th path in the order in which they are held, with its digest.
    pub fn entry(&self, i: usize) -> (r: (&String, &String))
        requires
            self.wf(),
            i < self.len_spec(),
        ensures
            r.0@ == self.paths()[i as int],
            self@.contains_key(r.0@),
            r.1@ == self@[r.0@],
    {
        proof {
            lemma_map_of_at(self.records(), i as int);
        }
        let e = &self.files[i];
        (&e.0, &e.1)
    }

    /// The digest recorded for `path`, if any.
    pub fn get(&self, path: &String) -> (r: Option<&String>)
        requires
            self.wf(),
        ensures
            match r {
                Some(d) => self@.contains_key(path@) && d@ == self@[path@],
                None => !self@.contains_key(path@),
            },
    {
        match self.position(path) {
            Some(i) => {
                proof {
                    lemma_map_of_at(self.records(), i as int);
                }
                Some(&self.files[i].1)
            },
            None => None,
        }
    }

    fn position(&self, path: &String) -> (r: Option<usize>)
        ensures
            match r {
                Some(i) => i < self.files@.len() && self.records()[i as int].0 == path@,
                None => !self@.contains_key(path@),
            },
    {
        let mut i: usize = 0;
        while i < self.files.len()
            invariant
                i <= self.files@.len(),
                forall|j: int| 0 <= j < i ==> self.records()[j].0 != path@,
            decreases self.files@.len() - i,
        {
            if self.files[i].0 == *path {
                return Some(i);
            }
            i += 1;
        }
        proof {
            lemma_map_of_dom(self.records(), path@);
        }
        None
    }

    /// Adds a path that is not held yet.
    fn push_new(&mut self, path: String, digest: String)
        requires
            old(self).wf(),
            !old(self)@.contains_key(path@),
        ensures
            final(self).wf(),
            final(self)@ == old(self)@.insert(path@, digest@),
            final(self).paths() == old(self).paths().push(path@),
            final(self).stamp() == old(self).stamp(),
    {
        proof {
            lemma_map_of_dom(self.records(), path@);
        }
        let ghost p = path@;
        let ghost d = digest@;
        self.files.push((path, digest));
        proof {
            let r = self.records();
            assert(r =~= old(self).records().push((p, d)));
            assert(r.drop_last() =~= old(self).records());
            assert(self.paths() =~= old(self).paths().push(p));
        }
    }

    /// Records `digest` for `path`, replacing a digest recorded before.
    pub fn insert(&mut self, path: String, digest: String)
        requires
            old(self).wf(),
        ensures
            final(self).wf(),
            final(self)@ == old(self)@.insert(path@, digest@),
            final(self).stamp() == old(self).stamp(),
    {
        match self.position(&path) {
            Some(i) => {
                let ghost d = digest@;
                proof {
                    lemma_map_of_update(self.records(), i as int, d);
                }
                self.files.set(i, (path, digest));
                proof {
                    assert(self.records() =~= old(self).records().update(
                        i as int,
                        (old(self).records()[i as int].0, d),
                    ));
                }
            },
            None => self.push_new(path, digest),
        }
    }
}

/// The change-set of a new scan against the prior baseline: every file of `new`
/// whose digest is absent from `old` or differs from it there. Paths found only in
/// `old` are not represented. The change-set is stamped with the new scan's time.
pub fn get_sha_diff(old: &ShaFile, new: ShaFile) -> (r: ShaFile)
    requires
        old.wf(),
        new.wf(),
    ensures
        r.wf(),
        r@ == changed(old@, new@),
        r.stamp() == new.stamp(),
{
    let mut diff = ShaFile::at(new.timestamp);
    let ghost s = new.records();
    let mut i: usize = 0;
    while i < new.files.len()
        invariant
            old.wf(),
            new.wf(),
            s == new.records(),
            diff.wf(),
            diff.stamp() == new.stamp(),
            i <= s.len(),
            diff@ =~= changed(old@, map_of(s.take(i as int))),
        decreases s.len() - i,
    {
        let path = &new.files[i].0;
        let digest = &new.files[i].1;
        let same = match old.get(path) {
            Some(d) => *d == *digest,
            None => false,
        };
        proof {
            lemma_take_step(s, i as int);
            lemma_map_of_dom(s.take(i as int), s[i as int].0);
            assert(s[i as int] == (path@, digest@));
            assert(forall|j: int| 0 <= j < i ==> s.take(i as int)[j].0 != s[i as int].0);
        }
        if !same {
            diff.push_new(path.clone(), digest.clone());
        }
        i += 1;
        proof {
            assert(diff@ =~= changed(old@, map_of(s.take(i as int))));
        }
    }
    proof {
        assert(s.take(i as int) =~= s);
    }
    diff
}

/// The new baseline: `old` with every entry of `diff` laid over it. It carries the
/// change-set's timestamp, so that the next cycle's interval counts from this scan.
/// The merge is made whether or not the uploads of the change-set succeed.
pub fn merge_diff_old(old: ShaFile, new: &ShaFile) -> (r: ShaFile)
    requires
        old.wf(),
        new.wf(),
    ensures
        r.wf(),
        r@ == merged(old@, new@),
        r.stamp() == new.stamp(),
{
    let mut out = old;
    out.timestamp = new.timestamp;
    let ghost base = out@;
    let ghost s = new.records();
    let mut i: usize = 0;
    while i < new.files.len()
        invariant
            new.wf(),
            s == new.records(),
            out.wf(),
            out.stamp() == new.stamp(),
            i <= s.len(),
            out@ =~= merged(base, map_of(s.take(i as int))),
        decreases s.len() - i,
    {
        proof {
            lemma_take_step(s, i as int);
        }
        out.insert(new.files[i].0.clone(), new.files[i].1.clone());
        i += 1;
    }
    proof {
        assert(s.take(i as int) =~= s);
    }
    out
}

/// Every path of a new scan carries, in the merged baseline, the digest that the
/// scan found for it.
pub proof fn lemma_merge_covers_new(old: Map<Seq<char>, Seq<char>>, new: Map<Seq<char>, Seq<char>>)
    ensures
        forall|p: Seq<char>| #[trigger] new.contains_key(p) ==> merged(old, changed(old, new)).contains_key(p)
            && merged(old, changed(old, new))[p] == new[p],
{
}

/// Scanning an unchanged tree again finds nothing to upload: once a scan's change-set
/// is merged into the baseline, a second scan that finds the same digests differs
/// from that baseline nowhere.
pub proof fn lemma_rescan_is_quiet(
    old: Map<Seq<char>, Seq<char>>,
    first: Map<Seq<char>, Seq<char>>,
    second: Map<Seq<char>, Seq<char>>,
)
    requires
        second == first,
    ensures
        changed(merged(old, changed(old, first)), second) == Map::<Seq<char>, Seq<char>>::empty(),
{
    lemma_merge_covers_new(old, first);
    assert(changed(merged(old, changed(old, first)), second) =~= Map::<Seq<char>, Seq<char>>::empty());
}

} // verus!
