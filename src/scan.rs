use vstd::prelude::*;
use vstd::string::StringExecFns;
use crate::digest::{digest_text, file_digest};
use crate::ignore_filter::IgnoreFilter;
use crate::snapshot::{changed, lemma_rescan_is_quiet, merged, ShaFile};

verus! {

/// What the caller does next with an entry met while listing a directory.
#[derive(PartialEq, Eq, Structural, Debug, Clone, Copy)]
pub enum Visit {
    /// The rules exclude it: a file is not read, a directory is not entered.
    Skip,
    /// A directory, now queued to be listed.
    Descend,
    /// A file, now queued to be read.
    Read,
}

/// The digests that a scan records from the files it reads, in the order read: a
/// later read of a path overrides an earlier one.
pub open spec fn scanned(reads: Seq<(Seq<char>, Seq<u8>)>) -> Map<Seq<char>, Seq<char>>
    decreases reads.len(),
{
    if reads.len() == 0 {
        Map::empty()
    } else {
        scanned(reads.drop_last()).insert(reads.last().0, digest_text(reads.last().1))
    }
}

/// The path of the entry reached from `root` through the entry names `parts`.
pub open spec fn joined(root: Seq<char>, parts: Seq<Seq<char>>) -> Seq<char>
    decreases parts.len(),
{
    if parts.len() == 0 {
        root
    } else {
        joined(root, parts.drop_last()) + seq!['/'] + parts.last()
    }
}

/// No directory on the way from `root` down through `parts` is excluded by `f`.
pub open spec fn dirs_admitted(f: IgnoreFilter, root: Seq<char>, parts: Seq<Seq<char>>) -> bool {
    forall|k: int| 1 <= k <= parts.len() ==> !f.excludes(#[trigger] joined(root, parts.take(k)), true)
}

/// The file reached from `root` through `parts` is admitted by `f`: neither it nor
/// any directory on its way is excluded.
pub open spec fn file_admitted(f: IgnoreFilter, root: Seq<char>, parts: Seq<Seq<char>>) -> bool {
    &&& parts.len() >= 1
    &&& dirs_admitted(f, root, parts.drop_last())
    &&& !f.excludes(joined(root, parts), false)
}

proof fn lemma_dirs_admitted_push(f: IgnoreFilter, root: Seq<char>, parts: Seq<Seq<char>>, n: Seq<char>)
    requires
        dirs_admitted(f, root, parts),
        !f.excludes(joined(root, parts.push(n)), true),
    ensures
        dirs_admitted(f, root, parts.push(n)),
{
    let q = parts.push(n);
    assert forall|k: int| 1 <= k <= q.len() implies !f.excludes(#[trigger] joined(root, q.take(k)), true) by {
        if k <= parts.len() {
            assert(q.take(k) =~= parts.take(k));
        } else {
            assert(q.take(k) =~= q);
        }
    }
}

/// A scan of one directory tree in progress: the directories still to be listed,
/// the files still to be read, and the digests of the files read so far.
pub struct Scan {
    filter: IgnoreFilter,
    snapshot: ShaFile,
    root: Ghost<Seq<char>>,
    pending: Vec<String>,
    pending_parts: Ghost<Seq<Seq<Seq<char>>>>,
    listing: String,
    listing_parts: Ghost<Seq<Seq<char>>>,
    files: Vec<String>,
    file_parts: Ghost<Seq<Seq<Seq<char>>>>,
    reading: Option<String>,
    reading_parts: Ghost<Seq<Seq<char>>>,
    reads: Ghost<Seq<(Seq<char>, Seq<u8>)>>,
}

impl Scan {
    /// The rules that decide which paths take part.
    pub closed spec fn filter(&self) -> IgnoreFilter {
        self.filter
    }

    /// The directory that the scan started from.
    pub closed spec fn root(&self) -> Seq<char> {
        self.root@
    }

    /// The digests recorded so far, by path.
    pub closed spec fn found(&self) -> Map<Seq<char>, Seq<char>> {
        self.snapshot@
    }

    /// The paths and contents of the files recorded so far, in order.
    pub closed spec fn reads(&self) -> Seq<(Seq<char>, Seq<u8>)> {
        self.reads@
    }

    /// The directories still to be listed; the last is listed next.
    pub closed spec fn pending(&self) -> Seq<Seq<char>> {
        self.pending@.map_values(|d: String| d@)
    }

    /// The directory whose entries are being visited.
    pub closed spec fn listing(&self) -> Seq<char> {
        self.listing@
    }

    /// The files still to be read; the last is read next.
    pub closed spec fn queued(&self) -> Seq<Seq<char>> {
        self.files@.map_values(|d: String| d@)
    }

    /// The file whose contents `record` takes, if any.
    pub closed spec fn reading(&self) -> Option<Seq<char>> {
        match self.reading {
            Some(p) => Some(p@),
            None => None,
        }
    }

    /// The time at which the scan started, in milliseconds since the epoch.
    pub closed spec fn started(&self) -> u128 {
        self.snapshot.stamp()
    }

    /// Every directory to list is reached from the root through admitted
    /// directories, and every file to read or recorded is admitted with all the
    /// directories on its way; the snapshot holds what the reads give, each digest
    /// 64 hexadecimal digits.
    pub closed spec fn wf(&self) -> bool {
        let f = self.filter;
        let root = self.root@;
        &&& self.snapshot.wf()
        &&& self.snapshot@ == scanned(self.reads@)
        &&& self.pending_parts@.len() == self.pending@.len()
        &&& forall|i: int|
            0 <= i < self.pending@.len() ==> #[trigger] self.pending@[i]@ == joined(
                root,
                self.pending_parts@[i],
            ) && dirs_admitted(f, root, self.pending_parts@[i])
        &&& self.listing@ == joined(root, self.listing_parts@)
        &&& dirs_admitted(f, root, self.listing_parts@)
        &&& self.file_parts@.len() == self.files@.len()
        &&& forall|i: int|
            0 <= i < self.files@.len() ==> #[trigger] self.files@[i]@ == joined(
                root,
                self.file_parts@[i],
            ) && file_admitted(f, root, self.file_parts@[i])
        &&& self.reading matches Some(p) ==> p@ == joined(root, self.reading_parts@) && file_admitted(
            f,
            root,
            self.reading_parts@,
        )
        &&& forall|p: Seq<char>| #[trigger]
            self.snapshot@.contains_key(p) ==> self.snapshot@[p].len() == 64
                && (exists|data: Seq<u8>| self.snapshot@[p] == digest_text(data))
                && exists|parts: Seq<Seq<char>>| p == joined(root, parts) && file_admitted(f, root, parts)
    }

    /// A scan of the tree under `root`, started at `timestamp`.
    pub fn new(root: String, filter: IgnoreFilter, timestamp: u128) -> (r: Scan)
        ensures
            r.wf(),
            r.filter() == filter,
            r.root() == root@,
            r.found() == Map::<Seq<char>, Seq<char>>::empty(),
            r.reads() == Seq::<(Seq<char>, Seq<u8>)>::empty(),
            r.pending() == seq![root@],
            r.queued() == Seq::<Seq<char>>::empty(),
            r.reading() is None,
            r.started() == timestamp,
    {
        let ghost rv = root@;
        let ghost first: Seq<Seq<Seq<char>>> = seq![Seq::empty()];
        let listing = root.clone();
        let mut pending: Vec<String> = Vec::new();
        pending.push(root);
        let r = Scan {
            filter,
            snapshot: ShaFile::at(timestamp),
            root: Ghost(rv),
            pending,
            pending_parts: Ghost(first),
            listing,
            listing_parts: Ghost(Seq::empty()),
            files: Vec::new(),
            file_parts: Ghost(Seq::empty()),
            reading: None,
            reading_parts: Ghost(Seq::empty()),
            reads: Ghost(Seq::empty()),
        };
        assert(r.pending() =~= seq![rv]);
        assert(r.queued() =~= Seq::empty());
        r
    }

    /// The next directory to list, taken off the queue; `None` when no directory
    /// is left.
    pub fn next_directory(&mut self) -> (r: Option<String>)
        requires
            old(self).wf(),
        ensures
            final(self).wf(),
            final(self).filter() == old(self).filter(),
            final(self).root() == old(self).root(),
            final(self).found() == old(self).found(),
            final(self).reads() == old(self).reads(),
            final(self).queued() == old(self).queued(),
            final(self).reading() == old(self).reading(),
            final(self).started() == old(self).started(),
            old(self).pending().len() == 0 ==> r is None && final(self).pending() == old(
                self,
            ).pending(),
            old(self).pending().len() > 0 ==> (r matches Some(d) && d@ == old(self).pending().last()
                && final(self).pending() == old(self).pending().drop_last() && final(self).listing()
                == d@),
    {
        match self.pending.pop() {
            Some(d) => {
                let ghost parts = self.pending_parts@.last();
                proof {
                    assert(self.pending_parts@.len() == old(self).pending@.len());
                    let n = (self.pending_parts@.len() - 1) as int;
                    assert(old(self).pending@[n] == d);
                    self.pending_parts@ = self.pending_parts@.drop_last();
                    self.listing_parts@ = parts;
                    assert(self.pending() =~= old(self).pending().drop_last());
                    assert forall|i: int| 0 <= i < self.pending@.len() implies #[trigger] self.pending@[i]@
                        == joined(self.root@, self.pending_parts@[i]) && dirs_admitted(
                        self.filter,
                        self.root@,
                        self.pending_parts@[i],
                    ) by {
                        assert(self.pending@[i] == old(self).pending@[i]);
                        assert(self.pending_parts@[i] == old(self).pending_parts@[i]);
                    }
                }
                self.listing = d.clone();
                proof {
                    assert(self.snapshot == old(self).snapshot);
                    assert(self.files == old(self).files);
                    assert(self.reading == old(self).reading);
                    assert(self.wf());
                }
                Some(d)
            },
            None => None,
        }
    }

    /// Decides on the entry `name` of the directory being listed, whose path is
    /// that directory, `/`, and `name`: an excluded path is skipped, a directory is
    /// queued to be listed, a file is queued to be read.
    pub fn visit(&mut self, name: String, is_dir: bool) -> (r: Visit)
        requires
            old(self).wf(),
        ensures
            final(self).wf(),
            final(self).filter() == old(self).filter(),
            final(self).root() == old(self).root(),
            final(self).found() == old(self).found(),
            final(self).reads() == old(self).reads(),
            final(self).listing() == old(self).listing(),
            final(self).reading() == old(self).reading(),
            final(self).started() == old(self).started(),
            r == Visit::Skip <==> old(self).filter().excludes(old(self).listing() + seq!['/'] + name@, is_dir),
            r == Visit::Descend <==> !old(self).filter().excludes(old(self).listing() + seq!['/'] + name@, is_dir) && is_dir,
            r == Visit::Read <==> !old(self).filter().excludes(old(self).listing() + seq!['/'] + name@, is_dir) && !is_dir,
            r == Visit::Descend ==> final(self).pending() == old(self).pending().push(
                old(self).listing() + seq!['/'] + name@,
            ),
            r != Visit::Descend ==> final(self).pending() == old(self).pending(),
            r == Visit::Read ==> final(self).queued() == old(self).queued().push(
                old(self).listing() + seq!['/'] + name@,
            ),
            r != Visit::Read ==> final(self).queued() == old(self).queued(),
    {
        proof {
            reveal_strlit("/");
        }
        let ghost parts = self.listing_parts@.push(name@);
        let mut path = self.listing.clone();
        path.append("/");
        path.append(name.as_str());
        proof {
            assert(parts.drop_last() =~= self.listing_parts@);
            assert(path@ == joined(self.root@, parts));
        }
        if self.filter.is_excluded(path.as_str(), is_dir) {
            Visit::Skip
        } else if is_dir {
            let ghost p = path@;
            proof {
                lemma_dirs_admitted_push(self.filter, self.root@, self.listing_parts@, name@);
            }
            self.pending.push(path);
            proof {
                self.pending_parts@ = self.pending_parts@.push(parts);
                assert(self.pending() =~= old(self).pending().push(p));
                assert forall|i: int| 0 <= i < self.pending@.len() implies #[trigger] self.pending@[i]@
                    == joined(self.root@, self.pending_parts@[i]) && dirs_admitted(
                    self.filter,
                    self.root@,
                    self.pending_parts@[i],
                ) by {
                    if i < old(self).pending@.len() {
                        assert(self.pending@[i] == old(self).pending@[i]);
                        assert(self.pending_parts@[i] == old(self).pending_parts@[i]);
                    }
                }
            }
            Visit::Descend
        } else {
            let ghost p = path@;
            self.files.push(path);
            proof {
                self.file_parts@ = self.file_parts@.push(parts);
                assert(self.queued() =~= old(self).queued().push(p));
                assert forall|i: int| 0 <= i < self.files@.len() implies #[trigger] self.files@[i]@
                    == joined(self.root@, self.file_parts@[i]) && file_admitted(
                    self.filter,
                    self.root@,
                    self.file_parts@[i],
                ) by {
                    if i < old(self).files@.len() {
                        assert(self.files@[i] == old(self).files@[i]);
                        assert(self.file_parts@[i] == old(self).file_parts@[i]);
                    }
                }
            }
            Visit::Read
        }
    }

    /// The next file to read, taken off the queue; its contents go to `record`.
    /// `None` when no file is queued.
    pub fn next_file(&mut self) -> (r: Option<String>)
        requires
            old(self).wf(),
        ensures
            final(self).wf(),
            final(self).filter() == old(self).filter(),
            final(self).root() == old(self).root(),
            final(self).found() == old(self).found(),
            final(self).reads() == old(self).reads(),
            final(self).pending() == old(self).pending(),
            final(self).listing() == old(self).listing(),
            final(self).started() == old(self).started(),
            old(self).queued().len() == 0 ==> r is None && final(self).queued() == old(self).queued()
                && final(self).reading() is None,
            old(self).queued().len() > 0 ==> (r matches Some(p) && p@ == old(self).queued().last()
                && final(self).queued() == old(self).queued().drop_last() && final(self).reading()
                == Some(p@)),
    {
        match self.files.pop() {
            Some(p) => {
                let ghost parts = self.file_parts@.last();
                proof {
                    let n = (self.file_parts@.len() - 1) as int;
                    assert(old(self).files@[n] == p);
                    self.file_parts@ = self.file_parts@.drop_last();
                    self.reading_parts@ = parts;
                    assert(self.queued() =~= old(self).queued().drop_last());
                    assert forall|i: int| 0 <= i < self.files@.len() implies #[trigger] self.files@[i]@
                        == joined(self.root@, self.file_parts@[i]) && file_admitted(
                        self.filter,
                        self.root@,
                        self.file_parts@[i],
                    ) by {
                        assert(self.files@[i] == old(self).files@[i]);
                        assert(self.file_parts@[i] == old(self).file_parts@[i]);
                    }
                }
                self.reading = Some(p.clone());
                Some(p)
            },
            None => {
                self.reading = None;
                None
            },
        }
    }

    /// Records the digest of the contents of the file that `next_file` handed out
    /// last. Returns `false`, recording nothing, when there is no such file.
    pub fn record(&mut self, data: &[u8]) -> (r: bool)
        requires
            old(self).wf(),
        ensures
            final(self).wf(),
            final(self).filter() == old(self).filter(),
            final(self).root() == old(self).root(),
            final(self).pending() == old(self).pending(),
            final(self).listing() == old(self).listing(),
            final(self).queued() == old(self).queued(),
            final(self).started() == old(self).started(),
            final(self).reading() is None,
            r == old(self).reading() is Some,
            r ==> final(self).found() == old(self).found().insert(
                old(self).reading()->0,
                digest_text(data@),
            ),
            r ==> final(self).reads() == old(self).reads().push((old(self).reading()->0, data@)),
            !r ==> final(self).found() == old(self).found(),
            !r ==> final(self).reads() == old(self).reads(),
    {
        match self.reading.take() {
            Some(path) => {
                let digest = file_digest(data);
                let ghost q = path@;
                let ghost parts = self.reading_parts@;
                self.snapshot.insert(path, digest);
                proof {
                    self.reads@ = self.reads@.push((q, data@));
                    assert(self.reads@.drop_last() =~= old(self).reads@);
                    assert forall|p: Seq<char>| #[trigger]
                        self.snapshot@.contains_key(p) implies self.snapshot@[p].len() == 64
                        && (exists|d: Seq<u8>| self.snapshot@[p] == digest_text(d))
                        && exists|ps: Seq<Seq<char>>| p == joined(self.root@, ps) && file_admitted(
                            self.filter,
                            self.root@,
                            ps,
                        ) by {
                        if p == q {
                            assert(self.snapshot@[p] == digest_text(data@));
                            assert(p == joined(self.root@, parts));
                        } else {
                            assert(old(self).snapshot@.contains_key(p));
                        }
                    }
                }
                true
            },
            None => false,
        }
    }

    /// The snapshot that the scan produced. Every path in it names a file that the
    /// rules admit, reached from the root through directories that the rules admit.
    pub fn finish(self) -> (r: ShaFile)
        requires
            self.wf(),
        ensures
            r.wf(),
            r@ == self.found(),
            r@ == scanned(self.reads()),
            r.stamp() == self.started(),
            forall|p: Seq<char>| #[trigger]
                r@.contains_key(p) ==> exists|parts: Seq<Seq<char>>| p == joined(self.root(), parts)
                    && file_admitted(self.filter(), self.root(), parts),
            forall|p: Seq<char>| #[trigger] r@.contains_key(p) ==> !self.filter().excludes(p, false),
            forall|p: Seq<char>| #[trigger]
                r@.contains_key(p) ==> r@[p].len() == 64 && exists|data: Seq<u8>| r@[p] == digest_text(
                    data,
                ),
    {
        proof {
            assert forall|p: Seq<char>| #[trigger] self.snapshot@.contains_key(p) implies !self.filter.excludes(p, false) by {
                let parts = choose|parts: Seq<Seq<char>>| p == joined(self.root@, parts) && file_admitted(
                    self.filter,
                    self.root@,
                    parts,
                );
            }
            assert forall|p: Seq<char>| #[trigger] self.snapshot@.contains_key(p) implies exists|
                parts: Seq<Seq<char>>,
            | p == joined(self.root(), parts) && file_admitted(self.filter(), self.root(), parts) by {
                let parts = choose|parts: Seq<Seq<char>>| p == joined(self.root@, parts) && file_admitted(
                    self.filter,
                    self.root@,
                    parts,
                );
                assert(p == joined(self.root(), parts) && file_admitted(self.filter(), self.root(), parts));
            }
        }
        self.snapshot
    }
}

/// Scanning an unchanged tree twice in a row uploads nothing the second time: when
/// the second scan reads the same files with the same contents as the first, its
/// change-set against the baseline that the first cycle left is empty.
pub proof fn lemma_rescan_unchanged_tree(
    prior: Map<Seq<char>, Seq<char>>,
    reads: Seq<(Seq<char>, Seq<u8>)>,
)
    ensures
        changed(merged(prior, changed(prior, scanned(reads))), scanned(reads)) == Map::<
            Seq<char>,
            Seq<char>,
        >::empty(),
{
    lemma_rescan_is_quiet(prior, scanned(reads), scanned(reads));
}

} // verus!
