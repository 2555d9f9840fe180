//! Breadth-first walks over a directory subtree whose listings come from
//! the note store one directory at a time: one fills the guard's cache, the
//! other lists what a directory removal takes away.
use vstd::prelude::*;
use crate::access::{ids_of, ProxyAccess, RemovalPlan};
use crate::data::copy_string;
use crate::ids::{IdSet, prefix_ids, lemma_prefix_ids_step};

verus! {

/// The strings of a sequence, as character sequences.
pub open spec fn chars_of_all(s: Seq<String>) -> Seq<Seq<char>> {
    s.map_values(|x: String| x@)
}

/// The children among `children` that are new to `known`, each once, in
/// the order they come.
pub open spec fn fresh_ids(known: Set<Seq<char>>, children: Seq<String>) -> Seq<Seq<char>>
    decreases children.len(),
{
    if children.len() == 0 {
        Seq::empty()
    } else {
        let earlier = children.drop_last();
        let c = children.last()@;
        if known.contains(c) || ids_of(earlier).contains(c) {
            fresh_ids(known, earlier)
        } else {
            fresh_ids(known, earlier).push(c)
        }
    }
}

/// What a directory's listing names: its child directories and its notes.
pub type Listing = (Set<Seq<char>>, Set<Seq<char>>);

/// The state of the walk that collects the subtree the proxy exposes.
pub struct AccessLoader {
    root: String,
    directories: IdSet,
    notes: IdSet,
    queue: Vec<String>,
    next: usize,
    listings: Ghost<Seq<Listing>>,
}

/// The loader's state as mathematical values.
pub struct LoaderView {
    pub root: Seq<char>,
    pub directories: Set<Seq<char>>,
    pub notes: Set<Seq<char>>,
    /// Every directory met so far, in the order it was met.
    pub queue: Seq<Seq<char>>,
    /// How many directories of `queue` were listed.
    pub next: int,
    /// The listings recorded so far, one for each listed directory of
    /// `queue`, in order.
    pub listings: Seq<Listing>,
}

impl View for AccessLoader {
    type V = LoaderView;

    closed spec fn view(&self) -> LoaderView {
        LoaderView {
            root: self.root@,
            directories: self.directories@,
            notes: self.notes@,
            queue: chars_of_all(self.queue@),
            next: self.next as int,
            listings: self.listings@,
        }
    }
}

/// Whether the `j`-th met directory was named by the listing of a
/// directory met before it.
pub open spec fn named_before(v: LoaderView, j: int) -> bool {
    exists|p: int| 0 <= p < j && p < v.listings.len() && (#[trigger] v.listings[p]).0.contains(v.queue[j])
}

/// Whether note `x` was named by some recorded listing.
pub open spec fn note_named(v: LoaderView, x: Seq<char>) -> bool {
    exists|p: int| 0 <= p < v.listings.len() && (#[trigger] v.listings[p]).1.contains(x)
}

/// Every met directory but the root was named by the listing of a
/// directory met before it; every note was named by some listing.
pub open spec fn reached_through_listings(v: LoaderView) -> bool {
    &&& forall|j: int| 1 <= j < v.queue.len() ==> #[trigger] named_before(v, j)
    &&& forall|x: Seq<char>| v.notes.contains(x) ==> #[trigger] note_named(v, x)
}

/// Everything a recorded listing names was collected.
pub open spec fn listings_collected(v: LoaderView) -> bool {
    forall|p: int| 0 <= p < v.listings.len() ==> (#[trigger] v.listings[p]).0.subset_of(v.directories)
        && v.listings[p].1.subset_of(v.notes)
}

proof fn lemma_fresh_ids_named(known: Set<Seq<char>>, children: Seq<String>)
    ensures
        forall|k: int| 0 <= k < fresh_ids(known, children).len() ==> ids_of(children).contains(#[trigger] fresh_ids(known, children)[k]),
    decreases children.len(),
{
    if children.len() > 0 {
        let earlier = children.drop_last();
        lemma_fresh_ids_named(known, earlier);
        assert forall|k: int| 0 <= k < fresh_ids(known, children).len() implies ids_of(children).contains(#[trigger] fresh_ids(known, children)[k]) by {
            if k < fresh_ids(known, earlier).len() {
                let x = fresh_ids(known, earlier)[k];
                assert(ids_of(earlier).contains(x));
                let m = choose|m: int| 0 <= m < earlier.len() && #[trigger] earlier[m]@ == x;
                assert(children[m]@ == x);
            } else {
                assert(children[children.len() - 1]@ == children.last()@);
            }
        }
    }
}

impl AccessLoader {
    /// Whether the loader's state is consistent: the met directories are
    /// exactly those queued, the root first; each listed directory has its
    /// listing recorded, and what the listings name is collected and is all
    /// that was collected.
    pub closed spec fn wf(&self) -> bool {
        &&& self.next <= self.queue@.len()
        &&& self.queue@.len() > 0
        &&& self.queue@[0]@ == self.root@
        &&& self.directories@ == ids_of(self.queue@)
        &&& self.listings@.len() == self.next
        &&& listings_collected(self@)
        &&& reached_through_listings(self@)
    }

    /// Starts the walk at `root`.
    pub fn start(root: String) -> (l: AccessLoader)
        ensures
            l.wf(),
            l@.root == root@,
            l@.directories == set![root@],
            l@.notes == Set::<Seq<char>>::empty(),
            l@.queue == seq![root@],
            l@.next == 0,
            l@.listings == Seq::<Listing>::empty(),
    {
        let mut directories = IdSet::new();
        directories.insert(copy_string(&root));
        let mut queue: Vec<String> = Vec::new();
        queue.push(copy_string(&root));
        let l = AccessLoader { root, directories, notes: IdSet::new(), queue, next: 0, listings: Ghost(Seq::empty()) };
        proof {
            lemma_prefix_ids_step(l.queue@, 0);
            assert(prefix_ids(l.queue@, 0) =~= Set::<Seq<char>>::empty());
            assert(l@.queue =~= seq![root@]);
        }
        l
    }

    /// The next directory whose listing is needed, or `None` once every
    /// met directory was listed.
    pub fn next_directory(&self) -> (d: Option<String>)
        requires
            self.wf(),
        ensures
            self@.next < self@.queue.len() ==> d is Some && d->0@ == self@.queue[self@.next],
            self@.next >= self@.queue.len() ==> d is None,
    {
        if self.next < self.queue.len() {
            Some(copy_string(&self.queue[self.next]))
        } else {
            None
        }
    }

    /// Records the listing of the directory `next_directory` names: its
    /// child directories and its notes. Once every met directory was
    /// listed, nothing changes.
    pub fn visit(&mut self, children: &Vec<String>, notes: &Vec<String>)
        requires
            old(self).wf(),
        ensures
            final(self).wf(),
            final(self)@.root == old(self)@.root,
            old(self)@.next >= old(self)@.queue.len() ==> final(self)@ == old(self)@,
            old(self)@.next < old(self)@.queue.len() ==> {
                &&& final(self)@.next == old(self)@.next + 1
                &&& final(self)@.directories == old(self)@.directories.union(ids_of(children@))
                &&& final(self)@.notes == old(self)@.notes.union(ids_of(notes@))
                &&& final(self)@.queue == old(self)@.queue + fresh_ids(old(self)@.directories, children@)
                &&& final(self)@.listings == old(self)@.listings.push((ids_of(children@), ids_of(notes@)))
            },
    {
        if self.next >= self.queue.len() {
            return;
        }
        let ghost known = self.directories@;
        let ghost q0 = chars_of_all(self.queue@);
        let ghost v0 = self@;
        let n = children.len();
        for i in 0..n
            invariant
                n == children@.len(),
                self.next < self.queue@.len(),
                self.queue@.len() > 0,
                self.queue@[0]@ == self.root@,
                self.directories@ == ids_of(self.queue@),
                self.root@ == old(self)@.root,
                self.next == old(self)@.next,
                self.listings@ == old(self)@.listings,
                known == old(self)@.directories,
                q0 == old(self)@.queue,
                v0 == old(self)@,
                self.notes@ == old(self)@.notes,
                self.directories@ == known.union(prefix_ids(children@, i as int)),
                chars_of_all(self.queue@) == q0 + fresh_ids(known, children@.take(i as int)),
        {
            proof {
                lemma_prefix_ids_step(children@, i as int);
                assert(children@.take(i + 1).drop_last() =~= children@.take(i as int));
                assert(ids_of(children@.take(i as int)) =~= prefix_ids(children@, i as int)) by {
                    assert forall|x: Seq<char>| #[trigger] ids_of(children@.take(i as int)).contains(x) == prefix_ids(children@, i as int).contains(x) by {
                        if ids_of(children@.take(i as int)).contains(x) {
                            let k = choose|k: int| 0 <= k < i && #[trigger] children@.take(i as int)[k]@ == x;
                            assert(children@[k]@ == x);
                        }
                        if prefix_ids(children@, i as int).contains(x) {
                            let k = choose|k: int| 0 <= k < i && #[trigger] children@[k]@ == x;
                            assert(children@.take(i as int)[k]@ == x);
                        }
                    }
                }
            }
            let child = copy_string(&children[i]);
            let ghost qb = self.queue@;
            if self.directories.insert(child) {
                let c = copy_string(&children[i]);
                proof {
                    crate::ids::lemma_prefix_ids_push(self.queue@, c);
                }
                self.queue.push(c);
                assert(chars_of_all(self.queue@) =~= chars_of_all(qb).push(children@[i as int]@));
                assert(self.queue@[0] == qb[0]);
            } else {
                assert(self.directories@ =~= ids_of(self.queue@));
            }
            assert(self.directories@ =~= known.union(prefix_ids(children@, i + 1)));
        }
        assert(children@.take(n as int) =~= children@);
        assert(prefix_ids(children@, n as int) == ids_of(children@));
        let m = notes.len();
        for j in 0..m
            invariant
                m == notes@.len(),
                self.next < self.queue@.len(),
                self.queue@.len() > 0,
                self.queue@[0]@ == self.root@,
                self.directories@ == ids_of(self.queue@),
                self.root@ == old(self)@.root,
                self.next == old(self)@.next,
                self.listings@ == old(self)@.listings,
                self.directories@ == known.union(ids_of(children@)),
                chars_of_all(self.queue@) == q0 + fresh_ids(known, children@),
                self.notes@ == old(self)@.notes.union(prefix_ids(notes@, j as int)),
        {
            proof {
                lemma_prefix_ids_step(notes@, j as int);
            }
            self.notes.insert(copy_string(&notes[j]));
            assert(self.notes@ =~= old(self)@.notes.union(prefix_ids(notes@, j + 1)));
        }
        assert(prefix_ids(notes@, m as int) == ids_of(notes@));
        let ghost listing: Listing = (ids_of(children@), ids_of(notes@));
        self.listings = Ghost(self.listings@.push(listing));
        self.next = self.next + 1;
        proof {
            let v = self@;
            let p = v0.next;
            lemma_fresh_ids_named(known, children@);
            assert(v.listings[p] == listing);
            assert forall|k: int| 0 <= k < v.listings.len() implies (#[trigger] v.listings[k]).0.subset_of(v.directories)
                && v.listings[k].1.subset_of(v.notes) by {
                if k < p {
                    assert(v.listings[k] == v0.listings[k]);
                }
            }
            assert forall|j: int| 1 <= j < v.queue.len() implies #[trigger] named_before(v, j) by {
                if j < q0.len() {
                    assert(named_before(v0, j));
                    let k = choose|k: int| 0 <= k < j && k < v0.listings.len() && (#[trigger] v0.listings[k]).0.contains(v0.queue[j]);
                    assert(v.listings[k] == v0.listings[k]);
                    assert(v.queue[j] == v0.queue[j]);
                    assert(v.listings[k].0.contains(v.queue[j]));
                } else {
                    assert(v.queue[j] == fresh_ids(known, children@)[j - q0.len()]);
                    assert(v.listings[p].0.contains(v.queue[j]));
                }
            }
            assert forall|x: Seq<char>| v.notes.contains(x) implies #[trigger] note_named(v, x) by {
                if v0.notes.contains(x) {
                    assert(note_named(v0, x));
                    let k = choose|k: int| 0 <= k < v0.listings.len() && (#[trigger] v0.listings[k]).1.contains(x);
                    assert(v.listings[k] == v0.listings[k]);
                    assert(v.listings[k].1.contains(x));
                } else {
                    assert(v.listings[p].1.contains(x));
                }
            }
            assert(reached_through_listings(v));
        }
    }

    /// Whether every met directory was listed.
    pub open spec fn done(&self) -> bool {
        self@.next >= self@.queue.len()
    }

    /// The guard over the collected subtree.
    pub fn finish(self) -> (a: ProxyAccess)
        ensures
            a@.root == self@.root,
            a@.directories == self@.directories,
            a@.notes == self@.notes,
    {
        ProxyAccess::new(self.root, self.directories, self.notes)
    }
}

/// Once the walk is over, it collected exactly the subtree that the
/// listings describe: every met directory was listed, everything a listing
/// names was collected, and every collected directory but the root, and
/// every collected note, was named by the listing of a directory collected
/// before it.
pub proof fn law_walk_collects_the_listed_subtree(l: AccessLoader)
    requires
        l.wf(),
        l.done(),
    ensures
        l@.queue[0] == l@.root,
        l@.listings.len() == l@.queue.len(),
        forall|x: Seq<char>| l@.directories.contains(x) <==> l@.queue.contains(x),
        listings_collected(l@),
        reached_through_listings(l@),
{
    assert forall|x: Seq<char>| l@.directories.contains(x) <==> l@.queue.contains(x) by {
        if l@.directories.contains(x) {
            let k = choose|k: int| 0 <= k < l.queue@.len() && #[trigger] l.queue@[k]@ == x;
            assert(l@.queue[k] == x);
        }
        if l@.queue.contains(x) {
            let k = choose|k: int| 0 <= k < l@.queue.len() && l@.queue[k] == x;
            assert(l.queue@[k]@ == x);
        }
    }
}

/// The directories reached from `root` in at most `n` steps, each step from
/// a directory to a child that `store` lists for it.
pub open spec fn reached_within(store: Map<Seq<char>, Listing>, root: Seq<char>, n: nat) -> Set<Seq<char>>
    decreases n,
{
    if n == 0 {
        set![root]
    } else {
        let prev = reached_within(store, root, (n - 1) as nat);
        prev.union(Set::new(|x: Seq<char>| exists|d: Seq<char>| prev.contains(d) && store.contains_key(d)
            && (#[trigger] store[d]).0.contains(x)))
    }
}

/// The directories reachable from `root` through `store`'s listings.
pub open spec fn reachable(store: Map<Seq<char>, Listing>, root: Seq<char>) -> Set<Seq<char>> {
    Set::new(|x: Seq<char>| exists|n: nat| #[trigger] reached_within(store, root, n).contains(x))
}

/// The notes that `store` lists in the directories `dirs`.
pub open spec fn notes_under(store: Map<Seq<char>, Listing>, dirs: Set<Seq<char>>) -> Set<Seq<char>> {
    Set::new(|x: Seq<char>| exists|d: Seq<char>| dirs.contains(d) && store.contains_key(d)
        && (#[trigger] store[d]).1.contains(x))
}

/// Whether each listing the walk recorded is what `store` lists for the
/// directory it was recorded for.
pub open spec fn listed_from(v: LoaderView, store: Map<Seq<char>, Listing>) -> bool {
    forall|p: int| 0 <= p < v.listings.len() ==> store.contains_key(#[trigger] v.queue[p])
        && store[v.queue[p]] == v.listings[p]
}

proof fn lemma_reached_within_grows(store: Map<Seq<char>, Listing>, root: Seq<char>, m: nat, n: nat)
    requires
        m <= n,
    ensures
        reached_within(store, root, m).subset_of(reached_within(store, root, n)),
    decreases n - m,
{
    if m < n {
        lemma_reached_within_grows(store, root, m, (n - 1) as nat);
    }
}

proof fn lemma_queue_reached(l: AccessLoader, store: Map<Seq<char>, Listing>, j: int)
    requires
        l.wf(),
        listed_from(l@, store),
        0 <= j < l@.queue.len(),
    ensures
        reached_within(store, l@.root, j as nat).contains(l@.queue[j]),
    decreases j,
{
    let v = l@;
    if j == 0 {
        assert(v.queue[0] == v.root);
    } else {
        assert(named_before(v, j));
        let p = choose|p: int| 0 <= p < j && p < v.listings.len() && (#[trigger] v.listings[p]).0.contains(v.queue[j]);
        lemma_queue_reached(l, store, p);
        lemma_reached_within_grows(store, v.root, p as nat, (j - 1) as nat);
        let d = v.queue[p];
        assert(store.contains_key(d) && store[d] == v.listings[p]);
        assert(reached_within(store, v.root, (j - 1) as nat).contains(d));
        assert(store[d].0.contains(v.queue[j]));
    }
}

/// When every listing the walk recorded came from the same store, the walk
/// collects exactly the directories reachable from the root through that
/// store's listings, and exactly the notes the store lists in them.
pub proof fn law_walk_collects_the_store_subtree(l: AccessLoader, store: Map<Seq<char>, Listing>)
    requires
        l.wf(),
        l.done(),
        listed_from(l@, store),
    ensures
        l@.directories == reachable(store, l@.root),
        l@.notes == notes_under(store, l@.directories),
{
    let v = l@;
    law_walk_collects_the_listed_subtree(l);
    assert forall|x: Seq<char>| v.directories.contains(x) implies #[trigger] reachable(store, v.root).contains(x) by {
        assert(v.queue.contains(x));
        let j = choose|j: int| 0 <= j < v.queue.len() && v.queue[j] == x;
        lemma_queue_reached(l, store, j);
        assert(reached_within(store, v.root, j as nat).contains(x));
    }
    assert forall|n: nat| #[trigger] reached_within(store, v.root, n).subset_of(v.directories) by {
        lemma_reached_subset(l, store, n);
    }
    assert forall|x: Seq<char>| reachable(store, v.root).contains(x) implies v.directories.contains(x) by {
        let n = choose|n: nat| #[trigger] reached_within(store, v.root, n).contains(x);
        assert(reached_within(store, v.root, n).subset_of(v.directories));
    }
    assert(v.directories =~= reachable(store, v.root));
    assert forall|x: Seq<char>| v.notes.contains(x) implies #[trigger] notes_under(store, v.directories).contains(x) by {
        assert(note_named(v, x));
        let p = choose|p: int| 0 <= p < v.listings.len() && (#[trigger] v.listings[p]).1.contains(x);
        let d = v.queue[p];
        assert(store.contains_key(d) && store[d] == v.listings[p]);
        assert(v.queue.contains(d));
        assert(v.directories.contains(d));
    }
    assert forall|x: Seq<char>| notes_under(store, v.directories).contains(x) implies v.notes.contains(x) by {
        let d = choose|d: Seq<char>| v.directories.contains(d) && store.contains_key(d) && (#[trigger] store[d]).1.contains(x);
        assert(v.queue.contains(d));
        let p = choose|p: int| 0 <= p < v.queue.len() && v.queue[p] == d;
        assert(store[v.queue[p]] == v.listings[p]);
        assert(v.listings[p].1.subset_of(v.notes));
    }
    assert(v.notes =~= notes_under(store, v.directories));
}

proof fn lemma_reached_subset(l: AccessLoader, store: Map<Seq<char>, Listing>, n: nat)
    requires
        l.wf(),
        l.done(),
        listed_from(l@, store),
    ensures
        reached_within(store, l@.root, n).subset_of(l@.directories),
    decreases n,
{
    let v = l@;
    law_walk_collects_the_listed_subtree(l);
    if n == 0 {
        assert(v.queue[0] == v.root);
        assert(v.queue.contains(v.root));
    } else {
        lemma_reached_subset(l, store, (n - 1) as nat);
        let prev = reached_within(store, v.root, (n - 1) as nat);
        assert forall|x: Seq<char>| reached_within(store, v.root, n).contains(x) implies v.directories.contains(x) by {
            if !prev.contains(x) {
                let d = choose|d: Seq<char>| prev.contains(d) && store.contains_key(d) && (#[trigger] store[d]).0.contains(x);
                assert(v.directories.contains(d));
                assert(v.queue.contains(d));
                let p = choose|p: int| 0 <= p < v.queue.len() && v.queue[p] == d;
                assert(store[v.queue[p]] == v.listings[p]);
                assert(v.listings[p].0.subset_of(v.directories));
            }
        }
    }
}

/// What a directory's listing names, in order: its child directories and
/// its notes.
pub type OrderedListing = (Seq<Seq<char>>, Seq<Seq<char>>);

/// The child directories of the listings, one listing after the other.
pub open spec fn listed_directories(ls: Seq<OrderedListing>) -> Seq<Seq<char>>
    decreases ls.len(),
{
    if ls.len() == 0 {
        Seq::empty()
    } else {
        listed_directories(ls.drop_last()) + ls.last().0
    }
}

/// The notes of the listings, one listing after the other.
pub open spec fn listed_notes(ls: Seq<OrderedListing>) -> Seq<Seq<char>>
    decreases ls.len(),
{
    if ls.len() == 0 {
        Seq::empty()
    } else {
        listed_notes(ls.drop_last()) + ls.last().1
    }
}

proof fn lemma_listed_contains(ls: Seq<OrderedListing>, p: int, k: int)
    requires
        0 <= p < ls.len(),
    ensures
        0 <= k < ls[p].0.len() ==> listed_directories(ls).contains(ls[p].0[k]),
        0 <= k < ls[p].1.len() ==> listed_notes(ls).contains(ls[p].1[k]),
    decreases ls.len(),
{
    let last = ls.len() - 1;
    if p < last {
        lemma_listed_contains(ls.drop_last(), p, k);
        assert(ls.drop_last()[p] == ls[p]);
        if 0 <= k < ls[p].0.len() {
            let x = ls[p].0[k];
            let i = choose|i: int| 0 <= i < listed_directories(ls.drop_last()).len() && listed_directories(ls.drop_last())[i] == x;
            assert(listed_directories(ls)[i] == x);
        }
        if 0 <= k < ls[p].1.len() {
            let x = ls[p].1[k];
            let i = choose|i: int| 0 <= i < listed_notes(ls.drop_last()).len() && listed_notes(ls.drop_last())[i] == x;
            assert(listed_notes(ls)[i] == x);
        }
    } else {
        if 0 <= k < ls[p].0.len() {
            let base = listed_directories(ls.drop_last()).len();
            assert(listed_directories(ls)[base + k] == ls[p].0[k]);
        }
        if 0 <= k < ls[p].1.len() {
            let base = listed_notes(ls.drop_last()).len();
            assert(listed_notes(ls)[base + k] == ls[p].1[k]);
        }
    }
}

/// Whether the `j`-th queued directory was named by the listing of a
/// directory queued before it.
pub open spec fn listed_before(v: CollectorView, j: int) -> bool {
    exists|p: int| 0 <= p < j && p < v.listings.len() && (#[trigger] v.listings[p]).0.contains(v.queue[j])
}

/// The state of the walk that lists what removing a directory takes away.
pub struct RemovalCollector {
    queue: Vec<String>,
    next: usize,
    notes: Vec<String>,
    listings: Ghost<Seq<OrderedListing>>,
}

/// The collector's state as mathematical values.
pub struct CollectorView {
    pub queue: Seq<Seq<char>>,
    pub next: int,
    pub notes: Seq<Seq<char>>,
    /// The listings recorded so far, one for each listed directory of
    /// `queue`, in order.
    pub listings: Seq<OrderedListing>,
}

impl View for RemovalCollector {
    type V = CollectorView;

    closed spec fn view(&self) -> CollectorView {
        CollectorView {
            queue: chars_of_all(self.queue@),
            next: self.next as int,
            notes: chars_of_all(self.notes@),
            listings: self.listings@,
        }
    }
}

impl RemovalCollector {
    /// Whether the collector's state is consistent: each listed directory
    /// has its listing recorded, the queue is the start followed by the
    /// listed children, and the notes are the listed notes.
    pub closed spec fn wf(&self) -> bool {
        &&& self.next <= self.queue@.len()
        &&& self.queue@.len() > 0
        &&& self.listings@.len() == self.next
        &&& self@.queue == seq![self@.queue[0]] + listed_directories(self@.listings)
        &&& self@.notes == listed_notes(self@.listings)
        &&& forall|j: int| 1 <= j < self@.queue.len() ==> #[trigger] listed_before(self@, j)
        &&& forall|p: int| 0 <= p < self@.listings.len() ==> p < 1 + #[trigger] listed_directories(self@.listings.take(p)).len()
    }

    /// Starts the walk at the directory to remove.
    pub fn start(directory_id: String) -> (c: RemovalCollector)
        ensures
            c.wf(),
            c@.queue == seq![directory_id@],
            c@.next == 0,
            c@.notes == Seq::<Seq<char>>::empty(),
            c@.listings == Seq::<OrderedListing>::empty(),
    {
        let mut queue: Vec<String> = Vec::new();
        queue.push(directory_id);
        let c = RemovalCollector { queue, next: 0, notes: Vec::new(), listings: Ghost(Seq::empty()) };
        assert(c@.queue =~= seq![directory_id@]);
        assert(c@.notes =~= Seq::<Seq<char>>::empty());
        assert(c@.queue =~= seq![c@.queue[0]] + listed_directories(c@.listings));
        c
    }

    /// The next directory to list, or `None` when the walk is over.
    pub fn next_directory(&self) -> (d: Option<String>)
        requires
            self.wf(),
        ensures
            self@.next < self@.queue.len() ==> d is Some && d->0@ == self@.queue[self@.next],
            self@.next >= self@.queue.len() ==> d is None,
    {
        if self.next < self.queue.len() {
            Some(copy_string(&self.queue[self.next]))
        } else {
            None
        }
    }

    /// Records the listing of the directory `next_directory` names. Once
    /// every queued directory was listed, nothing changes.
    pub fn visit(&mut self, children: &Vec<String>, notes: &Vec<String>)
        requires
            old(self).wf(),
        ensures
            final(self).wf(),
            old(self)@.next >= old(self)@.queue.len() ==> final(self)@ == old(self)@,
            old(self)@.next < old(self)@.queue.len() ==> {
                &&& final(self)@.next == old(self)@.next + 1
                &&& final(self)@.queue == old(self)@.queue + chars_of_all(children@)
                &&& final(self)@.notes == old(self)@.notes + chars_of_all(notes@)
                &&& final(self)@.listings == old(self)@.listings.push((chars_of_all(children@), chars_of_all(notes@)))
            },
    {
        if self.next >= self.queue.len() {
            return;
        }
        let ghost v0 = self@;
        let n = children.len();
        for i in 0..n
            invariant
                n == children@.len(),
                self.next < self.queue@.len(),
                self.next == old(self)@.next,
                self.listings@ == old(self)@.listings,
                chars_of_all(self.notes@) == old(self)@.notes,
                chars_of_all(self.queue@) == old(self)@.queue + chars_of_all(children@.take(i as int)),
        {
            let ghost qb = self.queue@;
            self.queue.push(copy_string(&children[i]));
            assert(chars_of_all(self.queue@) =~= chars_of_all(qb).push(children@[i as int]@));
            assert(chars_of_all(children@.take(i + 1)) =~= chars_of_all(children@.take(i as int)).push(children@[i as int]@));
            assert(chars_of_all(self.queue@) =~= old(self)@.queue + chars_of_all(children@.take(i + 1)));
        }
        assert(children@.take(n as int) =~= children@);
        let m = notes.len();
        for j in 0..m
            invariant
                m == notes@.len(),
                self.next < self.queue@.len(),
                self.next == old(self)@.next,
                self.listings@ == old(self)@.listings,
                chars_of_all(self.queue@) == old(self)@.queue + chars_of_all(children@),
                chars_of_all(self.notes@) == old(self)@.notes + chars_of_all(notes@.take(j as int)),
        {
            let ghost nb = self.notes@;
            self.notes.push(copy_string(&notes[j]));
            assert(chars_of_all(self.notes@) =~= chars_of_all(nb).push(notes@[j as int]@));
            assert(chars_of_all(notes@.take(j + 1)) =~= chars_of_all(notes@.take(j as int)).push(notes@[j as int]@));
            assert(chars_of_all(self.notes@) =~= old(self)@.notes + chars_of_all(notes@.take(j + 1)));
        }
        assert(notes@.take(m as int) =~= notes@);
        let ghost listing: OrderedListing = (chars_of_all(children@), chars_of_all(notes@));
        self.listings = Ghost(self.listings@.push(listing));
        self.next = self.next + 1;
        proof {
            let ls = self.listings@;
            assert(ls.drop_last() =~= v0.listings);
            assert(listed_directories(ls) == listed_directories(v0.listings) + listing.0);
            assert(listed_notes(ls) == listed_notes(v0.listings) + listing.1);
            assert(self@.queue[0] == v0.queue[0]);
            assert(self@.queue =~= seq![self@.queue[0]] + listed_directories(ls));
            assert(self@.notes =~= listed_notes(ls));
            let v = self@;
            let p = v0.next;
            let q0 = v0.queue.len();
            assert(v.listings[p] == listing);
            assert forall|k: int| 0 <= k < v.listings.len() implies k < 1 + #[trigger] listed_directories(v.listings.take(k)).len() by {
                if k < p {
                    assert(v.listings.take(k) =~= v0.listings.take(k));
                } else {
                    assert(v.listings.take(k) =~= v0.listings);
                }
            }
            assert forall|j: int| 1 <= j < v.queue.len() implies #[trigger] listed_before(v, j) by {
                if j < q0 {
                    assert(listed_before(v0, j));
                    let k = choose|k: int| 0 <= k < j && k < v0.listings.len() && (#[trigger] v0.listings[k]).0.contains(v0.queue[j]);
                    assert(v.listings[k] == v0.listings[k]);
                    assert(v.queue[j] == v0.queue[j]);
                    assert(v.listings[k].0.contains(v.queue[j]));
                } else {
                    assert(v.queue[j] == listing.0[j - q0]);
                    assert(v.listings[p].0.contains(v.queue[j]));
                }
            }
        }
    }

    /// Whether every queued directory was listed.
    pub open spec fn done(&self) -> bool {
        self@.next >= self@.queue.len()
    }

    /// The removal plan: the directories listed, in order, and every note
    /// listed.
    pub fn finish(self) -> (p: RemovalPlan)
        requires
            self.wf(),
        ensures
            chars_of_all(p.directories@) == self@.queue.take(self@.next),
            chars_of_all(p.notes@) == self@.notes,
    {
        let ghost v = self@;
        let mut directories = self.queue;
        directories.truncate(self.next);
        let p = RemovalPlan { directories, notes: self.notes };
        assert(chars_of_all(p.directories@) =~= v.queue.take(v.next));
        p
    }
}

/// Once the walk that lists a removal is over, every directory it met was
/// listed, and the removal takes away the starting directory, every child
/// directory and every note that any listing named, and nothing else.
pub proof fn law_removal_collects_the_listed_subtree(c: RemovalCollector)
    requires
        c.wf(),
        c.done(),
    ensures
        c@.listings.len() == c@.queue.len(),
        c@.queue == seq![c@.queue[0]] + listed_directories(c@.listings),
        c@.notes == listed_notes(c@.listings),
        forall|p: int, k: int| 0 <= p < c@.listings.len() && 0 <= k < c@.listings[p].0.len()
            ==> c@.queue.contains(#[trigger] c@.listings[p].0[k]),
        forall|p: int, k: int| 0 <= p < c@.listings.len() && 0 <= k < c@.listings[p].1.len()
            ==> c@.notes.contains(#[trigger] c@.listings[p].1[k]),
{
    assert forall|p: int, k: int| 0 <= p < c@.listings.len() && 0 <= k < c@.listings[p].0.len()
        implies c@.queue.contains(#[trigger] c@.listings[p].0[k]) by {
        lemma_listed_contains(c@.listings, p, k);
        let x = c@.listings[p].0[k];
        let i = choose|i: int| 0 <= i < listed_directories(c@.listings).len() && listed_directories(c@.listings)[i] == x;
        assert(c@.queue[i + 1] == x);
    }
    assert forall|p: int, k: int| 0 <= p < c@.listings.len() && 0 <= k < c@.listings[p].1.len()
        implies c@.notes.contains(#[trigger] c@.listings[p].1[k]) by {
        lemma_listed_contains(c@.listings, p, k);
    }
}

/// A store's ordered listings read as sets of ids.
pub open spec fn set_listings(store: Map<Seq<char>, OrderedListing>) -> Map<Seq<char>, Listing> {
    store.map_values(|l: OrderedListing| (l.0.to_set(), l.1.to_set()))
}

/// Whether each listing the walk recorded is what `store` lists for the
/// directory it was recorded for.
pub open spec fn collected_from(v: CollectorView, store: Map<Seq<char>, OrderedListing>) -> bool {
    forall|p: int| 0 <= p < v.listings.len() ==> store.contains_key(#[trigger] v.queue[p])
        && store[v.queue[p]] == v.listings[p]
}

proof fn lemma_listed_notes_from(ls: Seq<OrderedListing>, x: Seq<char>)
    requires
        listed_notes(ls).contains(x),
    ensures
        exists|p: int, k: int| 0 <= p < ls.len() && 0 <= k < ls[p].1.len() && #[trigger] ls[p].1[k] == x,
    decreases ls.len(),
{
    let rest = listed_notes(ls.drop_last());
    let i = choose|i: int| 0 <= i < listed_notes(ls).len() && listed_notes(ls)[i] == x;
    if i < rest.len() {
        assert(rest[i] == x);
        lemma_listed_notes_from(ls.drop_last(), x);
        let (p, k) = choose|p: int, k: int| 0 <= p < ls.drop_last().len() && 0 <= k < ls.drop_last()[p].1.len()
            && #[trigger] ls.drop_last()[p].1[k] == x;
        assert(ls[p] == ls.drop_last()[p]);
        assert(ls[p].1[k] == x);
    } else {
        let p = ls.len() - 1;
        assert(ls[p].1[i - rest.len()] == x);
    }
}

proof fn lemma_collector_queue_reached(c: RemovalCollector, store: Map<Seq<char>, OrderedListing>, j: int)
    requires
        c.wf(),
        collected_from(c@, store),
        0 <= j < c@.queue.len(),
    ensures
        reached_within(set_listings(store), c@.queue[0], j as nat).contains(c@.queue[j]),
    decreases j,
{
    let v = c@;
    let s = set_listings(store);
    if j > 0 {
        assert(listed_before(v, j));
        let p = choose|p: int| 0 <= p < j && p < v.listings.len() && (#[trigger] v.listings[p]).0.contains(v.queue[j]);
        lemma_collector_queue_reached(c, store, p);
        lemma_reached_within_grows(s, v.queue[0], p as nat, (j - 1) as nat);
        let d = v.queue[p];
        assert(store.contains_key(d) && store[d] == v.listings[p]);
        assert(s.contains_key(d) && s[d].0 == v.listings[p].0.to_set());
        assert(reached_within(s, v.queue[0], (j - 1) as nat).contains(d));
        assert(s[d].0.contains(v.queue[j]));
    }
}

proof fn lemma_collector_reached_subset(c: RemovalCollector, store: Map<Seq<char>, OrderedListing>, n: nat)
    requires
        c.wf(),
        c.done(),
        collected_from(c@, store),
    ensures
        reached_within(set_listings(store), c@.queue[0], n).subset_of(c@.queue.to_set()),
    decreases n,
{
    let v = c@;
    let s = set_listings(store);
    law_removal_collects_the_listed_subtree(c);
    if n == 0 {
        assert(v.queue.contains(v.queue[0]));
    } else {
        lemma_collector_reached_subset(c, store, (n - 1) as nat);
        let prev = reached_within(s, v.queue[0], (n - 1) as nat);
        assert forall|x: Seq<char>| reached_within(s, v.queue[0], n).contains(x) implies v.queue.to_set().contains(x) by {
            if !prev.contains(x) {
                let d = choose|d: Seq<char>| prev.contains(d) && s.contains_key(d) && (#[trigger] s[d]).0.contains(x);
                assert(v.queue.to_set().contains(d));
                let p = choose|p: int| 0 <= p < v.queue.len() && v.queue[p] == d;
                assert(store[v.queue[p]] == v.listings[p]);
                assert(s[d].0 == v.listings[p].0.to_set());
                let k = choose|k: int| 0 <= k < v.listings[p].0.len() && v.listings[p].0[k] == x;
                assert(v.queue.contains(v.listings[p].0[k]));
            }
        }
    }
}

/// When every listing the removal walk recorded came from the same store,
/// the directories it took are exactly those reachable from the starting
/// directory through that store's listings, and its notes exactly the
/// notes the store lists in them.
pub proof fn law_removal_collects_the_store_subtree(c: RemovalCollector, store: Map<Seq<char>, OrderedListing>)
    requires
        c.wf(),
        c.done(),
        collected_from(c@, store),
    ensures
        c@.queue.to_set() == reachable(set_listings(store), c@.queue[0]),
        c@.notes.to_set() == notes_under(set_listings(store), c@.queue.to_set()),
{
    let v = c@;
    let s = set_listings(store);
    law_removal_collects_the_listed_subtree(c);
    assert forall|x: Seq<char>| v.queue.to_set().contains(x) implies #[trigger] reachable(s, v.queue[0]).contains(x) by {
        let j = choose|j: int| 0 <= j < v.queue.len() && v.queue[j] == x;
        lemma_collector_queue_reached(c, store, j);
        assert(reached_within(s, v.queue[0], j as nat).contains(x));
    }
    assert forall|x: Seq<char>| reachable(s, v.queue[0]).contains(x) implies v.queue.to_set().contains(x) by {
        let n = choose|n: nat| #[trigger] reached_within(s, v.queue[0], n).contains(x);
        lemma_collector_reached_subset(c, store, n);
    }
    assert(v.queue.to_set() =~= reachable(s, v.queue[0]));
    assert forall|x: Seq<char>| v.notes.to_set().contains(x) implies #[trigger] notes_under(s, v.queue.to_set()).contains(x) by {
        lemma_listed_notes_from(v.listings, x);
        let (p, k) = choose|p: int, k: int| 0 <= p < v.listings.len() && 0 <= k < v.listings[p].1.len()
            && #[trigger] v.listings[p].1[k] == x;
        let d = v.queue[p];
        assert(store.contains_key(d) && store[d] == v.listings[p]);
        assert(s[d].1 == v.listings[p].1.to_set());
        assert(v.listings[p].1.contains(x));
        assert(v.queue.contains(d));
        assert(v.queue.to_set().contains(d));
    }
    assert forall|x: Seq<char>| notes_under(s, v.queue.to_set()).contains(x) implies v.notes.to_set().contains(x) by {
        let d = choose|d: Seq<char>| v.queue.to_set().contains(d) && s.contains_key(d) && (#[trigger] s[d]).1.contains(x);
        let p = choose|p: int| 0 <= p < v.queue.len() && v.queue[p] == d;
        assert(store[v.queue[p]] == v.listings[p]);
        assert(s[d].1 == v.listings[p].1.to_set());
        let k = choose|k: int| 0 <= k < v.listings[p].1.len() && v.listings[p].1[k] == x;
        assert(v.notes.contains(v.listings[p].1[k]));
    }
    assert(v.notes.to_set() =~= notes_under(s, v.queue.to_set()));
}

/// Whether `store` lists its directories as a tree below `start`: no child
/// list names `start` or a directory twice, no note list names a note
/// twice, and no two directories share a child or a note.
pub open spec fn forms_tree(store: Map<Seq<char>, OrderedListing>, start: Seq<char>) -> bool {
    &&& forall|d: Seq<char>| store.contains_key(d) ==> (#[trigger] store[d]).0.no_duplicates()
        && store[d].1.no_duplicates() && !store[d].0.contains(start)
    &&& forall|d: Seq<char>, e: Seq<char>| store.contains_key(d) && store.contains_key(e) && d != e
        ==> (#[trigger] store[d]).0.disjoint(#[trigger] store[e].0) && store[d].1.disjoint(store[e].1)
}

proof fn lemma_listed_step(ls: Seq<OrderedListing>, m: int)
    requires
        0 <= m < ls.len(),
    ensures
        listed_directories(ls.take(m + 1)) == listed_directories(ls.take(m)) + ls[m].0,
        listed_notes(ls.take(m + 1)) == listed_notes(ls.take(m)) + ls[m].1,
{
    assert(ls.take(m + 1).drop_last() =~= ls.take(m));
    assert(ls.take(m + 1).last() == ls[m]);
}

proof fn lemma_listed_prefix(ls: Seq<OrderedListing>, n: int, m: int)
    requires
        0 <= n <= m <= ls.len(),
    ensures
        listed_directories(ls.take(n)).len() <= listed_directories(ls.take(m)).len(),
        listed_directories(ls.take(m)).take(listed_directories(ls.take(n)).len() as int) == listed_directories(ls.take(n)),
    decreases m - n,
{
    if n == m {
        assert(listed_directories(ls.take(m)).take(listed_directories(ls.take(n)).len() as int) =~= listed_directories(ls.take(n)));
    } else {
        lemma_listed_prefix(ls, n, m - 1);
        lemma_listed_step(ls, m - 1);
        let dn = listed_directories(ls.take(n));
        let dm1 = listed_directories(ls.take(m - 1));
        assert((dm1 + ls[m - 1].0).take(dn.len() as int) =~= dm1.take(dn.len() as int));
    }
}

proof fn lemma_listed_directories_from(ls: Seq<OrderedListing>, x: Seq<char>)
    requires
        listed_directories(ls).contains(x),
    ensures
        exists|p: int, k: int| 0 <= p < ls.len() && 0 <= k < ls[p].0.len() && #[trigger] ls[p].0[k] == x,
    decreases ls.len(),
{
    let rest = listed_directories(ls.drop_last());
    let i = choose|i: int| 0 <= i < listed_directories(ls).len() && listed_directories(ls)[i] == x;
    if i < rest.len() {
        assert(rest[i] == x);
        lemma_listed_directories_from(ls.drop_last(), x);
        let (p, k) = choose|p: int, k: int| 0 <= p < ls.drop_last().len() && 0 <= k < ls.drop_last()[p].0.len()
            && #[trigger] ls.drop_last()[p].0[k] == x;
        assert(ls[p] == ls.drop_last()[p]);
        assert(ls[p].0[k] == x);
    } else {
        let p = ls.len() - 1;
        assert(ls[p].0[i - rest.len()] == x);
    }
}

proof fn lemma_collector_prefix_distinct(c: RemovalCollector, store: Map<Seq<char>, OrderedListing>, n: int)
    requires
        c.wf(),
        collected_from(c@, store),
        forms_tree(store, c@.queue[0]),
        0 <= n <= c@.listings.len(),
    ensures
        (seq![c@.queue[0]] + listed_directories(c@.listings.take(n))).no_duplicates(),
    decreases n,
{
    let v = c@;
    let ls = v.listings;
    let start = v.queue[0];
    if n == 0 {
        assert(seq![start] + listed_directories(ls.take(0)) =~= seq![start]);
    } else {
        let m = n - 1;
        lemma_collector_prefix_distinct(c, store, m);
        lemma_listed_step(ls, m);
        let dm = listed_directories(ls.take(m));
        let q = seq![start] + dm;
        let l = ls[m].0;
        assert(ls.take(ls.len() as int) =~= ls);
        lemma_listed_prefix(ls, m, ls.len() as int);
        assert(v.queue == seq![start] + listed_directories(ls));
        assert(m < 1 + listed_directories(ls.take(m)).len());
        assert forall|i: int| 0 <= i < q.len() implies #[trigger] v.queue[i] == q[i] by {
            if i > 0 {
                assert(listed_directories(ls).take(dm.len() as int)[i - 1] == dm[i - 1]);
            }
        }
        let dir = v.queue[m];
        assert(store.contains_key(dir) && store[dir] == ls[m]);
        assert(!l.contains(start));
        assert forall|x: Seq<char>| dm.contains(x) implies !l.contains(x) by {
            lemma_listed_directories_from(ls.take(m), x);
            let (p, k) = choose|p: int, k: int| 0 <= p < ls.take(m).len() && 0 <= k < ls.take(m)[p].0.len()
                && #[trigger] ls.take(m)[p].0[k] == x;
            assert(ls.take(m)[p] == ls[p]);
            let other = v.queue[p];
            assert(store.contains_key(other) && store[other] == ls[p]);
            assert(v.queue[p] == q[p] && v.queue[m] == q[m]);
            assert(other != dir);
            assert(store[other].0.disjoint(store[dir].0));
            if l.contains(x) {
                let k2 = choose|k2: int| 0 <= k2 < l.len() && l[k2] == x;
                assert(store[other].0[k] == store[dir].0[k2]);
            }
        }
        let all = seq![start] + listed_directories(ls.take(n));
        assert(all =~= q + l);
        assert forall|i: int, j: int| 0 <= i < j < all.len() implies all[i] != all[j] by {
            if j >= q.len() {
                if i >= q.len() {
                    assert(all[i] == l[i - q.len()] && all[j] == l[j - q.len()]);
                } else {
                    assert(all[j] == l[j - q.len()]);
                    assert(l.contains(all[j]));
                    if i == 0 {
                        assert(all[i] == start);
                    } else {
                        assert(all[i] == dm[i - 1]);
                        assert(dm.contains(all[i]));
                    }
                }
            } else {
                assert(all[i] == q[i] && all[j] == q[j]);
            }
        }
    }
}

proof fn lemma_listed_notes_distinct(ls: Seq<OrderedListing>)
    requires
        forall|p: int| 0 <= p < ls.len() ==> (#[trigger] ls[p]).1.no_duplicates(),
        forall|p: int, q: int| 0 <= p < q < ls.len() ==> (#[trigger] ls[p]).1.disjoint(#[trigger] ls[q].1),
    ensures
        listed_notes(ls).no_duplicates(),
    decreases ls.len(),
{
    if ls.len() > 0 {
        let rest = ls.drop_last();
        assert forall|p: int| 0 <= p < rest.len() implies (#[trigger] rest[p]).1.no_duplicates() by {
            assert(rest[p] == ls[p]);
        }
        assert forall|p: int, q: int| 0 <= p < q < rest.len() implies (#[trigger] rest[p]).1.disjoint(#[trigger] rest[q].1) by {
            assert(rest[p] == ls[p] && rest[q] == ls[q]);
        }
        lemma_listed_notes_distinct(rest);
        let a = listed_notes(rest);
        let b = ls.last().1;
        let all = listed_notes(ls);
        assert(all == a + b);
        assert(ls.last() == ls[ls.len() - 1]);
        assert forall|i: int, j: int| 0 <= i < j < all.len() implies all[i] != all[j] by {
            if j >= a.len() {
                if i >= a.len() {
                    assert(all[i] == b[i - a.len()] && all[j] == b[j - a.len()]);
                } else {
                    assert(all[i] == a[i]);
                    assert(a.contains(a[i]));
                    lemma_listed_notes_from(rest, a[i]);
                    let (p, k) = choose|p: int, k: int| 0 <= p < rest.len() && 0 <= k < rest[p].1.len()
                        && #[trigger] rest[p].1[k] == a[i];
                    assert(rest[p] == ls[p]);
                    assert(ls[p].1.disjoint(ls[ls.len() - 1].1));
                    assert(all[j] == b[j - a.len()]);
                }
            } else {
                assert(all[i] == a[i] && all[j] == a[j]);
            }
        }
    }
}

/// When every listing the removal walk recorded came from a store that
/// lists its directories as a tree below the starting directory, the walk
/// takes each directory once and each note once.
pub proof fn law_removal_takes_each_once(c: RemovalCollector, store: Map<Seq<char>, OrderedListing>)
    requires
        c.wf(),
        c.done(),
        collected_from(c@, store),
        forms_tree(store, c@.queue[0]),
    ensures
        c@.queue.no_duplicates(),
        c@.notes.no_duplicates(),
{
    let v = c@;
    let ls = v.listings;
    lemma_collector_prefix_distinct(c, store, ls.len() as int);
    assert(ls.take(ls.len() as int) =~= ls);
    assert(v.queue == seq![v.queue[0]] + listed_directories(ls));
    assert forall|p: int| 0 <= p < ls.len() implies (#[trigger] ls[p]).1.no_duplicates() by {
        assert(store.contains_key(v.queue[p]) && store[v.queue[p]] == ls[p]);
    }
    assert forall|p: int, q: int| 0 <= p < q < ls.len() implies (#[trigger] ls[p]).1.disjoint(#[trigger] ls[q].1) by {
        assert(store.contains_key(v.queue[p]) && store[v.queue[p]] == ls[p]);
        assert(store.contains_key(v.queue[q]) && store[v.queue[q]] == ls[q]);
        assert(v.queue[p] != v.queue[q]);
    }
    lemma_listed_notes_distinct(ls);
}

} // verus!
