//! Merging what many manifests declare into two sorted lists.

use vstd::prelude::*;
use crate::manifest::{get_manifest_dependencies, ManifestView, MetaDepend, NameLists};
use crate::names::{
    ascending, is_sorted_set_of, lemma_sorted_set_unique,
    lemma_strictly_ascending_is_ascending, lemma_strictly_ascending_no_duplicates, names,
    sorted_set, strictly_ascending,
};

verus! {

/// The names gathered while manifests are scanned, in the order they came.
#[derive(Debug)]
pub struct Aggregator {
    pub apt_depends: Vec<String>,
    pub pip_depends: Vec<String>,
}

/// The merged result: system packages and language packages.
#[derive(Debug)]
pub struct AggregatedDependencies {
    pub apt: Vec<String>,
    pub pip: Vec<String>,
}

/// What the scan of one located entry came to.
#[derive(Debug)]
pub enum ScanEvent {
    /// The entry could not be resolved to a path.
    Unresolved,
    /// The manifest at the path could not be read.
    Unreadable,
    /// The manifest was read and does not have the shape of a manifest.
    Malformed,
    /// The manifest was read; `directory` is the name of the directory it lies in.
    Loaded { manifest: MetaDepend, directory: String },
}

/// What to do after an event.
#[derive(Debug)]
pub enum ScanAction {
    /// Go on with the next entry; nothing was gathered from this one.
    Skip,
    /// End the run as failed.
    Abort,
    /// The manifest was gathered under `name`; go on with the next entry.
    Report { name: String },
}

impl View for Aggregator {
    type V = NameLists;

    open spec fn view(&self) -> NameLists {
        NameLists { system: names(self.apt_depends@), language: names(self.pip_depends@) }
    }
}

impl View for AggregatedDependencies {
    type V = NameLists;

    open spec fn view(&self) -> NameLists {
        NameLists { system: names(self.apt@), language: names(self.pip@) }
    }
}

impl AggregatedDependencies {
    /// Each list is strictly ascending: sorted, and no name twice.
    pub open spec fn wf(self) -> bool {
        &&& strictly_ascending(self@.system)
        &&& strictly_ascending(self@.language)
    }
}

/// The manifests as the names they hold.
pub open spec fn manifest_views(manifests: Seq<MetaDepend>) -> Seq<ManifestView> {
    Seq::new(manifests.len(), |i: int| manifests[i]@)
}

/// The lists of `parts` one after the other.
pub open spec fn concat(parts: Seq<Seq<Seq<char>>>) -> Seq<Seq<char>>
    decreases parts.len(),
{
    if parts.len() == 0 {
        Seq::empty()
    } else {
        concat(parts.drop_last()) + parts.last()
    }
}

/// All that a sequence of manifests declares for a tier, manifest after manifest.
pub open spec fn all_declared(manifests: Seq<ManifestView>, large_dep: bool) -> NameLists {
    NameLists {
        system: concat(Seq::new(manifests.len(), |i: int| manifests[i].declared(large_dep).system)),
        language: concat(
            Seq::new(manifests.len(), |i: int| manifests[i].declared(large_dep).language),
        ),
    }
}

/// `merged` is the merge of `declared`: each of its lists strictly ascending
/// and holding exactly the names declared for its kind.
pub open spec fn merges(merged: NameLists, declared: NameLists) -> bool {
    &&& is_sorted_set_of(merged.system, declared.system)
    &&& is_sorted_set_of(merged.language, declared.language)
}

impl Aggregator {
    /// An aggregator that has gathered nothing.
    pub fn new() -> (fresh: Self)
        ensures
            fresh@ == NameLists::empty(),
    {
        let fresh = Aggregator { apt_depends: Vec::new(), pip_depends: Vec::new() };
        proof {
            assert(fresh@.system =~= Seq::empty());
            assert(fresh@.language =~= Seq::empty());
        }
        fresh
    }

    /// Gathers what `manifest` declares for the selected tier.
    pub fn add(&mut self, manifest: MetaDepend, large_dep: bool)
        ensures
            final(self)@ == old(self)@.followed_by(manifest@.declared(large_dep)),
    {
        let ghost apt0 = self.apt_depends@;
        let ghost pip0 = self.pip_depends@;
        let (mut apt_list, mut pip_list) = get_manifest_dependencies(manifest, large_dep);
        let ghost apt1 = apt_list@;
        let ghost pip1 = pip_list@;
        self.apt_depends.append(&mut apt_list);
        self.pip_depends.append(&mut pip_list);
        proof {
            assert(names(self.apt_depends@) =~= names(apt0) + names(apt1));
            assert(names(self.pip_depends@) =~= names(pip0) + names(pip1));
        }
    }

    /// Takes in the outcome of scanning one entry. An entry that could not
    /// be resolved is passed over; a manifest that could not be read, or
    /// read as a manifest, ends the run; a manifest that was read is
    /// gathered and reported under its name.
    pub fn step(&mut self, event: ScanEvent, large_dep: bool) -> (action: ScanAction)
        ensures
            match event {
                ScanEvent::Unresolved => action is Skip && *final(self) == *old(self),
                ScanEvent::Unreadable => action is Abort && *final(self) == *old(self),
                ScanEvent::Malformed => action is Abort && *final(self) == *old(self),
                ScanEvent::Loaded { manifest, directory } => {
                    &&& action matches ScanAction::Report { name }
                    &&& name@ == manifest@.name_in(directory@)
                    &&& final(self)@ == old(self)@.followed_by(manifest@.declared(large_dep))
                },
            },
    {
        match event {
            ScanEvent::Unresolved => ScanAction::Skip,
            ScanEvent::Unreadable => ScanAction::Abort,
            ScanEvent::Malformed => ScanAction::Abort,
            ScanEvent::Loaded { manifest, directory } => {
                let name = manifest.resolved_name(directory.as_str());
                self.add(manifest, large_dep);
                ScanAction::Report { name }
            },
        }
    }

    /// Sorts each list and drops the repetitions.
    pub fn finish(self) -> (merged: AggregatedDependencies)
        ensures
            merged.wf(),
            merges(merged@, self@),
    {
        AggregatedDependencies {
            apt: sorted_set(self.apt_depends),
            pip: sorted_set(self.pip_depends),
        }
    }
}

/// Merges what `manifests` declare for the selected tier.
pub fn aggregate(manifests: Vec<MetaDepend>, large_dep: bool) -> (merged: AggregatedDependencies)
    ensures
        merged.wf(),
        merges(merged@, all_declared(manifest_views(manifests@), large_dep)),
{
    let mut gathered = Aggregator::new();
    let ghost all = manifest_views(manifests@);
    for manifest in it: manifests
        invariant
            it.seq() == manifests@,
            all == manifest_views(manifests@),
            gathered@ == all_declared(all.take(it.index() as int), large_dep),
    {
        proof {
            let i = it.index() as int;
            let now = all.take(i + 1);
            let before = all.take(i);
            assert(now.last() == manifest@);
            assert(Seq::new(now.len(), |k: int| now[k].declared(large_dep).system).drop_last()
                =~= Seq::new(before.len(), |k: int| before[k].declared(large_dep).system));
            assert(Seq::new(now.len(), |k: int| now[k].declared(large_dep).language).drop_last()
                =~= Seq::new(before.len(), |k: int| before[k].declared(large_dep).language));
        }
        gathered.add(manifest, large_dep);
    }
    proof {
        assert(all.take(all.len() as int) =~= all);
    }
    gathered.finish()
}

/// A name is among the concatenated names exactly if one of the parts holds it.
pub proof fn lemma_concat_contains(parts: Seq<Seq<Seq<char>>>, x: Seq<char>)
    ensures
        concat(parts).contains(x) <==> exists|i: int|
            0 <= i < parts.len() && (#[trigger] parts[i]).contains(x),
    decreases parts.len(),
{
    if parts.len() > 0 {
        let init = parts.drop_last();
        let front = concat(init);
        let all = concat(parts);
        lemma_concat_contains(init, x);
        if all.contains(x) {
            let k = choose|k: int| 0 <= k < all.len() && all[k] == x;
            if k < front.len() {
                assert(front[k] == x);
                assert(front.contains(x));
                let i = choose|i: int| 0 <= i < init.len() && (#[trigger] init[i]).contains(x);
                assert(parts[i].contains(x));
            } else {
                assert(parts.last()[k - front.len()] == x);
                assert(parts[parts.len() - 1].contains(x));
            }
        }
        if exists|i: int| 0 <= i < parts.len() && (#[trigger] parts[i]).contains(x) {
            let i = choose|i: int| 0 <= i < parts.len() && (#[trigger] parts[i]).contains(x);
            if i < init.len() {
                assert(init[i].contains(x));
                assert(front.contains(x));
                let k = choose|k: int| 0 <= k < front.len() && front[k] == x;
                assert(all[k] == x);
            } else {
                let k = choose|k: int| 0 <= k < parts[i].len() && parts[i][k] == x;
                assert(all[front.len() + k] == x);
            }
        }
    }
}

/// An empty list among the parts adds nothing to their concatenation.
pub proof fn lemma_concat_skips_empty(parts: Seq<Seq<Seq<char>>>, at: int)
    requires
        0 <= at <= parts.len(),
    ensures
        concat(parts.insert(at, Seq::empty())) == concat(parts),
    decreases parts.len(),
{
    let with = parts.insert(at, Seq::empty());
    if at == parts.len() {
        assert(with.drop_last() =~= parts);
        assert(concat(with) =~= concat(parts));
    } else {
        assert(with.drop_last() =~= parts.drop_last().insert(at, Seq::empty()));
        assert(with.last() == parts.last());
        lemma_concat_skips_empty(parts.drop_last(), at);
    }
}

/// A manifest that declares nothing for the selected tier adds nothing to
/// what the manifests declare together, wherever it stands among them.
pub proof fn lemma_silent_manifest_adds_nothing(
    manifests: Seq<ManifestView>,
    at: int,
    silent: ManifestView,
    large_dep: bool,
)
    requires
        0 <= at <= manifests.len(),
        silent.declared(large_dep) == NameLists::empty(),
    ensures
        all_declared(manifests.insert(at, silent), large_dep) == all_declared(
            manifests,
            large_dep,
        ),
{
    let with = manifests.insert(at, silent);
    let system = Seq::new(manifests.len(), |i: int| manifests[i].declared(large_dep).system);
    let language = Seq::new(manifests.len(), |i: int| manifests[i].declared(large_dep).language);
    assert(Seq::new(with.len(), |i: int| with[i].declared(large_dep).system) =~= system.insert(
        at,
        Seq::empty(),
    ));
    assert(Seq::new(with.len(), |i: int| with[i].declared(large_dep).language)
        =~= language.insert(at, Seq::empty()));
    lemma_concat_skips_empty(system, at);
    lemma_concat_skips_empty(language, at);
}

/// A merged list holds each name it was given once, however often the name
/// was given.
pub proof fn lemma_merged_name_once(merged: Seq<Seq<char>>, declared: Seq<Seq<char>>, x: Seq<char>)
    requires
        is_sorted_set_of(merged, declared),
        declared.contains(x),
    ensures
        merged.to_multiset().count(x) == 1,
{
    lemma_strictly_ascending_no_duplicates(merged);
    merged.lemma_multiset_has_no_duplicates();
    vstd::seq_lib::to_multiset_contains(merged, x);
    assert(merged.contains(x));
}

/// Where no name was given twice, the merged list is the given names put in
/// ascending order: nothing added, nothing dropped.
pub proof fn lemma_distinct_names_sorted(merged: Seq<Seq<char>>, declared: Seq<Seq<char>>)
    requires
        is_sorted_set_of(merged, declared),
        declared.no_duplicates(),
    ensures
        ascending(merged),
        merged.to_multiset() == declared.to_multiset(),
        merged.len() == declared.len(),
{
    lemma_strictly_ascending_is_ascending(merged);
    lemma_strictly_ascending_no_duplicates(merged);
    merged.lemma_multiset_has_no_duplicates();
    declared.lemma_multiset_has_no_duplicates();
    assert forall|x: Seq<char>| merged.to_multiset().count(x) == declared.to_multiset().count(
        x,
    ) by {
        vstd::seq_lib::to_multiset_contains(merged, x);
        vstd::seq_lib::to_multiset_contains(declared, x);
        assert(merged.contains(x) <==> declared.contains(x));
    }
    assert(merged.to_multiset() =~= declared.to_multiset());
    vstd::seq_lib::to_multiset_len(merged);
    vstd::seq_lib::to_multiset_len(declared);
}

/// The merge of manifests whose names are all different is the sorted union
/// of what each declares, for system packages and for language packages.
pub proof fn lemma_disjoint_manifests_sorted_union(
    merged: NameLists,
    manifests: Seq<ManifestView>,
    large_dep: bool,
)
    requires
        merges(merged, all_declared(manifests, large_dep)),
        all_declared(manifests, large_dep).system.no_duplicates(),
        all_declared(manifests, large_dep).language.no_duplicates(),
    ensures
        ascending(merged.system),
        merged.system.to_multiset() == all_declared(manifests, large_dep).system.to_multiset(),
        ascending(merged.language),
        merged.language.to_multiset() == all_declared(manifests, large_dep).language.to_multiset(),
{
    lemma_distinct_names_sorted(merged.system, all_declared(manifests, large_dep).system);
    lemma_distinct_names_sorted(merged.language, all_declared(manifests, large_dep).language);
}

/// A system package that two manifests declare stands once in the merge.
pub proof fn lemma_shared_system_name_once(
    merged: NameLists,
    manifests: Seq<ManifestView>,
    large_dep: bool,
    i: int,
    j: int,
    x: Seq<char>,
)
    requires
        merges(merged, all_declared(manifests, large_dep)),
        0 <= i < j < manifests.len(),
        manifests[i].declared(large_dep).system.contains(x),
        manifests[j].declared(large_dep).system.contains(x),
    ensures
        merged.system.to_multiset().count(x) == 1,
{
    let parts = Seq::new(manifests.len(), |k: int| manifests[k].declared(large_dep).system);
    assert(parts[i].contains(x));
    lemma_concat_contains(parts, x);
    lemma_merged_name_once(merged.system, all_declared(manifests, large_dep).system, x);
}

/// A language package that two manifests declare stands once in the merge.
pub proof fn lemma_shared_language_name_once(
    merged: NameLists,
    manifests: Seq<ManifestView>,
    large_dep: bool,
    i: int,
    j: int,
    x: Seq<char>,
)
    requires
        merges(merged, all_declared(manifests, large_dep)),
        0 <= i < j < manifests.len(),
        manifests[i].declared(large_dep).language.contains(x),
        manifests[j].declared(large_dep).language.contains(x),
    ensures
        merged.language.to_multiset().count(x) == 1,
{
    let parts = Seq::new(manifests.len(), |k: int| manifests[k].declared(large_dep).language);
    assert(parts[i].contains(x));
    lemma_concat_contains(parts, x);
    lemma_merged_name_once(merged.language, all_declared(manifests, large_dep).language, x);
}

/// Two merges of the same names are the same: a second run over unchanged
/// manifests yields the lists of the first.
pub proof fn lemma_merge_determined(first: NameLists, second: NameLists, declared: NameLists)
    requires
        merges(first, declared),
        merges(second, declared),
    ensures
        first == second,
{
    lemma_sorted_set_unique(first.system, second.system);
    lemma_sorted_set_unique(first.language, second.language);
}

/// Merging the lists of a merge once more changes nothing.
pub proof fn lemma_merge_idempotent(first: NameLists, second: NameLists, declared: NameLists)
    requires
        merges(first, declared),
        merges(second, first),
    ensures
        second == first,
{
    lemma_sorted_set_unique(first.system, second.system);
    lemma_sorted_set_unique(first.language, second.language);
}

} // verus!
