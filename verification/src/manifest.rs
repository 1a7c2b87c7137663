//! Manifests and the names they declare.
//!
//! A manifest holds up to two dependency blocks at its top level, one per
//! tier, and the same pair once more for the architecture the tool runs on.
//! A block, a list or a table that is missing counts as empty: the views of
//! the types below do not tell the two apart.

use vstd::prelude::*;
use crate::names::names;

verus! {

/// One dependency block: the system packages and the language packages of a tier.
#[derive(Debug)]
pub struct Depend {
    pub apt: Option<Vec<String>>,
    pub pip: Option<Vec<String>>,
}

/// The two tiers of dependency blocks.
#[derive(Debug)]
pub struct Dependencies {
    pub dependencies: Option<Depend>,
    pub large_dependencies: Option<Depend>,
}

/// What a manifest's `target` table holds for the running architecture.
#[derive(Debug)]
pub struct ArchitectureSpecific {
    pub arch: Option<Dependencies>,
}

/// One manifest.
#[derive(Debug)]
pub struct MetaDepend {
    pub name: Option<String>,
    pub dependencies: Option<Depend>,
    pub large_dependencies: Option<Depend>,
    pub target: Option<ArchitectureSpecific>,
}

/// A list of system packages and a list of language packages.
pub struct NameLists {
    pub system: Seq<Seq<char>>,
    pub language: Seq<Seq<char>>,
}

/// The names of the base tier and of the large tier.
pub struct Tiers {
    pub base: NameLists,
    pub large: NameLists,
}

/// A manifest as the names it holds: at the top level and for the running
/// architecture.
pub struct ManifestView {
    pub name: Option<Seq<char>>,
    pub top: Tiers,
    pub arch: Tiers,
}

impl NameLists {
    /// No names of either kind.
    pub open spec fn empty() -> NameLists {
        NameLists { system: Seq::empty(), language: Seq::empty() }
    }

    /// The names of `self` followed by those of `more`, kind by kind.
    pub open spec fn followed_by(self, more: NameLists) -> NameLists {
        NameLists { system: self.system + more.system, language: self.language + more.language }
    }
}

impl Tiers {
    /// No names in either tier.
    pub open spec fn empty() -> Tiers {
        Tiers { base: NameLists::empty(), large: NameLists::empty() }
    }

    /// The names of the tier that the flag selects; the other tier is not looked at.
    pub open spec fn tier(self, large_dep: bool) -> NameLists {
        if large_dep {
            self.large
        } else {
            self.base
        }
    }
}

impl ManifestView {
    /// What the manifest declares for a tier: the names of the top level,
    /// then those of the running architecture.
    pub open spec fn declared(self, large_dep: bool) -> NameLists {
        self.top.tier(large_dep).followed_by(self.arch.tier(large_dep))
    }

    /// The name the manifest goes by: its own, else that of the directory it lies in.
    pub open spec fn name_in(self, directory: Seq<char>) -> Seq<char> {
        match self.name {
            Some(n) => n,
            None => directory,
        }
    }
}

/// The names of a list that may be missing.
pub open spec fn listed(list: Option<Vec<String>>) -> Seq<Seq<char>> {
    match list {
        Some(v) => names(v@),
        None => Seq::empty(),
    }
}

/// The names of a block that may be missing.
pub open spec fn block_names(block: Option<Depend>) -> NameLists {
    match block {
        Some(d) => d@,
        None => NameLists::empty(),
    }
}

/// The names of a pair of blocks that may be missing.
pub open spec fn pair_names(blocks: Option<Dependencies>) -> Tiers {
    match blocks {
        Some(d) => d@,
        None => Tiers::empty(),
    }
}

/// The names for the running architecture in a table that may be missing.
pub open spec fn table_names(table: Option<ArchitectureSpecific>) -> Tiers {
    match table {
        Some(t) => t@,
        None => Tiers::empty(),
    }
}

impl View for Depend {
    type V = NameLists;

    open spec fn view(&self) -> NameLists {
        NameLists { system: listed(self.apt), language: listed(self.pip) }
    }
}

impl View for Dependencies {
    type V = Tiers;

    open spec fn view(&self) -> Tiers {
        Tiers {
            base: block_names(self.dependencies),
            large: block_names(self.large_dependencies),
        }
    }
}

impl View for ArchitectureSpecific {
    type V = Tiers;

    open spec fn view(&self) -> Tiers {
        pair_names(self.arch)
    }
}

impl View for MetaDepend {
    type V = ManifestView;

    open spec fn view(&self) -> ManifestView {
        ManifestView {
            name: match self.name {
                Some(n) => Some(n@),
                None => None,
            },
            top: Tiers {
                base: block_names(self.dependencies),
                large: block_names(self.large_dependencies),
            },
            arch: table_names(self.target),
        }
    }
}

impl MetaDepend {
    /// The name to report for this manifest, found in `directory`.
    pub fn resolved_name(&self, directory: &str) -> (name: String)
        ensures
            name@ == self@.name_in(directory@),
    {
        match &self.name {
            Some(n) => n.clone(),
            None => directory.to_owned(),
        }
    }
}

/// The system and language packages of a block, in declared order.
pub fn get_dependencies(dependencies: Option<Depend>) -> (lists: (Vec<String>, Vec<String>))
    ensures
        names(lists.0@) == block_names(dependencies).system,
        names(lists.1@) == block_names(dependencies).language,
{
    match dependencies {
        Some(dep) => {
            let apts: Vec<String> = match dep.apt {
                Some(apt) => apt,
                None => Vec::new(),
            };
            let pips: Vec<String> = match dep.pip {
                Some(pip) => pip,
                None => Vec::new(),
            };
            (apts, pips)
        },
        None => (Vec::new(), Vec::new()),
    }
}

/// The system and language packages declared for the running architecture
/// in the selected tier.
pub fn get_arch_dependencies(dependencies: Option<ArchitectureSpecific>, large_dep: bool) -> (lists:
    (Vec<String>, Vec<String>))
    ensures
        names(lists.0@) == table_names(dependencies).tier(large_dep).system,
        names(lists.1@) == table_names(dependencies).tier(large_dep).language,
{
    match dependencies {
        Some(ArchitectureSpecific { arch: Some(dep_arch) }) => {
            if large_dep {
                get_dependencies(dep_arch.large_dependencies)
            } else {
                get_dependencies(dep_arch.dependencies)
            }
        },
        _ => (Vec::new(), Vec::new()),
    }
}

/// All that a manifest declares for a tier: top level first, then the
/// running architecture.
pub fn get_manifest_dependencies(manifest: MetaDepend, large_dep: bool) -> (lists: (
    Vec<String>,
    Vec<String>,
))
    ensures
        names(lists.0@) == manifest@.declared(large_dep).system,
        names(lists.1@) == manifest@.declared(large_dep).language,
{
    let (mut apts, mut pips) = if large_dep {
        get_dependencies(manifest.large_dependencies)
    } else {
        get_dependencies(manifest.dependencies)
    };
    let (mut arch_apts, mut arch_pips) = get_arch_dependencies(manifest.target, large_dep);
    let ghost apt0 = apts@;
    let ghost pip0 = pips@;
    let ghost apt1 = arch_apts@;
    let ghost pip1 = arch_pips@;
    apts.append(&mut arch_apts);
    pips.append(&mut arch_pips);
    proof {
        assert(names(apts@) =~= names(apt0) + names(apt1));
        assert(names(pips@) =~= names(pip0) + names(pip1));
    }
    (apts, pips)
}

/// Only the selected tier counts: two manifests that hold the same names in
/// the selected tier, at the top level and for the running architecture,
/// declare the same, whatever their other tier holds.
pub proof fn lemma_tier_exclusive(a: ManifestView, b: ManifestView, large_dep: bool)
    requires
        a.top.tier(large_dep) == b.top.tier(large_dep),
        a.arch.tier(large_dep) == b.arch.tier(large_dep),
    ensures
        a.declared(large_dep) == b.declared(large_dep),
{
}

/// A manifest with nothing in the selected tier declares nothing, whatever
/// its other tier holds.
pub proof fn lemma_empty_tier_declares_nothing(manifest: ManifestView, large_dep: bool)
    requires
        manifest.top.tier(large_dep) == NameLists::empty(),
        manifest.arch.tier(large_dep) == NameLists::empty(),
    ensures
        manifest.declared(large_dep) == NameLists::empty(),
{
    let d = manifest.declared(large_dep);
    assert(d.system =~= Seq::<Seq<char>>::empty());
    assert(d.language =~= Seq::<Seq<char>>::empty());
}

} // verus!
