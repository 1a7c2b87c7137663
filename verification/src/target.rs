//! The `target` table of a manifest and the choice of the entry to read.
//!
//! A manifest may carry dependency blocks for several architectures, each
//! under the target triple it is for. One run reads the entry of the
//! architecture it runs on and nothing else of the table.

use vstd::prelude::*;
use crate::manifest::{ArchitectureSpecific, Dependencies, ManifestView, Tiers};

verus! {

/// The architectures the tool runs on.
#[derive(Debug, Clone, Copy, PartialEq, Eq, Structural)]
pub enum Architecture {
    X86_64,
    Aarch64,
}

/// One entry of a `target` table. `block` is `None` where what stands under
/// the triple does not have the shape of a pair of dependency blocks.
#[derive(Debug)]
pub struct TargetEntry {
    pub triple: String,
    pub block: Option<Dependencies>,
}

/// A `target` table, its entries in the order of the file.
#[derive(Debug)]
pub struct TargetTable {
    pub entries: Vec<TargetEntry>,
}

/// The entry under the triple of the running architecture cannot be read.
#[derive(Debug, Clone, Copy, PartialEq, Eq, Structural)]
pub struct MalformedTarget;

/// An entry as its triple and the names under it, if they can be read.
pub struct EntryView {
    pub triple: Seq<char>,
    pub names: Option<Tiers>,
}

impl View for TargetEntry {
    type V = EntryView;

    open spec fn view(&self) -> EntryView {
        EntryView {
            triple: self.triple@,
            names: match self.block {
                Some(b) => Some(b@),
                None => None,
            },
        }
    }
}

impl View for TargetTable {
    type V = Seq<EntryView>;

    open spec fn view(&self) -> Seq<EntryView> {
        Seq::new(self.entries@.len(), |i: int| self.entries@[i]@)
    }
}

/// The first of `entries` that stands under `triple`.
pub open spec fn first_entry(entries: Seq<EntryView>, triple: Seq<char>) -> Option<EntryView>
    decreases entries.len(),
{
    if entries.len() == 0 {
        None
    } else if entries[0].triple == triple {
        Some(entries[0])
    } else {
        first_entry(entries.drop_first(), triple)
    }
}

/// What a table yields for a triple: no names where no entry stands under
/// it, the names of its first entry where they can be read, an error where
/// they cannot.
pub open spec fn selected(entries: Seq<EntryView>, triple: Seq<char>) -> Result<
    Tiers,
    MalformedTarget,
> {
    match first_entry(entries, triple) {
        None => Ok(Tiers::empty()),
        Some(entry) => match entry.names {
            Some(tiers) => Ok(tiers),
            None => Err(MalformedTarget),
        },
    }
}

impl Architecture {
    /// The target triple under which manifests declare for this architecture.
    pub open spec fn triple_spec(self) -> Seq<char> {
        match self {
            Architecture::X86_64 => "x86_64-unknown-linux-gnu"@,
            Architecture::Aarch64 => "aarch64-unknown-linux-gnu"@,
        }
    }

    /// The target triple under which manifests declare for this architecture.
    pub fn triple(self) -> (t: &'static str)
        ensures
            t@ == self.triple_spec(),
    {
        match self {
            Architecture::X86_64 => "x86_64-unknown-linux-gnu",
            Architecture::Aarch64 => "aarch64-unknown-linux-gnu",
        }
    }
}

impl TargetTable {
    /// Reads the table for the architecture `arch`: the names under its
    /// triple, or the error that they cannot be read. Entries under other
    /// triples are passed over, readable or not.
    pub fn select(self, arch: Architecture) -> (r: Result<ArchitectureSpecific, MalformedTarget>)
        ensures
            match selected(self@, arch.triple_spec()) {
                Ok(tiers) => r matches Ok(read) && read@ == tiers,
                Err(e) => r == Err::<ArchitectureSpecific, MalformedTarget>(e),
            },
    {
        let wanted: String = arch.triple().to_owned();
        let ghost all = self@;
        proof {
            assert(all.skip(0) =~= all);
        }
        for entry in it: self.entries
            invariant
                it.seq() == self.entries@,
                all == self@,
                wanted@ == arch.triple_spec(),
                first_entry(all, wanted@) == first_entry(all.skip(it.index() as int), wanted@),
        {
            proof {
                let rest = all.skip(it.index() as int);
                assert(rest[0] == entry@);
                assert(rest.drop_first() =~= all.skip(it.index() + 1));
            }
            if entry.triple == wanted {
                return match entry.block {
                    Some(block) => Ok(ArchitectureSpecific { arch: Some(block) }),
                    None => Err(MalformedTarget),
                };
            }
        }
        Ok(ArchitectureSpecific { arch: None })
    }
}

/// The two triples are different names.
pub proof fn lemma_triples_differ()
    ensures
        Architecture::X86_64.triple_spec() != Architecture::Aarch64.triple_spec(),
{
    reveal_strlit("x86_64-unknown-linux-gnu");
    reveal_strlit("aarch64-unknown-linux-gnu");
    assert("x86_64-unknown-linux-gnu"@[0] == 'x');
    assert("aarch64-unknown-linux-gnu"@[0] == 'a');
}

/// An entry under another triple changes nothing: wherever it is put into
/// a table, and whatever it holds, the table yields for `triple` what it
/// yielded without it.
pub proof fn lemma_foreign_entry_ignored(
    entries: Seq<EntryView>,
    at: int,
    foreign: EntryView,
    triple: Seq<char>,
)
    requires
        0 <= at <= entries.len(),
        foreign.triple != triple,
    ensures
        selected(entries.insert(at, foreign), triple) == selected(entries, triple),
    decreases at,
{
    let with = entries.insert(at, foreign);
    if at == 0 {
        assert(with.drop_first() =~= entries);
    } else {
        assert(with[0] == entries[0]);
        assert(with.drop_first() =~= entries.drop_first().insert(at - 1, foreign));
        lemma_foreign_entry_ignored(entries.drop_first(), at - 1, foreign, triple);
    }
}

/// A table whose entries all stand under other triples yields no names,
/// in either tier and of either kind.
pub proof fn lemma_foreign_table_yields_nothing(entries: Seq<EntryView>, triple: Seq<char>)
    requires
        forall|i: int| 0 <= i < entries.len() ==> (#[trigger] entries[i]).triple != triple,
    ensures
        selected(entries, triple) == Ok::<Tiers, MalformedTarget>(Tiers::empty()),
    decreases entries.len(),
{
    if entries.len() > 0 {
        assert(entries[0].triple != triple);
        assert forall|i: int| 0 <= i < entries.drop_first().len() implies (
        #[trigger] entries.drop_first()[i]).triple != triple by {
            assert(entries[i + 1].triple != triple);
        }
        lemma_foreign_table_yields_nothing(entries.drop_first(), triple);
    }
}

/// A manifest whose `target` table holds entries for other architectures
/// only declares what its top level declares, and no more.
pub proof fn lemma_foreign_target_declares_nothing(
    manifest: ManifestView,
    entries: Seq<EntryView>,
    triple: Seq<char>,
    large_dep: bool,
)
    requires
        forall|i: int| 0 <= i < entries.len() ==> (#[trigger] entries[i]).triple != triple,
        selected(entries, triple) == Ok::<Tiers, MalformedTarget>(manifest.arch),
    ensures
        manifest.declared(large_dep) == manifest.top.tier(large_dep),
{
    lemma_foreign_table_yields_nothing(entries, triple);
    let d = manifest.declared(large_dep);
    let t = manifest.top.tier(large_dep);
    assert(d.system =~= t.system);
    assert(d.language =~= t.language);
}

/// What is declared for one architecture is not read on the other.
pub proof fn lemma_other_architecture_not_read(names: Option<Tiers>)
    ensures
        selected(
            seq![EntryView { triple: Architecture::Aarch64.triple_spec(), names }],
            Architecture::X86_64.triple_spec(),
        ) == Ok::<Tiers, MalformedTarget>(Tiers::empty()),
        selected(
            seq![EntryView { triple: Architecture::X86_64.triple_spec(), names }],
            Architecture::Aarch64.triple_spec(),
        ) == Ok::<Tiers, MalformedTarget>(Tiers::empty()),
{
    lemma_triples_differ();
    lemma_foreign_table_yields_nothing(
        seq![EntryView { triple: Architecture::Aarch64.triple_spec(), names }],
        Architecture::X86_64.triple_spec(),
    );
    lemma_foreign_table_yields_nothing(
        seq![EntryView { triple: Architecture::X86_64.triple_spec(), names }],
        Architecture::Aarch64.triple_spec(),
    );
}

} // verus!
