//! The sequence store: the sequence number each exporter has reached, kept from tick to
//! tick.

use crate::exporter::ExporterId;
use vstd::pervasive::VecAdditionalExecFns;
use vstd::prelude::*;

verus! {

/// The sequence number one exporter has reached.
#[derive(Debug, Clone, Copy)]
pub struct SequenceEntry {
    pub id: ExporterId,
    pub sequence: u32,
}

/// The mapping that a list of entries stands for: a later entry of an exporter
/// replaces an earlier one.
pub open spec fn entries_map(entries: Seq<SequenceEntry>) -> Map<ExporterId, u32>
    decreases entries.len(),
{
    if entries.len() == 0 {
        Map::empty()
    } else {
        entries_map(entries.drop_last()).insert(entries.last().id, entries.last().sequence)
    }
}

/// The last entry of an exporter decides what the mapping holds for it.
pub proof fn lemma_entries_map_last(entries: Seq<SequenceEntry>, id: ExporterId, i: int)
    requires
        0 <= i < entries.len(),
        entries[i].id == id,
        forall|j: int| i < j < entries.len() ==> entries[j].id != id,
    ensures
        entries_map(entries).dom().contains(id),
        entries_map(entries)[id] == entries[i].sequence,
    decreases entries.len(),
{
    if i < entries.len() - 1 {
        lemma_entries_map_last(entries.drop_last(), id, i);
    }
}

/// An exporter without an entry is not in the mapping.
pub proof fn lemma_entries_map_absent(entries: Seq<SequenceEntry>, id: ExporterId)
    requires
        forall|j: int| 0 <= j < entries.len() ==> entries[j].id != id,
    ensures
        !entries_map(entries).dom().contains(id),
    decreases entries.len(),
{
    if entries.len() > 0 {
        lemma_entries_map_absent(entries.drop_last(), id);
    }
}

/// Replacing the last entry of an exporter sets what the mapping holds for it.
pub proof fn lemma_entries_map_update(entries: Seq<SequenceEntry>, i: int, sequence: u32)
    requires
        0 <= i < entries.len(),
        forall|j: int| i < j < entries.len() ==> entries[j].id != entries[i].id,
    ensures
        entries_map(entries.update(i, SequenceEntry { id: entries[i].id, sequence }))
            == entries_map(entries).insert(entries[i].id, sequence),
    decreases entries.len(),
{
    let id = entries[i].id;
    let updated = entries.update(i, SequenceEntry { id, sequence });
    if i < entries.len() - 1 {
        lemma_entries_map_update(entries.drop_last(), i, sequence);
        assert(updated.drop_last() =~= entries.drop_last().update(
            i,
            SequenceEntry { id, sequence },
        ));
        assert(entries_map(updated) =~= entries_map(entries).insert(id, sequence));
    } else {
        assert(updated.drop_last() =~= entries.drop_last());
        assert(entries_map(updated) =~= entries_map(entries).insert(id, sequence));
    }
}

/// The sequence numbers that exporters have reached.
#[derive(Debug, Clone)]
pub struct SequenceStore {
    entries: Vec<SequenceEntry>,
}

impl View for SequenceStore {
    type V = Map<ExporterId, u32>;

    closed spec fn view(&self) -> Map<ExporterId, u32> {
        entries_map(self.entries@)
    }
}

impl SequenceStore {
    /// A store in which no exporter has a sequence number yet.
    pub fn new() -> (store: SequenceStore)
        ensures
            store@ == Map::<ExporterId, u32>::empty(),
    {
        SequenceStore { entries: Vec::new() }
    }

    /// The position of the last entry of an exporter.
    fn position(&self, id: ExporterId) -> (found: Option<usize>)
        ensures
            match found {
                Some(i) => {
                    &&& i < self.entries.len()
                    &&& self.entries@[i as int].id == id
                    &&& forall|j: int| i < j < self.entries.len() ==> self.entries@[j].id != id
                },
                None => forall|j: int| 0 <= j < self.entries.len() ==> self.entries@[j].id != id,
            },
    {
        let mut i: usize = self.entries.len();
        while i > 0
            invariant
                i <= self.entries.len(),
                forall|j: int| i <= j < self.entries.len() ==> self.entries@[j].id != id,
            decreases i,
        {
            i = i - 1;
            if self.entries[i].id == id {
                return Some(i);
            }
        }
        None
    }

    /// The sequence number an exporter has reached, if it has one.
    pub fn get(&self, id: ExporterId) -> (found: Option<u32>)
        ensures
            match found {
                Some(sequence) => self@.dom().contains(id) && self@[id] == sequence,
                None => !self@.dom().contains(id),
            },
    {
        match self.position(id) {
            Some(i) => {
                proof {
                    lemma_entries_map_last(self.entries@, id, i as int);
                }
                Some(self.entries[i].sequence)
            },
            None => {
                proof {
                    lemma_entries_map_absent(self.entries@, id);
                }
                None
            },
        }
    }

    /// Records the sequence number an exporter has reached.
    pub fn set(&mut self, id: ExporterId, sequence: u32)
        ensures
            final(self)@ == old(self)@.insert(id, sequence),
    {
        match self.position(id) {
            Some(i) => {
                proof {
                    lemma_entries_map_update(self.entries@, i as int, sequence);
                }
                self.entries.set(i, SequenceEntry { id, sequence });
            },
            None => {
                self.entries.push(SequenceEntry { id, sequence });
                assert(self.entries@.drop_last() =~= old(self).entries@);
            },
        }
    }
}

} // verus!
