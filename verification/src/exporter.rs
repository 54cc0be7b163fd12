//! Exporter identities: which flow entries share a sequence counter, and how the
//! entries of one exporter are built one after another.

use crate::config::schema::FlowConfig;
use crate::error::NetflowError;
use crate::generator::ipfix::{
    build_ipfix_packets_at, ipfix_buildable, ipfix_packets, ipfix_record_count,
};
use crate::generator::v5::{build_v5_packet_at, v5_buildable, v5_packet};
use crate::generator::v7::{build_v7_packet_at, v7_buildable, v7_packet};
use crate::generator::v9::{build_v9_packets_at, v9_buildable, v9_packets, v9_record_count};
use crate::wire::{buffers, lemma_buffers_add, lemma_buffers_push};
use vstd::prelude::*;

verus! {

/// The logical exporter a flow entry belongs to. Entries with the same identity share
/// one sequence counter and are built strictly one after another.
#[derive(Debug, Clone, Copy, PartialEq, Eq, Structural)]
pub enum ExporterId {
    /// A v5 exporter, named by engine type and engine id.
    V5 { engine_type: u8, engine_id: u8 },
    /// A v7 entry stands alone; it is named by its position among the flow entries.
    V7 { entry: usize },
    /// A v9 exporter, named by its source id.
    V9 { source_id: u32 },
    /// An IPFIX exporter, named by its observation domain.
    IPFix { observation_domain_id: u32 },
}

/// The identity of the flow entry at position `index`: engine type and id for v5
/// (default 0 and 0), the position for v7, the source id for v9 (default 1), the
/// observation domain for IPFIX (default 1).
pub open spec fn exporter_of(flow: FlowConfig, index: int) -> ExporterId {
    match flow {
        FlowConfig::V5(c) => ExporterId::V5 {
            engine_type: if c.header is Some && c.header->0.engine_type is Some {
                c.header->0.engine_type->0
            } else {
                0
            },
            engine_id: if c.header is Some && c.header->0.engine_id is Some {
                c.header->0.engine_id->0
            } else {
                0
            },
        },
        FlowConfig::V7(_) => ExporterId::V7 { entry: index as usize },
        FlowConfig::V9(c) => ExporterId::V9 {
            source_id: if c.header is Some && c.header->0.source_id is Some {
                c.header->0.source_id->0
            } else {
                1
            },
        },
        FlowConfig::IPFix(c) => ExporterId::IPFix {
            observation_domain_id: if c.header is Some && c.header->0.observation_domain_id
                is Some {
                c.header->0.observation_domain_id->0
            } else {
                1
            },
        },
    }
}

/// The identity of the flow entry at position `index`.
pub fn exporter_identity(flow: &FlowConfig, index: usize) -> (id: ExporterId)
    ensures
        id == exporter_of(*flow, index as int),
{
    match flow {
        FlowConfig::V5(c) => {
            let mut engine_type: u8 = 0;
            let mut engine_id: u8 = 0;
            if let Some(h) = c.header {
                if let Some(v) = h.engine_type {
                    engine_type = v;
                }
                if let Some(v) = h.engine_id {
                    engine_id = v;
                }
            }
            ExporterId::V5 { engine_type, engine_id }
        },
        FlowConfig::V7(_) => ExporterId::V7 { entry: index },
        FlowConfig::V9(c) => {
            let mut source_id: u32 = 1;
            if let Some(h) = c.header {
                if let Some(v) = h.source_id {
                    source_id = v;
                }
            }
            ExporterId::V9 { source_id }
        },
        FlowConfig::IPFix(c) => {
            let mut observation_domain_id: u32 = 1;
            if let Some(h) = c.header {
                if let Some(v) = h.observation_domain_id {
                    observation_domain_id = v;
                }
            }
            ExporterId::IPFix { observation_domain_id }
        },
    }
}

/// The sequence number an exporter starts from when this entry is the first of it that
/// is ever built: the number the entry's header configures, else 0.
pub open spec fn initial_sequence_of(flow: FlowConfig) -> u32 {
    match flow {
        FlowConfig::V5(c) => if c.header is Some && c.header->0.flow_sequence is Some {
            c.header->0.flow_sequence->0
        } else {
            0
        },
        FlowConfig::V7(c) => if c.header is Some && c.header->0.flow_sequence is Some {
            c.header->0.flow_sequence->0
        } else {
            0
        },
        FlowConfig::V9(c) => if c.header is Some && c.header->0.sequence_number is Some {
            c.header->0.sequence_number->0
        } else {
            0
        },
        FlowConfig::IPFix(c) => if c.header is Some && c.header->0.sequence_number is Some {
            c.header->0.sequence_number->0
        } else {
            0
        },
    }
}

/// The sequence number an exporter starts from when this entry is its first.
pub fn initial_sequence(flow: &FlowConfig) -> (sequence: u32)
    ensures
        sequence == initial_sequence_of(*flow),
{
    let configured = match flow {
        FlowConfig::V5(c) => match c.header {
            Some(h) => h.flow_sequence,
            None => None,
        },
        FlowConfig::V7(c) => match c.header {
            Some(h) => h.flow_sequence,
            None => None,
        },
        FlowConfig::V9(c) => match c.header {
            Some(h) => h.sequence_number,
            None => None,
        },
        FlowConfig::IPFix(c) => match c.header {
            Some(h) => h.sequence_number,
            None => None,
        },
    };
    match configured {
        Some(v) => v,
        None => 0,
    }
}

/// How far one build of an entry advances the sequence counter of its exporter: by its
/// flow records for v5, by its data records for v9 and IPFIX, and not at all for v7.
pub open spec fn entry_records(flow: FlowConfig) -> nat {
    match flow {
        FlowConfig::V5(c) => c.flowsets.len() as nat,
        FlowConfig::V7(_) => 0,
        FlowConfig::V9(c) => v9_record_count(c.flowsets@),
        FlowConfig::IPFix(c) => ipfix_record_count(c.flowsets@),
    }
}

/// Whether an entry can be built from sequence number `sequence`.
pub open spec fn entry_buildable(flow: FlowConfig, sequence: u32, include_templates: bool) -> bool {
    match flow {
        FlowConfig::V5(c) => v5_buildable(c, sequence),
        FlowConfig::V7(c) => v7_buildable(c),
        FlowConfig::V9(c) => v9_buildable(c, sequence, include_templates),
        FlowConfig::IPFix(c) => ipfix_buildable(c, sequence, include_templates),
    }
}

/// The packets that one build of an entry emits.
pub open spec fn entry_packets(
    flow: FlowConfig,
    sequence: u32,
    include_templates: bool,
    now_secs: u64,
) -> Seq<Seq<u8>> {
    match flow {
        FlowConfig::V5(c) => seq![v5_packet(c, sequence, now_secs)],
        FlowConfig::V7(c) => seq![v7_packet(c, now_secs)],
        FlowConfig::V9(c) => v9_packets(c, sequence, include_templates, now_secs),
        FlowConfig::IPFix(c) => ipfix_packets(c, sequence, include_templates, now_secs),
    }
}

/// Builds the packets of one flow entry and advances the sequence number.
pub fn build_entry(flow: &FlowConfig, sequence: u32, include_templates: bool, now_secs: u64) -> (res:
    Result<(Vec<Vec<u8>>, u32), NetflowError>)
    ensures
        res is Ok <==> entry_buildable(*flow, sequence, include_templates),
        res matches Ok((packets, next)) ==> {
            &&& buffers(packets@) == entry_packets(*flow, sequence, include_templates, now_secs)
            &&& next == sequence + entry_records(*flow)
        },
        res matches Err(e) ==> e is Generation,
{
    match flow {
        FlowConfig::V5(c) => {
            let (packet, next) = build_v5_packet_at(c, sequence, now_secs)?;
            let mut packets: Vec<Vec<u8>> = Vec::new();
            proof {
                lemma_buffers_push(packets@, packet);
            }
            packets.push(packet);
            assert(buffers(packets@) =~= seq![v5_packet(*c, sequence, now_secs)]);
            Ok((packets, next))
        },
        FlowConfig::V7(c) => {
            let packet = build_v7_packet_at(c, now_secs)?;
            let mut packets: Vec<Vec<u8>> = Vec::new();
            proof {
                lemma_buffers_push(packets@, packet);
            }
            packets.push(packet);
            assert(buffers(packets@) =~= seq![v7_packet(*c, now_secs)]);
            Ok((packets, sequence))
        },
        FlowConfig::V9(c) => build_v9_packets_at(c, sequence, include_templates, now_secs),
        FlowConfig::IPFix(c) => build_ipfix_packets_at(c, sequence, include_templates, now_secs),
    }
}

/// How far one build of the given entries, in order, advances the sequence counter.
pub open spec fn group_records(flows: Seq<FlowConfig>, entries: Seq<usize>) -> nat
    decreases entries.len(),
{
    if entries.len() == 0 {
        0
    } else {
        group_records(flows, entries.drop_last()) + entry_records(flows[entries.last() as int])
    }
}

/// Whether the given entries can be built one after another, starting from sequence
/// number `start`: each must be buildable from the number its predecessors reach.
pub open spec fn group_buildable(
    flows: Seq<FlowConfig>,
    entries: Seq<usize>,
    start: u32,
    include_templates: bool,
) -> bool
    decreases entries.len(),
{
    if entries.len() == 0 {
        true
    } else {
        let front = entries.drop_last();
        &&& group_buildable(flows, front, start, include_templates)
        &&& start + group_records(flows, front) <= u32::MAX
        &&& entry_buildable(
            flows[entries.last() as int],
            (start + group_records(flows, front)) as u32,
            include_templates,
        )
    }
}

/// The packets of the given entries, built one after another from sequence number
/// `start`: each entry starts at the number its predecessors reach.
pub open spec fn group_packets(
    flows: Seq<FlowConfig>,
    entries: Seq<usize>,
    start: u32,
    include_templates: bool,
    now_secs: u64,
) -> Seq<Seq<u8>>
    decreases entries.len(),
{
    if entries.len() == 0 {
        Seq::empty()
    } else {
        let front = entries.drop_last();
        group_packets(flows, front, start, include_templates, now_secs) + entry_packets(
            flows[entries.last() as int],
            (start + group_records(flows, front)) as u32,
            include_templates,
            now_secs,
        )
    }
}

/// Builds the entries of one exporter, in order, each from the sequence number its
/// predecessors reach.
///
/// `entries` are positions in `flows`. The second component of the result is the
/// sequence number of the exporter after this build.
pub fn build_group(
    flows: &Vec<FlowConfig>,
    entries: &Vec<usize>,
    start: u32,
    include_templates: bool,
    now_secs: u64,
) -> (res: Result<(Vec<Vec<u8>>, u32), NetflowError>)
    requires
        forall|k: int| 0 <= k < entries.len() ==> entries@[k] < flows.len(),
    ensures
        res is Ok <==> group_buildable(flows@, entries@, start, include_templates),
        res matches Ok((packets, next)) ==> {
            &&& buffers(packets@) == group_packets(
                flows@,
                entries@,
                start,
                include_templates,
                now_secs,
            )
            &&& next == start + group_records(flows@, entries@)
        },
        res matches Err(e) ==> e is Generation,
{
    let mut packets: Vec<Vec<u8>> = Vec::new();
    let mut current: u32 = start;
    let mut k: usize = 0;
    assert(buffers(packets@) =~= group_packets(
        flows@,
        entries@.take(0),
        start,
        include_templates,
        now_secs,
    ));
    while k < entries.len()
        invariant
            k <= entries.len(),
            forall|j: int| 0 <= j < entries.len() ==> entries@[j] < flows.len(),
            group_buildable(flows@, entries@.take(k as int), start, include_templates),
            current == start + group_records(flows@, entries@.take(k as int)),
            buffers(packets@) == group_packets(
                flows@,
                entries@.take(k as int),
                start,
                include_templates,
                now_secs,
            ),
        decreases entries.len() - k,
    {
        proof {
            let next = entries@.take(k + 1);
            assert(next.drop_last() =~= entries@.take(k as int));
            assert(next.last() == entries@[k as int]);
        }
        match build_entry(&flows[entries[k]], current, include_templates, now_secs) {
            Ok((mut more, next)) => {
                proof {
                    lemma_buffers_add(packets@, more@);
                }
                packets.append(&mut more);
                current = next;
            },
            Err(e) => {
                proof {
                    if group_buildable(flows@, entries@, start, include_templates) {
                        lemma_group_buildable_prefix(
                            flows@,
                            entries@,
                            start,
                            include_templates,
                            k + 1,
                        );
                    }
                }
                return Err(e);
            },
        }
        k = k + 1;
    }
    proof {
        assert(entries@.take(entries.len() as int) =~= entries@);
    }
    Ok((packets, current))
}

/// Entries that can be built one after another can be built up to any point.
pub proof fn lemma_group_buildable_prefix(
    flows: Seq<FlowConfig>,
    entries: Seq<usize>,
    start: u32,
    include_templates: bool,
    k: int,
)
    requires
        0 <= k <= entries.len(),
        group_buildable(flows, entries, start, include_templates),
    ensures
        group_buildable(flows, entries.take(k), start, include_templates),
    decreases entries.len(),
{
    if k < entries.len() {
        lemma_group_buildable_prefix(flows, entries.drop_last(), start, include_templates, k);
        assert(entries.drop_last().take(k) =~= entries.take(k));
    } else {
        assert(entries.take(k) =~= entries);
    }
}

/// The exporters of a configuration, each once, in the order in which they first occur.
pub open spec fn identities(flows: Seq<FlowConfig>) -> Seq<ExporterId>
    decreases flows.len(),
{
    if flows.len() == 0 {
        Seq::empty()
    } else {
        let front = identities(flows.drop_last());
        let id = exporter_of(flows.last(), flows.len() - 1);
        if front.contains(id) {
            front
        } else {
            front.push(id)
        }
    }
}

/// The positions of the entries of one exporter, in input order.
pub open spec fn entries_of(flows: Seq<FlowConfig>, id: ExporterId) -> Seq<usize>
    decreases flows.len(),
{
    if flows.len() == 0 {
        Seq::empty()
    } else {
        let front = entries_of(flows.drop_last(), id);
        if exporter_of(flows.last(), flows.len() - 1) == id {
            front.push((flows.len() - 1) as usize)
        } else {
            front
        }
    }
}

/// The entries of one exporter: positions in range, in strictly increasing order, of
/// entries with that identity, and every such position is among them.
pub proof fn lemma_entries_of(flows: Seq<FlowConfig>, id: ExporterId)
    requires
        flows.len() <= usize::MAX,
    ensures
        forall|k: int|
            0 <= k < entries_of(flows, id).len() ==> {
                &&& (#[trigger] entries_of(flows, id)[k]) < flows.len()
                &&& exporter_of(
                    flows[entries_of(flows, id)[k] as int],
                    entries_of(flows, id)[k] as int,
                ) == id
            },
        forall|j: int, k: int|
            0 <= j < k < entries_of(flows, id).len() ==> entries_of(flows, id)[j] < entries_of(
                flows,
                id,
            )[k],
        forall|i: int|
            0 <= i < flows.len() && exporter_of(#[trigger] flows[i], i) == id ==> entries_of(
                flows,
                id,
            ).contains(i as usize),
    decreases flows.len(),
{
    if flows.len() > 0 {
        let front = flows.drop_last();
        lemma_entries_of(front, id);
        let e = entries_of(flows, id);
        let ef = entries_of(front, id);
        let last = (flows.len() - 1) as usize;
        assert forall|i: int|
            0 <= i < flows.len() && exporter_of(#[trigger] flows[i], i) == id implies e.contains(
            i as usize,
        ) by {
            if i < flows.len() - 1 {
                assert(front[i] == flows[i]);
                let k = choose|k: int| 0 <= k < ef.len() && ef[k] == i as usize;
                assert(e[k] == i as usize);
            } else {
                assert(e[e.len() - 1] == last);
            }
        }
        assert forall|k: int| 0 <= k < e.len() implies {
            &&& (#[trigger] e[k]) < flows.len()
            &&& exporter_of(flows[e[k] as int], e[k] as int) == id
        } by {
            if k < ef.len() {
                assert(e[k] == ef[k]);
                assert(front[ef[k] as int] == flows[ef[k] as int]);
            }
        }
        assert forall|j: int, k: int| 0 <= j < k < e.len() implies e[j] < e[k] by {
            if k < ef.len() {
                assert(e[j] == ef[j] && e[k] == ef[k]);
            } else {
                assert(e[j] == ef[j]);
            }
        }
    }
}

/// The exporters of a configuration are listed without repetition, each entry's
/// exporter is among them, and each of them has an entry.
pub proof fn lemma_identities(flows: Seq<FlowConfig>)
    requires
        flows.len() <= usize::MAX,
    ensures
        identities(flows).no_duplicates(),
        forall|i: int|
            0 <= i < flows.len() ==> identities(flows).contains(exporter_of(#[trigger] flows[i], i)),
        forall|g: int|
            0 <= g < identities(flows).len() ==> entries_of(
                flows,
                #[trigger] identities(flows)[g],
            ).len() > 0,
    decreases flows.len(),
{
    if flows.len() > 0 {
        let front = flows.drop_last();
        lemma_identities(front);
        let ids = identities(flows);
        let idf = identities(front);
        let id = exporter_of(flows.last(), flows.len() - 1);
        assert forall|i: int| 0 <= i < flows.len() implies ids.contains(
            exporter_of(#[trigger] flows[i], i),
        ) by {
            if i < flows.len() - 1 {
                assert(front[i] == flows[i]);
                let w = choose|w: int| 0 <= w < idf.len() && idf[w] == exporter_of(front[i], i);
                assert(ids[w] == exporter_of(flows[i], i));
            } else if idf.contains(id) {
            } else {
                assert(ids[ids.len() - 1] == id);
            }
        }
        assert forall|g: int| 0 <= g < ids.len() implies entries_of(flows, #[trigger] ids[g]).len()
            > 0 by {
            if g < idf.len() {
                assert(ids[g] == idf[g]);
            }
        }
    }
}

/// The entries of one exporter, in input order.
#[derive(Debug, Clone)]
pub struct ExporterGroup {
    pub id: ExporterId,
    /// Positions of the exporter's entries among the flow entries.
    pub entries: Vec<usize>,
}

/// Whether `groups` sorts the flow entries by exporter: one group per exporter, in the
/// order in which the exporters first occur, each holding the positions of the
/// exporter's entries in input order.
pub open spec fn groups_of(flows: Seq<FlowConfig>, groups: Seq<ExporterGroup>) -> bool {
    &&& groups.len() == identities(flows).len()
    &&& forall|g: int|
        0 <= g < groups.len() ==> {
            &&& (#[trigger] groups[g]).id == identities(flows)[g]
            &&& groups[g].entries@ == entries_of(flows, identities(flows)[g])
        }
}

/// Whether `id` is among `ids`.
fn contains_id(ids: &Vec<ExporterId>, id: ExporterId) -> (found: bool)
    ensures
        found == ids@.contains(id),
{
    let mut i: usize = 0;
    while i < ids.len()
        invariant
            i <= ids.len(),
            forall|j: int| 0 <= j < i ==> ids@[j] != id,
        decreases ids.len() - i,
    {
        if ids[i] == id {
            return true;
        }
        i = i + 1;
    }
    false
}

/// Lists the exporters of the flow entries, each once, in order of first occurrence.
pub fn list_identities(flows: &Vec<FlowConfig>) -> (ids: Vec<ExporterId>)
    ensures
        ids@ == identities(flows@),
{
    let mut ids: Vec<ExporterId> = Vec::new();
    let mut i: usize = 0;
    assert(ids@ =~= identities(flows@.take(0)));
    while i < flows.len()
        invariant
            i <= flows.len(),
            ids@ == identities(flows@.take(i as int)),
        decreases flows.len() - i,
    {
        proof {
            let next = flows@.take(i + 1);
            assert(next.drop_last() =~= flows@.take(i as int));
            assert(next.last() == flows@[i as int]);
        }
        let id = exporter_identity(&flows[i], i);
        if !contains_id(&ids, id) {
            ids.push(id);
        }
        i = i + 1;
    }
    proof {
        assert(flows@.take(flows.len() as int) =~= flows@);
    }
    ids
}

/// Lists the positions of the entries of one exporter, in input order.
fn list_entries(flows: &Vec<FlowConfig>, id: ExporterId) -> (entries: Vec<usize>)
    ensures
        entries@ == entries_of(flows@, id),
{
    let mut entries: Vec<usize> = Vec::new();
    let mut i: usize = 0;
    assert(entries@ =~= entries_of(flows@.take(0), id));
    while i < flows.len()
        invariant
            i <= flows.len(),
            entries@ == entries_of(flows@.take(i as int), id),
        decreases flows.len() - i,
    {
        proof {
            let next = flows@.take(i + 1);
            assert(next.drop_last() =~= flows@.take(i as int));
            assert(next.last() == flows@[i as int]);
        }
        if exporter_identity(&flows[i], i) == id {
            entries.push(i);
        }
        i = i + 1;
    }
    proof {
        assert(flows@.take(flows.len() as int) =~= flows@);
    }
    entries
}

/// Sorts the flow entries by exporter, keeping input order within each exporter.
///
/// Every entry lands in exactly one group, and every position in a group is a position
/// in `flows`.
pub fn group_flows(flows: &Vec<FlowConfig>) -> (groups: Vec<ExporterGroup>)
    ensures
        groups_of(flows@, groups@),
        forall|g: int, k: int|
            0 <= g < groups.len() && 0 <= k < groups@[g].entries.len() ==> (
            #[trigger] groups@[g].entries@[k]) < flows.len(),
        forall|g: int| 0 <= g < groups.len() ==> (#[trigger] groups@[g]).entries.len() > 0,
{
    let ids = list_identities(flows);
    let mut groups: Vec<ExporterGroup> = Vec::new();
    let mut g: usize = 0;
    while g < ids.len()
        invariant
            g <= ids.len(),
            ids@ == identities(flows@),
            groups@.len() == g,
            forall|j: int|
                0 <= j < g ==> {
                    &&& (#[trigger] groups@[j]).id == ids@[j]
                    &&& groups@[j].entries@ == entries_of(flows@, ids@[j])
                },
        decreases ids.len() - g,
    {
        let entries = list_entries(flows, ids[g]);
        groups.push(ExporterGroup { id: ids[g], entries });
        g = g + 1;
    }
    let count = flows.len();
    proof {
        assert(flows@.len() == count);
        lemma_identities(flows@);
        assert forall|j: int, k: int|
            0 <= j < groups.len() && 0 <= k < groups@[j].entries.len() implies (
        #[trigger] groups@[j].entries@[k]) < flows.len() by {
            lemma_entries_of(flows@, ids@[j]);
        }
        assert forall|j: int| 0 <= j < groups.len() implies (#[trigger] groups@[j]).entries.len()
            > 0 by {
            assert(entries_of(flows@, identities(flows@)[j]).len() > 0);
        }
    }
    groups
}

} // verus!
