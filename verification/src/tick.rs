//! One tick of the exporter: every exporter's entries are built from the sequence
//! number the exporter has reached, and the store is brought up to date when all of
//! them have succeeded.

use crate::clock::unix_time_secs;
use crate::config::schema::{Config, FlowConfig};
use crate::error::NetflowError;
use crate::exporter::{
    build_group, entries_of, group_buildable, group_flows, group_packets, group_records,
    groups_of, identities, initial_sequence, initial_sequence_of, lemma_identities, ExporterGroup,
    ExporterId,
};
use crate::sequence::{SequenceEntry, SequenceStore};
use crate::wire::{buffers, lemma_buffers_push, push_bytes};
use vstd::prelude::*;

verus! {

/// The sequence number from which an exporter is built: the number the store holds for
/// it, or, for an exporter the store does not know and for every v7 entry, the number
/// that the exporter's first entry configures.
pub open spec fn start_of(store: Map<ExporterId, u32>, first: FlowConfig, id: ExporterId) -> u32 {
    if !(id is V7) && store.dom().contains(id) {
        store[id]
    } else {
        initial_sequence_of(first)
    }
}

/// The sequence number from which a group is built.
pub fn start_sequence(store: &SequenceStore, flows: &Vec<FlowConfig>, group: &ExporterGroup) -> (start:
    u32)
    requires
        group.entries.len() > 0,
        group.entries@[0] < flows.len(),
    ensures
        start == start_of(store@, flows@[group.entries@[0] as int], group.id),
{
    let tracked_id = match group.id {
        ExporterId::V7 { .. } => false,
        _ => true,
    };
    if tracked_id {
        if let Some(sequence) = store.get(group.id) {
            return sequence;
        }
    }
    initial_sequence(&flows[group.entries[0]])
}

/// The sequence number from which the exporter `id` is built in a tick.
pub open spec fn tick_start(store: Map<ExporterId, u32>, flows: Seq<FlowConfig>, id: ExporterId)
    -> u32 {
    start_of(store, flows[entries_of(flows, id)[0] as int], id)
}

/// A tick can be built when every exporter's entries can be built one after another
/// from the exporter's starting number.
pub open spec fn tick_buildable(
    flows: Seq<FlowConfig>,
    store: Map<ExporterId, u32>,
    include_templates: bool,
) -> bool {
    forall|g: int|
        0 <= g < identities(flows).len() ==> group_buildable(
            flows,
            entries_of(flows, #[trigger] identities(flows)[g]),
            tick_start(store, flows, identities(flows)[g]),
            include_templates,
        )
}

/// The packets of the given exporters, exporter by exporter.
pub open spec fn exporters_packets(
    flows: Seq<FlowConfig>,
    store: Map<ExporterId, u32>,
    ids: Seq<ExporterId>,
    include_templates: bool,
    now_secs: u64,
) -> Seq<Seq<u8>>
    decreases ids.len(),
{
    if ids.len() == 0 {
        Seq::empty()
    } else {
        exporters_packets(flows, store, ids.drop_last(), include_templates, now_secs)
            + group_packets(
            flows,
            entries_of(flows, ids.last()),
            tick_start(store, flows, ids.last()),
            include_templates,
            now_secs,
        )
    }
}

/// The packets of a tick: those of each exporter, in the order in which the exporters
/// first occur in the configuration.
pub open spec fn tick_packets(
    flows: Seq<FlowConfig>,
    store: Map<ExporterId, u32>,
    include_templates: bool,
    now_secs: u64,
) -> Seq<Seq<u8>> {
    exporters_packets(flows, store, identities(flows), include_templates, now_secs)
}

/// The sequence number an exporter reaches by a tick.
pub open spec fn tick_reach(store: Map<ExporterId, u32>, flows: Seq<FlowConfig>, id: ExporterId)
    -> u32 {
    (tick_start(store, flows, id) + group_records(flows, entries_of(flows, id))) as u32
}

/// The store entries that a tick writes: the number each exporter reaches, except for
/// v7 entries, which keep no number.
pub open spec fn tick_updates(
    flows: Seq<FlowConfig>,
    store: Map<ExporterId, u32>,
    ids: Seq<ExporterId>,
) -> Seq<SequenceEntry>
    decreases ids.len(),
{
    if ids.len() == 0 {
        Seq::empty()
    } else {
        let front = tick_updates(flows, store, ids.drop_last());
        if ids.last() is V7 {
            front
        } else {
            front.push(
                SequenceEntry { id: ids.last(), sequence: tick_reach(store, flows, ids.last()) },
            )
        }
    }
}

/// A store after the given entries have been written to it, in order.
pub open spec fn apply_updates(store: Map<ExporterId, u32>, updates: Seq<SequenceEntry>) -> Map<
    ExporterId,
    u32,
>
    decreases updates.len(),
{
    if updates.len() == 0 {
        store
    } else {
        apply_updates(store, updates.drop_last()).insert(
            updates.last().id,
            updates.last().sequence,
        )
    }
}

/// The store after a tick.
pub open spec fn tick_store(flows: Seq<FlowConfig>, store: Map<ExporterId, u32>) -> Map<
    ExporterId,
    u32,
> {
    apply_updates(store, tick_updates(flows, store, identities(flows)))
}

/// What building one exporter's entries gave: the packets and the sequence number the
/// exporter has reached.
#[derive(Debug, Clone)]
pub struct GroupResult {
    pub id: ExporterId,
    pub packets: Vec<Vec<u8>>,
    pub next_sequence: u32,
}

/// Builds the entries of one exporter from the sequence number the store holds for it.
///
/// This is the unit of work of a tick: groups do not depend on each other, so they may
/// be built in any order or side by side. The store is only read.
pub fn build_exporter_group(
    flows: &Vec<FlowConfig>,
    group: &ExporterGroup,
    store: &SequenceStore,
    include_templates: bool,
    now_secs: u64,
) -> (res: Result<GroupResult, NetflowError>)
    requires
        group.entries.len() > 0,
        forall|k: int| 0 <= k < group.entries.len() ==> group.entries@[k] < flows.len(),
    ensures
        res is Ok <==> group_buildable(
            flows@,
            group.entries@,
            start_of(store@, flows@[group.entries@[0] as int], group.id),
            include_templates,
        ),
        res matches Ok(result) ==> {
            let start = start_of(store@, flows@[group.entries@[0] as int], group.id);
            &&& result.id == group.id
            &&& buffers(result.packets@) == group_packets(
                flows@,
                group.entries@,
                start,
                include_templates,
                now_secs,
            )
            &&& result.next_sequence == start + group_records(flows@, group.entries@)
        },
        res matches Err(e) ==> e is Generation,
{
    let start = start_sequence(store, flows, group);
    let (packets, next_sequence) = build_group(
        flows,
        &group.entries,
        start,
        include_templates,
        now_secs,
    )?;
    Ok(GroupResult { id: group.id, packets, next_sequence })
}

/// The packets of the given results, result by result.
pub open spec fn results_packets(results: Seq<GroupResult>) -> Seq<Seq<u8>>
    decreases results.len(),
{
    if results.len() == 0 {
        Seq::empty()
    } else {
        results_packets(results.drop_last()) + buffers(results.last().packets@)
    }
}

/// The store entries that the given results ask for: the number each exporter has
/// reached, except for v7 entries, which keep no number.
pub open spec fn results_updates(results: Seq<GroupResult>) -> Seq<SequenceEntry>
    decreases results.len(),
{
    if results.len() == 0 {
        Seq::empty()
    } else {
        let front = results_updates(results.drop_last());
        if results.last().id is V7 {
            front
        } else {
            front.push(
                SequenceEntry { id: results.last().id, sequence: results.last().next_sequence },
            )
        }
    }
}

/// Merges the results of a tick: the packets in the order of the results, and every
/// exporter's new sequence number written to the store.
pub fn merge_group_results(store: &mut SequenceStore, results: &Vec<GroupResult>) -> (packets: Vec<
    Vec<u8>,
>)
    ensures
        buffers(packets@) == results_packets(results@),
        final(store)@ == apply_updates(old(store)@, results_updates(results@)),
{
    let mut packets: Vec<Vec<u8>> = Vec::new();
    let mut i: usize = 0;
    assert(buffers(packets@) =~= results_packets(results@.take(0)));
    assert(results_updates(results@.take(0)) =~= Seq::<SequenceEntry>::empty());
    while i < results.len()
        invariant
            i <= results.len(),
            buffers(packets@) == results_packets(results@.take(i as int)),
            store@ == apply_updates(old(store)@, results_updates(results@.take(i as int))),
        decreases results.len() - i,
    {
        proof {
            let next = results@.take(i + 1);
            assert(next.drop_last() =~= results@.take(i as int));
            assert(next.last() == results@[i as int]);
        }
        let result = &results[i];
        let ghost head = buffers(packets@);
        let mut k: usize = 0;
        assert(buffers(result.packets@).take(0) =~= Seq::<Seq<u8>>::empty());
        while k < result.packets.len()
            invariant
                k <= result.packets.len(),
                buffers(packets@) == head + buffers(result.packets@).take(k as int),
            decreases result.packets.len() - k,
        {
            let mut copy: Vec<u8> = Vec::new();
            push_bytes(&mut copy, &result.packets[k]);
            assert(copy@ =~= result.packets@[k as int]@);
            proof {
                lemma_buffers_push(packets@, copy);
                assert(buffers(result.packets@).take(k + 1) =~= buffers(result.packets@).take(
                    k as int,
                ).push(copy@));
            }
            packets.push(copy);
            k = k + 1;
        }
        assert(buffers(result.packets@).take(result.packets.len() as int) =~= buffers(
            result.packets@,
        ));
        let tracked_id = match result.id {
            ExporterId::V7 { .. } => false,
            _ => true,
        };
        if tracked_id {
            let ghost before = results_updates(results@.take(i as int));
            proof {
                let entry = SequenceEntry { id: result.id, sequence: result.next_sequence };
                assert(before.push(entry).drop_last() =~= before);
            }
            store.set(result.id, result.next_sequence);
        }
        i = i + 1;
    }
    proof {
        assert(results@.take(results.len() as int) =~= results@);
    }
    packets
}

/// Builds the packets of one tick at a given clock reading and brings the store up to
/// date.
///
/// Exporters are built independently of each other, each from the number the store
/// holds for it. The store changes only if every exporter succeeds.
pub fn generate_packets_from_config_at(
    config: &Config,
    store: &mut SequenceStore,
    include_templates: bool,
    now_secs: u64,
) -> (res: Result<Vec<Vec<u8>>, NetflowError>)
    ensures
        res is Ok <==> tick_buildable(config.flows@, old(store)@, include_templates),
        res matches Ok(packets) ==> {
            &&& buffers(packets@) == tick_packets(
                config.flows@,
                old(store)@,
                include_templates,
                now_secs,
            )
            &&& final(store)@ == tick_store(config.flows@, old(store)@)
        },
        res matches Err(e) ==> e is Generation && final(store)@ == old(store)@,
{
    let flows = &config.flows;
    let groups = group_flows(flows);
    let ghost ids = identities(flows@);
    let ghost store0 = store@;
    let mut results: Vec<GroupResult> = Vec::new();
    let mut g: usize = 0;
    assert(results_packets(results@) =~= exporters_packets(
        flows@,
        store0,
        ids.take(0),
        include_templates,
        now_secs,
    ));
    assert(results_updates(results@) =~= tick_updates(flows@, store0, ids.take(0)));
    while g < groups.len()
        invariant
            g <= groups.len(),
            flows == &config.flows,
            ids == identities(flows@),
            store@ == store0,
            store0 == old(store)@,
            groups_of(flows@, groups@),
            forall|j: int, k: int|
                0 <= j < groups.len() && 0 <= k < groups@[j].entries.len() ==> (
                #[trigger] groups@[j].entries@[k]) < flows.len(),
            forall|j: int| 0 <= j < groups.len() ==> (#[trigger] groups@[j]).entries.len() > 0,
            forall|j: int|
                0 <= j < g ==> group_buildable(
                    flows@,
                    entries_of(flows@, #[trigger] ids[j]),
                    tick_start(store0, flows@, ids[j]),
                    include_templates,
                ),
            results_packets(results@) == exporters_packets(
                flows@,
                store0,
                ids.take(g as int),
                include_templates,
                now_secs,
            ),
            results_updates(results@) == tick_updates(flows@, store0, ids.take(g as int)),
        decreases groups.len() - g,
    {
        let group = &groups[g];
        proof {
            let next = ids.take(g + 1);
            assert(next.drop_last() =~= ids.take(g as int));
            assert(next.last() == ids[g as int]);
            assert(group.id == ids[g as int]);
            assert(group.entries@ == entries_of(flows@, ids[g as int]));
            assert forall|k: int| 0 <= k < group.entries.len() implies group.entries@[k]
                < flows.len() by {
                assert(groups@[g as int].entries@[k] < flows.len());
            }
        }
        let ghost before = results@;
        let result = build_exporter_group(flows, group, store, include_templates, now_secs)?;
        results.push(result);
        proof {
            assert(results@.drop_last() =~= before);
        }
        g = g + 1;
    }
    proof {
        assert(ids.take(groups.len() as int) =~= ids);
    }
    Ok(merge_group_results(store, &results))
}

/// Builds the packets of one tick, stamped with the current time where headers name
/// none, and brings the store up to date.
///
/// Fails when the system clock cannot be read, and otherwise exactly when
/// [`generate_packets_from_config_at`] does; the packets that come out are those that
/// function builds for some clock reading.
pub fn generate_packets_from_config(
    config: &Config,
    store: &mut SequenceStore,
    include_templates: bool,
) -> (res: Result<Vec<Vec<u8>>, NetflowError>)
    ensures
        res is Ok ==> tick_buildable(config.flows@, old(store)@, include_templates),
        res matches Ok(packets) ==> {
            &&& exists|now_secs: u64|
                buffers(packets@) == tick_packets(
                    config.flows@,
                    old(store)@,
                    include_templates,
                    now_secs,
                )
            &&& final(store)@ == tick_store(config.flows@, old(store)@)
        },
        res matches Err(e) ==> e is Generation && final(store)@ == old(store)@,
{
    match unix_time_secs() {
        Some(now_secs) => generate_packets_from_config_at(
            config,
            store,
            include_templates,
            now_secs,
        ),
        None => Err(NetflowError::generation("Failed to get system time")),
    }
}

/// What writing the updates of distinct exporters does to a store: each of them that
/// keeps a number holds the number it reaches, and nothing else changes.
pub proof fn lemma_apply_tick_updates(
    flows: Seq<FlowConfig>,
    store: Map<ExporterId, u32>,
    ids: Seq<ExporterId>,
    id: ExporterId,
)
    requires
        ids.no_duplicates(),
    ensures
        ({
            let after = apply_updates(store, tick_updates(flows, store, ids));
            if ids.contains(id) && !(id is V7) {
                after.dom().contains(id) && after[id] == tick_reach(store, flows, id)
            } else {
                &&& after.dom().contains(id) == store.dom().contains(id)
                &&& store.dom().contains(id) ==> after[id] == store[id]
            }
        }),
    decreases ids.len(),
{
    if ids.len() > 0 {
        let front = ids.drop_last();
        let last = ids.last();
        lemma_apply_tick_updates(flows, store, front, id);
        let updates = tick_updates(flows, store, front);
        if !(last is V7) {
            let entry = SequenceEntry { id: last, sequence: tick_reach(store, flows, last) };
            assert(updates.push(entry).drop_last() =~= updates);
        }
        if front.contains(id) {
            let w = choose|w: int| 0 <= w < front.len() && front[w] == id;
            assert(ids[w] == id);
            assert(ids[ids.len() - 1] == last);
        } else if ids.contains(id) {
            let w = choose|w: int| 0 <= w < ids.len() && ids[w] == id;
            if w < ids.len() - 1 {
                assert(front[w] == id);
            }
        } else {
            assert(ids[ids.len() - 1] == last);
        }
    }
}

/// What a tick does to the store: every exporter of the configuration other than a v7
/// entry holds its starting number plus the records of its entries, and no other
/// exporter's number changes.
pub proof fn lemma_tick_store(flows: Seq<FlowConfig>, store: Map<ExporterId, u32>, id: ExporterId)
    requires
        flows.len() <= usize::MAX,
    ensures
        ({
            let after = tick_store(flows, store);
            if identities(flows).contains(id) && !(id is V7) {
                &&& after.dom().contains(id)
                &&& after[id] == (tick_start(store, flows, id) + group_records(
                    flows,
                    entries_of(flows, id),
                )) as u32
            } else {
                &&& after.dom().contains(id) == store.dom().contains(id)
                &&& store.dom().contains(id) ==> after[id] == store[id]
            }
        }),
{
    lemma_identities(flows);
    lemma_apply_tick_updates(flows, store, identities(flows), id);
}

/// The store after `n` ticks of the same configuration.
pub open spec fn store_after_ticks(flows: Seq<FlowConfig>, store: Map<ExporterId, u32>, n: nat)
    -> Map<ExporterId, u32>
    decreases n,
{
    if n == 0 {
        store
    } else {
        tick_store(flows, store_after_ticks(flows, store, (n - 1) as nat))
    }
}

/// Over any number of ticks, the sequence number of an exporter advances by exactly the
/// records emitted for it: after `n` ticks it stands at its starting number plus `n`
/// times the records of its entries, and that is where tick `n + 1` starts. This holds
/// for v5, v9 and IPFIX exporters as long as the number fits 32 bits.
pub proof fn lemma_sequence_after_ticks(
    flows: Seq<FlowConfig>,
    store: Map<ExporterId, u32>,
    id: ExporterId,
    n: nat,
)
    requires
        flows.len() <= usize::MAX,
        identities(flows).contains(id),
        !(id is V7),
        tick_start(store, flows, id) + n * group_records(flows, entries_of(flows, id)) <= u32::MAX,
    ensures
        tick_start(store_after_ticks(flows, store, n), flows, id) == tick_start(store, flows, id)
            + n * group_records(flows, entries_of(flows, id)),
        n > 0 ==> store_after_ticks(flows, store, n).dom().contains(id) && store_after_ticks(
            flows,
            store,
            n,
        )[id] == tick_start(store, flows, id) + n * group_records(flows, entries_of(flows, id)),
    decreases n,
{
    let records = group_records(flows, entries_of(flows, id)) as int;
    if n == 0 {
        assert(0 * records == 0) by (nonlinear_arith);
    } else {
        let before = store_after_ticks(flows, store, (n - 1) as nat);
        assert((n - 1) * records + records == n * records) by (nonlinear_arith);
        assert((n - 1) * records >= 0) by (nonlinear_arith)
            requires
                n >= 1,
                records >= 0,
        ;
        lemma_sequence_after_ticks(flows, store, id, (n - 1) as nat);
        lemma_tick_store(flows, before, id);
    }
}

} // verus!
