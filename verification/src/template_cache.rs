//! The template cache: one template message per exporter, built once from all entries
//! of the exporter, after checking that they define each template id in one way only.

use crate::clock::{saturate_secs, saturated_secs, unix_time_secs};
use crate::config::schema::{
    FlowConfig, IPFixFlowSet, IPFixTemplateField, V9FlowSet, V9TemplateField,
};
use crate::error::NetflowError;
use crate::exporter::{exporter_identity, exporter_of, identities, list_identities, ExporterId};
use crate::generator::ipfix;
use crate::generator::ipfix::{IPFixTemplate, IpfixStamp};
use crate::generator::ipfix::ipfix_templates_of;
use crate::generator::v9;
use crate::generator::v9::{V9Stamp, V9Template};
use crate::generator::v9::v9_templates_of;
use crate::text::{joined_number, push_decimal, str_eq};
use vstd::string::StringExecFns;
use crate::wire::push_bytes;
use vstd::prelude::*;

verus! {

/// Whether two field lists name the same fields with the same lengths.
pub open spec fn v9_same_fields(a: Seq<V9TemplateField>, b: Seq<V9TemplateField>) -> bool {
    &&& a.len() == b.len()
    &&& forall|k: int|
        0 <= k < a.len() ==> (#[trigger] a[k]).field_type@ == b[k].field_type@ && a[k].field_length
            == b[k].field_length
}

/// Whether two field lists name the same fields with the same lengths.
fn v9_fields_equal(a: &Vec<V9TemplateField>, b: &Vec<V9TemplateField>) -> (same: bool)
    ensures
        same == v9_same_fields(a@, b@),
{
    if a.len() != b.len() {
        return false;
    }
    let mut k: usize = 0;
    while k < a.len()
        invariant
            k <= a.len(),
            a.len() == b.len(),
            forall|j: int|
                0 <= j < k ==> (#[trigger] a@[j]).field_type@ == b@[j].field_type@
                    && a@[j].field_length == b@[j].field_length,
        decreases a.len() - k,
    {
        if !str_eq(a[k].field_type.as_str(), b[k].field_type.as_str()) || a[k].field_length
            != b[k].field_length {
            assert(!((#[trigger] a@[k as int]).field_type@ == b@[k as int].field_type@
                && a@[k as int].field_length == b@[k as int].field_length));
            return false;
        }
        k = k + 1;
    }
    true
}

/// All template definitions of one v9 exporter: those of every entry with the given
/// source id, in input order.
pub open spec fn v9_exporter_templates(flows: Seq<FlowConfig>, source_id: u32) -> Seq<
    (u16, Seq<V9TemplateField>),
>
    decreases flows.len(),
{
    if flows.len() == 0 {
        Seq::empty()
    } else {
        let front = v9_exporter_templates(flows.drop_last(), source_id);
        match flows.last() {
            FlowConfig::V9(c) => if exporter_of(flows.last(), 0) == (ExporterId::V9 { source_id }) {
                front + v9_templates_of(c.flowsets@)
            } else {
                front
            },
            _ => front,
        }
    }
}

/// The definitions that count: for every template id, the first one.
pub open spec fn v9_first_definitions(templates: Seq<(u16, Seq<V9TemplateField>)>) -> Seq<
    (u16, Seq<V9TemplateField>),
>
    decreases templates.len(),
{
    if templates.len() == 0 {
        Seq::empty()
    } else {
        let front = v9_first_definitions(templates.drop_last());
        if v9::find_template(front, templates.last().0) is Some {
            front
        } else {
            front.push(templates.last())
        }
    }
}

/// Whether every definition agrees with the first definition of its template id.
pub open spec fn v9_definitions_agree(templates: Seq<(u16, Seq<V9TemplateField>)>) -> bool
    decreases templates.len(),
{
    if templates.len() == 0 {
        true
    } else {
        &&& v9_definitions_agree(templates.drop_last())
        &&& match v9::find_template(
            v9_first_definitions(templates.drop_last()),
            templates.last().0,
        ) {
            Some(fields) => v9_same_fields(fields, templates.last().1),
            None => true,
        }
    }
}

/// Definitions that agree agree up to any point.
pub proof fn lemma_v9_definitions_agree_prefix(
    templates: Seq<(u16, Seq<V9TemplateField>)>,
    k: int,
)
    requires
        0 <= k <= templates.len(),
        v9_definitions_agree(templates),
    ensures
        v9_definitions_agree(templates.take(k)),
    decreases templates.len(),
{
    if k < templates.len() {
        lemma_v9_definitions_agree_prefix(templates.drop_last(), k);
        assert(templates.drop_last().take(k) =~= templates.take(k));
    } else {
        assert(templates.take(k) =~= templates);
    }
}

/// The templates of one v9 exporter can be cached when its definitions agree, there is
/// at least one, and the ones that count fit a template message.
pub open spec fn v9_cache_ok(flows: Seq<FlowConfig>, source_id: u32) -> bool {
    let all = v9_exporter_templates(flows, source_id);
    &&& v9_definitions_agree(all)
    &&& v9_first_definitions(all).len() > 0
    &&& v9::v9_templates_ok(v9_first_definitions(all))
}

/// The cached template message of one v9 exporter: uptime 360000, the clock reading
/// held to 32 bits, sequence number 0, and the definitions that count.
pub open spec fn v9_cached_packet(flows: Seq<FlowConfig>, source_id: u32, now_secs: u64) -> Seq<u8> {
    v9::v9_template_packet(
        V9Stamp { sys_up_time: 360000, unix_secs: saturated_secs(now_secs), source_id },
        0,
        v9_first_definitions(v9_exporter_templates(flows, source_id)),
    )
}

/// The cached template messages of the v9 exporters among `ids`, in order.
pub open spec fn v9_cache(flows: Seq<FlowConfig>, ids: Seq<ExporterId>, now_secs: u64) -> Seq<
    (u32, Seq<u8>),
>
    decreases ids.len(),
{
    if ids.len() == 0 {
        Seq::empty()
    } else {
        let front = v9_cache(flows, ids.drop_last(), now_secs);
        match ids.last() {
            ExporterId::V9 { source_id } => front.push(
                (source_id, v9_cached_packet(flows, source_id, now_secs)),
            ),
            _ => front,
        }
    }
}

/// Appending template lists appends their definitions.
proof fn lemma_v9_template_specs_add(a: Seq<V9Template>, b: Seq<V9Template>)
    ensures
        v9::template_specs(a + b) == v9::template_specs(a) + v9::template_specs(b),
{
    assert(v9::template_specs(a + b) =~= v9::template_specs(a) + v9::template_specs(b));
}

/// Collects all template definitions of one v9 exporter.
fn v9_collect<'a>(flows: &'a Vec<FlowConfig>, source_id: u32) -> (all: Vec<V9Template<'a>>)
    ensures
        v9::template_specs(all@) == v9_exporter_templates(flows@, source_id),
{
    let mut all: Vec<V9Template<'a>> = Vec::new();
    let mut i: usize = 0;
    assert(v9::template_specs(all@) =~= v9_exporter_templates(flows@.take(0), source_id));
    while i < flows.len()
        invariant
            i <= flows.len(),
            v9::template_specs(all@) == v9_exporter_templates(flows@.take(i as int), source_id),
        decreases flows.len() - i,
    {
        proof {
            let next = flows@.take(i + 1);
            assert(next.drop_last() =~= flows@.take(i as int));
            assert(next.last() == flows@[i as int]);
        }
        if let FlowConfig::V9(c) = &flows[i] {
            if exporter_identity(&flows[i], 0) == (ExporterId::V9 { source_id }) {
                let mut more = v9::collect_templates(&c.flowsets);
                proof {
                    lemma_v9_template_specs_add(all@, more@);
                }
                all.append(&mut more);
            }
        }
        i = i + 1;
    }
    proof {
        assert(flows@.take(flows.len() as int) =~= flows@);
    }
    all
}

/// Keeps the first definition of every template id; fails with the template id when a
/// later definition differs from the first.
fn v9_merge<'a>(all: &Vec<V9Template<'a>>) -> (res: Result<Vec<V9Template<'a>>, u16>)
    ensures
        res is Ok <==> v9_definitions_agree(v9::template_specs(all@)),
        res matches Ok(merged) ==> v9::template_specs(merged@) == v9_first_definitions(
            v9::template_specs(all@),
        ),
{
    let ghost specs = v9::template_specs(all@);
    let mut merged: Vec<V9Template<'a>> = Vec::new();
    let mut j: usize = 0;
    assert(v9::template_specs(merged@) =~= v9_first_definitions(specs.take(0)));
    while j < all.len()
        invariant
            j <= all.len(),
            specs == v9::template_specs(all@),
            v9::template_specs(merged@) == v9_first_definitions(specs.take(j as int)),
            v9_definitions_agree(specs.take(j as int)),
        decreases all.len() - j,
    {
        proof {
            let next = specs.take(j + 1);
            assert(next.drop_last() =~= specs.take(j as int));
            assert(next.last() == specs[j as int]);
        }
        let ghost before = merged@;
        match v9::lookup_template(&merged, all[j].template_id) {
            Some(fields) => {
                if !v9_fields_equal(fields, all[j].fields) {
                    proof {
                        if v9_definitions_agree(specs) {
                            lemma_v9_definitions_agree_prefix(specs, j + 1);
                        }
                    }
                    return Err(all[j].template_id);
                }
            },
            None => {
                merged.push(all[j]);
                assert(v9::template_specs(merged@) =~= v9::template_specs(before).push(
                    specs[j as int],
                ));
            },
        }
        j = j + 1;
    }
    proof {
        assert(specs.take(all.len() as int) =~= specs);
    }
    Ok(merged)
}

/// Builds the template message of one v9 exporter from all its entries.
///
/// Fails with a configuration error when definitions of one template id differ or the
/// exporter defines no template, and with a generation error when the message cannot
/// be written.
fn build_v9_template_cache(flows: &Vec<FlowConfig>, source_id: u32, now_secs: u64) -> (res: Result<
    Vec<u8>,
    NetflowError,
>)
    ensures
        res is Ok <==> v9_cache_ok(flows@, source_id),
        res matches Ok(packet) ==> packet@ == v9_cached_packet(flows@, source_id, now_secs),
        res matches Err(e) ==> e is Configuration || e is Generation,
{
    let all = v9_collect(flows, source_id);
    let merged = match v9_merge(&all) {
        Ok(merged) => merged,
        Err(template_id) => {
            let mut message = joined_number("Template ID ", template_id as u64);
            message.append(" is used with different field definitions in source_id ");
            push_decimal(&mut message, source_id as u64);
            return Err(NetflowError::Configuration(message));
        },
    };
    if merged.len() == 0 {
        return Err(
            NetflowError::Configuration(
                joined_number("No templates found for V9 source_id ", source_id as u64),
            ),
        );
    }
    let stamp = V9Stamp { sys_up_time: 360000, unix_secs: saturate_secs(now_secs), source_id };
    v9::build_template_packet(&stamp, 0, &merged)
}

/// Whether two field lists name the same fields with the same lengths.
pub open spec fn ipfix_same_fields(a: Seq<IPFixTemplateField>, b: Seq<IPFixTemplateField>) -> bool {
    &&& a.len() == b.len()
    &&& forall|k: int|
        0 <= k < a.len() ==> (#[trigger] a[k]).field_type@ == b[k].field_type@ && a[k].field_length
            == b[k].field_length
}

/// Whether two field lists name the same fields with the same lengths.
fn ipfix_fields_equal(a: &Vec<IPFixTemplateField>, b: &Vec<IPFixTemplateField>) -> (same: bool)
    ensures
        same == ipfix_same_fields(a@, b@),
{
    if a.len() != b.len() {
        return false;
    }
    let mut k: usize = 0;
    while k < a.len()
        invariant
            k <= a.len(),
            a.len() == b.len(),
            forall|j: int|
                0 <= j < k ==> (#[trigger] a@[j]).field_type@ == b@[j].field_type@
                    && a@[j].field_length == b@[j].field_length,
        decreases a.len() - k,
    {
        if !str_eq(a[k].field_type.as_str(), b[k].field_type.as_str()) || a[k].field_length
            != b[k].field_length {
            assert(!((#[trigger] a@[k as int]).field_type@ == b@[k as int].field_type@
                && a@[k as int].field_length == b@[k as int].field_length));
            return false;
        }
        k = k + 1;
    }
    true
}

/// All template definitions of one IPFIX exporter: those of every entry with the given
/// observation domain, in input order.
pub open spec fn ipfix_exporter_templates(flows: Seq<FlowConfig>, domain_id: u32) -> Seq<
    (u16, Seq<IPFixTemplateField>),
>
    decreases flows.len(),
{
    if flows.len() == 0 {
        Seq::empty()
    } else {
        let front = ipfix_exporter_templates(flows.drop_last(), domain_id);
        match flows.last() {
            FlowConfig::IPFix(c) => if exporter_of(flows.last(), 0) == (ExporterId::IPFix { observation_domain_id: domain_id }) {
                front + ipfix_templates_of(c.flowsets@)
            } else {
                front
            },
            _ => front,
        }
    }
}

/// The definitions that count: for every template id, the first one.
pub open spec fn ipfix_first_definitions(templates: Seq<(u16, Seq<IPFixTemplateField>)>) -> Seq<
    (u16, Seq<IPFixTemplateField>),
>
    decreases templates.len(),
{
    if templates.len() == 0 {
        Seq::empty()
    } else {
        let front = ipfix_first_definitions(templates.drop_last());
        if ipfix::find_template(front, templates.last().0) is Some {
            front
        } else {
            front.push(templates.last())
        }
    }
}

/// Whether every definition agrees with the first definition of its template id.
pub open spec fn ipfix_definitions_agree(templates: Seq<(u16, Seq<IPFixTemplateField>)>) -> bool
    decreases templates.len(),
{
    if templates.len() == 0 {
        true
    } else {
        &&& ipfix_definitions_agree(templates.drop_last())
        &&& match ipfix::find_template(
            ipfix_first_definitions(templates.drop_last()),
            templates.last().0,
        ) {
            Some(fields) => ipfix_same_fields(fields, templates.last().1),
            None => true,
        }
    }
}

/// Definitions that agree agree up to any point.
pub proof fn lemma_ipfix_definitions_agree_prefix(
    templates: Seq<(u16, Seq<IPFixTemplateField>)>,
    k: int,
)
    requires
        0 <= k <= templates.len(),
        ipfix_definitions_agree(templates),
    ensures
        ipfix_definitions_agree(templates.take(k)),
    decreases templates.len(),
{
    if k < templates.len() {
        lemma_ipfix_definitions_agree_prefix(templates.drop_last(), k);
        assert(templates.drop_last().take(k) =~= templates.take(k));
    } else {
        assert(templates.take(k) =~= templates);
    }
}

/// The templates of one IPFIX exporter can be cached when its definitions agree, there is
/// at least one, and the ones that count fit a template message.
pub open spec fn ipfix_cache_ok(flows: Seq<FlowConfig>, domain_id: u32) -> bool {
    let all = ipfix_exporter_templates(flows, domain_id);
    &&& ipfix_definitions_agree(all)
    &&& ipfix_first_definitions(all).len() > 0
    &&& ipfix::ipfix_templates_ok(ipfix_first_definitions(all))
}

/// The cached template message of one IPFIX exporter: the clock reading held to 32
/// bits, sequence number 0, and the definitions that count.
pub open spec fn ipfix_cached_packet(flows: Seq<FlowConfig>, domain_id: u32, now_secs: u64) -> Seq<u8> {
    ipfix::ipfix_template_packet(
        IpfixStamp { export_time: saturated_secs(now_secs), observation_domain_id: domain_id },
        0,
        ipfix_first_definitions(ipfix_exporter_templates(flows, domain_id)),
    )
}

/// The cached template messages of the IPFIX exporters among `ids`, in order.
pub open spec fn ipfix_cache(flows: Seq<FlowConfig>, ids: Seq<ExporterId>, now_secs: u64) -> Seq<
    (u32, Seq<u8>),
>
    decreases ids.len(),
{
    if ids.len() == 0 {
        Seq::empty()
    } else {
        let front = ipfix_cache(flows, ids.drop_last(), now_secs);
        match ids.last() {
            ExporterId::IPFix { observation_domain_id: domain_id } => front.push(
                (domain_id, ipfix_cached_packet(flows, domain_id, now_secs)),
            ),
            _ => front,
        }
    }
}

/// Appending template lists appends their definitions.
proof fn lemma_ipfix_template_specs_add(a: Seq<IPFixTemplate>, b: Seq<IPFixTemplate>)
    ensures
        ipfix::template_specs(a + b) == ipfix::template_specs(a) + ipfix::template_specs(b),
{
    assert(ipfix::template_specs(a + b) =~= ipfix::template_specs(a) + ipfix::template_specs(b));
}

/// Collects all template definitions of one IPFIX exporter.
fn ipfix_collect<'a>(flows: &'a Vec<FlowConfig>, domain_id: u32) -> (all: Vec<IPFixTemplate<'a>>)
    ensures
        ipfix::template_specs(all@) == ipfix_exporter_templates(flows@, domain_id),
{
    let mut all: Vec<IPFixTemplate<'a>> = Vec::new();
    let mut i: usize = 0;
    assert(ipfix::template_specs(all@) =~= ipfix_exporter_templates(flows@.take(0), domain_id));
    while i < flows.len()
        invariant
            i <= flows.len(),
            ipfix::template_specs(all@) == ipfix_exporter_templates(flows@.take(i as int), domain_id),
        decreases flows.len() - i,
    {
        proof {
            let next = flows@.take(i + 1);
            assert(next.drop_last() =~= flows@.take(i as int));
            assert(next.last() == flows@[i as int]);
        }
        if let FlowConfig::IPFix(c) = &flows[i] {
            if exporter_identity(&flows[i], 0) == (ExporterId::IPFix { observation_domain_id: domain_id }) {
                let mut more = ipfix::collect_templates(&c.flowsets);
                proof {
                    lemma_ipfix_template_specs_add(all@, more@);
                }
                all.append(&mut more);
            }
        }
        i = i + 1;
    }
    proof {
        assert(flows@.take(flows.len() as int) =~= flows@);
    }
    all
}

/// Keeps the first definition of every template id; fails with the template id when a
/// later definition differs from the first.
fn ipfix_merge<'a>(all: &Vec<IPFixTemplate<'a>>) -> (res: Result<Vec<IPFixTemplate<'a>>, u16>)
    ensures
        res is Ok <==> ipfix_definitions_agree(ipfix::template_specs(all@)),
        res matches Ok(merged) ==> ipfix::template_specs(merged@) == ipfix_first_definitions(
            ipfix::template_specs(all@),
        ),
{
    let ghost specs = ipfix::template_specs(all@);
    let mut merged: Vec<IPFixTemplate<'a>> = Vec::new();
    let mut j: usize = 0;
    assert(ipfix::template_specs(merged@) =~= ipfix_first_definitions(specs.take(0)));
    while j < all.len()
        invariant
            j <= all.len(),
            specs == ipfix::template_specs(all@),
            ipfix::template_specs(merged@) == ipfix_first_definitions(specs.take(j as int)),
            ipfix_definitions_agree(specs.take(j as int)),
        decreases all.len() - j,
    {
        proof {
            let next = specs.take(j + 1);
            assert(next.drop_last() =~= specs.take(j as int));
            assert(next.last() == specs[j as int]);
        }
        let ghost before = merged@;
        match ipfix::lookup_template(&merged, all[j].template_id) {
            Some(fields) => {
                if !ipfix_fields_equal(fields, all[j].fields) {
                    proof {
                        if ipfix_definitions_agree(specs) {
                            lemma_ipfix_definitions_agree_prefix(specs, j + 1);
                        }
                    }
                    return Err(all[j].template_id);
                }
            },
            None => {
                merged.push(all[j]);
                assert(ipfix::template_specs(merged@) =~= ipfix::template_specs(before).push(
                    specs[j as int],
                ));
            },
        }
        j = j + 1;
    }
    proof {
        assert(specs.take(all.len() as int) =~= specs);
    }
    Ok(merged)
}

/// Builds the template message of one IPFIX exporter from all its entries.
///
/// Fails with a configuration error when definitions of one template id differ or the
/// exporter defines no template, and with a generation error when the message cannot
/// be written.
fn build_ipfix_template_cache(flows: &Vec<FlowConfig>, domain_id: u32, now_secs: u64) -> (res: Result<
    Vec<u8>,
    NetflowError,
>)
    ensures
        res is Ok <==> ipfix_cache_ok(flows@, domain_id),
        res matches Ok(packet) ==> packet@ == ipfix_cached_packet(flows@, domain_id, now_secs),
        res matches Err(e) ==> e is Configuration || e is Generation,
{
    let all = ipfix_collect(flows, domain_id);
    let merged = match ipfix_merge(&all) {
        Ok(merged) => merged,
        Err(template_id) => {
            let mut message = joined_number("Template ID ", template_id as u64);
            message.append(" is used with different field definitions in observation_domain_id ");
            push_decimal(&mut message, domain_id as u64);
            return Err(NetflowError::Configuration(message));
        },
    };
    if merged.len() == 0 {
        return Err(
            NetflowError::Configuration(
                joined_number("No templates found for IPFIX observation_domain_id ", domain_id as u64),
            ),
        );
    }
    let stamp = IpfixStamp { export_time: saturate_secs(now_secs), observation_domain_id: domain_id };
    ipfix::build_template_packet(&stamp, 0, &merged)
}

/// The template message of one exporter.
#[derive(Debug, Clone)]
pub struct CachedTemplate {
    /// The source id or observation domain of the exporter.
    pub exporter: u32,
    pub packet: Vec<u8>,
}

/// The exporter and the bytes of each cached message.
pub open spec fn cached_view(entries: Seq<CachedTemplate>) -> Seq<(u32, Seq<u8>)> {
    Seq::new(entries.len(), |i: int| (entries[i].exporter, entries[i].packet@))
}

/// Template messages, built once and sent again whenever templates are due.
#[derive(Debug)]
pub struct TemplateCache {
    v9_templates: Vec<CachedTemplate>,
    ipfix_templates: Vec<CachedTemplate>,
}

/// Whether the templates of every v9 and IPFIX exporter among `ids` can be cached.
pub open spec fn cache_ok(flows: Seq<FlowConfig>, ids: Seq<ExporterId>) -> bool {
    forall|g: int|
        0 <= g < ids.len() ==> match #[trigger] ids[g] {
            ExporterId::V9 { source_id } => v9_cache_ok(flows, source_id),
            ExporterId::IPFix { observation_domain_id } => ipfix_cache_ok(
                flows,
                observation_domain_id,
            ),
            _ => true,
        }
}

impl TemplateCache {
    /// The v9 template messages with their source ids, in the order in which the
    /// exporters first occur.
    pub closed spec fn v9_entries(&self) -> Seq<(u32, Seq<u8>)> {
        cached_view(self.v9_templates@)
    }

    /// The IPFIX template messages with their observation domains, in the order in
    /// which the exporters first occur.
    pub closed spec fn ipfix_entries(&self) -> Seq<(u32, Seq<u8>)> {
        cached_view(self.ipfix_templates@)
    }

    /// An empty cache.
    pub fn new() -> (cache: TemplateCache)
        ensures
            cache.v9_entries() == Seq::<(u32, Seq<u8>)>::empty(),
            cache.ipfix_entries() == Seq::<(u32, Seq<u8>)>::empty(),
    {
        let cache = TemplateCache { v9_templates: Vec::new(), ipfix_templates: Vec::new() };
        assert(cache.v9_entries() =~= Seq::<(u32, Seq<u8>)>::empty());
        assert(cache.ipfix_entries() =~= Seq::<(u32, Seq<u8>)>::empty());
        cache
    }

    /// Builds the cache for a configuration at a given clock reading: one template
    /// message for every v9 and every IPFIX exporter.
    ///
    /// Fails with a configuration error when the entries of one exporter define a
    /// template id in two ways, or define no template at all, and with a generation
    /// error when a template message cannot be written.
    pub fn from_config_at(flows: &Vec<FlowConfig>, now_secs: u64) -> (res: Result<
        TemplateCache,
        NetflowError,
    >)
        ensures
            res is Ok <==> cache_ok(flows@, identities(flows@)),
            res matches Ok(cache) ==> {
                &&& cache.v9_entries() == v9_cache(flows@, identities(flows@), now_secs)
                &&& cache.ipfix_entries() == ipfix_cache(flows@, identities(flows@), now_secs)
            },
            res matches Err(e) ==> e is Configuration || e is Generation,
    {
        let ids = list_identities(flows);
        let mut v9_templates: Vec<CachedTemplate> = Vec::new();
        let mut ipfix_templates: Vec<CachedTemplate> = Vec::new();
        let mut g: usize = 0;
        assert(cached_view(v9_templates@) =~= v9_cache(flows@, ids@.take(0), now_secs));
        assert(cached_view(ipfix_templates@) =~= ipfix_cache(flows@, ids@.take(0), now_secs));
        while g < ids.len()
            invariant
                g <= ids.len(),
                ids@ == identities(flows@),
                cache_ok(flows@, ids@.take(g as int)),
                cached_view(v9_templates@) == v9_cache(flows@, ids@.take(g as int), now_secs),
                cached_view(ipfix_templates@) == ipfix_cache(
                    flows@,
                    ids@.take(g as int),
                    now_secs,
                ),
            decreases ids.len() - g,
        {
            let ghost next = ids@.take(g + 1);
            proof {
                assert(next.drop_last() =~= ids@.take(g as int));
                assert(next.last() == ids@[g as int]);
            }
            let ghost v9_before = v9_templates@;
            let ghost ipfix_before = ipfix_templates@;
            match ids[g] {
                ExporterId::V9 { source_id } => {
                    let packet = build_v9_template_cache(flows, source_id, now_secs)?;
                    v9_templates.push(CachedTemplate { exporter: source_id, packet });
                    assert(cached_view(v9_templates@) =~= cached_view(v9_before).push(
                        (source_id, packet@),
                    ));
                },
                ExporterId::IPFix { observation_domain_id } => {
                    let packet = build_ipfix_template_cache(
                        flows,
                        observation_domain_id,
                        now_secs,
                    )?;
                    ipfix_templates.push(
                        CachedTemplate { exporter: observation_domain_id, packet },
                    );
                    assert(cached_view(ipfix_templates@) =~= cached_view(ipfix_before).push(
                        (observation_domain_id, packet@),
                    ));
                },
                _ => {},
            }
            proof {
                assert forall|k: int| 0 <= k < next.len() implies match #[trigger] next[k] {
                    ExporterId::V9 { source_id } => v9_cache_ok(flows@, source_id),
                    ExporterId::IPFix { observation_domain_id } => ipfix_cache_ok(
                        flows@,
                        observation_domain_id,
                    ),
                    _ => true,
                } by {
                    if k < g {
                        assert(next[k] == ids@.take(g as int)[k]);
                    }
                }
            }
            g = g + 1;
        }
        proof {
            assert(ids@.take(ids.len() as int) =~= ids@);
        }
        Ok(TemplateCache { v9_templates, ipfix_templates })
    }

    /// Builds the cache for a configuration, stamped with the current time.
    ///
    /// Fails when the system clock cannot be read, and otherwise exactly when
    /// [`TemplateCache::from_config_at`] does; the cache that comes out is the one that
    /// function builds for some clock reading.
    pub fn from_config(flows: &Vec<FlowConfig>) -> (res: Result<TemplateCache, NetflowError>)
        ensures
            res is Ok ==> cache_ok(flows@, identities(flows@)),
            res matches Ok(cache) ==> exists|now_secs: u64|
                {
                    &&& cache.v9_entries() == #[trigger] v9_cache(
                        flows@,
                        identities(flows@),
                        now_secs,
                    )
                    &&& cache.ipfix_entries() == ipfix_cache(flows@, identities(flows@), now_secs)
                },
            res matches Err(e) ==> e is Configuration || e is Generation,
    {
        match unix_time_secs() {
            Some(now_secs) => TemplateCache::from_config_at(flows, now_secs),
            None => Err(NetflowError::generation("Failed to get system time")),
        }
    }

    /// A copy of every v9 template message, in cache order.
    pub fn v9_templates(&self) -> (packets: Vec<Vec<u8>>)
        ensures
            packets@.len() == self.v9_entries().len(),
            forall|i: int|
                0 <= i < packets@.len() ==> (#[trigger] packets@[i])@ == self.v9_entries()[i].1,
    {
        copy_packets(&self.v9_templates)
    }

    /// A copy of every IPFIX template message, in cache order.
    pub fn ipfix_templates(&self) -> (packets: Vec<Vec<u8>>)
        ensures
            packets@.len() == self.ipfix_entries().len(),
            forall|i: int|
                0 <= i < packets@.len() ==> (#[trigger] packets@[i])@ == self.ipfix_entries()[i].1,
    {
        copy_packets(&self.ipfix_templates)
    }
}

/// Copies the messages out of cache entries.
fn copy_packets(entries: &Vec<CachedTemplate>) -> (packets: Vec<Vec<u8>>)
    ensures
        packets@.len() == entries@.len(),
        forall|i: int|
            0 <= i < packets@.len() ==> (#[trigger] packets@[i])@ == cached_view(entries@)[i].1,
{
    let mut packets: Vec<Vec<u8>> = Vec::new();
    let mut i: usize = 0;
    while i < entries.len()
        invariant
            i <= entries.len(),
            packets@.len() == i,
            forall|j: int| 0 <= j < i ==> (#[trigger] packets@[j])@ == entries@[j].packet@,
        decreases entries.len() - i,
    {
        let mut copy: Vec<u8> = Vec::new();
        push_bytes(&mut copy, &entries[i].packet);
        assert(copy@ =~= entries@[i as int].packet@);
        packets.push(copy);
        i = i + 1;
    }
    packets
}


/// Whether every data flowset of a v9 entry names a template that the entry defines.
pub open spec fn v9_references_defined(flowsets: Seq<V9FlowSet>) -> bool {
    forall|i: int|
        0 <= i < flowsets.len() ==> (#[trigger] flowsets[i] matches V9FlowSet::Data {
            template_id,
            ..
        } ==> v9::find_template(v9_templates_of(flowsets), template_id) is Some)
}

/// Checks that every data flowset of a v9 entry names a template that the entry
/// defines; fails with the first template id that is not defined.
fn v9_check_references(flowsets: &Vec<V9FlowSet>) -> (res: Result<(), u16>)
    ensures
        res is Ok <==> v9_references_defined(flowsets@),
{
    let templates = v9::collect_templates(flowsets);
    let mut i: usize = 0;
    while i < flowsets.len()
        invariant
            i <= flowsets.len(),
            v9::template_specs(templates@) == v9_templates_of(flowsets@),
            forall|j: int|
                0 <= j < i ==> (#[trigger] flowsets@[j] matches V9FlowSet::Data {
                    template_id,
                    ..
                } ==> v9::find_template(v9_templates_of(flowsets@), template_id) is Some),
        decreases flowsets.len() - i,
    {
        if let V9FlowSet::Data { template_id, .. } = &flowsets[i] {
            if v9::lookup_template(&templates, *template_id).is_none() {
                return Err(*template_id);
            }
        }
        i = i + 1;
    }
    Ok(())
}

/// Whether every data set of an IPFIX entry names a template that the entry defines.
pub open spec fn ipfix_references_defined(flowsets: Seq<IPFixFlowSet>) -> bool {
    forall|i: int|
        0 <= i < flowsets.len() ==> (#[trigger] flowsets[i] matches IPFixFlowSet::Data {
            template_id,
            ..
        } ==> ipfix::find_template(ipfix_templates_of(flowsets), template_id) is Some)
}

/// Checks that every data set of an IPFIX entry names a template that the entry
/// defines; fails with the first template id that is not defined.
fn ipfix_check_references(flowsets: &Vec<IPFixFlowSet>) -> (res: Result<(), u16>)
    ensures
        res is Ok <==> ipfix_references_defined(flowsets@),
{
    let templates = ipfix::collect_templates(flowsets);
    let mut i: usize = 0;
    while i < flowsets.len()
        invariant
            i <= flowsets.len(),
            ipfix::template_specs(templates@) == ipfix_templates_of(flowsets@),
            forall|j: int|
                0 <= j < i ==> (#[trigger] flowsets@[j] matches IPFixFlowSet::Data {
                    template_id,
                    ..
                } ==> ipfix::find_template(ipfix_templates_of(flowsets@), template_id) is Some),
        decreases flowsets.len() - i,
    {
        if let IPFixFlowSet::Data { template_id, .. } = &flowsets[i] {
            if ipfix::lookup_template(&templates, *template_id).is_none() {
                return Err(*template_id);
            }
        }
        i = i + 1;
    }
    Ok(())
}

/// Whether the templates of a configuration are consistent: every data flowset names
/// a template that its entry defines, and the entries of one exporter define each
/// template id in one way only.
pub open spec fn templates_valid(flows: Seq<FlowConfig>) -> bool {
    &&& forall|i: int|
        0 <= i < flows.len() ==> match #[trigger] flows[i] {
            FlowConfig::V9(c) => v9_references_defined(c.flowsets@),
            FlowConfig::IPFix(c) => ipfix_references_defined(c.flowsets@),
            _ => true,
        }
    &&& forall|g: int|
        0 <= g < identities(flows).len() ==> match #[trigger] identities(flows)[g] {
            ExporterId::V9 { source_id } => v9_definitions_agree(
                v9_exporter_templates(flows, source_id),
            ),
            ExporterId::IPFix { observation_domain_id } => ipfix_definitions_agree(
                ipfix_exporter_templates(flows, observation_domain_id),
            ),
            _ => true,
        }
}

/// Checks the templates of a configuration before anything is built: an undefined
/// template reference and a conflicting redefinition are configuration errors.
pub fn validate_templates(flows: &Vec<FlowConfig>) -> (res: Result<(), NetflowError>)
    ensures
        res is Ok <==> templates_valid(flows@),
        res matches Err(e) ==> e is Configuration,
{
    let mut i: usize = 0;
    while i < flows.len()
        invariant
            i <= flows.len(),
            forall|j: int|
                0 <= j < i ==> match #[trigger] flows@[j] {
                    FlowConfig::V9(c) => v9_references_defined(c.flowsets@),
                    FlowConfig::IPFix(c) => ipfix_references_defined(c.flowsets@),
                    _ => true,
                },
        decreases flows.len() - i,
    {
        let checked = match &flows[i] {
            FlowConfig::V9(c) => v9_check_references(&c.flowsets),
            FlowConfig::IPFix(c) => ipfix_check_references(&c.flowsets),
            _ => Ok(()),
        };
        if let Err(template_id) = checked {
            return Err(
                NetflowError::Configuration(
                    joined_number(
                        "Data flowset references undefined template ID: ",
                        template_id as u64,
                    ),
                ),
            );
        }
        i = i + 1;
    }
    let ids = list_identities(flows);
    let mut g: usize = 0;
    while g < ids.len()
        invariant
            g <= ids.len(),
            ids@ == identities(flows@),
            forall|j: int|
                0 <= j < flows.len() ==> match #[trigger] flows@[j] {
                    FlowConfig::V9(c) => v9_references_defined(c.flowsets@),
                    FlowConfig::IPFix(c) => ipfix_references_defined(c.flowsets@),
                    _ => true,
                },
            forall|j: int|
                0 <= j < g ==> match #[trigger] ids@[j] {
                    ExporterId::V9 { source_id } => v9_definitions_agree(
                        v9_exporter_templates(flows@, source_id),
                    ),
                    ExporterId::IPFix { observation_domain_id } => ipfix_definitions_agree(
                        ipfix_exporter_templates(flows@, observation_domain_id),
                    ),
                    _ => true,
                },
        decreases ids.len() - g,
    {
        let conflict = match ids[g] {
            ExporterId::V9 { source_id } => match v9_merge(&v9_collect(flows, source_id)) {
                Ok(_) => None,
                Err(template_id) => Some(template_id),
            },
            ExporterId::IPFix { observation_domain_id } => match ipfix_merge(
                &ipfix_collect(flows, observation_domain_id),
            ) {
                Ok(_) => None,
                Err(template_id) => Some(template_id),
            },
            _ => None,
        };
        if let Some(template_id) = conflict {
            let mut message = joined_number("Template ID ", template_id as u64);
            message.append(" is used with different field definitions");
            return Err(NetflowError::Configuration(message));
        }
        g = g + 1;
    }
    Ok(())
}

} // verus!
