//! What NetFlow v9 flowsets and IPFIX sets share: resolved template fields, the
//! encoding of records by a template, and the length-prefixed set padded to four bytes.

use crate::config::schema::Record;
use crate::generator::field_serializer::{
    get_field_value, ipfix_field_id_to_name, ipfix_field_key, push_field_value, record_field_bytes,
    v9_field_id_to_name, v9_field_key, lemma_field_value_bytes_len,
};
use crate::wire::{be16, push_be16, push_bytes, push_zeros, read_be16, zeros};
use vstd::prelude::*;

verus! {

/// Which of the two field registries names the fields of a template.
#[derive(Debug, Clone, Copy)]
pub enum Registry {
    V9,
    IPFix,
}

/// A template field after its name has been resolved: the numeric id and the length.
#[derive(Debug, Clone, Copy)]
pub struct FieldSpec {
    pub id: u16,
    pub length: u16,
}

/// The record key of the field with the given id in a registry.
pub open spec fn field_key(registry: Registry, id: u16) -> Seq<char> {
    match registry {
        Registry::V9 => v9_field_key(id),
        Registry::IPFix => ipfix_field_key(id),
    }
}

/// The record key of the field with the given id in a registry.
pub fn field_id_to_name(registry: Registry, id: u16) -> (name: &'static str)
    ensures
        name@ == field_key(registry, id),
{
    match registry {
        Registry::V9 => v9_field_id_to_name(id),
        Registry::IPFix => ipfix_field_id_to_name(id),
    }
}

/// The field list of a template record: id and length of each field, four bytes apiece.
pub open spec fn template_fields_bytes(fields: Seq<FieldSpec>) -> Seq<u8>
    decreases fields.len(),
{
    if fields.len() == 0 {
        Seq::empty()
    } else {
        template_fields_bytes(fields.drop_last()) + be16(fields.last().id) + be16(
            fields.last().length,
        )
    }
}

/// A template record: template id, field count, field list.
pub open spec fn template_body(template_id: u16, fields: Seq<FieldSpec>) -> Seq<u8> {
    be16(template_id) + be16(fields.len() as u16) + template_fields_bytes(fields)
}

/// A field list of `n` fields takes `4 * n` bytes.
pub proof fn lemma_template_fields_len(fields: Seq<FieldSpec>)
    ensures
        template_fields_bytes(fields).len() == 4 * fields.len(),
    decreases fields.len(),
{
    if fields.len() > 0 {
        lemma_template_fields_len(fields.drop_last());
    }
}

/// One data record laid out by a template: for each field in order, the value that the
/// record holds under the field's key, in the field's length.
pub open spec fn record_bytes(registry: Registry, fields: Seq<FieldSpec>, record: Record) -> Seq<u8>
    decreases fields.len(),
{
    if fields.len() == 0 {
        Seq::empty()
    } else {
        record_bytes(registry, fields.drop_last(), record) + record_field_bytes(
            record,
            field_key(registry, fields.last().id),
            fields.last().length,
        )
    }
}

/// The length of every record laid out by a template: the sum of the field lengths.
pub open spec fn record_len(fields: Seq<FieldSpec>) -> nat
    decreases fields.len(),
{
    if fields.len() == 0 {
        0
    } else {
        record_len(fields.drop_last()) + fields.last().length as nat
    }
}

/// Data records laid out by a template, one after another.
pub open spec fn records_bytes(
    registry: Registry,
    fields: Seq<FieldSpec>,
    records: Seq<Record>,
) -> Seq<u8>
    decreases records.len(),
{
    if records.len() == 0 {
        Seq::empty()
    } else {
        records_bytes(registry, fields, records.drop_last()) + record_bytes(
            registry,
            fields,
            records.last(),
        )
    }
}

/// A record takes the sum of its template's field lengths, whatever it holds.
pub proof fn lemma_record_bytes_len(registry: Registry, fields: Seq<FieldSpec>, record: Record)
    ensures
        record_bytes(registry, fields, record).len() == record_len(fields),
    decreases fields.len(),
{
    if fields.len() > 0 {
        lemma_record_bytes_len(registry, fields.drop_last(), record);
        let key = field_key(registry, fields.last().id);
        match crate::generator::field_serializer::record_value(record, key) {
            Some(value) => lemma_field_value_bytes_len(value, fields.last().length),
            None => {},
        }
    }
}

/// `n` records take `n` times the record length.
pub proof fn lemma_records_bytes_len(
    registry: Registry,
    fields: Seq<FieldSpec>,
    records: Seq<Record>,
)
    ensures
        records_bytes(registry, fields, records).len() == records.len() * record_len(fields),
    decreases records.len(),
{
    if records.len() > 0 {
        lemma_records_bytes_len(registry, fields, records.drop_last());
        lemma_record_bytes_len(registry, fields, records.last());
        let n = records.len() as int;
        let l = record_len(fields) as int;
        assert((n - 1) * l + l == n * l) by (nonlinear_arith);
    } else {
        assert(0 * record_len(fields) == 0) by (nonlinear_arith);
    }
}

/// The record length grows with the field list.
pub proof fn lemma_record_len_prefix(fields: Seq<FieldSpec>, k: int)
    requires
        0 <= k <= fields.len(),
    ensures
        record_len(fields.take(k)) <= record_len(fields),
    decreases fields.len(),
{
    if k < fields.len() {
        lemma_record_len_prefix(fields.drop_last(), k);
        assert(fields.drop_last().take(k) =~= fields.take(k));
    } else {
        assert(fields.take(k) =~= fields);
    }
}

/// How many zero bytes bring a length of `n` to the next multiple of four.
pub open spec fn pad_len(n: nat) -> nat {
    ((4 - n % 4) % 4) as nat
}

/// The length of a set whose content takes `body_len` bytes: four bytes of set header,
/// the content, and the padding.
pub open spec fn set_len(body_len: nat) -> nat {
    4 + body_len + pad_len(4 + body_len)
}

/// Whether the length of a set with `body_len` bytes of content fits its 16-bit field.
pub open spec fn set_fits(body_len: nat) -> bool {
    set_len(body_len) <= 0xffff
}

/// A set: its id, its whole length, its content, and zeros up to a multiple of four.
pub open spec fn set_bytes(set_id: u16, body: Seq<u8>) -> Seq<u8> {
    be16(set_id) + be16(set_len(body.len()) as u16) + body + zeros(pad_len(4 + body.len()))
}

/// The length field of a set holds the distance from the set id to the end of the set,
/// and that distance is a multiple of four.
pub proof fn lemma_set_shape(set_id: u16, body: Seq<u8>)
    requires
        set_fits(body.len()),
    ensures
        set_bytes(set_id, body).len() == set_len(body.len()),
        set_len(body.len()) % 4 == 0,
        read_be16(set_bytes(set_id, body), 0) == set_id,
        read_be16(set_bytes(set_id, body), 2) == set_len(body.len()),
{
    let len = set_len(body.len()) as u16;
    let s = set_bytes(set_id, body);
    assert(s[0] == be16(set_id)[0]);
    assert(s[1] == be16(set_id)[1]);
    assert(s[2] == be16(len)[0]);
    assert(s[3] == be16(len)[1]);
}

/// A set whose content is two bytes past a multiple of four gets two bytes of padding.
pub proof fn lemma_pad_of_two(body_len: nat)
    requires
        body_len % 4 == 2,
    ensures
        pad_len(4 + body_len) == 2,
{
}

/// Appends a set with the given id and content.
pub fn push_set(out: &mut Vec<u8>, set_id: u16, body: &Vec<u8>)
    requires
        set_fits(body@.len()),
    ensures
        final(out)@ == old(out)@ + set_bytes(set_id, body@),
{
    let content = 4 + body.len();
    let pad = (4 - content % 4) % 4;
    push_be16(out, set_id);
    push_be16(out, (content + pad) as u16);
    push_bytes(out, body);
    push_zeros(out, pad);
    assert(out@ =~= old(out)@ + set_bytes(set_id, body@));
}

/// Encodes a template record.
pub fn encode_template_body(template_id: u16, fields: &Vec<FieldSpec>) -> (body: Vec<u8>)
    requires
        fields.len() <= 0xffff,
    ensures
        body@ == template_body(template_id, fields@),
        body@.len() == 4 + 4 * fields.len(),
{
    let mut body: Vec<u8> = Vec::new();
    push_be16(&mut body, template_id);
    push_be16(&mut body, fields.len() as u16);
    let ghost head = body@;
    let mut i: usize = 0;
    while i < fields.len()
        invariant
            i <= fields.len(),
            body@ == head + template_fields_bytes(fields@.take(i as int)),
        decreases fields.len() - i,
    {
        push_be16(&mut body, fields[i].id);
        push_be16(&mut body, fields[i].length);
        proof {
            let next = fields@.take(i + 1);
            assert(next.drop_last() =~= fields@.take(i as int));
            assert(next.last() == fields@[i as int]);
            assert(body@ =~= head + template_fields_bytes(next));
        }
        i = i + 1;
    }
    proof {
        assert(fields@.take(fields.len() as int) =~= fields@);
        lemma_template_fields_len(fields@);
        assert(body@ =~= template_body(template_id, fields@));
    }
    body
}

/// The largest content that still fits a set.
pub const MAX_SET_BODY: usize = 0xfff8;

/// Adds up the field lengths of a template, giving up once a record would no longer
/// fit a set.
pub fn record_length(fields: &Vec<FieldSpec>) -> (res: Option<usize>)
    ensures
        match res {
            Some(len) => len == record_len(fields@) && len <= MAX_SET_BODY,
            None => record_len(fields@) > MAX_SET_BODY,
        },
{
    let mut total: usize = 0;
    let mut i: usize = 0;
    while i < fields.len()
        invariant
            i <= fields.len(),
            total == record_len(fields@.take(i as int)),
            total <= MAX_SET_BODY,
        decreases fields.len() - i,
    {
        proof {
            let next = fields@.take(i + 1);
            assert(next.drop_last() =~= fields@.take(i as int));
            assert(next.last() == fields@[i as int]);
        }
        total = total + fields[i].length as usize;
        if total > MAX_SET_BODY {
            proof {
                lemma_record_len_prefix(fields@, i + 1);
            }
            return None;
        }
        i = i + 1;
    }
    proof {
        assert(fields@.take(fields.len() as int) =~= fields@);
    }
    Some(total)
}

/// Appends one data record laid out by a template.
pub fn push_record(out: &mut Vec<u8>, registry: Registry, fields: &Vec<FieldSpec>, record: &Record)
    ensures
        final(out)@ == old(out)@ + record_bytes(registry, fields@, *record),
{
    let mut i: usize = 0;
    assert(out@ =~= old(out)@ + record_bytes(registry, fields@.take(0), *record));
    while i < fields.len()
        invariant
            i <= fields.len(),
            out@ == old(out)@ + record_bytes(registry, fields@.take(i as int), *record),
        decreases fields.len() - i,
    {
        let name = field_id_to_name(registry, fields[i].id);
        let ghost before = out@;
        match get_field_value(record, name) {
            Some(value) => {
                push_field_value(out, value, fields[i].length);
            },
            None => {
                push_zeros(out, fields[i].length as usize);
            },
        }
        proof {
            let next = fields@.take(i + 1);
            assert(next.drop_last() =~= fields@.take(i as int));
            assert(next.last() == fields@[i as int]);
            assert(out@ == before + record_field_bytes(
                *record,
                field_key(registry, fields@[i as int].id),
                fields@[i as int].length,
            ));
            assert(out@ =~= old(out)@ + record_bytes(registry, next, *record));
        }
        i = i + 1;
    }
    proof {
        assert(fields@.take(fields.len() as int) =~= fields@);
    }
}

/// Encodes the records of a data set, unless they are too many bytes for a set.
pub fn encode_records(registry: Registry, fields: &Vec<FieldSpec>, records: &Vec<Record>) -> (res:
    Option<Vec<u8>>)
    ensures
        res is Some <==> set_fits(records_bytes(registry, fields@, records@).len()),
        res matches Some(body) ==> body@ == records_bytes(registry, fields@, records@),
{
    proof {
        lemma_records_bytes_len(registry, fields@, records@);
    }
    let mut body: Vec<u8> = Vec::new();
    if records.len() == 0 {
        return Some(body);
    }
    let ghost n = records.len() as int;
    let ghost l = record_len(fields@) as int;
    let rec_len = match record_length(fields) {
        Some(len) => len,
        None => {
            proof {
                assert(n * l >= l) by (nonlinear_arith)
                    requires
                        n >= 1,
                        l >= 0,
                ;
            }
            return None;
        },
    };
    if rec_len > 0 && records.len() > MAX_SET_BODY / rec_len {
        proof {
            assert(n * l > 0xfff8) by (nonlinear_arith)
                requires
                    l > 0,
                    n > 0xfff8int / l,
            ;
        }
        return None;
    }
    proof {
        assert(n * l <= 0xfff8) by (nonlinear_arith)
            requires
                l >= 0,
                n >= 0,
                l > 0 ==> n <= 0xfff8int / l,
        ;
    }
    let mut i: usize = 0;
    assert(body@ =~= records_bytes(registry, fields@, records@.take(0)));
    while i < records.len()
        invariant
            i <= records.len(),
            body@ == records_bytes(registry, fields@, records@.take(i as int)),
        decreases records.len() - i,
    {
        push_record(&mut body, registry, fields, &records[i]);
        proof {
            let next = records@.take(i + 1);
            assert(next.drop_last() =~= records@.take(i as int));
            assert(next.last() == records@[i as int]);
        }
        i = i + 1;
    }
    proof {
        assert(records@.take(records.len() as int) =~= records@);
    }
    Some(body)
}

/// How many records the given record lists hold together.
pub open spec fn total_records(lists: Seq<Seq<Record>>) -> nat
    decreases lists.len(),
{
    if lists.len() == 0 {
        0
    } else {
        total_records(lists.drop_last()) + lists.last().len()
    }
}

/// The records before a record list grow strictly along the lists as long as the
/// earlier list holds a record, and from one list to the next by the length of the
/// first. Data messages are numbered by these counts, so their sequence numbers grow
/// likewise.
pub proof fn lemma_total_records_increases(lists: Seq<Seq<Record>>, j: int, k: int)
    requires
        0 <= j < k <= lists.len(),
        lists[j].len() > 0,
    ensures
        total_records(lists.take(j)) < total_records(lists.take(k)),
        k == j + 1 ==> total_records(lists.take(k)) == total_records(lists.take(j)) + lists[j].len(),
    decreases k - j,
{
    assert(lists.take(j + 1).drop_last() =~= lists.take(j));
    assert(lists.take(j + 1).last() == lists[j]);
    if k > j + 1 {
        lemma_total_records_monotone(lists, j + 1, k);
    }
}

/// The records before a record list never decrease along the lists.
pub proof fn lemma_total_records_monotone(lists: Seq<Seq<Record>>, j: int, k: int)
    requires
        0 <= j <= k <= lists.len(),
    ensures
        total_records(lists.take(j)) <= total_records(lists.take(k)),
    decreases k - j,
{
    if j < k {
        assert(lists.take(k).drop_last() =~= lists.take(k - 1));
        lemma_total_records_monotone(lists, j, k - 1);
    }
}

/// Whether `bytes` is a chain of `count` sets: each has a four-byte header whose length
/// field measures the set, header and padding included, each length is a multiple of
/// four, and the last set ends where the bytes end.
pub open spec fn is_set_chain(bytes: Seq<u8>, count: nat) -> bool
    decreases count,
{
    if count == 0 {
        bytes.len() == 0
    } else {
        &&& bytes.len() >= 4
        &&& 4 <= read_be16(bytes, 2) <= bytes.len()
        &&& read_be16(bytes, 2) % 4 == 0
        &&& is_set_chain(bytes.skip(read_be16(bytes, 2)), (count - 1) as nat)
    }
}

/// One set that fits its length field is a chain of one.
pub proof fn lemma_set_chain_one(set_id: u16, body: Seq<u8>)
    requires
        set_fits(body.len()),
    ensures
        is_set_chain(set_bytes(set_id, body), 1),
{
    lemma_set_shape(set_id, body);
    let set = set_bytes(set_id, body);
    assert(set.skip(set.len() as int).len() == 0);
    assert(is_set_chain(set.skip(read_be16(set, 2)), 0));
}

/// A chain followed by a chain is a chain.
pub proof fn lemma_set_chain_append(a: Seq<u8>, n: nat, b: Seq<u8>, m: nat)
    requires
        is_set_chain(a, n),
        is_set_chain(b, m),
    ensures
        is_set_chain(a + b, n + m),
    decreases n,
{
    if n == 0 {
        assert(a + b =~= b);
    } else {
        let len = read_be16(a, 2);
        assert((a + b)[2] == a[2] && (a + b)[3] == a[3]);
        assert((a + b).skip(len) =~= a.skip(len) + b);
        lemma_set_chain_append(a.skip(len), (n - 1) as nat, b, m);
    }
}

} // verus!
