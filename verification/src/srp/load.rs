//! Reading a service or a host configuration back from the buffer in which
//! it is stored.
//!
//! A record names addresses. What stands at an address is read from the
//! buffer that the address lies in. An address outside the buffer, bytes
//! without a closing NUL and bytes that are no text are read as nothing.

use vstd::prelude::*;
use vstd::string::StringSliceAdditionalSpecFns;
use vstd::utf8::encode_utf8_valid_utf8;
use vstd::utf8::valid_utf8;
use crate::carve::c_str_at;
use crate::carve::c_str_in;
use crate::carve::lemma_c_str_in;
use crate::carve::placement;
use crate::srp::resources::service_stored;
use crate::srp::store::c_str;
use crate::srp::store::label_addr;
use crate::srp::store::labels_payload;
use crate::srp::store::service_layout;
use crate::srp::store::service_payload;
use crate::srp::store::txt_key_addr;
use crate::srp::store::txt_payload;
use crate::srp::resources::conf_stored;
use crate::srp::store::addrs_payload;
use crate::srp::store::conf_layout;
use crate::srp::store::lemma_addrs_payload;
use crate::srp::types::AbiLayout;
use crate::srp::types::SrpConfView;
use crate::srp::types::SrpHostRecord;
use crate::srp::types::SrpServiceRecord;
use crate::srp::types::SrpServiceView;
use crate::srp::types::SrpTxtRecord;

verus! {

/// The text of the C string at address `addr`, by its bytes, in a buffer
/// `bytes` whose first byte has the address `base`.
pub open spec fn text_at(bytes: Seq<u8>, base: int, addr: int) -> Option<Seq<u8>> {
    if addr < base {
        None
    } else {
        match c_str_in(bytes, addr - base) {
            Some(s) => if valid_utf8(s) {
                Some(s)
            } else {
                None
            },
            None => None,
        }
    }
}

/// The name that the pointer `addr` of a record stands for: nothing for a
/// null pointer and for what cannot be read.
pub open spec fn name_at(bytes: Seq<u8>, base: int, addr: int) -> Seq<u8> {
    if addr == 0 {
        Seq::empty()
    } else {
        match text_at(bytes, base, addr) {
            Some(s) => s,
            None => Seq::empty(),
        }
    }
}

/// The labels that the array of label pointers `labels` names from place
/// `index` on, up to the first null pointer.
pub open spec fn labels_from(labels: Seq<usize>, bytes: Seq<u8>, base: int, index: int) -> Seq<Seq<u8>>
    decreases labels.len() - index,
{
    if index < 0 || index >= labels.len() || labels[index] == 0 {
        Seq::empty()
    } else {
        match text_at(bytes, base, labels[index] as int) {
            None => Seq::empty(),
            Some(label) => seq![label] + labels_from(labels, bytes, base, index + 1),
        }
    }
}

/// The key and the value that `entry` names.
pub open spec fn txt_entry_at(entry: SrpTxtRecord, bytes: Seq<u8>, base: int) -> Option<
    (Seq<u8>, Seq<u8>),
> {
    match text_at(bytes, base, entry.key as int) {
        None => None,
        Some(key) => if entry.value >= base && entry.value - base + entry.value_length
            <= bytes.len() {
            Some(
                (
                    key,
                    bytes.subrange(
                        entry.value - base,
                        entry.value - base + entry.value_length,
                    ),
                ),
            )
        } else {
            None
        },
    }
}

/// The TXT entries that the first `size` of `entries` name from place
/// `index` on.
pub open spec fn txt_from(
    entries: Seq<SrpTxtRecord>,
    size: int,
    bytes: Seq<u8>,
    base: int,
    index: int,
) -> Seq<(Seq<u8>, Seq<u8>)>
    decreases entries.len() - index,
{
    if index < 0 || index >= entries.len() || index >= size {
        Seq::empty()
    } else {
        match txt_entry_at(entries[index], bytes, base) {
            None => Seq::empty(),
            Some(entry) => seq![entry] + txt_from(entries, size, bytes, base, index + 1),
        }
    }
}

/// The service that `record` names in a buffer `bytes` at address `base`.
pub open spec fn service_read(record: SrpServiceRecord, bytes: Seq<u8>, base: int) -> SrpServiceView {
    SrpServiceView {
        name: name_at(bytes, base, record.name as int),
        instance_name: name_at(bytes, base, record.instance_name as int),
        subtype_labels: labels_from(record.labels@, bytes, base, 0),
        txt_entries: txt_from(record.txt@, record.num_txt_entries as int, bytes, base, 0),
        port: record.port,
        priority: record.priority,
        weight: record.weight,
        lease_secs: record.lease,
        key_lease_secs: record.key_lease,
    }
}

/// Reads `bytes` as text with `core::str::from_utf8`: the text, if there
/// is one, has exactly these bytes, and bytes that are valid UTF-8 are a
/// text.
#[verifier::external_body]
fn str_from_utf8<'a>(bytes: &'a [u8]) -> (r: Option<&'a str>)
    ensures
        r matches Some(text) ==> text.spec_bytes() == bytes@,
        valid_utf8(bytes@) ==> r is Some,
{
    core::str::from_utf8(bytes).ok()
}

/// Reads the text of the C string at address `addr` in `buf`, whose first
/// byte has the address `base`.
pub fn read_text<'a>(buf: &'a [u8], base: usize, addr: usize) -> (r: Option<&'a str>)
    ensures
        match text_at(buf@, base as int, addr as int) {
            Some(s) => r matches Some(text) && text.spec_bytes() == s,
            None => r is None,
        },
{
    if addr < base {
        return None;
    }
    match c_str_at(buf, addr - base) {
        None => None,
        Some(bytes) => {
            let r = str_from_utf8(bytes);
            proof {
                if let Some(text) = r {
                    encode_utf8_valid_utf8(text@);
                }
            }
            r
        },
    }
}

/// Reads the name that the pointer `addr` of a record stands for.
pub fn read_name<'a>(buf: &'a [u8], base: usize, addr: usize) -> (name: &'a str)
    ensures
        name.spec_bytes() == name_at(buf@, base as int, addr as int),
{
    proof {
        vstd::utf8::encode_utf8_decode_utf8(""@);
        reveal_strlit("");
        assert(""@ =~= Seq::<char>::empty());
        assert(vstd::utf8::encode_utf8(Seq::<char>::empty()) =~= Seq::<u8>::empty());
    }
    if addr == 0 {
        ""
    } else {
        match read_text(buf, base, addr) {
            Some(text) => text,
            None => "",
        }
    }
}

/// An iterator over the subtype labels of an SRP service
/// as returned by `OpenThread::srp_services`.
#[derive(Clone, Copy)]
pub struct OutSrpSubtypeLabelsIter<'a> {
    labels: &'a [usize],
    buf: &'a [u8],
    base: usize,
    index: usize,
}

impl<'a> OutSrpSubtypeLabelsIter<'a> {
    /// The labels that are still to come.
    pub closed spec fn remaining(&self) -> Seq<Seq<u8>> {
        labels_from(self.labels@, self.buf@, self.base as int, self.index as int)
    }

    /// The labels that the array of label pointers `labels` names in
    /// `buf`, whose first byte has the address `base`.
    pub fn new(labels: &'a [usize], buf: &'a [u8], base: usize) -> (iter: Self)
        ensures
            iter.remaining() == labels_from(labels@, buf@, base as int, 0),
    {
        OutSrpSubtypeLabelsIter { labels, buf, base, index: 0 }
    }

    /// The next label, or `None` behind the last.
    pub fn next(&mut self) -> (r: Option<&'a str>)
        ensures
            match r {
                Some(label) => {
                    &&& old(self).remaining().len() > 0
                    &&& label.spec_bytes() == old(self).remaining()[0]
                    &&& final(self).remaining() == old(self).remaining().drop_first()
                },
                None => old(self).remaining().len() == 0 && final(self).remaining().len() == 0,
            },
    {
        if self.index >= self.labels.len() {
            return None;
        }
        let label = self.labels[self.index];
        if label == 0 {
            return None;
        }
        match read_text(self.buf, self.base, label) {
            None => None,
            Some(text) => {
                self.index += 1;
                proof {
                    let rest = labels_from(
                        self.labels@,
                        self.buf@,
                        self.base as int,
                        self.index as int,
                    );
                    assert((seq![text.spec_bytes()] + rest).drop_first() =~= rest);
                }
                Some(text)
            },
        }
    }
}

/// An iterator over the TXT entries of an SRP service
/// as returned by `OpenThread::srp_services`.
#[derive(Clone, Copy)]
pub struct OutSrpTxtEntriesIter<'a> {
    entries: &'a [SrpTxtRecord],
    size: usize,
    buf: &'a [u8],
    base: usize,
    index: usize,
}

impl<'a> OutSrpTxtEntriesIter<'a> {
    /// The entries that are still to come.
    pub closed spec fn remaining(&self) -> Seq<(Seq<u8>, Seq<u8>)> {
        txt_from(self.entries@, self.size as int, self.buf@, self.base as int, self.index as int)
    }

    /// The entries that the first `size` of `entries` name in `buf`, whose
    /// first byte has the address `base`.
    pub fn new(entries: &'a [SrpTxtRecord], size: usize, buf: &'a [u8], base: usize) -> (iter: Self)
        ensures
            iter.remaining() == txt_from(entries@, size as int, buf@, base as int, 0),
    {
        OutSrpTxtEntriesIter { entries, size, buf, base, index: 0 }
    }

    /// The next entry, its key and its value, or `None` behind the last.
    pub fn next(&mut self) -> (r: Option<(&'a str, &'a [u8])>)
        ensures
            match r {
                Some((key, value)) => {
                    &&& old(self).remaining().len() > 0
                    &&& (key.spec_bytes(), value@) == old(self).remaining()[0]
                    &&& final(self).remaining() == old(self).remaining().drop_first()
                },
                None => old(self).remaining().len() == 0 && final(self).remaining().len() == 0,
            },
    {
        if self.index >= self.entries.len() || self.index >= self.size {
            return None;
        }
        let entry = self.entries[self.index];
        let key = match read_text(self.buf, self.base, entry.key) {
            None => {
                return None;
            },
            Some(key) => key,
        };
        if entry.value < self.base {
            return None;
        }
        let from = entry.value - self.base;
        let len = entry.value_length as usize;
        if from > self.buf.len() || len > self.buf.len() - from {
            return None;
        }
        let value = vstd::slice::slice_subrange(self.buf, from, from + len);
        self.index += 1;
        proof {
            let rest = txt_from(
                self.entries@,
                self.size as int,
                self.buf@,
                self.base as int,
                self.index as int,
            );
            assert((seq![(key.spec_bytes(), value@)] + rest).drop_first() =~= rest);
        }
        Some((key, value))
    }
}

/// An SRP service as returned by `OpenThread::srp_services`.
#[derive(Clone, Copy)]
pub struct OutSrpService<'a> {
    /// The service name.
    pub name: &'a str,
    /// The instance name.
    pub instance_name: &'a str,
    /// The subtype labels.
    pub subtype_labels: OutSrpSubtypeLabelsIter<'a>,
    /// The TXT entries.
    pub txt_entries: OutSrpTxtEntriesIter<'a>,
    /// The service port.
    pub port: u16,
    /// The service priority.
    pub priority: u16,
    /// The service weight.
    pub weight: u16,
    /// The service lease time in seconds.
    pub lease_secs: u32,
    /// The service key lease time in seconds.
    pub key_lease_secs: u32,
}

impl<'a> View for OutSrpService<'a> {
    type V = SrpServiceView;

    open spec fn view(&self) -> SrpServiceView {
        SrpServiceView {
            name: self.name.spec_bytes(),
            instance_name: self.instance_name.spec_bytes(),
            subtype_labels: self.subtype_labels.remaining(),
            txt_entries: self.txt_entries.remaining(),
            port: self.port,
            priority: self.priority,
            weight: self.weight,
            lease_secs: self.lease_secs,
            key_lease_secs: self.key_lease_secs,
        }
    }
}

impl<'a> OutSrpService<'a> {
    /// The service that `ot_srp` names in `buf`, whose first byte has the
    /// address `base`.
    pub fn from(ot_srp: &'a SrpServiceRecord, buf: &'a [u8], base: usize) -> (service: Self)
        ensures
            service@ == service_read(*ot_srp, buf@, base as int),
    {
        OutSrpService {
            name: read_name(buf, base, ot_srp.name),
            instance_name: read_name(buf, base, ot_srp.instance_name),
            subtype_labels: OutSrpSubtypeLabelsIter::new(ot_srp.labels.as_slice(), buf, base),
            txt_entries: OutSrpTxtEntriesIter::new(
                ot_srp.txt.as_slice(),
                ot_srp.num_txt_entries as usize,
                buf,
                base,
            ),
            port: ot_srp.port,
            priority: ot_srp.priority,
            weight: ot_srp.weight,
            lease_secs: ot_srp.lease,
            key_lease_secs: ot_srp.key_lease,
        }
    }
}

/// Label `i` stands in the payload of the labels behind the labels
/// before it, as a C string.
pub proof fn lemma_label_in_payload(labels: Seq<Seq<u8>>, i: int)
    requires
        0 <= i < labels.len(),
    ensures
        labels_payload(labels.take(i)).len() + labels[i].len() + 1 <= labels_payload(labels).len(),
        labels_payload(labels).subrange(
            labels_payload(labels.take(i)).len() as int,
            labels_payload(labels.take(i)).len() as int + labels[i].len() + 1,
        ) == c_str(labels[i]),
    decreases labels.len(),
{
    let front = labels.drop_last();
    if i == labels.len() - 1 {
        assert(labels.take(i) =~= front);
        assert(labels_payload(labels).subrange(
            labels_payload(front).len() as int,
            labels_payload(front).len() as int + labels[i].len() + 1,
        ) =~= c_str(labels[i]));
    } else {
        lemma_label_in_payload(front, i);
        assert(front.take(i) =~= labels.take(i));
        assert(front[i] == labels[i]);
        let from = labels_payload(labels.take(i)).len() as int;
        assert(labels_payload(labels).subrange(from, from + labels[i].len() + 1)
            =~= labels_payload(front).subrange(from, from + labels[i].len() + 1));
    }
}

/// TXT entry `i` stands in the payload of the entries behind the entries
/// before it: its key as a C string, and its value behind the key.
pub proof fn lemma_txt_in_payload(txt: Seq<(Seq<u8>, Seq<u8>)>, i: int)
    requires
        0 <= i < txt.len(),
    ensures
        txt_payload(txt.take(i)).len() + txt[i].0.len() + 1 + txt[i].1.len() <= txt_payload(
            txt,
        ).len(),
        txt_payload(txt).subrange(
            txt_payload(txt.take(i)).len() as int,
            txt_payload(txt.take(i)).len() as int + txt[i].0.len() + 1,
        ) == c_str(txt[i].0),
        txt_payload(txt).subrange(
            txt_payload(txt.take(i)).len() as int + txt[i].0.len() + 1,
            txt_payload(txt.take(i)).len() as int + txt[i].0.len() + 1 + txt[i].1.len(),
        ) == txt[i].1,
    decreases txt.len(),
{
    let front = txt.drop_last();
    let from = txt_payload(txt.take(i)).len() as int;
    let key_end = from + txt[i].0.len() + 1;
    if i == txt.len() - 1 {
        assert(txt.take(i) =~= front);
        assert(txt_payload(txt).subrange(from, key_end) =~= c_str(txt[i].0));
        assert(txt_payload(txt).subrange(key_end, key_end + txt[i].1.len()) =~= txt[i].1);
    } else {
        lemma_txt_in_payload(front, i);
        assert(front.take(i) =~= txt.take(i));
        assert(front[i] == txt[i]);
        assert(txt_payload(txt).subrange(from, key_end) =~= txt_payload(front).subrange(
            from,
            key_end,
        ));
        assert(txt_payload(txt).subrange(key_end, key_end + txt[i].1.len()) =~= txt_payload(
            front,
        ).subrange(key_end, key_end + txt[i].1.len()));
    }
}

/// Where the payload `payload` stands at `start` in `bytes`, and the C
/// string `s`, a text, stands at `at` in the payload, the text at the
/// address of that place is `s`.
proof fn lemma_text_in_payload(
    bytes: Seq<u8>,
    base: int,
    start: int,
    payload: Seq<u8>,
    at: int,
    s: Seq<u8>,
)
    requires
        0 <= base,
        0 <= start,
        start + payload.len() <= bytes.len(),
        bytes.subrange(start, start + payload.len()) == payload,
        0 <= at,
        at + s.len() + 1 <= payload.len(),
        payload.subrange(at, at + s.len() + 1) == c_str(s),
        !s.contains(0u8),
        valid_utf8(s),
    ensures
        text_at(bytes, base, base + start + at) == Some(s),
{
    assert(bytes.subrange(start + at, start + at + s.len() + 1) =~= payload.subrange(
        at,
        at + s.len() + 1,
    ));
    lemma_c_str_in(bytes, start + at, s);
}

/// The labels that a stored service's record names from place `index`
/// on are the labels of the service from that place on.
proof fn lemma_labels_read_back(
    abi: AbiLayout,
    base: int,
    bytes: Seq<u8>,
    record: SrpServiceRecord,
    service: SrpServiceView,
    index: int,
)
    requires
        abi.wf(),
        0 <= base,
        service_stored(abi, base, bytes, record@, service),
        0 <= index <= service.subtype_labels.len(),
    ensures
        labels_from(record.labels@, bytes, base, index) == service.subtype_labels.subrange(
            index,
            service.subtype_labels.len() as int,
        ),
    decreases service.subtype_labels.len() - index,
{
    let labels = service.subtype_labels;
    let layout = service_layout(abi, base, bytes.len() as int, service).unwrap();
    lemma_stored_layout(abi, base, bytes, record, service);
    assert(record@.labels[index] == record.labels@[index] as int);
    if index < labels.len() {
        lemma_labels_read_back(abi, base, bytes, record, service, index + 1);
        let names: int = c_str(service.name).len() as int + c_str(service.instance_name).len();
        let at: int = names + labels_payload(labels.take(index)).len();
        lemma_label_in_payload(labels, index);
        let payload = service_payload(service);
        assert(payload.subrange(at, at + labels[index].len() + 1) =~= labels_payload(
            labels,
        ).subrange(
            labels_payload(labels.take(index)).len() as int,
            labels_payload(labels.take(index)).len() as int + labels[index].len() + 1,
        ));
        lemma_text_in_payload(bytes, base, layout.strings, payload, at, labels[index]);
        assert(label_addr(layout, base, service, index) == base + layout.strings + at);
        assert(seq![labels[index]] + labels.subrange(index + 1, labels.len() as int)
            =~= labels.subrange(index, labels.len() as int));
    } else {
        assert(labels.subrange(index, labels.len() as int) =~= Seq::<Seq<u8>>::empty());
    }
}

/// The TXT entries that a stored service's record names from place
/// `index` on are the entries of the service from that place on, where
/// the record has the numbers of the service in full.
proof fn lemma_txt_read_back(
    abi: AbiLayout,
    base: int,
    bytes: Seq<u8>,
    record: SrpServiceRecord,
    service: SrpServiceView,
    index: int,
)
    requires
        abi.wf(),
        0 <= base,
        service_stored(abi, base, bytes, record@, service),
        service.txt_entries.len() < 256,
        forall|i: int|
            0 <= i < service.txt_entries.len() ==> (#[trigger] service.txt_entries[i]).1.len()
                < 65536,
        0 <= index <= service.txt_entries.len(),
    ensures
        txt_from(record.txt@, record.num_txt_entries as int, bytes, base, index)
            == service.txt_entries.subrange(index, service.txt_entries.len() as int),
    decreases service.txt_entries.len() - index,
{
    let txt = service.txt_entries;
    let layout = service_layout(abi, base, bytes.len() as int, service).unwrap();
    lemma_stored_layout(abi, base, bytes, record, service);
    if index < txt.len() {
        lemma_txt_read_back(abi, base, bytes, record, service, index + 1);
        let entry = record.txt@[index];
        assert(record@.txt[index] == (
            entry.key as int,
            entry.value as int,
            entry.value_length as int,
        ));
        let head: int = c_str(service.name).len() as int + c_str(service.instance_name).len()
            + labels_payload(service.subtype_labels).len();
        let at: int = head + txt_payload(txt.take(index)).len();
        lemma_txt_in_payload(txt, index);
        let payload = service_payload(service);
        let inner = txt_payload(txt.take(index)).len() as int;
        assert(payload.subrange(at, at + txt[index].0.len() + 1) =~= txt_payload(txt).subrange(
            inner,
            inner + txt[index].0.len() + 1,
        ));
        lemma_text_in_payload(bytes, base, layout.strings, payload, at, txt[index].0);
        assert(txt_key_addr(layout, base, service, index) == base + layout.strings + at);
        let value_at: int = at + txt[index].0.len() + 1;
        assert(bytes.subrange(
            layout.strings + value_at,
            layout.strings + value_at + txt[index].1.len(),
        ) =~= txt_payload(txt).subrange(
            inner + txt[index].0.len() + 1,
            inner + txt[index].0.len() + 1 + txt[index].1.len(),
        )) by {
            assert(bytes.subrange(
                layout.strings + value_at,
                layout.strings + value_at + txt[index].1.len(),
            ) =~= payload.subrange(value_at, value_at + txt[index].1.len()));
        }
        assert(txt_entry_at(entry, bytes, base) == Some(txt[index]));
        assert(seq![txt[index]] + txt.subrange(index + 1, txt.len() as int) =~= txt.subrange(
            index,
            txt.len() as int,
        ));
    } else {
        assert(txt.subrange(index, txt.len() as int) =~= Seq::<(Seq<u8>, Seq<u8>)>::empty());
    }
}

/// A stored service lies inside its buffer, behind the two arrays, of
/// which the array of label pointers has bytes.
proof fn lemma_stored_layout(
    abi: AbiLayout,
    base: int,
    bytes: Seq<u8>,
    record: SrpServiceRecord,
    service: SrpServiceView,
)
    requires
        abi.wf(),
        0 <= base,
        service_stored(abi, base, bytes, record@, service),
    ensures
        service_layout(abi, base, bytes.len() as int, service) matches Some(layout) && 0
            < layout.strings && layout.strings + service_payload(service).len() == layout.end
            && layout.end <= bytes.len() && bytes.subrange(layout.strings, layout.end)
            == service_payload(service),
        record@.labels.len() == service.subtype_labels.len() + 1,
        record.labels@.len() == service.subtype_labels.len() + 1,
        record@.txt.len() == service.txt_entries.len(),
        record.txt@.len() == service.txt_entries.len(),
        record.labels@[service.subtype_labels.len() as int] == 0,
{
    let layout = service_layout(abi, base, bytes.len() as int, service).unwrap();
    let txt = placement(
        abi.txt_entry,
        base,
        bytes.len() as int,
        service.txt_entries.len() as int,
    ).unwrap();
    crate::carve::lemma_padding_least(base, abi.txt_entry.align as int);
    assert(0 <= txt.pad && 0 <= txt.bytes) by {
        if service.txt_entries.len() > 0 {
            assert(service.txt_entries.len() * abi.txt_entry.size >= 0) by (nonlinear_arith);
        }
    }
    let used = txt.pad + txt.bytes;
    crate::carve::lemma_padding_least(base + used, abi.pointer.align as int);
    assert((service.subtype_labels.len() as int + 1) * abi.pointer.size > 0) by (nonlinear_arith)
        requires
            service.subtype_labels.len() >= 0,
            abi.pointer.size > 0,
    ;
    let n = service.subtype_labels.len() as int;
    assert(record@.labels == record.labels@.map_values(|a: usize| a as int));
    assert(record@.labels.len() == record.labels@.len());
    assert(record@.txt == record.txt@.map_values(
        |t: SrpTxtRecord| (t.key as int, t.value as int, t.value_length as int),
    ));
    assert(record@.txt.len() == record.txt@.len());
    assert(record@.labels.len() == n + 1);
    assert(record@.labels[n] == record.labels@[n] as int);
}

/// A service that is stored is read back as it was.
///
/// The names, the labels and the TXT entries that the record of a stored
/// service names are those of the service, and the numbers are its
/// numbers. The record counts the TXT entries in 8 bits and the bytes of a
/// value in 16: a service with more is excepted.
pub proof fn law_stored_service_reads_back(
    abi: AbiLayout,
    base: int,
    bytes: Seq<u8>,
    record: SrpServiceRecord,
    service: SrpServiceView,
)
    requires
        abi.wf(),
        0 <= base,
        service_stored(abi, base, bytes, record@, service),
        service.txt_entries.len() < 256,
        forall|i: int|
            0 <= i < service.txt_entries.len() ==> (#[trigger] service.txt_entries[i]).1.len()
                < 65536,
    ensures
        service_read(record, bytes, base) == service,
{
    let layout = service_layout(abi, base, bytes.len() as int, service).unwrap();
    lemma_stored_layout(abi, base, bytes, record, service);
    let payload = service_payload(service);
    assert(payload.subrange(0, service.name.len() as int + 1) =~= c_str(service.name));
    lemma_text_in_payload(bytes, base, layout.strings, payload, 0, service.name);
    let second: int = service.name.len() as int + 1;
    assert(payload.subrange(second, second + service.instance_name.len() + 1) =~= c_str(
        service.instance_name,
    ));
    lemma_text_in_payload(bytes, base, layout.strings, payload, second, service.instance_name);
    lemma_labels_read_back(abi, base, bytes, record, service, 0);
    lemma_txt_read_back(abi, base, bytes, record, service, 0);
    assert(service.subtype_labels.subrange(0, service.subtype_labels.len() as int)
        =~= service.subtype_labels);
    assert(service.txt_entries.subrange(0, service.txt_entries.len() as int)
        =~= service.txt_entries);
    let read = service_read(record, bytes, base);
    assert(read.name == service.name);
    assert(read.instance_name == service.instance_name);
    assert(read.subtype_labels == service.subtype_labels);
    assert(read.txt_entries == service.txt_entries);
}

/// The addresses that the host record `info` names: `num_addresses`
/// addresses of 16 octets each from the address `addresses` on. Without
/// addresses, with a null pointer and where the addresses do not lie in the
/// buffer, there are none.
pub open spec fn addrs_at(info: SrpHostRecord, bytes: Seq<u8>, base: int) -> Seq<Seq<u8>> {
    if info.num_addresses > 0 && info.addresses != 0 && info.addresses >= base && info.addresses
        - base + 16 * info.num_addresses <= bytes.len() {
        Seq::new(
            info.num_addresses as nat,
            |i: int|
                bytes.subrange(
                    info.addresses - base + 16 * i,
                    info.addresses - base + 16 * i + 16,
                ),
        )
    } else {
        Seq::empty()
    }
}

/// The configuration that the host record `info` names in a buffer
/// `bytes` at address `base`, with the times that the stack reports.
pub open spec fn conf_read(
    info: SrpHostRecord,
    bytes: Seq<u8>,
    base: int,
    ttl: u32,
    default_lease_secs: u32,
    default_key_lease_secs: u32,
) -> SrpConfView {
    SrpConfView {
        host_name: name_at(bytes, base, info.name as int),
        host_addrs: addrs_at(info, bytes, base),
        ttl,
        default_lease_secs,
        default_key_lease_secs,
    }
}

/// The SRP configuration as returned by `OpenThread::srp_conf`.
pub struct OutSrpConf<'a> {
    /// SRP hostname
    pub host_name: &'a str,
    /// SRP host Ipv6 addresses, each by its 16 octets.
    pub host_addrs: Vec<[u8; 16]>,
    /// SRP TTL (Time To Live) value.
    pub ttl: u32,
    /// Default lease time for SRP services.
    pub default_lease_secs: u32,
    /// Default key lease time for SRP services' keys.
    pub default_key_lease_secs: u32,
}

impl<'a> View for OutSrpConf<'a> {
    type V = SrpConfView;

    open spec fn view(&self) -> SrpConfView {
        SrpConfView {
            host_name: self.host_name.spec_bytes(),
            host_addrs: self.host_addrs@.map_values(|a: [u8; 16]| a@),
            ttl: self.ttl,
            default_lease_secs: self.default_lease_secs,
            default_key_lease_secs: self.default_key_lease_secs,
        }
    }
}

impl<'a> OutSrpConf<'a> {
    /// The configuration that the host record `info` names in `buf`,
    /// whose first byte has the address `base`, with the times that the
    /// stack reports.
    pub fn from(
        info: &SrpHostRecord,
        buf: &'a [u8],
        base: usize,
        ttl: u32,
        default_lease_secs: u32,
        default_key_lease_secs: u32,
    ) -> (conf: Self)
        ensures
            conf@ == conf_read(
                *info,
                buf@,
                base as int,
                ttl,
                default_lease_secs,
                default_key_lease_secs,
            ),
    {
        let host_name = read_name(buf, base, info.name);
        let mut host_addrs: Vec<[u8; 16]> = Vec::new();
        let count = info.num_addresses as usize;
        if count > 0 && info.addresses != 0 && info.addresses >= base {
            let from = info.addresses - base;
            let total = buf.len();
            if from <= total && 16 * count <= total - from {
                let mut index: usize = 0;
                while index < count
                    invariant
                        index <= count,
                        total == buf@.len(),
                        count == info.num_addresses,
                        from == info.addresses - base,
                        from + 16 * count <= buf@.len(),
                        host_addrs@.len() == index,
                        forall|i: int|
                            0 <= i < index ==> (#[trigger] host_addrs@[i])@ == buf@.subrange(
                                from + 16 * i,
                                from + 16 * i + 16,
                            ),
                    decreases count - index,
                {
                    let mut addr: [u8; 16] = [0u8; 16];
                    let mut j: usize = 0;
                    while j < 16
                        invariant
                            j <= 16,
                            index < count,
                            total == buf@.len(),
                            from + 16 * count <= buf@.len(),
                            forall|k: int| 0 <= k < j ==> addr@[k] == buf@[from + 16 * index + k],
                        decreases 16 - j,
                    {
                        addr[j] = buf[from + 16 * index + j];
                        j += 1;
                    }
                    assert(addr@ =~= buf@.subrange(from + 16 * index, from + 16 * index + 16));
                    host_addrs.push(addr);
                    index += 1;
                }
            }
        }
        let conf = OutSrpConf {
            host_name,
            host_addrs,
            ttl,
            default_lease_secs,
            default_key_lease_secs,
        };
        assert(conf@.host_addrs =~= addrs_at(*info, buf@, base as int));
        conf
    }
}

/// A host configuration that is stored is read back as it was.
///
/// The host name and the addresses that the record of a stored
/// configuration names are those of the configuration. The record counts
/// the addresses in 8 bits: a configuration with more is excepted.
pub proof fn law_stored_conf_reads_back(
    abi: AbiLayout,
    base: int,
    bytes: Seq<u8>,
    record: SrpHostRecord,
    conf: SrpConfView,
)
    requires
        abi.wf(),
        0 < base,
        base + bytes.len() <= usize::MAX,
        conf_stored(abi, base, bytes, record, conf),
        conf.host_addrs.len() < 256,
    ensures
        conf_read(
            record,
            bytes,
            base,
            conf.ttl,
            conf.default_lease_secs,
            conf.default_key_lease_secs,
        ) == conf,
{
    let layout = conf_layout(abi, base, bytes.len() as int, conf).unwrap();
    let count = conf.host_addrs.len() as int;
    let payload = addrs_payload(conf.host_addrs) + c_str(conf.host_name);
    lemma_addrs_payload(conf.host_addrs);
    crate::carve::lemma_padding_least(base, abi.ip6_address.align as int);
    assert(payload.subrange(16 * count, 16 * count + conf.host_name.len() + 1) =~= c_str(
        conf.host_name,
    ));
    lemma_text_in_payload(bytes, base, layout.addrs.pad, payload, 16 * count, conf.host_name);
    let read = addrs_at(record, bytes, base);
    if count > 0 {
        assert(layout.addrs.bytes == count * 16);
        assert(layout.addrs.start == base + layout.addrs.pad);
        assert forall|i: int| 0 <= i < count implies read[i] == conf.host_addrs[i] by {
            let from = layout.addrs.pad + 16 * i;
            assert(bytes.subrange(from, from + 16) =~= payload.subrange(16 * i, 16 * i + 16));
            assert(payload.subrange(16 * i, 16 * i + 16) =~= conf.host_addrs[i]) by {
                assert forall|j: int| 0 <= j < 16 implies payload[16 * i + j]
                    == conf.host_addrs[i][j] by {
                    assert(payload[16 * i + j] == addrs_payload(conf.host_addrs)[16 * i + j]);
                }
            }
        }
        assert(read =~= conf.host_addrs);
    } else {
        assert(read =~= conf.host_addrs);
    }
}

} // verus!
