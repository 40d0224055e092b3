//! Storing a host configuration or a service in a buffer, in the form in
//! which the stack reads it.
//!
//! The arrays that the stack reads by type come first, each at its
//! alignment; the strings follow them without gaps, each closed by a NUL.

use vstd::prelude::*;
use vstd::string::StringSliceAdditionalSpecFns;
use crate::carve::align_min;
use crate::carve::c_str_error;
use crate::carve::placement;
use crate::carve::store_data;
use crate::carve::store_str;
use crate::carve::Placement;
use crate::error::error_of;
use crate::error::OtError;
use crate::error::OT_ERROR_INVALID_ARGS;
use crate::error::OT_ERROR_NO_BUFS;
use crate::srp::types::AbiLayout;
use crate::srp::types::SrpConf;
use crate::srp::types::SrpConfView;
use crate::srp::types::SrpHostRecord;
use crate::srp::types::SrpService;
use crate::srp::types::SrpServiceRecord;
use crate::srp::types::SrpServiceRecordView;
use crate::srp::types::SrpServiceView;
use crate::srp::types::SrpTxtRecord;

verus! {

/// The bytes of a C string with content `s`.
pub open spec fn c_str(s: Seq<u8>) -> Seq<u8> {
    s.push(0u8)
}

/// The octets of all addresses, one address after the other.
pub open spec fn addrs_payload(addrs: Seq<Seq<u8>>) -> Seq<u8>
    decreases addrs.len(),
{
    if addrs.len() == 0 {
        Seq::empty()
    } else {
        addrs_payload(addrs.drop_last()) + addrs.last()
    }
}

/// Where the parts of a stored host configuration lie in its buffer.
pub struct ConfLayout {
    /// The array of addresses.
    pub addrs: Placement,
    /// The offset of the host name.
    pub name: int,
    /// The offset behind the last byte written.
    pub end: int,
}

/// Where the parts of `conf` go in a buffer of `len` bytes at address
/// `addr`, or `None` when the buffer is too small.
pub open spec fn conf_layout(abi: AbiLayout, addr: int, len: int, conf: SrpConfView) -> Option<
    ConfLayout,
> {
    match placement(abi.ip6_address, addr, len, conf.host_addrs.len() as int) {
        None => None,
        Some(addrs) => {
            let name = addrs.pad + addrs.bytes;
            let end = name + conf.host_name.len() + 1;
            if end <= len {
                Some(ConfLayout { addrs, name, end })
            } else {
                None
            }
        },
    }
}

/// The host record of `conf` stored with `layout` in a buffer at `addr`.
/// What the record said of the host's state stays.
pub open spec fn host_record_of(
    layout: ConfLayout,
    addr: int,
    conf: SrpConfView,
    before: SrpHostRecord,
) -> SrpHostRecord {
    SrpHostRecord {
        name: (addr + layout.name) as usize,
        addresses: if conf.host_addrs.len() == 0 {
            0
        } else {
            layout.addrs.start as usize
        },
        num_addresses: (conf.host_addrs.len() % 256) as u8,
        auto_address: conf.host_addrs.len() == 0,
        state: before.state,
    }
}

/// The buffer `before` with `conf` stored in it by `layout`.
pub open spec fn conf_image(layout: ConfLayout, conf: SrpConfView, before: Seq<u8>) -> Seq<u8> {
    before.subrange(0, layout.addrs.pad) + addrs_payload(conf.host_addrs) + c_str(conf.host_name)
        + before.subrange(layout.end, before.len() as int)
}

/// All addresses have 16 octets, so the payload of `n` of them has `16 * n`
/// bytes and address `i` starts at byte `16 * i`.
pub proof fn lemma_addrs_payload(addrs: Seq<Seq<u8>>)
    requires
        forall|i: int| 0 <= i < addrs.len() ==> (#[trigger] addrs[i]).len() == 16,
    ensures
        addrs_payload(addrs).len() == 16 * addrs.len(),
        forall|i: int, j: int|
            0 <= i < addrs.len() && 0 <= j < 16 ==> addrs_payload(addrs)[16 * i + j]
                == #[trigger] addrs[i][j],
    decreases addrs.len(),
{
    if addrs.len() > 0 {
        let front = addrs.drop_last();
        lemma_addrs_payload(front);
        assert forall|i: int, j: int| 0 <= i < addrs.len() && 0 <= j < 16 implies addrs_payload(
            addrs,
        )[16 * i + j] == #[trigger] addrs[i][j] by {
            if i < front.len() {
                assert(front[i] == addrs[i]);
            }
        }
    }
}

impl<'a> SrpConf<'a> {
    /// Stores the configuration in `buf`, whose first byte has the address
    /// `addr`, and names in `ot_srp` what was stored where.
    ///
    /// The addresses come first, at the alignment of an address, and the
    /// host name follows them. Addresses or a host name that find no room
    /// give `OT_ERROR_NO_BUFS`; a host name that finds room and has a NUL
    /// inside gives `OT_ERROR_INVALID_ARGS`. After an error nothing is
    /// written.
    pub fn store(&self, ot_srp: &mut SrpHostRecord, abi: &AbiLayout, addr: usize, buf: &mut [u8]) -> (r:
        Result<(), OtError>)
        requires
            abi.wf(),
            addr + old(buf)@.len() <= usize::MAX,
        ensures
            match conf_store_error(*abi, addr as int, old(buf)@.len() as int, self@) {
                None => {
                    &&& r is Ok
                    &&& self@.storable()
                    &&& conf_layout(*abi, addr as int, old(buf)@.len() as int, self@) matches Some(
                        layout,
                    )
                    &&& *final(ot_srp) == host_record_of(layout, addr as int, self@, *old(ot_srp))
                    &&& final(buf)@ == conf_image(layout, self@, old(buf)@)
                },
                Some(code) => {
                    &&& r == Err::<(), OtError>(error_of(code))
                    &&& *final(ot_srp) == *old(ot_srp)
                    &&& final(buf)@ == old(buf)@
                },
            },
    {
        let ghost before = buf@;
        let ghost len = buf@.len() as int;
        let ghost view = self@;
        let n = self.host_addrs.len();
        let len0 = buf.len();
        let (start, addrs, rest) = match align_min(abi.ip6_address, addr, buf, n) {
            Ok(carved) => carved,
            Err(e) => {
                return Err(e);
            },
        };
        let ghost place = placement(abi.ip6_address, addr as int, len, n as int).unwrap();
        let name_pos = addr + (len0 - rest.len());
        let (_name, rest) = match store_str(self.host_name, rest) {
            Ok(stored) => stored,
            Err(e) => {
                return Err(e);
            },
        };
        proof {
            assert(view.host_addrs.len() == n);
            assert forall|i: int| 0 <= i < n implies (#[trigger] view.host_addrs[i]).len()
                == 16 by {
                assert(view.host_addrs[i] == self.host_addrs@[i]@);
            }
            lemma_addrs_payload(view.host_addrs);
            if n > 0 {
                assert(place.bytes == n * 16);
            }
        }
        let total = addrs.len();
        let mut index: usize = 0;
        while index < n
            invariant
                index <= n,
                total == 16 * n,
                n == self.host_addrs@.len(),
                view == self@,
                addrs@.len() == 16 * n,
                addrs_payload(view.host_addrs).len() == 16 * n,
                forall|i: int, j: int|
                    0 <= i < n && 0 <= j < 16 ==> addrs_payload(view.host_addrs)[16 * i + j]
                        == #[trigger] view.host_addrs[i][j],
                forall|k: int| 0 <= k < 16 * index ==> addrs@[k] == addrs_payload(view.host_addrs)[k],
            decreases n - index,
        {
            let ip = &self.host_addrs[index];
            let mut j: usize = 0;
            while j < 16
                invariant
                    j <= 16,
                    index < n,
                    total == 16 * n,
                    n == self.host_addrs@.len(),
                    view == self@,
                    *ip == self.host_addrs@[index as int],
                    addrs@.len() == 16 * n,
                    addrs_payload(view.host_addrs).len() == 16 * n,
                    forall|i: int, j: int|
                        0 <= i < n && 0 <= j < 16 ==> addrs_payload(view.host_addrs)[16 * i + j]
                            == #[trigger] view.host_addrs[i][j],
                    forall|k: int|
                        0 <= k < 16 * index + j ==> addrs@[k] == addrs_payload(view.host_addrs)[k],
                decreases 16 - j,
            {
                proof {
                    assert(view.host_addrs[index as int][j as int] == ip@[j as int]);
                }
                addrs[16 * index + j] = ip[j];
                j += 1;
            }
            index += 1;
        }
        assert(addrs@ =~= addrs_payload(view.host_addrs));
        ot_srp.name = name_pos;
        ot_srp.addresses = if n == 0 {
            0
        } else {
            start
        };
        ot_srp.num_addresses = (n % 256) as u8;
        ot_srp.auto_address = n == 0;
        proof {
            let layout = conf_layout(*abi, addr as int, len, view).unwrap();
            assert(rest@ =~= before.subrange(layout.end, len));
            assert(final(buf)@ =~= conf_image(layout, view, before));
        }
        Ok(())
    }
}

/// The labels as C strings, one after the other.
pub open spec fn labels_payload(labels: Seq<Seq<u8>>) -> Seq<u8>
    decreases labels.len(),
{
    if labels.len() == 0 {
        Seq::empty()
    } else {
        labels_payload(labels.drop_last()) + c_str(labels.last())
    }
}

/// The TXT entries one after the other, each as its key, a C string, and
/// its value right behind it.
pub open spec fn txt_payload(txt: Seq<(Seq<u8>, Seq<u8>)>) -> Seq<u8>
    decreases txt.len(),
{
    if txt.len() == 0 {
        Seq::empty()
    } else {
        txt_payload(txt.drop_last()) + c_str(txt.last().0) + txt.last().1
    }
}

/// All strings of a service in the order in which they are stored: the
/// name, the instance name, the labels, the TXT entries.
pub open spec fn service_payload(service: SrpServiceView) -> Seq<u8> {
    c_str(service.name) + c_str(service.instance_name) + labels_payload(service.subtype_labels)
        + txt_payload(service.txt_entries)
}

/// Where the parts of a stored service lie in its buffer.
pub struct ServiceLayout {
    /// The array of TXT entries.
    pub txt: Placement,
    /// The array of label pointers.
    pub labels: Placement,
    /// The offset of the first string, the service name.
    pub strings: int,
    /// The offset behind the last byte written.
    pub end: int,
}

/// Where the parts of `service` go in a buffer of `len` bytes at address
/// `addr`, or `None` when the buffer is too small. The array of TXT
/// entries comes first, then the array of label pointers, which has one
/// pointer more than there are labels, then the strings.
pub open spec fn service_layout(abi: AbiLayout, addr: int, len: int, service: SrpServiceView) -> Option<
    ServiceLayout,
> {
    match placement(abi.txt_entry, addr, len, service.txt_entries.len() as int) {
        None => None,
        Some(txt) => {
            let used = txt.pad + txt.bytes;
            match placement(
                abi.pointer,
                addr + used,
                len - used,
                service.subtype_labels.len() as int + 1,
            ) {
                None => None,
                Some(labels) => {
                    let strings = used + labels.pad + labels.bytes;
                    let end = strings + service_payload(service).len();
                    if end <= len {
                        Some(ServiceLayout { txt, labels, strings, end })
                    } else {
                        None
                    }
                },
            }
        },
    }
}

/// The offset at which the strings of `service` begin in a buffer of `len`
/// bytes at address `addr`: the first byte behind the two arrays. There is
/// none where the arrays find no room.
pub open spec fn strings_offset(abi: AbiLayout, addr: int, len: int, service: SrpServiceView) -> Option<
    int,
> {
    match placement(abi.txt_entry, addr, len, service.txt_entries.len() as int) {
        None => None,
        Some(txt) => {
            let used = txt.pad + txt.bytes;
            match placement(
                abi.pointer,
                addr + used,
                len - used,
                service.subtype_labels.len() as int + 1,
            ) {
                None => None,
                Some(labels) => Some(used + labels.pad + labels.bytes),
            }
        },
    }
}

/// The address of label `i` of `service`, stored with `layout` at `addr`.
pub open spec fn label_addr(layout: ServiceLayout, addr: int, service: SrpServiceView, i: int) -> int {
    addr + layout.strings + c_str(service.name).len() + c_str(service.instance_name).len()
        + labels_payload(service.subtype_labels.take(i)).len()
}

/// The address of the key of TXT entry `i` of `service`, stored with
/// `layout` at `addr`. The entry's value follows the key.
pub open spec fn txt_key_addr(layout: ServiceLayout, addr: int, service: SrpServiceView, i: int) -> int {
    addr + layout.strings + c_str(service.name).len() + c_str(service.instance_name).len()
        + labels_payload(service.subtype_labels).len() + txt_payload(
        service.txt_entries.take(i),
    ).len()
}

/// The record of `service` stored with `layout` in a buffer at `addr`.
/// The array of label pointers ends with a null pointer. The numbers that
/// the record holds in fewer bits than the service keep their low bits.
pub open spec fn service_record_of(layout: ServiceLayout, addr: int, service: SrpServiceView) -> SrpServiceRecordView {
    SrpServiceRecordView {
        name: addr + layout.strings,
        instance_name: addr + layout.strings + c_str(service.name).len(),
        sub_type_labels: layout.labels.start,
        labels: Seq::new(
            service.subtype_labels.len() + 1,
            |i: int|
                if i < service.subtype_labels.len() {
                    label_addr(layout, addr, service, i)
                } else {
                    0
                },
        ),
        txt_entries: layout.txt.start,
        txt: Seq::new(
            service.txt_entries.len(),
            |i: int|
                (
                    txt_key_addr(layout, addr, service, i),
                    txt_key_addr(layout, addr, service, i) + c_str(service.txt_entries[i].0).len(),
                    service.txt_entries[i].1.len() as int % 65536,
                ),
        ),
        num_txt_entries: service.txt_entries.len() as int % 256,
        port: service.port,
        priority: service.priority,
        weight: service.weight,
        state: 0,
        lease: service.lease_secs,
        key_lease: service.key_lease_secs,
    }
}

/// The buffer `before` with `service` stored in it by `layout`: the
/// strings stand where `layout` says, and every other byte is as it was.
pub open spec fn service_image(layout: ServiceLayout, service: SrpServiceView, before: Seq<u8>) -> Seq<u8> {
    before.subrange(0, layout.strings) + service_payload(service) + before.subrange(
        layout.end,
        before.len() as int,
    )
}

/// The payload of the first `i + 1` labels is that of the first `i` and
/// label `i` behind it; no part of the labels is longer than all of them.
pub proof fn lemma_labels_payload_step(labels: Seq<Seq<u8>>, i: int)
    requires
        0 <= i <= labels.len(),
    ensures
        i < labels.len() ==> labels_payload(labels.take(i + 1)) == labels_payload(labels.take(i))
            + c_str(labels[i]),
        labels_payload(labels.take(i)).len() <= labels_payload(labels).len(),
        labels_payload(labels.take(labels.len() as int)) == labels_payload(labels),
        labels_payload(labels.take(0)) == Seq::<u8>::empty(),
    decreases labels.len() - i,
{
    assert(labels.take(labels.len() as int) =~= labels);
    if i < labels.len() {
        assert(labels.take(i + 1).drop_last() =~= labels.take(i));
        assert(labels.take(i + 1).last() == labels[i]);
        lemma_labels_payload_step(labels, i + 1);
    }
}

/// The payload of the first `i + 1` TXT entries is that of the first `i`
/// and entry `i` behind it; no part of the entries is longer than all of
/// them.
pub proof fn lemma_txt_payload_step(txt: Seq<(Seq<u8>, Seq<u8>)>, i: int)
    requires
        0 <= i <= txt.len(),
    ensures
        i < txt.len() ==> txt_payload(txt.take(i + 1)) == txt_payload(txt.take(i)) + c_str(
            txt[i].0,
        ) + txt[i].1,
        txt_payload(txt.take(i)).len() <= txt_payload(txt).len(),
        txt_payload(txt.take(txt.len() as int)) == txt_payload(txt),
        txt_payload(txt.take(0)) == Seq::<u8>::empty(),
    decreases txt.len() - i,
{
    assert(txt.take(txt.len() as int) =~= txt);
    if i < txt.len() {
        assert(txt.take(i + 1).drop_last() =~= txt.take(i));
        assert(txt.take(i + 1).last() == txt[i]);
        lemma_txt_payload_step(txt, i + 1);
    }
}

/// The error that storing the labels from place `from` on in `room`
/// bytes ends with, if it ends with one: the error of the first label that
/// cannot be stored behind the labels before it.
pub open spec fn labels_error(labels: Seq<Seq<u8>>, from: int, room: int) -> Option<u32>
    decreases labels.len() - from,
{
    if from < 0 || from >= labels.len() {
        None
    } else {
        match c_str_error(labels[from], room) {
            Some(code) => Some(code),
            None => labels_error(labels, from + 1, room - labels[from].len() - 1),
        }
    }
}

/// The error that storing the TXT entries from place `from` on in `room`
/// bytes ends with, if it ends with one: the error of the first key that
/// cannot be stored, or `OT_ERROR_NO_BUFS` for the first value that finds
/// no room behind its key.
pub open spec fn txt_error(txt: Seq<(Seq<u8>, Seq<u8>)>, from: int, room: int) -> Option<u32>
    decreases txt.len() - from,
{
    if from < 0 || from >= txt.len() {
        None
    } else {
        match c_str_error(txt[from].0, room) {
            Some(code) => Some(code),
            None => if txt[from].1.len() > room - txt[from].0.len() - 1 {
                Some(OT_ERROR_NO_BUFS)
            } else {
                txt_error(txt, from + 1, room - txt[from].0.len() - 1 - txt[from].1.len())
            },
        }
    }
}

/// The error that storing the strings of `service` in `room` bytes ends
/// with, if it ends with one: the error of the first string, in the order
/// in which they are stored, that cannot be stored behind those before it.
pub open spec fn strings_error(service: SrpServiceView, room: int) -> Option<u32> {
    match c_str_error(service.name, room) {
        Some(code) => Some(code),
        None => match c_str_error(service.instance_name, room - c_str(service.name).len()) {
            Some(code) => Some(code),
            None => match labels_error(
                service.subtype_labels,
                0,
                room - c_str(service.name).len() - c_str(service.instance_name).len(),
            ) {
                Some(code) => Some(code),
                None => txt_error(
                    service.txt_entries,
                    0,
                    room - c_str(service.name).len() - c_str(service.instance_name).len()
                        - labels_payload(service.subtype_labels).len(),
                ),
            },
        },
    }
}

/// The error that storing `service` in a buffer of `len` bytes at address
/// `addr` ends with, if it ends with one: `OT_ERROR_NO_BUFS` where the two
/// arrays find no room, else the error of the strings behind them.
pub open spec fn service_store_error(
    abi: AbiLayout,
    addr: int,
    len: int,
    service: SrpServiceView,
) -> Option<u32> {
    match strings_offset(abi, addr, len, service) {
        None => Some(OT_ERROR_NO_BUFS),
        Some(strings) => strings_error(service, len - strings),
    }
}

/// The error that storing `conf` in a buffer of `len` bytes at address
/// `addr` ends with, if it ends with one: `OT_ERROR_NO_BUFS` where the
/// addresses find no room, else the error of the host name behind them.
pub open spec fn conf_store_error(abi: AbiLayout, addr: int, len: int, conf: SrpConfView) -> Option<
    u32,
> {
    match placement(abi.ip6_address, addr, len, conf.host_addrs.len() as int) {
        None => Some(OT_ERROR_NO_BUFS),
        Some(addrs) => c_str_error(conf.host_name, len - addrs.pad - addrs.bytes),
    }
}

/// The labels from place `from` on are stored without error exactly when
/// none of them has a NUL inside and all of them find room. An error is
/// one of the two that a string can have.
pub proof fn lemma_labels_error(labels: Seq<Seq<u8>>, from: int, room: int)
    requires
        0 <= from <= labels.len(),
        0 <= room,
    ensures
        labels_error(labels, from, room) is None <==> (forall|i: int|
            from <= i < labels.len() ==> !(#[trigger] labels[i]).contains(0u8)) && labels_payload(
            labels,
        ).len() - labels_payload(labels.take(from)).len() <= room,
        labels_error(labels, from, room) matches Some(code) ==> code == OT_ERROR_NO_BUFS || code
            == OT_ERROR_INVALID_ARGS,
    decreases labels.len() - from,
{
    lemma_labels_payload_step(labels, from);
    if from < labels.len() {
        if c_str_error(labels[from], room) is None {
            lemma_labels_error(labels, from + 1, room - labels[from].len() - 1);
        }
        lemma_labels_payload_step(labels, from + 1);
    }
}

/// The TXT entries from place `from` on are stored without error exactly
/// when no key has a NUL inside and all of them find room. An error is
/// one of the two that a string can have.
pub proof fn lemma_txt_error(txt: Seq<(Seq<u8>, Seq<u8>)>, from: int, room: int)
    requires
        0 <= from <= txt.len(),
        0 <= room,
    ensures
        txt_error(txt, from, room) is None <==> (forall|i: int|
            from <= i < txt.len() ==> !(#[trigger] txt[i]).0.contains(0u8)) && txt_payload(
            txt,
        ).len() - txt_payload(txt.take(from)).len() <= room,
        txt_error(txt, from, room) matches Some(code) ==> code == OT_ERROR_NO_BUFS || code
            == OT_ERROR_INVALID_ARGS,
    decreases txt.len() - from,
{
    lemma_txt_payload_step(txt, from);
    if from < txt.len() {
        if c_str_error(txt[from].0, room) is None && txt[from].1.len() <= room - txt[from].0.len()
            - 1 {
            lemma_txt_error(txt, from + 1, room - txt[from].0.len() - 1 - txt[from].1.len());
        }
        lemma_txt_payload_step(txt, from + 1);
    }
}

/// The strings of a service are stored without error exactly when the
/// service can be stored and its strings find room.
pub proof fn lemma_strings_error(service: SrpServiceView, room: int)
    requires
        0 <= room,
    ensures
        strings_error(service, room) is None <==> service.storable() && service_payload(
            service,
        ).len() <= room,
        strings_error(service, room) matches Some(code) ==> code == OT_ERROR_NO_BUFS || code
            == OT_ERROR_INVALID_ARGS,
{
    let r1 = room - c_str(service.name).len();
    let r2 = r1 - c_str(service.instance_name).len();
    lemma_labels_payload_step(service.subtype_labels, 0);
    lemma_txt_payload_step(service.txt_entries, 0);
    if c_str_error(service.name, room) is None && c_str_error(service.instance_name, r1) is None {
        lemma_labels_error(service.subtype_labels, 0, r2);
        if labels_error(service.subtype_labels, 0, r2) is None {
            lemma_txt_error(
                service.txt_entries,
                0,
                r2 - labels_payload(service.subtype_labels).len(),
            );
        }
    }
}

/// A service is stored without error exactly when it can be stored and
/// finds room; a service that can be stored and finds no room has the
/// error `OT_ERROR_NO_BUFS`.
pub proof fn lemma_service_store_error(abi: AbiLayout, addr: int, len: int, service: SrpServiceView)
    requires
        abi.wf(),
        0 <= addr,
        0 <= len,
    ensures
        service_store_error(abi, addr, len, service) is None <==> service.storable()
            && service_layout(abi, addr, len, service) is Some,
        service_store_error(abi, addr, len, service) matches Some(code) ==> code
            == OT_ERROR_NO_BUFS || code == OT_ERROR_INVALID_ARGS,
        service.storable() && service_layout(abi, addr, len, service) is None
            ==> service_store_error(abi, addr, len, service) == Some(OT_ERROR_NO_BUFS),
{
    match strings_offset(abi, addr, len, service) {
        None => {},
        Some(strings) => {
            let txt = placement(
                abi.txt_entry,
                addr,
                len,
                service.txt_entries.len() as int,
            ).unwrap();
            crate::carve::lemma_padding_least(addr, abi.txt_entry.align as int);
            assert(0 <= txt.pad && 0 <= txt.bytes) by {
                if service.txt_entries.len() > 0 {
                    assert(service.txt_entries.len() * abi.txt_entry.size >= 0)
                        by (nonlinear_arith);
                }
            }
            lemma_strings_error(service, len - strings);
            if service.storable() && service_payload(service).len() > len - strings {
                lemma_strings_no_nul_error(service, len - strings);
            }
        },
    }
}

/// A configuration is stored without error exactly when its host name has
/// no NUL inside and it finds room.
pub proof fn lemma_conf_store_error(abi: AbiLayout, addr: int, len: int, conf: SrpConfView)
    ensures
        conf_store_error(abi, addr, len, conf) is None <==> !conf.host_name.contains(0u8)
            && conf_layout(abi, addr, len, conf) is Some,
        conf_store_error(abi, addr, len, conf) matches Some(code) ==> code == OT_ERROR_NO_BUFS
            || code == OT_ERROR_INVALID_ARGS,
{
}

/// Strings without a NUL inside that find no room end with
/// `OT_ERROR_NO_BUFS`.
proof fn lemma_strings_no_nul_error(service: SrpServiceView, room: int)
    requires
        0 <= room,
        service.storable(),
        service_payload(service).len() > room,
    ensures
        strings_error(service, room) == Some(OT_ERROR_NO_BUFS),
{
    let r1 = room - c_str(service.name).len();
    let r2 = r1 - c_str(service.instance_name).len();
    lemma_strings_error(service, room);
    if c_str_error(service.name, room) is None && c_str_error(service.instance_name, r1) is None {
        lemma_labels_no_nul_error(service.subtype_labels, 0, r2);
        if labels_error(service.subtype_labels, 0, r2) is None {
            lemma_txt_no_nul_error(
                service.txt_entries,
                0,
                r2 - labels_payload(service.subtype_labels).len(),
            );
        }
    }
}

/// Labels without a NUL inside have no error but `OT_ERROR_NO_BUFS`.
proof fn lemma_labels_no_nul_error(labels: Seq<Seq<u8>>, from: int, room: int)
    requires
        0 <= from <= labels.len(),
        forall|i: int| 0 <= i < labels.len() ==> !(#[trigger] labels[i]).contains(0u8),
    ensures
        labels_error(labels, from, room) matches Some(code) ==> code == OT_ERROR_NO_BUFS,
    decreases labels.len() - from,
{
    if from < labels.len() && c_str_error(labels[from], room) is None {
        lemma_labels_no_nul_error(labels, from + 1, room - labels[from].len() - 1);
    }
}

/// TXT entries whose keys have no NUL inside have no error but
/// `OT_ERROR_NO_BUFS`.
proof fn lemma_txt_no_nul_error(txt: Seq<(Seq<u8>, Seq<u8>)>, from: int, room: int)
    requires
        0 <= from <= txt.len(),
        forall|i: int| 0 <= i < txt.len() ==> !(#[trigger] txt[i]).0.contains(0u8),
    ensures
        txt_error(txt, from, room) matches Some(code) ==> code == OT_ERROR_NO_BUFS,
    decreases txt.len() - from,
{
    if from < txt.len() && c_str_error(txt[from].0, room) is None && txt[from].1.len() <= room
        - txt[from].0.len() - 1 {
        lemma_txt_no_nul_error(txt, from + 1, room - txt[from].0.len() - 1 - txt[from].1.len());
    }
}

/// The labels by their bytes.
pub open spec fn labels_view(labels: Seq<&str>) -> Seq<Seq<u8>> {
    labels.map_values(|s: &str| s.spec_bytes())
}

/// The TXT entries by their bytes.
pub open spec fn txt_view(entries: Seq<(&str, &[u8])>) -> Seq<(Seq<u8>, Seq<u8>)> {
    entries.map_values(|e: (&str, &[u8])| (e.0.spec_bytes(), e.1@))
}

/// Stores the labels as C strings at the front of `buf`, whose first byte
/// has the address `addr`, and hands back the address of each and the rest
/// of `buf`.
fn store_labels<'t>(labels: &[&str], addr: usize, buf: &'t mut [u8]) -> (r: Result<
    (Vec<usize>, &'t mut [u8]),
    OtError,
>)
    requires
        addr + old(buf)@.len() <= usize::MAX,
    ensures
        labels_error(labels_view(labels@), 0, old(buf)@.len() as int) is None ==> {
            &&& r matches Ok((addrs, rest))
            &&& addrs@.len() == labels@.len()
            &&& forall|j: int|
                0 <= j < labels@.len() ==> addrs@[j] == addr + labels_payload(
                    labels_view(labels@).take(j),
                ).len()
            &&& rest@ == old(buf)@.subrange(
                labels_payload(labels_view(labels@)).len() as int,
                old(buf)@.len() as int,
            )
            &&& final(buf)@ == labels_payload(labels_view(labels@)) + final(rest)@
        },
        labels_error(labels_view(labels@), 0, old(buf)@.len() as int) matches Some(code) ==> {
            &&& r == Err::<(Vec<usize>, &mut [u8]), OtError>(error_of(code))
            &&& final(buf)@.len() == old(buf)@.len()
        },
{
    let ghost before = buf@;
    let ghost len = buf@.len() as int;
    let ghost vl = labels_view(labels@);
    let len0 = buf.len();
    let n = labels.len();
    proof {
        lemma_labels_payload_step(vl, 0);
    }
    let mut cur = buf;
    let mut addrs: Vec<usize> = Vec::new();
    let mut index: usize = 0;
    while index < n
        invariant
            index <= n,
            n == labels@.len(),
            vl == labels_view(labels@),
            labels_error(vl, 0, len) == labels_error(
                vl,
                index as int,
                len - labels_payload(vl.take(index as int)).len(),
            ),
            before == old(buf)@,
            len == before.len(),
            len0 == len,
            addr + len <= usize::MAX,
            labels_payload(vl.take(index as int)).len() <= len,
            cur@ == before.subrange(labels_payload(vl.take(index as int)).len() as int, len),
            final(buf)@ == labels_payload(vl.take(index as int)) + final(cur)@,
            addrs@.len() == index,
            forall|j: int|
                0 <= j < index ==> addrs@[j] == addr + labels_payload(vl.take(j)).len(),
        decreases n - index,
    {
        let pos = addr + (len0 - cur.len());
        let label = labels[index];
        proof {
            assert(vl[index as int] == label.spec_bytes());
            lemma_labels_payload_step(vl, index as int);
            lemma_labels_payload_step(vl, index + 1);
        }
        match store_str(label, cur) {
            Ok((_, rem)) => {
                addrs.push(pos);
                proof {
                    assert(rem@ =~= before.subrange(
                        labels_payload(vl.take(index + 1)).len() as int,
                        len,
                    ));
                }
                cur = rem;
            },
            Err(e) => {
                return Err(e);
            },
        }
        index += 1;
    }
    proof {
        lemma_labels_payload_step(vl, n as int);
    }
    Ok((addrs, cur))
}

/// Stores the TXT entries at the front of `buf`, whose first byte has the
/// address `addr`: of each its key as a C string and its value right
/// behind the key. Hands back the record of each and the rest of `buf`.
fn store_txt_entries<'t>(entries: &[(&str, &[u8])], addr: usize, buf: &'t mut [u8]) -> (r: Result<
    (Vec<SrpTxtRecord>, &'t mut [u8]),
    OtError,
>)
    requires
        addr + old(buf)@.len() <= usize::MAX,
    ensures
        txt_error(txt_view(entries@), 0, old(buf)@.len() as int) is None ==> {
            &&& r matches Ok((records, rest))
            &&& records@.len() == entries@.len()
            &&& forall|j: int|
                0 <= j < entries@.len() ==> {
                    &&& (#[trigger] records@[j]).key == addr + txt_payload(
                        txt_view(entries@).take(j),
                    ).len()
                    &&& records@[j].value == records@[j].key + c_str(txt_view(entries@)[j].0).len()
                    &&& records@[j].value_length == txt_view(entries@)[j].1.len() % 65536
                }
            &&& rest@ == old(buf)@.subrange(
                txt_payload(txt_view(entries@)).len() as int,
                old(buf)@.len() as int,
            )
            &&& final(buf)@ == txt_payload(txt_view(entries@)) + final(rest)@
        },
        txt_error(txt_view(entries@), 0, old(buf)@.len() as int) matches Some(code) ==> {
            &&& r == Err::<(Vec<SrpTxtRecord>, &mut [u8]), OtError>(error_of(code))
            &&& final(buf)@.len() == old(buf)@.len()
        },
{
    let ghost before = buf@;
    let ghost len = buf@.len() as int;
    let ghost vt = txt_view(entries@);
    let len0 = buf.len();
    let n = entries.len();
    proof {
        lemma_txt_payload_step(vt, 0);
    }
    let mut cur = buf;
    let mut records: Vec<SrpTxtRecord> = Vec::new();
    let mut index: usize = 0;
    while index < n
        invariant
            index <= n,
            n == entries@.len(),
            vt == txt_view(entries@),
            txt_error(vt, 0, len) == txt_error(
                vt,
                index as int,
                len - txt_payload(vt.take(index as int)).len(),
            ),
            before == old(buf)@,
            len == before.len(),
            len0 == len,
            addr + len <= usize::MAX,
            txt_payload(vt.take(index as int)).len() <= len,
            cur@ == before.subrange(txt_payload(vt.take(index as int)).len() as int, len),
            final(buf)@ == txt_payload(vt.take(index as int)) + final(cur)@,
            records@.len() == index,
            forall|j: int|
                0 <= j < index ==> {
                    &&& (#[trigger] records@[j]).key == addr + txt_payload(vt.take(j)).len()
                    &&& records@[j].value == records@[j].key + c_str(vt[j].0).len()
                    &&& records@[j].value_length == vt[j].1.len() % 65536
                },
        decreases n - index,
    {
        let key_pos = addr + (len0 - cur.len());
        let (key, value) = entries[index];
        proof {
            assert(vt[index as int] == (key.spec_bytes(), value@));
            lemma_txt_payload_step(vt, index as int);
            lemma_txt_payload_step(vt, index + 1);
        }
        let rem = match store_str(key, cur) {
            Ok((_, rem)) => rem,
            Err(e) => {
                return Err(e);
            },
        };
        let value_pos = addr + (len0 - rem.len());
        let rem = match store_data(value, rem) {
            Ok((_, rem)) => rem,
            Err(e) => {
                return Err(e);
            },
        };
        records.push(
            SrpTxtRecord {
                key: key_pos,
                value: value_pos,
                value_length: (value.len() % 65536) as u16,
            },
        );
        proof {
            assert(rem@ =~= before.subrange(
                txt_payload(vt.take(index + 1)).len() as int,
                len,
            ));
        }
        cur = rem;
        index += 1;
    }
    proof {
        lemma_txt_payload_step(vt, n as int);
    }
    Ok((records, cur))
}

/// What `store_strings` hands back: the address of the instance name, the
/// address of each label, and the record of each TXT entry.
struct StoredStrings {
    instance_name: usize,
    labels: Vec<usize>,
    txt: Vec<SrpTxtRecord>,
}

/// Stores the strings of `service` at the front of `buf`, whose first byte
/// has the address `addr`: the name, the instance name, the labels and the
/// TXT entries, without gaps.
fn store_strings(service: &SrpService, addr: usize, buf: &mut [u8]) -> (r: Result<
    StoredStrings,
    OtError,
>)
    requires
        addr + old(buf)@.len() <= usize::MAX,
    ensures
        final(buf)@.len() == old(buf)@.len(),
        strings_error(service@, old(buf)@.len() as int) is None ==> {
            &&& r matches Ok(stored)
            &&& final(buf)@ == service_payload(service@) + old(buf)@.subrange(
                service_payload(service@).len() as int,
                old(buf)@.len() as int,
            )
            &&& stored.instance_name == addr + c_str(service@.name).len()
            &&& stored.labels@.len() == service@.subtype_labels.len()
            &&& forall|j: int|
                0 <= j < service@.subtype_labels.len() ==> stored.labels@[j] == addr + c_str(
                    service@.name,
                ).len() + c_str(service@.instance_name).len() + labels_payload(
                    service@.subtype_labels.take(j),
                ).len()
            &&& stored.txt@.len() == service@.txt_entries.len()
            &&& forall|j: int|
                0 <= j < service@.txt_entries.len() ==> {
                    &&& (#[trigger] stored.txt@[j]).key == addr + c_str(service@.name).len() + c_str(
                        service@.instance_name,
                    ).len() + labels_payload(service@.subtype_labels).len() + txt_payload(
                        service@.txt_entries.take(j),
                    ).len()
                    &&& stored.txt@[j].value == stored.txt@[j].key + c_str(
                        service@.txt_entries[j].0,
                    ).len()
                    &&& stored.txt@[j].value_length == service@.txt_entries[j].1.len() % 65536
                }
        },
        strings_error(service@, old(buf)@.len() as int) matches Some(code) ==> (r matches Err(e)
            && e == error_of(code)),
{
    let ghost before = buf@;
    let ghost len = buf@.len() as int;
    let ghost view = service@;
    let ghost vl = view.subtype_labels;
    let ghost vt = view.txt_entries;
    let len0 = buf.len();
    proof {
        assert(vl == labels_view(service.subtype_labels@));
        assert(vt == txt_view(service.txt_entries@));
    }
    let whole = buf;
    let (_, rest) = match store_str(service.name, whole) {
        Ok(stored) => stored,
        Err(e) => {
            return Err(e);
        },
    };
    let instance_name = addr + (len0 - rest.len());
    let (_, rest) = match store_str(service.instance_name, rest) {
        Ok(stored) => stored,
        Err(e) => {
            return Err(e);
        },
    };
    let ghost names = c_str(view.name) + c_str(view.instance_name);
    proof {
        assert(rest@ =~= before.subrange(names.len() as int, len));
        assert(final(buf)@ =~= names + final(rest)@);
    }
    let labels_pos = addr + (len0 - rest.len());
    proof {
        lemma_labels_error(vl, 0, len - names.len());
        lemma_labels_payload_step(vl, 0);
    }
    let (labels, rest) = match store_labels(service.subtype_labels, labels_pos, rest) {
        Ok(stored) => stored,
        Err(e) => {
            return Err(e);
        },
    };
    let ghost head = names + labels_payload(vl);
    proof {
        assert(rest@ =~= before.subrange(head.len() as int, len));
        assert(final(buf)@ =~= head + final(rest)@);
    }
    let txt_pos = addr + (len0 - rest.len());
    proof {
        lemma_txt_error(vt, 0, len - head.len());
        lemma_txt_payload_step(vt, 0);
    }
    let (txt, rest) = match store_txt_entries(service.txt_entries, txt_pos, rest) {
        Ok(stored) => stored,
        Err(e) => {
            return Err(e);
        },
    };
    proof {
        assert(service_payload(view) =~= head + txt_payload(vt));
        assert(rest@ =~= before.subrange(service_payload(view).len() as int, len));
        assert(final(buf)@ =~= service_payload(view) + before.subrange(
            service_payload(view).len() as int,
            len,
        ));
    }
    Ok(StoredStrings { instance_name, labels, txt })
}

impl<'a> SrpService<'a> {
    /// Stores the service in `buf`, whose first byte has the address
    /// `addr`, and names in `ot_srp` what was stored where.
    ///
    /// Room is set aside for the array of TXT entries and for the array of
    /// label pointers, each at its alignment; what they hold is written to
    /// `ot_srp`. The strings follow them in `buf`.
    ///
    /// The first part that cannot be stored decides the error: an array or
    /// a string that finds no room gives `OT_ERROR_NO_BUFS`, a name, a
    /// label or a key that finds room and has a NUL inside gives
    /// `OT_ERROR_INVALID_ARGS`. After an error `ot_srp` is as it was, and
    /// so is `buf` up to the place where the strings would begin.
    pub fn store(&self, ot_srp: &mut SrpServiceRecord, abi: &AbiLayout, addr: usize, buf: &mut [u8]) -> (r:
        Result<(), OtError>)
        requires
            abi.wf(),
            addr + old(buf)@.len() <= usize::MAX,
        ensures
            final(buf)@.len() == old(buf)@.len(),
            match service_store_error(*abi, addr as int, old(buf)@.len() as int, self@) {
                None => {
                    &&& r is Ok
                    &&& self@.storable()
                    &&& service_layout(*abi, addr as int, old(buf)@.len() as int, self@) matches Some(
                        layout,
                    )
                    &&& final(ot_srp)@ == service_record_of(layout, addr as int, self@)
                    &&& final(buf)@ == service_image(layout, self@, old(buf)@)
                },
                Some(code) => {
                    &&& r == Err::<(), OtError>(error_of(code))
                    &&& *final(ot_srp) == *old(ot_srp)
                    &&& match strings_offset(*abi, addr as int, old(buf)@.len() as int, self@) {
                        Some(strings) => final(buf)@.subrange(0, strings) == old(buf)@.subrange(
                            0,
                            strings,
                        ),
                        None => final(buf)@ == old(buf)@,
                    }
                },
            },
    {
        let ghost before = buf@;
        let ghost len = buf@.len() as int;
        let ghost view = self@;
        let len0 = buf.len();
        let txt_len = self.txt_entries.len();

        let labels_len = self.subtype_labels.len();

        let whole = buf;
        let (txt_start, _, rest) = match align_min(abi.txt_entry, addr, whole, txt_len) {
            Ok(carved) => carved,
            Err(e) => {
                return Err(e);
            },
        };
        let used = len0 - rest.len();
        if labels_len == usize::MAX {
            proof {
                assert((labels_len + 1) * abi.pointer.size > len - used) by (nonlinear_arith)
                    requires
                        labels_len + 1 > len - used,
                        abi.pointer.size >= 1,
                ;
            }
            return Err(OtError::new(OT_ERROR_NO_BUFS));
        }
        let (labels_start, _, rest) = match align_min(
            abi.pointer,
            addr + used,
            rest,
            labels_len + 1,
        ) {
            Ok(carved) => carved,
            Err(e) => {
                return Err(e);
            },
        };
        let strings = len0 - rest.len();
        proof {
            assert(strings_offset(*abi, addr as int, len, view) == Some(strings as int));
            assert(rest@ =~= before.subrange(strings as int, len));
            assert(final(buf)@ =~= before.subrange(0, strings as int) + final(rest)@);
        }
        let name_pos = addr + strings;
        let stored = match store_strings(self, name_pos, rest) {
            Ok(stored) => stored,
            Err(e) => {
                proof {
                    assert(final(buf)@.subrange(0, strings as int) =~= before.subrange(
                        0,
                        strings as int,
                    ));
                }
                return Err(e);
            },
        };
        proof {
            lemma_service_store_error(*abi, addr as int, len, view);
        }
        let ghost layout = service_layout(*abi, addr as int, len, view).unwrap();
        proof {
            assert(final(buf)@ =~= service_image(layout, view, before));
        }
        let mut labels = stored.labels;
        labels.push(0);
        ot_srp.name = name_pos;
        ot_srp.instance_name = stored.instance_name;
        ot_srp.sub_type_labels = labels_start;
        ot_srp.labels = labels;
        ot_srp.txt_entries = txt_start;
        ot_srp.txt = stored.txt;
        ot_srp.num_txt_entries = (txt_len % 256) as u8;
        ot_srp.port = self.port;
        ot_srp.priority = self.priority;
        ot_srp.weight = self.weight;
        ot_srp.lease = self.lease_secs;
        ot_srp.key_lease = self.key_lease_secs;
        ot_srp.state = 0;
        proof {
            let want = service_record_of(layout, addr as int, view);
            assert(ot_srp@.labels =~= want.labels);
            assert(ot_srp@.txt =~= want.txt);
        }
        Ok(())
    }
}

/// A buffer with a host configuration stored in it is as long as it was,
/// and holds the addresses and the host name where the layout puts them.
pub proof fn lemma_conf_image(layout: ConfLayout, abi: AbiLayout, addr: int, conf: SrpConfView, before: Seq<u8>)
    requires
        abi.wf(),
        addr >= 0,
        conf.storable(),
        conf_layout(abi, addr, before.len() as int, conf) == Some(layout),
    ensures
        conf_image(layout, conf, before).len() == before.len(),
        0 <= layout.addrs.pad <= layout.name <= layout.end <= before.len(),
        conf_image(layout, conf, before).subrange(layout.addrs.pad, layout.end) == addrs_payload(
            conf.host_addrs,
        ) + c_str(conf.host_name),
{
    lemma_addrs_payload(conf.host_addrs);
    crate::carve::lemma_padding_least(addr, abi.ip6_address.align as int);
    assert(conf_image(layout, conf, before).subrange(layout.addrs.pad, layout.end)
        =~= addrs_payload(conf.host_addrs) + c_str(conf.host_name));
}

/// A buffer with a service stored in it is as long as it was, and holds
/// the strings of the service where the layout puts them.
pub proof fn lemma_service_image(
    layout: ServiceLayout,
    abi: AbiLayout,
    addr: int,
    service: SrpServiceView,
    before: Seq<u8>,
)
    requires
        abi.wf(),
        addr >= 0,
        service_layout(abi, addr, before.len() as int, service) == Some(layout),
    ensures
        service_image(layout, service, before).len() == before.len(),
        0 <= layout.strings <= layout.end <= before.len(),
        service_image(layout, service, before).subrange(layout.strings, layout.end)
            == service_payload(service),
{
    let txt = placement(
        abi.txt_entry,
        addr,
        before.len() as int,
        service.txt_entries.len() as int,
    ).unwrap();
    let used = txt.pad + txt.bytes;
    crate::carve::lemma_padding_least(addr, abi.txt_entry.align as int);
    assert(0 <= txt.pad && 0 <= txt.bytes) by {
        if service.txt_entries.len() > 0 {
            assert(service.txt_entries.len() * abi.txt_entry.size >= 0) by (nonlinear_arith);
        }
    }
    crate::carve::lemma_padding_least(addr + used, abi.pointer.align as int);
    assert((service.subtype_labels.len() as int + 1) * abi.pointer.size >= 0) by (nonlinear_arith);
    assert(service_image(layout, service, before).subrange(layout.strings, layout.end)
        =~= service_payload(service));
}

} // verus!
