//! The arena of the SRP client: a fixed number of service slots, each with
//! a buffer of its own, and the one buffer of the host configuration.

use vstd::prelude::*;
use vstd::utf8::encode_utf8_valid_utf8;
use vstd::utf8::valid_utf8;
use crate::error::error_of;
use crate::error::OtError;
use crate::error::OT_ERROR_INVALID_ARGS;
use crate::error::OT_ERROR_INVALID_STATE;
use crate::error::OT_ERROR_NONE;
use crate::error::OT_ERROR_NO_BUFS;
use crate::srp::load::conf_read;
use crate::srp::load::law_stored_conf_reads_back;
use crate::srp::load::law_stored_service_reads_back;
use crate::srp::load::service_read;
use crate::srp::load::OutSrpConf;
use crate::srp::load::OutSrpService;
use crate::srp::store::addrs_payload;
use crate::srp::store::c_str;
use crate::srp::store::conf_layout;
use crate::srp::store::conf_store_error;
use crate::srp::store::service_store_error;
use crate::srp::store::lemma_service_store_error;
use crate::srp::store::lemma_conf_image;
use crate::srp::store::lemma_service_image;
use crate::srp::store::host_record_of;
use crate::srp::store::service_layout;
use crate::srp::store::service_payload;
use crate::srp::store::service_record_of;
use crate::srp::types::AbiLayout;
use crate::srp::types::SrpConf;
use crate::srp::types::SrpConfView;
use crate::srp::types::SrpHostRecord;
use crate::srp::types::SrpService;
use crate::srp::types::SrpServiceRecord;
use crate::srp::types::SrpServiceRecordView;
use crate::srp::types::SrpServiceSlot;
use crate::srp::types::SrpServiceView;
use crate::srp::types::OT_SRP_CLIENT_ITEM_STATE_REMOVED;

verus! {

/// The bytes of slot `slot` in the buffer that all slots share.
pub open spec fn slot_bytes(buffers: Seq<u8>, buf_len: int, slot: int) -> Seq<u8> {
    buffers.subrange(slot * buf_len, slot * buf_len + buf_len)
}

/// `service` is stored in the buffer `bytes` at address `addr`, and
/// `record` names what is stored where.
pub open spec fn service_stored(
    abi: AbiLayout,
    addr: int,
    bytes: Seq<u8>,
    record: SrpServiceRecordView,
    service: SrpServiceView,
) -> bool {
    &&& service.storable()
    &&& service.is_text()
    &&& service_layout(abi, addr, bytes.len() as int, service) matches Some(layout)
    &&& record == service_record_of(layout, addr, service)
    &&& bytes.subrange(layout.strings, layout.end) == service_payload(service)
}

/// `conf` is stored in the buffer `bytes` at address `addr`, and `record`
/// names what is stored where.
pub open spec fn conf_stored(
    abi: AbiLayout,
    addr: int,
    bytes: Seq<u8>,
    record: SrpHostRecord,
    conf: SrpConfView,
) -> bool {
    &&& conf.storable()
    &&& valid_utf8(conf.host_name)
    &&& conf_layout(abi, addr, bytes.len() as int, conf) matches Some(layout)
    &&& record == host_record_of(layout, addr, conf, record)
    &&& bytes.subrange(layout.addrs.pad, layout.end) == addrs_payload(conf.host_addrs) + c_str(
        conf.host_name,
    )
}

/// The first slot that is not taken, if there is one.
pub open spec fn first_free(taken: Seq<bool>) -> Option<int> {
    first_free_from(taken, 0)
}

/// The first slot from `from` on that is not taken, if there is one.
pub open spec fn first_free_from(taken: Seq<bool>, from: int) -> Option<int>
    decreases taken.len() - from,
{
    if from < 0 || from >= taken.len() {
        None
    } else if !taken[from] {
        Some(from)
    } else {
        first_free_from(taken, from + 1)
    }
}

/// The slots after the stack has reported the slots in `removed` as
/// removed: those are free, the others are as they were.
pub open spec fn reclaimed(taken: Seq<bool>, removed: Seq<SrpServiceSlot>) -> Seq<bool> {
    Seq::new(taken.len(), |slot: int| taken[slot] && !removed.contains(slot as usize))
}

/// The first free slot is free and every slot below it is taken; without
/// one, every slot is taken.
pub proof fn lemma_first_free(taken: Seq<bool>, from: int)
    requires
        0 <= from,
    ensures
        match first_free_from(taken, from) {
            Some(slot) => {
                &&& from <= slot < taken.len()
                &&& !taken[slot]
                &&& forall|j: int| from <= j < slot ==> taken[j]
            },
            None => forall|j: int| from <= j < taken.len() ==> taken[j],
        },
    decreases taken.len() - from,
{
    if from < taken.len() && taken[from] {
        lemma_first_free(taken, from + 1);
    }
}

/// The arena as a value: which slots are taken, what each slot and the
/// configuration memory hold, and where the stack finds them.
pub struct SrpArenaView {
    /// Whether each slot is taken.
    pub taken: Seq<bool>,
    /// Whether the host is configured.
    pub conf_taken: bool,
    /// The slot that holds a service which the stack has not accepted yet.
    pub adding: Option<SrpServiceSlot>,
    /// Whether the configuration memory holds a configuration which the
    /// stack has not accepted yet.
    pub configuring: bool,
    /// The service that each slot holds, if it holds one.
    pub held: Seq<Option<SrpServiceView>>,
    /// The configuration that the configuration memory holds, if any.
    pub held_conf: Option<SrpConfView>,
    /// The length of the buffer of one slot, and of the configuration memory.
    pub buf_len: usize,
    /// The layout of what the stack reads.
    pub abi: AbiLayout,
    /// The address of the configuration memory.
    pub conf_addr: usize,
    /// The address of the buffer of the first slot.
    pub buffers_addr: usize,
}

impl SrpArenaView {
    /// An arena of `count` free slots.
    pub open spec fn empty(
        count: nat,
        buf_len: usize,
        abi: AbiLayout,
        conf_addr: usize,
        buffers_addr: usize,
    ) -> SrpArenaView {
        SrpArenaView {
            taken: Seq::new(count, |slot: int| false),
            conf_taken: false,
            adding: None,
            configuring: false,
            held: Seq::new(count, |slot: int| None),
            held_conf: None,
            buf_len,
            abi,
            conf_addr,
            buffers_addr,
        }
    }

    /// A taken slot holds a service, a configured host has its
    /// configuration held, and what waits for the stack's answer is held
    /// and not taken yet: the slot is free, the host not configured.
    pub open spec fn wf(self) -> bool {
        &&& self.held.len() == self.taken.len()
        &&& self.taken.len() <= usize::MAX
        &&& self.abi.wf()
        &&& self.conf_addr > 0
        &&& self.buffers_addr > 0
        &&& self.configuring ==> !self.conf_taken && self.held_conf is Some
        &&& self.adding matches Some(slot) ==> slot < self.taken.len() && !self.taken[slot as int]
            && self.held[slot as int] is Some
        &&& forall|slot: int|
            0 <= slot < self.taken.len() && self.taken[slot] ==> (#[trigger] self.held[slot])
                is Some
        &&& self.conf_taken ==> self.held_conf is Some
    }

    /// The address of the buffer of slot `slot`.
    pub open spec fn slot_addr(self, slot: int) -> int {
        self.buffers_addr + slot * self.buf_len
    }

    /// Whether `service` finds room in the buffer of slot `slot`.
    pub open spec fn fits(self, slot: int, service: SrpServiceView) -> bool {
        service_layout(self.abi, self.slot_addr(slot), self.buf_len as int, service) is Some
    }

    /// Whether `conf` finds room in the configuration memory.
    pub open spec fn conf_fits(self, conf: SrpConfView) -> bool {
        conf_layout(self.abi, self.conf_addr as int, self.buf_len as int, conf) is Some
    }

    /// True iff the host is not configured and no slot is taken.
    pub open spec fn is_empty(self) -> bool {
        !self.conf_taken && forall|slot: int| 0 <= slot < self.taken.len() ==> !self.taken[slot]
    }

    /// Stores `service` in the first free slot. The slot is not taken by
    /// that: it waits for the answer of the stack.
    ///
    /// Without a free slot the result is `OT_ERROR_NO_BUFS`. A service
    /// that cannot be stored in the slot's buffer is refused with the error
    /// of its first part that cannot be stored, and the buffer holds
    /// nothing afterwards. After any error no service waits for the answer
    /// of the stack.
    pub open spec fn allocate(self, service: SrpServiceView) -> (SrpArenaView, Result<
        SrpServiceSlot,
        OtError,
    >) {
        match first_free(self.taken) {
            Some(slot) => match service_store_error(
                self.abi,
                self.slot_addr(slot),
                self.buf_len as int,
                service,
            ) {
                None => (
                    SrpArenaView {
                        adding: Some(slot as usize),
                        held: self.held.update(slot, Some(service)),
                        ..self
                    },
                    Ok(slot as usize),
                ),
                Some(code) => (
                    SrpArenaView { adding: None, held: self.held.update(slot, None), ..self },
                    Err(error_of(code)),
                ),
            },
            None => (SrpArenaView { adding: None, ..self }, Err(error_of(OT_ERROR_NO_BUFS))),
        }
    }

    /// Takes in the answer `code` of the stack to the service that waits
    /// for it: accepted, the service's slot is taken; refused, the slot
    /// stays free and the result is the stack's error. Where no service
    /// waits, the result is `OT_ERROR_INVALID_STATE`.
    pub open spec fn commit(self, code: u32) -> (SrpArenaView, Result<SrpServiceSlot, OtError>) {
        match self.adding {
            None => (self, Err(error_of(OT_ERROR_INVALID_STATE))),
            Some(slot) => if code == OT_ERROR_NONE {
                (
                    SrpArenaView {
                        adding: None,
                        taken: self.taken.update(slot as int, true),
                        ..self
                    },
                    Ok(slot),
                )
            } else {
                (SrpArenaView { adding: None, ..self }, Err(error_of(code)))
            },
        }
    }

    /// Whether `slot` is a slot of the arena that is taken.
    pub open spec fn is_taken(self, slot: SrpServiceSlot) -> bool {
        slot < self.taken.len() && self.taken[slot as int]
    }

    /// Releases `slot` after the stack has answered `code` to the removal
    /// of its service. A slot that is not taken is refused with
    /// `OT_ERROR_INVALID_ARGS`, and an error of the stack is handed on;
    /// neither changes the arena. An immediate removal frees the slot; a
    /// graceful one leaves it taken until the stack reports it as removed.
    pub open spec fn release(self, slot: SrpServiceSlot, immediate: bool, code: u32) -> (
        SrpArenaView,
        Result<(), OtError>,
    ) {
        if !self.is_taken(slot) {
            (self, Err(error_of(OT_ERROR_INVALID_ARGS)))
        } else if code != OT_ERROR_NONE {
            (self, Err(error_of(code)))
        } else if immediate {
            (SrpArenaView { taken: self.taken.update(slot as int, false), ..self }, Ok(()))
        } else {
            (self, Ok(()))
        }
    }

    /// Removes the host and all services. An immediate removal frees
    /// every slot and the configuration memory, whatever the stack
    /// answered; a graceful one changes nothing yet, and its result is the
    /// answer `code` of the stack.
    pub open spec fn remove_all(self, immediate: bool, code: u32) -> (
        SrpArenaView,
        Result<(), OtError>,
    ) {
        if immediate {
            (
                SrpArenaView {
                    taken: Seq::new(self.taken.len(), |slot: int| false),
                    conf_taken: false,
                    ..self
                },
                Ok(()),
            )
        } else {
            (self, crate::error::spec_ot(code))
        }
    }

    /// Stores the configuration of the host. The host is not configured
    /// by that: the configuration waits for the answer of the stack.
    ///
    /// A host that is configured already is refused with
    /// `OT_ERROR_INVALID_STATE`. A configuration that cannot be stored is
    /// refused with the error of its first part that cannot be stored.
    /// After any error no configuration waits for the answer of the stack,
    /// and the rest of the arena is as it was.
    pub open spec fn configure_host(self, conf: SrpConfView) -> (SrpArenaView, Result<(), OtError>) {
        if self.conf_taken {
            (SrpArenaView { configuring: false, ..self }, Err(error_of(OT_ERROR_INVALID_STATE)))
        } else {
            match conf_store_error(self.abi, self.conf_addr as int, self.buf_len as int, conf) {
                Some(code) => (SrpArenaView { configuring: false, ..self }, Err(error_of(code))),
                None => (
                    SrpArenaView { configuring: true, held_conf: Some(conf), ..self },
                    Ok(()),
                ),
            }
        }
    }

    /// Takes in the answer `code` of the stack to the configuration that
    /// waits for it: accepted, the host is configured; refused, the host
    /// stays unconfigured and the result is the stack's error. Where no
    /// configuration waits, the result is `OT_ERROR_INVALID_STATE`.
    pub open spec fn commit_host(self, code: u32) -> (SrpArenaView, Result<(), OtError>) {
        if !self.configuring {
            (self, Err(error_of(OT_ERROR_INVALID_STATE)))
        } else if code == OT_ERROR_NONE {
            (SrpArenaView { configuring: false, conf_taken: true, ..self }, Ok(()))
        } else {
            (SrpArenaView { configuring: false, ..self }, Err(error_of(code)))
        }
    }

    /// Takes in what the stack reports: a host in the state "removed" is
    /// not configured any more, and the slots in `removed` are free.
    pub open spec fn cleanup(self, host_state: u32, removed: Seq<SrpServiceSlot>) -> SrpArenaView {
        SrpArenaView {
            conf_taken: self.conf_taken && host_state != OT_SRP_CLIENT_ITEM_STATE_REMOVED,
            taken: reclaimed(self.taken, removed),
            ..self
        }
    }
}

/// The SRP state of the OpenThread stack: which slots are taken, what
/// they hold, and the host configuration.
pub struct OtSrpState {
    /// The record of the service in each slot.
    services: Vec<SrpServiceRecord>,
    /// Whether a service slot is taken.
    taken: Vec<bool>,
    /// Memory for the SRP configuration (host name and IP addresses).
    conf: Vec<u8>,
    /// The record of the host.
    host: SrpHostRecord,
    /// Whether the host is currently configured.
    conf_taken: bool,
    /// Memory for the data of all SRP services, slot after slot.
    buffers: Vec<u8>,
    /// The length of the data buffer for one SRP service.
    buf_len: usize,
    /// The layout of what the stack reads.
    abi: AbiLayout,
    /// The address at which the stack finds the configuration memory.
    conf_addr: usize,
    /// The address at which the stack finds the memory of the services.
    buffers_addr: usize,
    /// The slot that holds a service which the stack has not accepted yet.
    adding: Option<SrpServiceSlot>,
    /// Whether the configuration memory holds a configuration which the
    /// stack has not accepted yet.
    configuring: bool,
    /// The service that each slot holds.
    held: Ghost<Seq<Option<SrpServiceView>>>,
    /// The configuration that the configuration memory holds.
    held_conf: Ghost<Option<SrpConfView>>,
}

impl View for OtSrpState {
    type V = SrpArenaView;

    closed spec fn view(&self) -> SrpArenaView {
        SrpArenaView {
            taken: self.taken@,
            conf_taken: self.conf_taken,
            adding: self.adding,
            configuring: self.configuring,
            held: self.held@,
            held_conf: self.held_conf@,
            buf_len: self.buf_len,
            abi: self.abi,
            conf_addr: self.conf_addr,
            buffers_addr: self.buffers_addr,
        }
    }
}

impl OtSrpState {
    /// The records of all slots.
    pub closed spec fn records(&self) -> Seq<SrpServiceRecord> {
        self.services@
    }

    /// The record of the host.
    pub closed spec fn spec_host(&self) -> SrpHostRecord {
        self.host
    }

    /// The bytes of the buffer of slot `slot`.
    pub closed spec fn slot_buffer(&self, slot: int) -> Seq<u8> {
        slot_bytes(self.buffers@, self.buf_len as int, slot)
    }

    /// The bytes of the configuration memory.
    pub closed spec fn conf_buffer(&self) -> Seq<u8> {
        self.conf@
    }

    /// Every record, every byte of every buffer, the record of the host
    /// and the configuration memory are as in `before`.
    pub open spec fn same_memory(&self, before: &Self) -> bool {
        &&& self.records() == before.records()
        &&& self.spec_host() == before.spec_host()
        &&& self.conf_buffer() == before.conf_buffer()
        &&& forall|slot: int| #[trigger] self.slot_buffer(slot) == before.slot_buffer(slot)
    }

    /// Every record and every byte of every slot buffer are as in
    /// `before`.
    pub open spec fn same_slots(&self, before: &Self) -> bool {
        &&& self.records() == before.records()
        &&& forall|slot: int| #[trigger] self.slot_buffer(slot) == before.slot_buffer(slot)
    }

    /// The record of the host and the configuration memory are as in
    /// `before`, and so are the record and the buffer of every slot but
    /// the first that was free in `before`.
    pub open spec fn same_but_first_free(&self, before: &Self) -> bool {
        &&& self.spec_host() == before.spec_host()
        &&& self.conf_buffer() == before.conf_buffer()
        &&& forall|other: int|
            0 <= other < before@.taken.len() && first_free(before@.taken) != Some(other)
                ==> #[trigger] self.slot_buffer(other) == before.slot_buffer(other)
                && self.records()[other] == before.records()[other]
    }

    /// The arena is consistent: every slot has its record and its buffer
    /// of the one length, no buffer reaches beyond the address space, and
    /// what a slot or the configuration memory holds is stored as its
    /// record says.
    pub closed spec fn wf(&self) -> bool {
        &&& self@.wf()
        &&& self.services@.len() == self.taken@.len()
        &&& self.buffers@.len() == self.taken@.len() * self.buf_len
        &&& self.conf@.len() == self.buf_len
        &&& self.conf_addr + self.buf_len <= usize::MAX
        &&& self.buffers_addr + self.buffers@.len() <= usize::MAX
        &&& forall|slot: int|
            0 <= slot < self.taken@.len() ==> ((#[trigger] self.held@[slot]) matches Some(service)
                ==> service_stored(
                self.abi,
                self@.slot_addr(slot),
                self.slot_buffer(slot),
                self.services@[slot]@,
                service,
            ))
        &&& self.held_conf@ matches Some(conf) ==> conf_stored(
            self.abi,
            self.conf_addr as int,
            self.conf@,
            self.host,
            conf,
        )
    }

    /// What consistency means for one slot: its buffer has the one
    /// length and lies in the address space, and what it holds is stored
    /// as its record says.
    pub proof fn lemma_slot(&self, slot: int)
        requires
            self.wf(),
            0 <= slot < self@.taken.len(),
        ensures
            self.slot_buffer(slot).len() == self@.buf_len,
            0 <= self@.slot_addr(slot),
            self@.slot_addr(slot) + self@.buf_len <= usize::MAX,
            self@.held[slot] matches Some(service) ==> service_stored(
                self@.abi,
                self@.slot_addr(slot),
                self.slot_buffer(slot),
                self.records()[slot]@,
                service,
            ),
    {
        lemma_slot_range(self.taken@.len() as int, self.buf_len as int, slot);
        assert(self.held@[slot] == self@.held[slot]);
        if self.held@[slot] is Some {
            let service = self.held@[slot].unwrap();
            assert(service_stored(
                self.abi,
                self@.slot_addr(slot),
                self.slot_buffer(slot),
                self.services@[slot]@,
                service,
            ));
        }
    }

    /// What consistency means to a caller.
    pub proof fn lemma_wf(&self)
        requires
            self.wf(),
        ensures
            self@.wf(),
            self.records().len() == self@.taken.len(),
            self.conf_buffer().len() == self@.buf_len,
            self@.conf_addr + self@.buf_len <= usize::MAX,
            self@.held_conf matches Some(conf) ==> conf_stored(
                self@.abi,
                self@.conf_addr as int,
                self.conf_buffer(),
                self.spec_host(),
                conf,
            ),
    {
    }

    /// The number of slots.
    pub fn slot_count(&self) -> (n: usize)
        ensures
            n == self@.taken.len(),
    {
        self.taken.len()
    }

    /// Whether slot `slot` is taken; a slot that the arena does not have
    /// is not.
    pub fn is_taken(&self, slot: SrpServiceSlot) -> (b: bool)
        ensures
            b == self@.is_taken(slot),
    {
        slot < self.taken.len() && self.taken[slot]
    }

    /// Whether the host is configured.
    pub fn is_configured(&self) -> (b: bool)
        ensures
            b == self@.conf_taken,
    {
        self.conf_taken
    }

    /// True iff the host is not configured and no slot is taken.
    pub fn is_empty(&self) -> (b: bool)
        ensures
            b == self@.is_empty(),
    {
        if self.conf_taken {
            return false;
        }
        let mut slot: usize = 0;
        while slot < self.taken.len()
            invariant
                slot <= self.taken@.len(),
                forall|j: int| 0 <= j < slot ==> !self.taken@[j],
            decreases self.taken@.len() - slot,
        {
            if self.taken[slot] {
                assert(self@.taken[slot as int]);
                return false;
            }
            slot += 1;
        }
        true
    }

    /// The first slot that is not taken.
    pub fn find_free(&self) -> (r: Option<SrpServiceSlot>)
        ensures
            match r {
                Some(slot) => first_free(self@.taken) == Some(slot as int),
                None => first_free(self@.taken) is None,
            },
    {
        let mut slot: usize = 0;
        while slot < self.taken.len()
            invariant
                slot <= self.taken@.len(),
                first_free(self.taken@) == first_free_from(self.taken@, slot as int),
            decreases self.taken@.len() - slot,
        {
            if !self.taken[slot] {
                return Some(slot);
            }
            slot += 1;
        }
        None
    }

    /// The record of slot `slot`, as the stack is to read it.
    pub fn record(&self, slot: SrpServiceSlot) -> (r: Option<&SrpServiceRecord>)
        requires
            self.wf(),
        ensures
            slot < self@.taken.len() ==> r == Some(&self.records()[slot as int]),
            slot >= self@.taken.len() ==> r is None,
    {
        if slot < self.services.len() {
            Some(&self.services[slot])
        } else {
            None
        }
    }

    /// The record of the host, as the stack is to read it.
    pub fn host(&self) -> (r: SrpHostRecord)
        ensures
            r == self.spec_host(),
    {
        self.host
    }

    /// The bytes of the buffer of slot `slot`.
    pub fn slot_data(&self, slot: SrpServiceSlot) -> (r: Option<&[u8]>)
        requires
            self.wf(),
        ensures
            slot < self@.taken.len() ==> (r matches Some(bytes) && bytes@ == self.slot_buffer(
                slot as int,
            )),
            slot >= self@.taken.len() ==> r is None,
    {
        if slot < self.taken.len() {
            proof {
                lemma_slot_range(self.taken@.len() as int, self.buf_len as int, slot as int);
            }
            let lo = slot * self.buf_len;
            Some(vstd::slice::slice_subrange(self.buffers.as_slice(), lo, lo + self.buf_len))
        } else {
            None
        }
    }

    /// The bytes of the configuration memory.
    pub fn conf_data(&self) -> (r: &[u8])
        ensures
            r@ == self.conf_buffer(),
    {
        self.conf.as_slice()
    }

    /// The address at which the stack finds the buffer of slot `slot`.
    pub fn slot_address(&self, slot: SrpServiceSlot) -> (r: Option<usize>)
        requires
            self.wf(),
        ensures
            slot < self@.taken.len() ==> (r matches Some(addr) && addr == self@.slot_addr(
                slot as int,
            )),
            slot >= self@.taken.len() ==> r is None,
    {
        if slot < self.taken.len() {
            proof {
                lemma_slot_range(self.taken@.len() as int, self.buf_len as int, slot as int);
            }
            Some(self.buffers_addr + slot * self.buf_len)
        } else {
            None
        }
    }

    /// The service that the record of slot `slot` names in the buffer of
    /// the slot.
    pub fn service(&self, slot: SrpServiceSlot) -> (r: Option<OutSrpService<'_>>)
        requires
            self.wf(),
        ensures
            slot < self@.taken.len() ==> (r matches Some(service) && service@ == service_read(
                self.records()[slot as int],
                self.slot_buffer(slot as int),
                self@.slot_addr(slot as int),
            )),
            slot >= self@.taken.len() ==> r is None,
    {
        if slot < self.taken.len() {
            proof {
                lemma_slot_range(self.taken@.len() as int, self.buf_len as int, slot as int);
            }
            let lo = slot * self.buf_len;
            let buf = vstd::slice::slice_subrange(self.buffers.as_slice(), lo, lo + self.buf_len);
            Some(OutSrpService::from(&self.services[slot], buf, self.buffers_addr + lo))
        } else {
            None
        }
    }

    /// The configuration that the host record `info` of the stack names
    /// in the configuration memory, with the times that the stack reports.
    pub fn conf(
        &self,
        info: &SrpHostRecord,
        ttl: u32,
        default_lease_secs: u32,
        default_key_lease_secs: u32,
    ) -> (conf: OutSrpConf<'_>)
        ensures
            conf@ == conf_read(
                *info,
                self.conf_buffer(),
                self@.conf_addr as int,
                ttl,
                default_lease_secs,
                default_key_lease_secs,
            ),
    {
        OutSrpConf::from(
            info,
            self.conf.as_slice(),
            self.conf_addr,
            ttl,
            default_lease_secs,
            default_key_lease_secs,
        )
    }

    /// What a slot holds is what is read from it.
    ///
    /// The service that is read from a slot is the service that was
    /// stored in it last. The record counts the TXT entries in 8 bits and
    /// the bytes of a value in 16: a service with more is excepted.
    pub proof fn law_slot_reads_back(&self, slot: int)
        requires
            self.wf(),
            0 <= slot < self@.taken.len(),
            self@.held[slot] matches Some(service) && service.txt_entries.len() < 256 && forall|
                i: int,
            |
                0 <= i < service.txt_entries.len() ==> (#[trigger] service.txt_entries[i]).1.len()
                    < 65536,
        ensures
            Some(
                service_read(self.records()[slot], self.slot_buffer(slot), self@.slot_addr(slot)),
            ) == self@.held[slot],
    {
        self.lemma_slot(slot);
        let service = self@.held[slot].unwrap();
        law_stored_service_reads_back(
            self@.abi,
            self@.slot_addr(slot),
            self.slot_buffer(slot),
            self.records()[slot],
            service,
        );
    }

    /// The configuration that is held is what is read with the record of
    /// the host.
    ///
    /// The record counts the addresses in 8 bits: a configuration with
    /// more is excepted.
    pub proof fn law_conf_reads_back(&self)
        requires
            self.wf(),
            self@.held_conf matches Some(conf) && conf.host_addrs.len() < 256,
        ensures
            Some(
                conf_read(
                    self.spec_host(),
                    self.conf_buffer(),
                    self@.conf_addr as int,
                    self@.held_conf.unwrap().ttl,
                    self@.held_conf.unwrap().default_lease_secs,
                    self@.held_conf.unwrap().default_key_lease_secs,
                ),
            ) == self@.held_conf,
    {
        self.lemma_wf();
        law_stored_conf_reads_back(
            self@.abi,
            self@.conf_addr as int,
            self.conf_buffer(),
            self.spec_host(),
            self@.held_conf.unwrap(),
        );
    }

    /// Stores `service` in the first free slot, where it waits for the
    /// answer of the stack.
    pub fn allocate(&mut self, service: &SrpService) -> (r: Result<SrpServiceSlot, OtError>)
        requires
            old(self).wf(),
        ensures
            final(self).wf(),
            (final(self)@, r) == old(self)@.allocate(service@),
            final(self).same_but_first_free(old(self)),
    {
        proof {
            lemma_first_free(self.taken@, 0);
        }
        self.adding = None;
        let slot = match self.find_free() {
            Some(slot) => slot,
            None => {
                assert(self@ == old(self)@.allocate(service@).0);
                return Err(OtError::new(OT_ERROR_NO_BUFS));
            },
        };
        let ghost held = self.held@;
        assert(first_free(old(self)@.taken) == Some(slot as int));
        let stored = store_in_slot(
            &mut self.buffers,
            self.buf_len,
            Ghost(self.taken@.len() as int),
            slot,
            &self.abi,
            self.buffers_addr,
            service,
        );
        match stored {
            Ok(record) => {
                self.services[slot] = record;
                self.held = Ghost(held.update(slot as int, Some(service@)));
                self.adding = Some(slot);
                assert(self@.held == old(self)@.allocate(service@).0.held);
                assert(self@ == old(self)@.allocate(service@).0);
                Ok(slot)
            },
            Err(e) => {
                self.held = Ghost(held.update(slot as int, None));
                assert(self@ == old(self)@.allocate(service@).0);
                Err(e)
            },
        }
    }

    /// Takes in the answer `code` of the stack to the service that waits
    /// for it.
    pub fn commit(&mut self, code: u32) -> (r: Result<SrpServiceSlot, OtError>)
        requires
            old(self).wf(),
        ensures
            final(self).wf(),
            (final(self)@, r) == old(self)@.commit(code),
            final(self).same_memory(old(self)),
    {
        match self.adding.take() {
            None => Err(OtError::new(OT_ERROR_INVALID_STATE)),
            Some(slot) => {
                if code == OT_ERROR_NONE {
                    self.taken[slot] = true;
                    assert(self@ == old(self)@.commit(code).0);
                    Ok(slot)
                } else {
                    assert(self@ == old(self)@.commit(code).0);
                    Err(OtError::new(code))
                }
            },
        }
    }

    /// Releases `slot` after the stack has answered `code` to the removal
    /// of its service.
    pub fn release(&mut self, slot: SrpServiceSlot, immediate: bool, code: u32) -> (r: Result<
        (),
        OtError,
    >)
        requires
            old(self).wf(),
        ensures
            final(self).wf(),
            (final(self)@, r) == old(self)@.release(slot, immediate, code),
            final(self).same_memory(old(self)),
    {
        if slot >= self.taken.len() || !self.taken[slot] {
            return Err(OtError::new(OT_ERROR_INVALID_ARGS));
        }
        if code != OT_ERROR_NONE {
            return Err(OtError::new(code));
        }
        if immediate {
            self.taken[slot] = false;
            assert(self@ == old(self)@.release(slot, immediate, code).0);
        }
        Ok(())
    }

    /// Removes the host and all services, at once or, after the stack has
    /// answered `code`, gracefully.
    pub fn remove_all(&mut self, immediate: bool, code: u32) -> (r: Result<(), OtError>)
        requires
            old(self).wf(),
        ensures
            final(self).wf(),
            (final(self)@, r) == old(self)@.remove_all(immediate, code),
            final(self).same_memory(old(self)),
    {
        if immediate {
            self.conf_taken = false;
            let mut slot: usize = 0;
            while slot < self.taken.len()
                invariant
                    slot <= self.taken@.len(),
                    self.taken@.len() == old(self).taken@.len(),
                    forall|j: int| 0 <= j < slot ==> !self.taken@[j],
                    forall|j: int| slot <= j < self.taken@.len() ==> self.taken@[j] == old(self).taken@[j],
                    self.services == old(self).services,
                    self.conf == old(self).conf,
                    self.host == old(self).host,
                    !self.conf_taken,
                    self.buffers == old(self).buffers,
                    self.buf_len == old(self).buf_len,
                    self.abi == old(self).abi,
                    self.conf_addr == old(self).conf_addr,
                    self.buffers_addr == old(self).buffers_addr,
                    self.adding == old(self).adding,
                    self.configuring == old(self).configuring,
                    self.held == old(self).held,
                    self.held_conf == old(self).held_conf,
                decreases self.taken@.len() - slot,
            {
                self.taken[slot] = false;
                slot += 1;
            }
            proof {
                assert(self.taken@ =~= Seq::new(self.taken@.len(), |slot: int| false));
                assert(self@ == old(self)@.remove_all(immediate, code).0);
            }
            Ok(())
        } else {
            crate::error::ot(code)
        }
    }

    /// Stores the configuration of the host, where it waits for the
    /// answer of the stack.
    pub fn configure_host(&mut self, conf: &SrpConf) -> (r: Result<(), OtError>)
        requires
            old(self).wf(),
        ensures
            final(self).wf(),
            (final(self)@, r) == old(self)@.configure_host(conf@),
            final(self).same_slots(old(self)),
            r is Err ==> final(self).same_memory(old(self)),
    {
        self.configuring = false;
        if self.conf_taken {
            return Err(OtError::new(OT_ERROR_INVALID_STATE));
        }
        let stored = conf.store(&mut self.host, &self.abi, self.conf_addr, self.conf.as_mut_slice());
        match stored {
            Ok(()) => {
                self.configuring = true;
                self.held_conf = Ghost(Some(conf@));
                proof {
                    encode_utf8_valid_utf8(conf.host_name@);
                    let layout = conf_layout(
                        self.abi,
                        self.conf_addr as int,
                        self.buf_len as int,
                        conf@,
                    ).unwrap();
                    lemma_conf_image(layout, self.abi, self.conf_addr as int, conf@, old(self).conf@);
                    assert(self@ == old(self)@.configure_host(conf@).0);
                }
                Ok(())
            },
            Err(e) => Err(e),
        }
    }

    /// Takes in the answer `code` of the stack to the configuration that
    /// waits for it.
    pub fn commit_host(&mut self, code: u32) -> (r: Result<(), OtError>)
        requires
            old(self).wf(),
        ensures
            final(self).wf(),
            (final(self)@, r) == old(self)@.commit_host(code),
            final(self).same_memory(old(self)),
    {
        if !self.configuring {
            return Err(OtError::new(OT_ERROR_INVALID_STATE));
        }
        self.configuring = false;
        if code == OT_ERROR_NONE {
            self.conf_taken = true;
            assert(self@ == old(self)@.commit_host(code).0);
            Ok(())
        } else {
            assert(self@ == old(self)@.commit_host(code).0);
            Err(OtError::new(code))
        }
    }

    /// Whether a configuration of the host waits for the answer of the
    /// stack.
    pub fn is_configuring(&self) -> (b: bool)
        ensures
            b == self@.configuring,
    {
        self.configuring
    }

    /// Reclaims the slots of the SRP host and services that are reported
    /// as removed.
    pub fn cleanup(&mut self, host_state: u32, removed: &[SrpServiceSlot])
        requires
            old(self).wf(),
            forall|i: int| 0 <= i < removed@.len() ==> removed@[i] < old(self)@.taken.len(),
        ensures
            final(self).wf(),
            final(self)@ == old(self)@.cleanup(host_state, removed@),
            final(self).same_memory(old(self)),
    {
        if host_state == OT_SRP_CLIENT_ITEM_STATE_REMOVED {
            self.conf_taken = false;
        }
        let count = self.taken.len();
        let mut i: usize = 0;
        while i < removed.len()
            invariant
                i <= removed@.len(),
                count == self.taken@.len(),
                self.taken@.len() == old(self).taken@.len(),
                forall|k: int| 0 <= k < removed@.len() ==> removed@[k] < old(self).taken@.len(),
                self.taken@ == reclaimed(old(self).taken@, removed@.take(i as int)),
                self.services == old(self).services,
                self.conf == old(self).conf,
                self.host == old(self).host,
                self.conf_taken == (old(self).conf_taken && host_state
                    != OT_SRP_CLIENT_ITEM_STATE_REMOVED),
                self.buffers == old(self).buffers,
                self.buf_len == old(self).buf_len,
                self.abi == old(self).abi,
                self.conf_addr == old(self).conf_addr,
                self.buffers_addr == old(self).buffers_addr,
                self.adding == old(self).adding,
                    self.configuring == old(self).configuring,
                self.held == old(self).held,
                self.held_conf == old(self).held_conf,
            decreases removed@.len() - i,
        {
            let slot = removed[i];
            self.taken[slot] = false;
            proof {
                let done = removed@.take(i as int);
                let more = removed@.take(i + 1);
                assert(more =~= done.push(slot));
                assert forall|s: int| 0 <= s < self.taken@.len() implies self.taken@[s]
                    == reclaimed(old(self).taken@, more)[s] by {
                    let u = s as usize;
                    if done.contains(u) {
                        let k = choose|k: int| 0 <= k < done.len() && done[k] == u;
                        assert(more[k] == u);
                    }
                    if u == slot {
                        assert(more[i as int] == u);
                    }
                    if more.contains(u) {
                        let k = choose|k: int| 0 <= k < more.len() && more[k] == u;
                        if k < i {
                            assert(done[k] == u);
                        }
                    }
                }
                assert(self.taken@ =~= reclaimed(old(self).taken@, more));
            }
            i += 1;
        }
        proof {
            assert(removed@.take(removed@.len() as int) =~= removed@);
            assert(i == 0 ==> self.taken@ =~= old(self).taken@);
            assert(self@ == old(self)@.cleanup(host_state, removed@));
        }
    }
}

/// The resources that the OpenThread stack needs to operate with SRP
/// services, by their size: `SRP_SVCS` slots with a buffer of
/// `SRP_BUF_SZ` bytes each, and a buffer of that size for the host. The
/// memory itself comes with `init`, which makes the arena of that size.
pub struct OtSrpResources<const SRP_SVCS: usize, const SRP_BUF_SZ: usize> {
    /// Whether the resources were handed out as a state.
    initialized: bool,
}

impl<const SRP_SVCS: usize, const SRP_BUF_SZ: usize> OtSrpResources<SRP_SVCS, SRP_BUF_SZ> {
    /// Create a new `OtSrpResources` instance.
    pub fn new() -> (resources: Self)
        ensures
            !resources.is_initialized(),
    {
        OtSrpResources { initialized: false }
    }

    /// Whether `init` has made a state of the resources.
    pub closed spec fn is_initialized(&self) -> bool {
        self.initialized
    }

    /// Initialize the resources: no slot is taken, the host is not
    /// configured, nothing is held, and every byte of the memory is 0.
    ///
    /// `abi` is the layout of what the stack reads; `conf_addr` and
    /// `buffers_addr` are the addresses at which the stack finds the memory
    /// of the host configuration and of the services.
    pub fn init(&mut self, abi: AbiLayout, conf_addr: usize, buffers_addr: usize) -> (state:
        OtSrpState)
        requires
            abi.wf(),
            conf_addr > 0,
            buffers_addr > 0,
            conf_addr + SRP_BUF_SZ <= usize::MAX,
            buffers_addr + SRP_SVCS * SRP_BUF_SZ <= usize::MAX,
        ensures
            final(self).is_initialized(),
            state.wf(),
            state@ == SrpArenaView::empty(
                SRP_SVCS as nat,
                SRP_BUF_SZ,
                abi,
                conf_addr,
                buffers_addr,
            ),
            state.spec_host() == SrpHostRecord::spec_empty(),
            state.conf_buffer() == Seq::new(SRP_BUF_SZ as nat, |i: int| 0u8),
            forall|slot: int|
                0 <= slot < SRP_SVCS ==> #[trigger] state.slot_buffer(slot) == Seq::new(
                    SRP_BUF_SZ as nat,
                    |i: int| 0u8,
                ),
    {
        let mut services: Vec<SrpServiceRecord> = Vec::new();
        let mut taken: Vec<bool> = Vec::new();
        let mut slot: usize = 0;
        while slot < SRP_SVCS
            invariant
                slot <= SRP_SVCS,
                services@.len() == slot,
                taken@.len() == slot,
                forall|j: int| 0 <= j < slot ==> !taken@[j],
            decreases SRP_SVCS - slot,
        {
            services.push(SrpServiceRecord::new());
            taken.push(false);
            slot += 1;
        }
        let conf: Vec<u8> = vec![0u8; SRP_BUF_SZ];
        let buffers: Vec<u8> = vec![0u8; SRP_SVCS * SRP_BUF_SZ];
        self.initialized = true;
        let state = OtSrpState {
            services,
            taken,
            conf,
            host: SrpHostRecord::new(),
            conf_taken: false,
            buffers,
            buf_len: SRP_BUF_SZ,
            abi,
            conf_addr,
            buffers_addr,
            adding: None,
            configuring: false,
            held: Ghost(Seq::new(SRP_SVCS as nat, |slot: int| None)),
            held_conf: Ghost(None),
        };
        proof {
            assert(state@.taken =~= Seq::new(SRP_SVCS as nat, |slot: int| false));
            assert(state.conf_buffer() =~= Seq::new(SRP_BUF_SZ as nat, |i: int| 0u8));
            assert forall|slot: int| 0 <= slot < SRP_SVCS implies #[trigger] state.slot_buffer(slot)
                == Seq::new(SRP_BUF_SZ as nat, |i: int| 0u8) by {
                lemma_slot_range(SRP_SVCS as int, SRP_BUF_SZ as int, slot);
                assert(state.slot_buffer(slot) =~= Seq::new(SRP_BUF_SZ as nat, |i: int| 0u8));
            }
        }
        state
    }
}

impl<const SRP_SVCS: usize, const SRP_BUF_SZ: usize> Default for OtSrpResources<
    SRP_SVCS,
    SRP_BUF_SZ,
> {
    fn default() -> (resources: Self)
        ensures
            !resources.is_initialized(),
    {
        Self::new()
    }
}

/// Stores `service` in the buffer of slot `slot`, one of `count` slots
/// that share `buffers`, and hands back its record, or the error of the
/// first part that cannot be stored. The buffers of the other slots stay
/// as they are.
fn store_in_slot(
    buffers: &mut Vec<u8>,
    buf_len: usize,
    Ghost(count): Ghost<int>,
    slot: SrpServiceSlot,
    abi: &AbiLayout,
    buffers_addr: usize,
    service: &SrpService,
) -> (r: Result<SrpServiceRecord, OtError>)
    requires
        0 <= slot < count,
        old(buffers)@.len() == count * buf_len,
        buffers_addr + old(buffers)@.len() <= usize::MAX,
        abi.wf(),
    ensures
        final(buffers)@.len() == old(buffers)@.len(),
        forall|other: int|
            0 <= other < count && other != slot ==> #[trigger] slot_bytes(
                final(buffers)@,
                buf_len as int,
                other,
            ) == slot_bytes(old(buffers)@, buf_len as int, other),
        match service_store_error(*abi, buffers_addr + slot * buf_len, buf_len as int, service@) {
            None => r matches Ok(record) && service_stored(
                *abi,
                buffers_addr + slot * buf_len,
                slot_bytes(final(buffers)@, buf_len as int, slot as int),
                record@,
                service@,
            ),
            Some(code) => r matches Err(e) && e == error_of(code),
        },
{
    let ghost before = buffers@;
    proof {
        lemma_slot_range(count, buf_len as int, slot as int);
        service.lemma_is_text();
    }
    let lo = slot * buf_len;
    let addr = buffers_addr + lo;
    let mut record = SrpServiceRecord::new();
    let whole = buffers.as_mut_slice();
    let (_, tail) = whole.split_at_mut(lo);
    let (slot_buf, _) = tail.split_at_mut(buf_len);
    let ghost slot_before = slot_buf@;
    let stored = service.store(&mut record, abi, addr, slot_buf);
    let ghost slot_after = slot_buf@;
    proof {
        let written = buffers@.subrange(lo as int, lo + buf_len);
        assert(written =~= slot_after);
        assert(buffers@ =~= before.subrange(0, lo as int) + written + before.subrange(
            lo + buf_len,
            count * buf_len,
        ));
        lemma_slot_frame(before, buffers@, count, buf_len as int, slot as int, written);
        if stored is Ok {
            let layout = service_layout(*abi, addr as int, buf_len as int, service@).unwrap();
            lemma_service_image(layout, *abi, addr as int, service@, slot_before);
        }
    }
    match stored {
        Ok(()) => Ok(record),
        Err(e) => Err(e),
    }
}

/// Slot `slot` of `count` slots of `buf_len` bytes each lies inside the
/// buffer that all slots share.
pub proof fn lemma_slot_range(count: int, buf_len: int, slot: int)
    requires
        0 <= slot < count,
        0 <= buf_len,
    ensures
        0 <= slot * buf_len,
        slot * buf_len + buf_len <= count * buf_len,
{
    assert(0 <= slot * buf_len) by (nonlinear_arith)
        requires
            0 <= slot,
            0 <= buf_len,
    ;
    assert(slot * buf_len + buf_len <= count * buf_len) by (nonlinear_arith)
        requires
            slot + 1 <= count,
            0 <= buf_len,
    ;
}

/// Writing to the buffer of one slot leaves the buffers of the others as
/// they were.
pub proof fn lemma_slot_frame(
    before: Seq<u8>,
    after: Seq<u8>,
    count: int,
    buf_len: int,
    slot: int,
    written: Seq<u8>,
)
    requires
        0 <= slot < count,
        0 <= buf_len,
        before.len() == count * buf_len,
        written.len() == buf_len,
        after == before.subrange(0, slot * buf_len) + written + before.subrange(
            slot * buf_len + buf_len,
            count * buf_len,
        ),
    ensures
        after.len() == before.len(),
        slot_bytes(after, buf_len, slot) == written,
        forall|other: int|
            0 <= other < count && other != slot ==> #[trigger] slot_bytes(after, buf_len, other)
                == slot_bytes(before, buf_len, other),
{
    lemma_slot_range(count, buf_len, slot);
    assert(slot_bytes(after, buf_len, slot) =~= written);
    assert forall|other: int| 0 <= other < count && other != slot implies #[trigger] slot_bytes(
        after,
        buf_len,
        other,
    ) == slot_bytes(before, buf_len, other) by {
        lemma_slot_range(count, buf_len, other);
        if other < slot {
            lemma_slot_range(slot, buf_len, other);
        } else {
            lemma_slot_range(other, buf_len, slot);
        }
        assert(slot_bytes(after, buf_len, other) =~= slot_bytes(before, buf_len, other));
    }
}

} // verus!
