//! What holds of the arena whatever is stored in it.

use vstd::prelude::*;
use crate::error::error_of;
use crate::error::OtError;
use crate::error::OT_ERROR_NONE;
use crate::error::OT_ERROR_NO_BUFS;
use crate::srp::resources::first_free;
use crate::srp::resources::first_free_from;
use crate::srp::resources::lemma_first_free;
use crate::srp::resources::OtSrpState;
use crate::srp::resources::SrpArenaView;
use crate::srp::store::lemma_service_image;
use crate::srp::store::conf_store_error;
use crate::srp::store::lemma_conf_store_error;
use crate::srp::store::lemma_service_store_error;
use crate::srp::store::service_layout;
use crate::srp::store::service_store_error;
use crate::srp::types::SrpServiceSlot;
use crate::srp::types::SrpServiceView;

verus! {

impl SrpArenaView {
    /// Adds `service` and has the stack accept it: the service is stored
    /// in the first free slot, and the slot is taken.
    pub open spec fn add(self, service: SrpServiceView) -> (SrpArenaView, Result<
        SrpServiceSlot,
        OtError,
    >) {
        let stored = self.allocate(service);
        if stored.1 is Ok {
            stored.0.commit(OT_ERROR_NONE)
        } else {
            stored
        }
    }

    /// The arena after the first `count` of `services` were added, one
    /// after the other.
    pub open spec fn add_all(self, services: Seq<SrpServiceView>, count: nat) -> SrpArenaView
        decreases count,
    {
        if count == 0 {
            self
        } else {
            self.add_all(services, (count - 1) as nat).add(services[count - 1]).0
        }
    }

    /// Whether `service` finds room in the buffer of every slot.
    pub open spec fn fits_anywhere(self, service: SrpServiceView) -> bool {
        forall|slot: int| 0 <= slot < self.taken.len() ==> #[trigger] self.fits(slot, service)
    }
}

/// A service that can be stored and finds room in a slot is stored there
/// without error; a service that cannot be stored is stored nowhere.
proof fn lemma_fits(arena: SrpArenaView, slot: int, service: SrpServiceView)
    requires
        arena.wf(),
        0 <= slot,
    ensures
        service.storable() && arena.fits(slot, service) <==> service_store_error(
            arena.abi,
            arena.slot_addr(slot),
            arena.buf_len as int,
            service,
        ) is None,
        service_store_error(
            arena.abi,
            arena.slot_addr(slot),
            arena.buf_len as int,
            service,
        ) matches Some(code) ==> code == OT_ERROR_NO_BUFS || code
            == crate::error::OT_ERROR_INVALID_ARGS,
{
    assert(0 <= slot * arena.buf_len) by (nonlinear_arith)
        requires
            0 <= slot,
            0 <= arena.buf_len,
    ;
    lemma_service_store_error(arena.abi, arena.slot_addr(slot), arena.buf_len as int, service);
}

/// Where exactly the slots below `count` are taken, slot `count` is the
/// first free one, unless there are no more slots.
proof fn lemma_first_free_of_prefix(len: nat, count: nat, from: int)
    requires
        count <= len,
        0 <= from <= count,
    ensures
        first_free_from(Seq::new(len, |slot: int| slot < count), from) == (if count < len {
            Some(count as int)
        } else {
            None
        }),
    decreases count - from,
{
    if from < count {
        lemma_first_free_of_prefix(len, count, from + 1);
    }
}

/// An arena takes as many services as it has slots, in the order of the
/// slots, and not one more.
///
/// From an arena of free slots, adding services that can be stored and
/// find room in a slot succeeds once for every slot: the service added as number `count`,
/// counted from 0, gets slot `count`. When every slot is taken, the next
/// service is refused with `OT_ERROR_NO_BUFS`, and the arena stays as
/// full as it is.
pub proof fn law_arena_takes_its_capacity(
    arena: SrpArenaView,
    services: Seq<SrpServiceView>,
    count: nat,
)
    requires
        arena.wf(),
        forall|slot: int| 0 <= slot < arena.taken.len() ==> !arena.taken[slot],
        count <= arena.taken.len(),
        count < services.len(),
        forall|i: int|
            0 <= i < services.len() ==> (#[trigger] services[i]).storable() && arena.fits_anywhere(
                services[i],
            ),
    ensures
        arena.add_all(services, count).wf(),
        arena.add_all(services, count).taken == Seq::new(
            arena.taken.len(),
            |slot: int| slot < count,
        ),
        count < arena.taken.len() ==> arena.add_all(services, count).add(services[count as int]).1
            == Ok::<SrpServiceSlot, OtError>(count as usize),
        count == arena.taken.len() ==> arena.add_all(services, count).add(services[count as int])
            == (
            (SrpArenaView { adding: None, ..arena.add_all(services, count) }),
            Err::<SrpServiceSlot, OtError>(error_of(OT_ERROR_NO_BUFS)),
        ),
    decreases count,
{
    let len = arena.taken.len();
    let now = arena.add_all(services, count);
    if count == 0 {
        assert(now.taken =~= Seq::new(len, |slot: int| slot < count));
    } else {
        let before = arena.add_all(services, (count - 1) as nat);
        law_arena_takes_its_capacity(arena, services, (count - 1) as nat);
        lemma_frame_of_add_all(arena, services, (count - 1) as nat);
        lemma_first_free_of_prefix(len, (count - 1) as nat, 0);
        let service = services[count - 1];
        assert(arena.fits_anywhere(service));
        assert(before.fits(count - 1, service) == arena.fits(count - 1, service));
        lemma_fits(before, count - 1, service);
        assert(now.taken =~= Seq::new(len, |slot: int| slot < count));
    }
    lemma_frame_of_add_all(arena, services, count);
    lemma_first_free_of_prefix(len, count, 0);
    if count < len {
        let service = services[count as int];
        assert(arena.fits_anywhere(service));
        assert(now.fits(count as int, service) == arena.fits(count as int, service));
        lemma_fits(now, count as int, service);
    }
}

/// Adding services changes neither where the buffers lie nor how long
/// they are, so what found room keeps finding room.
proof fn lemma_frame_of_add_all(arena: SrpArenaView, services: Seq<SrpServiceView>, count: nat)
    ensures
        arena.add_all(services, count).buf_len == arena.buf_len,
        arena.add_all(services, count).abi == arena.abi,
        arena.add_all(services, count).buffers_addr == arena.buffers_addr,
        arena.add_all(services, count).conf_addr == arena.conf_addr,
        arena.add_all(services, count).taken.len() == arena.taken.len(),
    decreases count,
{
    if count > 0 {
        lemma_frame_of_add_all(arena, services, (count - 1) as nat);
        let before = arena.add_all(services, (count - 1) as nat);
        lemma_first_free(before.taken, 0);
    }
}

/// A slot that is released at once can be taken again at once.
///
/// After the immediate removal of the service in `slot`, which the stack
/// has answered without error, the next service that can be stored and
/// finds room is stored
/// in the first free slot, which is `slot` or a slot below it; it is
/// `slot` where every slot below `slot` is taken.
pub proof fn law_released_slot_is_reused(
    arena: SrpArenaView,
    slot: SrpServiceSlot,
    service: SrpServiceView,
)
    requires
        arena.wf(),
        arena.is_taken(slot),
        service.storable(),
        arena.fits_anywhere(service),
    ensures
        arena.release(slot, true, OT_ERROR_NONE).1 is Ok,
        arena.release(slot, true, OT_ERROR_NONE).0.add(service).1 matches Ok(next) && next <= slot
            && (next == slot || !arena.is_taken(next)),
        (forall|below: int| 0 <= below < slot ==> arena.taken[below]) ==> arena.release(
            slot,
            true,
            OT_ERROR_NONE,
        ).0.add(service).1 == Ok::<SrpServiceSlot, OtError>(slot),
        arena.release(slot, true, OT_ERROR_NONE).0.add(service).0.is_taken(
            arena.release(slot, true, OT_ERROR_NONE).0.add(service).1.unwrap(),
        ),
{
    let released = arena.release(slot, true, OT_ERROR_NONE).0;
    lemma_first_free(released.taken, 0);
    let next = first_free(released.taken).unwrap();
    assert(!released.taken[slot as int]);
    assert(released.fits(next, service) == arena.fits(next, service));
    lemma_fits(released, next, service);
    if forall|below: int| 0 <= below < slot ==> arena.taken[below] {
        if next < slot {
            assert(arena.taken[next]);
        }
    }
}

/// A service that is removed gracefully keeps its slot until the stack
/// reports it as removed; a service that is removed at once does not.
///
/// After a graceful removal that the stack has answered without error,
/// the slot is still taken. A report of the stack frees it if and only if
/// the report names the slot. An immediate removal frees the slot without
/// any report.
pub proof fn law_graceful_removal(
    arena: SrpArenaView,
    slot: SrpServiceSlot,
    host_state: u32,
    removed: Seq<SrpServiceSlot>,
)
    requires
        arena.wf(),
        arena.is_taken(slot),
    ensures
        arena.release(slot, false, OT_ERROR_NONE) == (arena, Ok::<(), OtError>(())),
        arena.release(slot, false, OT_ERROR_NONE).0.cleanup(host_state, removed).is_taken(slot)
            == !removed.contains(slot),
        !arena.release(slot, true, OT_ERROR_NONE).0.is_taken(slot),
        arena.release(slot, true, OT_ERROR_NONE).1 is Ok,
{
}

/// Removal leaves the other slots alone: neither kind of removal nor a
/// report of the stack changes whether a slot is taken that it does not
/// name.
pub proof fn law_removal_is_local(
    arena: SrpArenaView,
    slot: SrpServiceSlot,
    other: SrpServiceSlot,
    immediate: bool,
    code: u32,
    host_state: u32,
    removed: Seq<SrpServiceSlot>,
)
    requires
        arena.wf(),
        other != slot,
        !removed.contains(other),
    ensures
        arena.release(slot, immediate, code).0.is_taken(other) == arena.is_taken(other),
        arena.cleanup(host_state, removed).is_taken(other) == arena.is_taken(other),
{
}

/// The host is configured when the stack has accepted its configuration,
/// and only once.
///
/// A configuration that is stored leaves the host unconfigured until the
/// stack has answered. Accepted, the host is configured, and a second
/// configuration is refused with `OT_ERROR_INVALID_STATE` until the first
/// is removed; an immediate removal of everything makes room for the next.
pub proof fn law_host_is_configured_once(
    arena: SrpArenaView,
    first: crate::srp::types::SrpConfView,
    second: crate::srp::types::SrpConfView,
    code: u32,
)
    requires
        arena.wf(),
        !arena.conf_taken,
        !first.host_name.contains(0u8),
        !second.host_name.contains(0u8),
        arena.conf_fits(first),
        arena.conf_fits(second),
    ensures
        arena.configure_host(first).1 is Ok,
        !arena.configure_host(first).0.conf_taken,
        arena.configure_host(first).0.commit_host(OT_ERROR_NONE).1 is Ok,
        arena.configure_host(first).0.commit_host(OT_ERROR_NONE).0.conf_taken,
        arena.configure_host(first).0.commit_host(OT_ERROR_NONE).0.configure_host(second).1 == Err::<
            (),
            OtError,
        >(error_of(crate::error::OT_ERROR_INVALID_STATE)),
        arena.configure_host(first).0.commit_host(OT_ERROR_NONE).0.remove_all(true, code).1 is Ok,
        arena.configure_host(first).0.commit_host(OT_ERROR_NONE).0.remove_all(
            true,
            code,
        ).0.configure_host(second).1 is Ok,
{
    lemma_conf_store_error(arena.abi, arena.conf_addr as int, arena.buf_len as int, first);
    lemma_conf_store_error(arena.abi, arena.conf_addr as int, arena.buf_len as int, second);
}

/// What the stack refuses is not taken, and can be tried again.
///
/// A configuration that the stack refuses leaves the host unconfigured,
/// the result is the stack's error, and the next configuration is stored
/// as if the first had never been. A service that the stack refuses
/// leaves its slot free, and the next service gets that slot.
pub proof fn law_refused_by_the_stack_is_not_taken(
    arena: SrpArenaView,
    conf: crate::srp::types::SrpConfView,
    service: SrpServiceView,
    code: u32,
)
    requires
        arena.wf(),
        code != OT_ERROR_NONE,
    ensures
        arena.configure_host(conf).1 is Ok ==> {
            &&& arena.configure_host(conf).0.commit_host(code).1 == Err::<(), OtError>(
                error_of(code),
            )
            &&& !arena.configure_host(conf).0.commit_host(code).0.conf_taken
            &&& arena.configure_host(conf).0.commit_host(code).0.is_empty() == arena.is_empty()
            &&& arena.configure_host(conf).0.commit_host(code).0.configure_host(conf).1 is Ok
        },
        arena.allocate(service).1 matches Ok(slot) ==> {
            &&& arena.allocate(service).0.commit(code).1 == Err::<SrpServiceSlot, OtError>(
                error_of(code),
            )
            &&& arena.allocate(service).0.commit(code).0.taken == arena.taken
            &&& arena.allocate(service).0.commit(code).0.allocate(service).1 == Ok::<
                SrpServiceSlot,
                OtError,
            >(slot)
        },
{
}

/// A string with a NUL inside is never stored.
///
/// A service that has a NUL inside a name, a label or a key, and a
/// configuration that has one inside the host name, are refused: with
/// `OT_ERROR_NO_BUFS` where a part before the string or the string itself
/// finds no room, with `OT_ERROR_INVALID_ARGS` else. No slot is taken by
/// it, the host is not configured by it, and nothing waits for the answer
/// of the stack after it.
pub proof fn law_bad_strings_are_never_stored(
    arena: SrpArenaView,
    service: SrpServiceView,
    conf: crate::srp::types::SrpConfView,
)
    requires
        arena.wf(),
        !service.storable(),
        conf.host_name.contains(0u8),
    ensures
        arena.allocate(service).1 matches Err(e) && (e == error_of(OT_ERROR_NO_BUFS) || e == error_of(
            crate::error::OT_ERROR_INVALID_ARGS,
        )),
        arena.allocate(service).0.taken == arena.taken,
        arena.allocate(service).0.adding is None,
        !arena.conf_taken ==> (arena.configure_host(conf).1 matches Err(e) && (e == error_of(
            OT_ERROR_NO_BUFS,
        ) || e == error_of(crate::error::OT_ERROR_INVALID_ARGS))),
        arena.configure_host(conf).0 == (SrpArenaView { configuring: false, ..arena }),
{
    lemma_first_free(arena.taken, 0);
    if first_free(arena.taken) is Some {
        lemma_fits(arena, first_free(arena.taken).unwrap(), service);
    }
    lemma_conf_store_error(arena.abi, arena.conf_addr as int, arena.buf_len as int, conf);
}

/// The steps of the arena keep it consistent.
pub proof fn law_steps_keep_arena_consistent(
    arena: SrpArenaView,
    service: SrpServiceView,
    conf: crate::srp::types::SrpConfView,
    slot: SrpServiceSlot,
    immediate: bool,
    code: u32,
    host_state: u32,
    removed: Seq<SrpServiceSlot>,
)
    requires
        arena.wf(),
    ensures
        arena.allocate(service).0.wf(),
        arena.commit(code).0.wf(),
        arena.release(slot, immediate, code).0.wf(),
        arena.remove_all(immediate, code).0.wf(),
        arena.configure_host(conf).0.wf(),
        arena.commit_host(code).0.wf(),
        arena.cleanup(host_state, removed).wf(),
{
    lemma_first_free(arena.taken, 0);
}

impl OtSrpState {
    /// No slot uses more than its buffer: what a slot holds ends inside
    /// the buffer of the slot, whose length never changes. So all services
    /// together never use more than the slots have.
    pub proof fn law_usage_within_capacity(&self, slot: int)
        requires
            self.wf(),
            0 <= slot < self@.taken.len(),
            self@.taken[slot],
        ensures
            self.slot_buffer(slot).len() == self@.buf_len,
            self@.held[slot] matches Some(service) && service_layout(
                self@.abi,
                self@.slot_addr(slot),
                self@.buf_len as int,
                service,
            ) matches Some(layout) && 0 <= layout.strings <= layout.end <= self@.buf_len,
    {
        self.lemma_wf();
        self.lemma_slot(slot);
        let service = self@.held[slot].unwrap();
        let layout = service_layout(
            self@.abi,
            self@.slot_addr(slot),
            self@.buf_len as int,
            service,
        ).unwrap();
        lemma_service_image(
            layout,
            self@.abi,
            self@.slot_addr(slot),
            service,
            self.slot_buffer(slot),
        );
    }
}

} // verus!
