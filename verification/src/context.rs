//! Activation: the one way to the state of the stack.
//!
//! A task activates the stack, works on its state and releases it again.
//! What the stack calls back while it is active works on the same state
//! through the same activation. While the stack is active, no second
//! activation is handed out.

use vstd::prelude::*;
use crate::error::error_of;
use crate::error::OtError;
use crate::error::OT_ERROR_INVALID_STATE;
use crate::signal::cancel_step;
use crate::signal::poll_step;
use crate::signal::signal_step;
use crate::signal::wait_step;
use crate::signal::Signal;
use crate::signal::SignalState;
use crate::srp::resources::OtSrpResources;
use crate::srp::resources::OtSrpState;
use crate::srp::resources::SrpArenaView;
use crate::srp::load::conf_read;
use crate::srp::load::service_read;
use crate::srp::load::OutSrpConf;
use crate::srp::load::OutSrpService;
use crate::srp::types::AbiLayout;
use crate::srp::types::SrpHostRecord;
use crate::srp::types::SrpState;
use crate::srp::types::SrpConf;
use crate::srp::types::SrpService;
use crate::srp::types::SrpServiceSlot;

verus! {

/// Whether `addr` is the unspecified address: every octet is 0.
pub open spec fn is_unspecified(addr: Seq<u8>) -> bool {
    forall|i: int| 0 <= i < addr.len() ==> addr[i] == 0u8
}

/// The state of the stack that an activation gives access to: the SRP
/// arena, if the stack was set up with one, and the change signals.
pub struct OtContext<W> {
    /// The SRP state, where the stack has SRP.
    srp: Option<OtSrpState>,
    /// Signals a change of the SRP state.
    srp_changes: Signal<W>,
    /// Signals a change of any state of the stack.
    changes: Signal<W>,
}

impl<W> OtContext<W> {
    /// The SRP state, where the stack has SRP.
    pub closed spec fn srp(&self) -> Option<OtSrpState> {
        self.srp
    }

    /// What the signal of SRP changes holds.
    pub closed spec fn srp_changes(&self) -> SignalState<W> {
        self.srp_changes.state()
    }

    /// What the signal of all changes holds.
    pub closed spec fn changes(&self) -> SignalState<W> {
        self.changes.state()
    }

    /// The arena, if there is one, is consistent.
    pub open spec fn wf(&self) -> bool {
        self.srp() matches Some(srp) ==> srp.wf()
    }

    /// Both signals are as in `before`.
    pub open spec fn same_signals(&self, before: &Self) -> bool {
        &&& self.srp_changes() == before.srp_changes()
        &&& self.changes() == before.changes()
    }

    /// `after` is what an operation on the arena makes of `self`, and `r`
    /// is its result: the arena is `step` further and consistent, its
    /// memory is kept as `kept` says of the arena before and after, and
    /// the signals are as they were. Without SRP the result is
    /// `OT_ERROR_INVALID_STATE` and nothing changes.
    pub open spec fn srp_step<R>(
        &self,
        after: &Self,
        r: Result<R, OtError>,
        step: spec_fn(SrpArenaView) -> (SrpArenaView, Result<R, OtError>),
        kept: spec_fn(OtSrpState, OtSrpState) -> bool,
    ) -> bool {
        &&& after.same_signals(self)
        &&& match self.srp() {
            Some(before) => after.srp() matches Some(arena) && arena.wf() && (arena@, r) == step(
                before@,
            ) && kept(before, arena),
            None => r == Err::<R, OtError>(error_of(OT_ERROR_INVALID_STATE)) && after.srp()
                is None,
        }
    }

    /// The result of reading `get` off the arena: without SRP it is
    /// `OT_ERROR_INVALID_STATE`.
    pub open spec fn srp_read<R>(&self, get: spec_fn(SrpArenaView) -> Result<R, OtError>) -> Result<
        R,
        OtError,
    > {
        match self.srp() {
            Some(srp) => get(srp@),
            None => Err(error_of(OT_ERROR_INVALID_STATE)),
        }
    }

    /// The state of a stack without SRP.
    pub fn new() -> (context: Self)
        ensures
            context.srp() is None,
            context.srp_changes() == SignalState::<W>::Idle,
            context.changes() == SignalState::<W>::Idle,
            context.wf(),
    {
        OtContext { srp: None, srp_changes: Signal::new(), changes: Signal::new() }
    }

    /// The state of a stack with the SRP state `srp`.
    pub fn new_with_srp(srp: OtSrpState) -> (context: Self)
        requires
            srp.wf(),
        ensures
            context.srp() == Some(srp),
            context.srp_changes() == SignalState::<W>::Idle,
            context.changes() == SignalState::<W>::Idle,
            context.wf(),
    {
        OtContext { srp: Some(srp), srp_changes: Signal::new(), changes: Signal::new() }
    }

    /// Whether the stack has SRP.
    pub fn has_srp(&self) -> (b: bool)
        ensures
            b == self.srp() is Some,
    {
        self.srp.is_some()
    }

    /// The SRP state, to read it.
    pub fn srp_state(&self) -> (r: Result<&OtSrpState, OtError>)
        ensures
            match self.srp() {
                Some(srp) => r == Ok::<&OtSrpState, OtError>(&srp),
                None => r == Err::<&OtSrpState, OtError>(error_of(OT_ERROR_INVALID_STATE)),
            },
    {
        match &self.srp {
            Some(srp) => Ok(srp),
            None => {
                Err(OtError::new(OT_ERROR_INVALID_STATE))
            },
        }
    }

    /// Return `true` if there is neither host, nor any service currently
    /// registered with the SRP client.
    pub fn srp_is_empty(&self) -> (r: Result<bool, OtError>)
        ensures
            r == self.srp_read(|arena: SrpArenaView| Ok::<bool, OtError>(arena.is_empty())),
    {
        match &self.srp {
            Some(srp) => Ok(srp.is_empty()),
            None => {
                Err(OtError::new(OT_ERROR_INVALID_STATE))
            },
        }
    }

    /// Return the current SRP client configuration and SRP client host
    /// state: the configuration that the host record `info` of the stack
    /// names, with the times that the stack reports, the state of the
    /// host, and whether the host is free to be configured.
    pub fn srp_conf(
        &self,
        info: &SrpHostRecord,
        ttl: u32,
        default_lease_secs: u32,
        default_key_lease_secs: u32,
    ) -> (r: Result<(OutSrpConf<'_>, SrpState, bool), OtError>)
        ensures
            match self.srp() {
                Some(srp) => {
                    &&& r matches Ok((conf, state, free))
                    &&& conf@ == conf_read(
                        *info,
                        srp.conf_buffer(),
                        srp@.conf_addr as int,
                        ttl,
                        default_lease_secs,
                        default_key_lease_secs,
                    )
                    &&& state == SrpState::of_item_state(info.state)
                    &&& free == !srp@.conf_taken
                },
                None => r matches Err(e) && e == error_of(OT_ERROR_INVALID_STATE),
            },
    {
        match &self.srp {
            Some(srp) => Ok(
                (
                    srp.conf(info, ttl, default_lease_secs, default_key_lease_secs),
                    SrpState::from(info.state),
                    !srp.is_configured(),
                ),
            ),
            None => {
                Err(OtError::new(OT_ERROR_INVALID_STATE))
            },
        }
    }

    /// The SRP services registered with the SRP client: for each service
    /// that the stack lists, by its slot and its item state, the service,
    /// its state and its slot, in the order of the list.
    pub fn srp_services(&self, listed: &[(SrpServiceSlot, u32)]) -> (r: Result<
        Vec<(OutSrpService<'_>, SrpState, SrpServiceSlot)>,
        OtError,
    >)
        requires
            self.wf(),
            self.srp() matches Some(srp) ==> forall|i: int|
                0 <= i < listed@.len() ==> (#[trigger] listed@[i]).0 < srp@.taken.len(),
        ensures
            match self.srp() {
                Some(srp) => {
                    &&& r matches Ok(services)
                    &&& services@.len() == listed@.len()
                    &&& forall|i: int|
                        0 <= i < listed@.len() ==> {
                            &&& (#[trigger] services@[i]).0@ == service_read(
                                srp.records()[listed@[i].0 as int],
                                srp.slot_buffer(listed@[i].0 as int),
                                srp@.slot_addr(listed@[i].0 as int),
                            )
                            &&& services@[i].1 == SrpState::of_item_state(listed@[i].1)
                            &&& services@[i].2 == listed@[i].0
                        }
                },
                None => r matches Err(e) && e == error_of(OT_ERROR_INVALID_STATE),
            },
    {
        match &self.srp {
            Some(srp) => {
                let mut services: Vec<(OutSrpService<'_>, SrpState, SrpServiceSlot)> = Vec::new();
                let mut index: usize = 0;
                while index < listed.len()
                    invariant
                        index <= listed@.len(),
                        srp.wf(),
                        forall|i: int|
                            0 <= i < listed@.len() ==> (#[trigger] listed@[i]).0
                                < srp@.taken.len(),
                        services@.len() == index,
                        forall|i: int|
                            0 <= i < index ==> {
                                &&& (#[trigger] services@[i]).0@ == service_read(
                                    srp.records()[listed@[i].0 as int],
                                    srp.slot_buffer(listed@[i].0 as int),
                                    srp@.slot_addr(listed@[i].0 as int),
                                )
                                &&& services@[i].1 == SrpState::of_item_state(listed@[i].1)
                                &&& services@[i].2 == listed@[i].0
                            },
                    decreases listed@.len() - index,
                {
                    let (slot, state) = listed[index];
                    match srp.service(slot) {
                        Some(service) => {
                            services.push((service, SrpState::from(state), slot));
                        },
                        None => {
                            assert(listed@[index as int].0 < srp@.taken.len());
                        },
                    }
                    index += 1;
                }
                Ok(services)
            },
            None => {
                Err(OtError::new(OT_ERROR_INVALID_STATE))
            },
        }
    }

    /// Return the SRP server address, if the SRP client is running and
    /// had connected to a server: the address `addr` that the stack
    /// reports, by its octets, with its port, unless it is the
    /// unspecified address.
    pub fn srp_server_addr(&self, addr: &[u8; 16], port: u16) -> (r: Result<
        Option<([u8; 16], u16)>,
        OtError,
    >)
        ensures
            r == self.srp_read(
                |arena: SrpArenaView|
                    Ok::<Option<([u8; 16], u16)>, OtError>(
                        if is_unspecified(addr@) {
                            None
                        } else {
                            Some((*addr, port))
                        },
                    ),
            ),
    {
        if self.srp.is_none() {
            return Err(OtError::new(OT_ERROR_INVALID_STATE));
        }
        let mut index: usize = 0;
        while index < 16
            invariant
                index <= 16,
                self.srp() is Some,
                forall|i: int| 0 <= i < index ==> addr@[i] == 0u8,
            decreases 16 - index,
        {
            if addr[index] != 0 {
                assert(addr@[index as int] != 0u8);
                assert(!is_unspecified(addr@));
                return Ok(Some((*addr, port)));
            }
            index += 1;
        }
        Ok(None)
    }

    /// Stores the configuration of the host in the arena, where it waits
    /// for the answer of the stack. No service's record or buffer changes,
    /// and no byte changes where the configuration is refused.
    pub fn srp_set_conf(&mut self, conf: &SrpConf) -> (r: Result<(), OtError>)
        requires
            old(self).wf(),
        ensures
            old(self).srp_step(
                final(self),
                r,
                |arena: SrpArenaView| arena.configure_host(conf@),
                |before: OtSrpState, after: OtSrpState|
                    after.same_slots(&before) && (r is Err ==> after.same_memory(&before)),
            ),
    {
        match &mut self.srp {
            Some(srp) => srp.configure_host(conf),
            None => {
                Err(OtError::new(OT_ERROR_INVALID_STATE))
            },
        }
    }

    /// Takes in the answer `code` of the stack to the configuration that
    /// waits for it: the host is configured exactly when `code` is
    /// `OT_ERROR_NONE`.
    pub fn srp_set_conf_done(&mut self, code: u32) -> (r: Result<(), OtError>)
        requires
            old(self).wf(),
        ensures
            old(self).srp_step(
                final(self),
                r,
                |arena: SrpArenaView| arena.commit_host(code),
                |before: OtSrpState, after: OtSrpState| after.same_memory(&before),
            ),
    {
        match &mut self.srp {
            Some(srp) => srp.commit_host(code),
            None => {
                Err(OtError::new(OT_ERROR_INVALID_STATE))
            },
        }
    }

    /// Stores `service` in the first free slot of the arena, where it
    /// waits for the answer of the stack. The host and every other slot
    /// keep their records and their bytes.
    pub fn srp_add_service(&mut self, service: &SrpService) -> (r: Result<SrpServiceSlot, OtError>)
        requires
            old(self).wf(),
        ensures
            old(self).srp_step(
                final(self),
                r,
                |arena: SrpArenaView| arena.allocate(service@),
                |before: OtSrpState, after: OtSrpState| after.same_but_first_free(&before),
            ),
    {
        match &mut self.srp {
            Some(srp) => srp.allocate(service),
            None => {
                Err(OtError::new(OT_ERROR_INVALID_STATE))
            },
        }
    }

    /// Takes in the answer `code` of the stack to the service that waits
    /// for it.
    pub fn srp_add_service_done(&mut self, code: u32) -> (r: Result<SrpServiceSlot, OtError>)
        requires
            old(self).wf(),
        ensures
            old(self).srp_step(
                final(self),
                r,
                |arena: SrpArenaView| arena.commit(code),
                |before: OtSrpState, after: OtSrpState| after.same_memory(&before),
            ),
    {
        match &mut self.srp {
            Some(srp) => srp.commit(code),
            None => {
                Err(OtError::new(OT_ERROR_INVALID_STATE))
            },
        }
    }

    /// Whether `slot` names a service that can be removed: `Ok` for a slot
    /// that is taken, `OT_ERROR_INVALID_ARGS` for any other.
    pub fn srp_service_taken(&self, slot: SrpServiceSlot) -> (r: Result<(), OtError>)
        ensures
            r == self.srp_read(
                |arena: SrpArenaView|
                    if arena.is_taken(slot) {
                        Ok::<(), OtError>(())
                    } else {
                        Err::<(), OtError>(error_of(crate::error::OT_ERROR_INVALID_ARGS))
                    },
            ),
    {
        match &self.srp {
            Some(srp) => {
                if srp.is_taken(slot) {
                    Ok(())
                } else {
                    Err(OtError::new(crate::error::OT_ERROR_INVALID_ARGS))
                }
            },
            None => Err(OtError::new(OT_ERROR_INVALID_STATE)),
        }
    }

    /// Releases `slot` after the stack has answered `code` to the removal
    /// of its service.
    pub fn srp_remove_service(&mut self, slot: SrpServiceSlot, immediate: bool, code: u32) -> (r:
        Result<(), OtError>)
        requires
            old(self).wf(),
        ensures
            old(self).srp_step(
                final(self),
                r,
                |arena: SrpArenaView| arena.release(slot, immediate, code),
                |before: OtSrpState, after: OtSrpState| after.same_memory(&before),
            ),
    {
        match &mut self.srp {
            Some(srp) => srp.release(slot, immediate, code),
            None => {
                Err(OtError::new(OT_ERROR_INVALID_STATE))
            },
        }
    }

    /// Removes the host and all services, at once or, after the stack has
    /// answered `code`, gracefully.
    pub fn srp_remove_all(&mut self, immediate: bool, code: u32) -> (r: Result<(), OtError>)
        requires
            old(self).wf(),
        ensures
            old(self).srp_step(
                final(self),
                r,
                |arena: SrpArenaView| arena.remove_all(immediate, code),
                |before: OtSrpState, after: OtSrpState| after.same_memory(&before),
            ),
    {
        match &mut self.srp {
            Some(srp) => srp.remove_all(immediate, code),
            None => {
                Err(OtError::new(OT_ERROR_INVALID_STATE))
            },
        }
    }

    /// Starts or renews the wait of `waiter` for the next change of the
    /// SRP state; `true` where a change is pending and ends the wait at
    /// once. Without SRP nothing ever changes: the wait never ends, and
    /// nobody is registered.
    pub fn srp_poll_changed(&mut self, waiter: W) -> (ready: bool)
        ensures
            final(self).srp() == old(self).srp(),
            final(self).changes() == old(self).changes(),
            match old(self).srp() {
                Some(_) => (final(self).srp_changes(), ready) == wait_step(
                    old(self).srp_changes(),
                    waiter,
                ),
                None => !ready && final(self).srp_changes() == old(self).srp_changes(),
            },
    {
        if self.srp.is_some() {
            self.srp_changes.poll_wait(waiter)
        } else {
            false
        }
    }

    /// One poll of a wait for the next change of the SRP state. `waiter`
    /// is `registered` if an earlier poll of the same wait has registered
    /// it. The result says whether the wait is over and whether `waiter`
    /// is registered now. Without SRP nothing ever changes: the wait is
    /// never over, and nobody is registered.
    pub fn srp_wait_poll(&mut self, registered: bool, waiter: W) -> (r: (bool, bool))
        ensures
            final(self).srp() == old(self).srp(),
            final(self).changes() == old(self).changes(),
            match old(self).srp() {
                Some(_) => (final(self).srp_changes(), r.0, r.1) == poll_step(
                    old(self).srp_changes(),
                    registered,
                    waiter,
                ),
                None => r == (false, false) && final(self).srp_changes() == old(self).srp_changes(),
            },
    {
        if self.srp.is_some() {
            self.srp_changes.poll(registered, waiter)
        } else {
            (false, false)
        }
    }

    /// Whether a waiter is registered for the next change of the SRP
    /// state.
    pub fn srp_is_waiting(&self) -> (b: bool)
        ensures
            b == (self.srp_changes() is Waiting),
    {
        self.srp_changes.is_waiting()
    }

    /// Gives up the wait for the next change of the SRP state: nobody is
    /// registered afterwards. A change that is pending stays pending.
    pub fn srp_cancel_wait(&mut self)
        ensures
            final(self).srp() == old(self).srp(),
            final(self).changes() == old(self).changes(),
            final(self).srp_changes() == cancel_step(old(self).srp_changes()),
    {
        self.srp_changes.cancel();
    }

    /// Reclaims the slots of the SRP host and services that are reported
    /// as removed. Without SRP there is nothing to reclaim.
    pub fn cleanup(&mut self, host_state: u32, removed: &[SrpServiceSlot])
        requires
            old(self).wf(),
            old(self).srp() matches Some(srp) ==> forall|i: int|
                0 <= i < removed@.len() ==> removed@[i] < srp@.taken.len(),
        ensures
            final(self).wf(),
            final(self).same_signals(old(self)),
            match old(self).srp() {
                Some(before) => final(self).srp() matches Some(after) && after@
                    == before@.cleanup(host_state, removed@) && after.same_memory(&before),
                None => final(self).srp() is None,
            },
    {
        match &mut self.srp {
            Some(srp) => {
                srp.cleanup(host_state, removed);
            },
            None => {},
        }
    }

    /// `after` is `self` with both signals given, and `woken` holds the
    /// waiters that the signals reach, the one for SRP changes first.
    /// Without SRP nothing is signalled.
    pub open spec fn signalled_step(&self, after: &Self, woken: (Option<W>, Option<W>)) -> bool {
        &&& after.srp() == self.srp()
        &&& match self.srp() {
            Some(_) => {
                &&& (after.srp_changes(), woken.0) == signal_step(self.srp_changes())
                &&& (after.changes(), woken.1) == signal_step(self.changes())
            },
            None => after.same_signals(self) && woken == (None::<W>, None::<W>),
        }
    }

    /// `after` is `self` after the stack has reported a host in the item
    /// state `host_state` and the slots in `removed` as removed: these are
    /// reclaimed, no record and no byte of the memory changes, and both
    /// signals are given. Without SRP nothing happens.
    pub open spec fn changed_step(
        &self,
        after: &Self,
        host_state: u32,
        removed: Seq<SrpServiceSlot>,
        woken: (Option<W>, Option<W>),
    ) -> bool {
        match self.srp() {
            Some(before) => {
                &&& after.srp() matches Some(arena) && arena.wf() && arena@ == before@.cleanup(
                    host_state,
                    removed,
                ) && arena.same_memory(&before)
                &&& (after.srp_changes(), woken.0) == signal_step(self.srp_changes())
                &&& (after.changes(), woken.1) == signal_step(self.changes())
            },
            None => after.srp() is None && after.same_signals(self) && woken == (
                None::<W>,
                None::<W>,
            ),
        }
    }

    /// The stack has started the SRP client by itself: both signals are
    /// given. The result holds the waiters to wake, the one for SRP
    /// changes first. Without SRP nothing happens.
    pub fn plat_srp_auto_started(&mut self) -> (woken: (Option<W>, Option<W>))
        ensures
            old(self).signalled_step(final(self), woken),
    {
        if self.srp.is_some() {
            let first = self.srp_changes.signal();
            let second = self.changes.signal();
            (first, second)
        } else {
            (None, None)
        }
    }

    /// The stack reports a change of the SRP state: a host in the item
    /// state `host_state` and the services of the slots in `removed` as
    /// removed. What was removed is reclaimed, and both signals are given.
    /// The result holds the waiters to wake, the one for SRP changes
    /// first. Without SRP nothing happens.
    pub fn plat_srp_changed(&mut self, host_state: u32, removed: &[SrpServiceSlot]) -> (woken: (
        Option<W>,
        Option<W>,
    ))
        requires
            old(self).wf(),
            old(self).srp() matches Some(srp) ==> forall|i: int|
                0 <= i < removed@.len() ==> removed@[i] < srp@.taken.len(),
        ensures
            final(self).wf(),
            old(self).changed_step(final(self), host_state, removed@, woken),
    {
        self.cleanup(host_state, removed);
        self.plat_srp_auto_started()
    }
}

/// The stack, reached through activations.
pub struct OpenThread<W> {
    /// Whether an activation is open.
    active: bool,
    /// The state that an activation gives access to.
    context: OtContext<W>,
}

impl<W> OpenThread<W> {
    /// Whether an activation is open.
    pub closed spec fn is_active(&self) -> bool {
        self.active
    }

    /// The state that an activation gives access to.
    pub closed spec fn context(&self) -> OtContext<W> {
        self.context
    }

    /// A stack without SRP, not active, with nothing signalled.
    pub fn new() -> (ot: Self)
        ensures
            !ot.is_active(),
            ot.context().srp() is None,
            ot.context().srp_changes() == SignalState::<W>::Idle,
            ot.context().changes() == SignalState::<W>::Idle,
            ot.context().wf(),
    {
        OpenThread { active: false, context: OtContext::new() }
    }

    /// A stack with SRP on freshly initialized resources, not active, with
    /// nothing signalled and every byte of the memory 0.
    pub fn new_with_srp<const SRP_SVCS: usize, const SRP_BUF_SZ: usize>(
        srp_resources: &mut OtSrpResources<SRP_SVCS, SRP_BUF_SZ>,
        abi: AbiLayout,
        conf_addr: usize,
        buffers_addr: usize,
    ) -> (ot: Self)
        requires
            abi.wf(),
            conf_addr > 0,
            buffers_addr > 0,
            conf_addr + SRP_BUF_SZ <= usize::MAX,
            buffers_addr + SRP_SVCS * SRP_BUF_SZ <= usize::MAX,
        ensures
            final(srp_resources).is_initialized(),
            !ot.is_active(),
            ot.context().wf(),
            ot.context().srp_changes() == SignalState::<W>::Idle,
            ot.context().changes() == SignalState::<W>::Idle,
            ot.context().srp() matches Some(srp) && srp@
                == crate::srp::resources::SrpArenaView::empty(
                SRP_SVCS as nat,
                SRP_BUF_SZ,
                abi,
                conf_addr,
                buffers_addr,
            ) && srp.spec_host() == SrpHostRecord::spec_empty() && srp.conf_buffer() == Seq::new(
                SRP_BUF_SZ as nat,
                |i: int| 0u8,
            ) && forall|slot: int|
                0 <= slot < SRP_SVCS ==> #[trigger] srp.slot_buffer(slot) == Seq::new(
                    SRP_BUF_SZ as nat,
                    |i: int| 0u8,
                ),
    {
        let srp = srp_resources.init(abi, conf_addr, buffers_addr);
        OpenThread { active: false, context: OtContext::new_with_srp(srp) }
    }

    /// Opens an activation. While one is open, a second is refused with
    /// `OT_ERROR_INVALID_STATE`.
    pub fn activate(&mut self) -> (r: Result<(), OtError>)
        ensures
            final(self).context() == old(self).context(),
            final(self).is_active(),
            r is Ok <==> !old(self).is_active(),
            r is Err ==> r == Err::<(), OtError>(error_of(OT_ERROR_INVALID_STATE)),
    {
        if self.active {
            Err(OtError::new(OT_ERROR_INVALID_STATE))
        } else {
            self.active = true;
            Ok(())
        }
    }

    /// Closes the activation: the next `activate` succeeds.
    pub fn release(&mut self)
        ensures
            final(self).context() == old(self).context(),
            !final(self).is_active(),
    {
        self.active = false;
    }

    /// Whether an activation is open.
    pub fn active(&self) -> (b: bool)
        ensures
            b == self.is_active(),
    {
        self.active
    }

    /// `after` is what an operation of the facade makes of `self`, and `r`
    /// is its result. The operation opens an activation, does `step` on
    /// the arena, keeps of its memory what `kept` says, and closes the
    /// activation again, whatever the result.
    /// While an activation is open, it is refused with
    /// `OT_ERROR_INVALID_STATE` and changes nothing.
    pub open spec fn activated_step<R>(
        &self,
        after: &Self,
        r: Result<R, OtError>,
        step: spec_fn(SrpArenaView) -> (SrpArenaView, Result<R, OtError>),
        kept: spec_fn(OtSrpState, OtSrpState) -> bool,
    ) -> bool {
        &&& after.is_active() == self.is_active()
        &&& if self.is_active() {
            r == Err::<R, OtError>(error_of(OT_ERROR_INVALID_STATE)) && after.context()
                == self.context()
        } else {
            self.context().srp_step(&after.context(), r, step, kept)
        }
    }

    /// The result of an operation of the facade that reads `get` off the
    /// arena. While an activation is open, it is refused with
    /// `OT_ERROR_INVALID_STATE`.
    pub open spec fn activated_read<R>(
        &self,
        get: spec_fn(SrpArenaView) -> Result<R, OtError>,
    ) -> Result<R, OtError> {
        if self.is_active() {
            Err(error_of(OT_ERROR_INVALID_STATE))
        } else {
            self.context().srp_read(get)
        }
    }

    /// The state of the stack is consistent.
    pub open spec fn wf(&self) -> bool {
        self.context().wf()
    }

    /// Return `true` if there is neither host, nor any service currently
    /// registered with the SRP client.
    pub fn srp_is_empty(&mut self) -> (r: Result<bool, OtError>)
        ensures
            *final(self) == *old(self),
            r == old(self).activated_read(
                |arena: SrpArenaView| Ok::<bool, OtError>(arena.is_empty()),
            ),
    {
        if self.active {
            return Err(OtError::new(OT_ERROR_INVALID_STATE));
        }
        self.active = true;
        let r = self.context.srp_is_empty();
        self.active = false;
        r
    }

    /// Whether the stack has SRP and is free for an operation on it: the
    /// check that comes before every call of the SRP client.
    pub fn srp_ready(&mut self) -> (r: Result<(), OtError>)
        ensures
            *final(self) == *old(self),
            r == old(self).activated_read(|arena: SrpArenaView| Ok::<(), OtError>(())),
    {
        if self.active {
            return Err(OtError::new(OT_ERROR_INVALID_STATE));
        }
        self.active = true;
        let r = match self.context.srp_state() {
            Ok(_) => Ok(()),
            Err(e) => Err(e),
        };
        self.active = false;
        r
    }

    /// Set the SRP client configuration: the configuration of the host is
    /// stored in the arena, from where the stack reads it. The host is
    /// configured once the stack has accepted the configuration.
    ///
    /// The configuration is refused where one was set and not removed
    /// since, where it finds no room, and where the host name finds room
    /// and has a NUL inside. No service's record or buffer changes, and no
    /// byte changes where the configuration is refused.
    pub fn srp_set_conf(&mut self, conf: &SrpConf) -> (r: Result<(), OtError>)
        requires
            old(self).wf(),
        ensures
            final(self).wf(),
            old(self).activated_step(
                final(self),
                r,
                |arena: SrpArenaView| arena.configure_host(conf@),
                |before: OtSrpState, after: OtSrpState|
                    after.same_slots(&before) && (r is Err ==> after.same_memory(&before)),
            ),
    {
        if self.active {
            return Err(OtError::new(OT_ERROR_INVALID_STATE));
        }
        self.active = true;
        let r = self.context.srp_set_conf(conf);
        self.active = false;
        r
    }

    /// Takes in the answer `code` of the stack to the configuration that
    /// was set last: accepted, the host is configured; refused, the host
    /// stays unconfigured, the result is the stack's error, and the
    /// configuration can be set again.
    pub fn srp_set_conf_done(&mut self, code: u32) -> (r: Result<(), OtError>)
        requires
            old(self).wf(),
        ensures
            final(self).wf(),
            old(self).activated_step(
                final(self),
                r,
                |arena: SrpArenaView| arena.commit_host(code),
                |before: OtSrpState, after: OtSrpState| after.same_memory(&before),
            ),
    {
        if self.active {
            return Err(OtError::new(OT_ERROR_INVALID_STATE));
        }
        self.active = true;
        let r = self.context.srp_set_conf_done(code);
        self.active = false;
        r
    }

    /// Add an SRP service to the SRP client: the service is stored in the
    /// first free slot, from where the stack reads it. The result is the
    /// slot. The slot is taken once the stack has accepted the service.
    ///
    /// A service that cannot be stored is refused with the error of its
    /// first part that cannot be stored. The host and every slot but the
    /// first free one keep their records and their bytes.
    pub fn srp_add_service(&mut self, service: &SrpService) -> (r: Result<SrpServiceSlot, OtError>)
        requires
            old(self).wf(),
        ensures
            final(self).wf(),
            old(self).activated_step(
                final(self),
                r,
                |arena: SrpArenaView| arena.allocate(service@),
                |before: OtSrpState, after: OtSrpState| after.same_but_first_free(&before),
            ),
    {
        if self.active {
            return Err(OtError::new(OT_ERROR_INVALID_STATE));
        }
        self.active = true;
        let r = self.context.srp_add_service(service);
        self.active = false;
        r
    }

    /// Takes in the answer `code` of the stack to the service that was
    /// added last: accepted, its slot is taken and is the result; refused,
    /// the slot stays free and the result is the stack's error.
    pub fn srp_add_service_done(&mut self, code: u32) -> (r: Result<SrpServiceSlot, OtError>)
        requires
            old(self).wf(),
        ensures
            final(self).wf(),
            old(self).activated_step(
                final(self),
                r,
                |arena: SrpArenaView| arena.commit(code),
                |before: OtSrpState, after: OtSrpState| after.same_memory(&before),
            ),
    {
        if self.active {
            return Err(OtError::new(OT_ERROR_INVALID_STATE));
        }
        self.active = true;
        let r = self.context.srp_add_service_done(code);
        self.active = false;
        r
    }

    /// Whether `slot` names a service that can be removed: the check that
    /// comes before the stack is asked to remove it.
    pub fn srp_service_taken(&mut self, slot: SrpServiceSlot) -> (r: Result<(), OtError>)
        ensures
            *final(self) == *old(self),
            r == old(self).activated_read(
                |arena: SrpArenaView|
                    if arena.is_taken(slot) {
                        Ok::<(), OtError>(())
                    } else {
                        Err::<(), OtError>(error_of(crate::error::OT_ERROR_INVALID_ARGS))
                    },
            ),
    {
        if self.active {
            return Err(OtError::new(OT_ERROR_INVALID_STATE));
        }
        self.active = true;
        let r = self.context.srp_service_taken(slot);
        self.active = false;
        r
    }

    /// Remove an SRP service from the SRP client, after the stack has
    /// answered `code` to the removal.
    ///
    /// If `immediate` is `true`, the slot is free at once; otherwise it
    /// stays taken until the stack reports the service as removed.
    pub fn srp_remove_service(&mut self, slot: SrpServiceSlot, immediate: bool, code: u32) -> (r:
        Result<(), OtError>)
        requires
            old(self).wf(),
        ensures
            final(self).wf(),
            old(self).activated_step(
                final(self),
                r,
                |arena: SrpArenaView| arena.release(slot, immediate, code),
                |before: OtSrpState, after: OtSrpState| after.same_memory(&before),
            ),
    {
        if self.active {
            return Err(OtError::new(OT_ERROR_INVALID_STATE));
        }
        self.active = true;
        let r = self.context.srp_remove_service(slot, immediate, code);
        self.active = false;
        r
    }

    /// Remove the SRP hostname and all SRP services from the SRP client.
    ///
    /// If `immediate` is `true`, the host and all slots are free at once;
    /// otherwise `code` is the answer of the stack to the removal, and
    /// they stay as they are until the stack reports them as removed.
    pub fn srp_remove_all(&mut self, immediate: bool, code: u32) -> (r: Result<(), OtError>)
        requires
            old(self).wf(),
        ensures
            final(self).wf(),
            old(self).activated_step(
                final(self),
                r,
                |arena: SrpArenaView| arena.remove_all(immediate, code),
                |before: OtSrpState, after: OtSrpState| after.same_memory(&before),
            ),
    {
        if self.active {
            return Err(OtError::new(OT_ERROR_INVALID_STATE));
        }
        self.active = true;
        let r = self.context.srp_remove_all(immediate, code);
        self.active = false;
        r
    }

    /// One step of the wait for the SRP state to change: `waiter` is
    /// registered for the next change, unless a change is pending, which
    /// ends the wait (`true`).
    ///
    /// This wait never ends if `OpenThread` is not instantiated with SRP.
    /// While an activation is open, nothing happens and the wait goes on.
    pub fn srp_wait_changed(&mut self, waiter: W) -> (ready: bool)
        ensures
            final(self).is_active() == old(self).is_active(),
            final(self).context().srp() == old(self).context().srp(),
            final(self).context().changes() == old(self).context().changes(),
            if old(self).is_active() || old(self).context().srp() is None {
                !ready && final(self).context().srp_changes() == old(self).context().srp_changes()
            } else {
                (final(self).context().srp_changes(), ready) == wait_step(
                    old(self).context().srp_changes(),
                    waiter,
                )
            },
    {
        if self.active {
            return false;
        }
        self.active = true;
        let ready = self.context.srp_poll_changed(waiter);
        self.active = false;
        ready
    }

    /// Return the current SRP client configuration and SRP client host
    /// state, as the host record `info` of the stack and the times that
    /// the stack reports give it. While an activation is open, the call is
    /// refused with `OT_ERROR_INVALID_STATE`.
    pub fn srp_conf(
        &self,
        info: &SrpHostRecord,
        ttl: u32,
        default_lease_secs: u32,
        default_key_lease_secs: u32,
    ) -> (r: Result<(OutSrpConf<'_>, SrpState, bool), OtError>)
        ensures
            match self.context().srp() {
                Some(srp) if !self.is_active() => {
                    &&& r matches Ok((conf, state, free))
                    &&& conf@ == conf_read(
                        *info,
                        srp.conf_buffer(),
                        srp@.conf_addr as int,
                        ttl,
                        default_lease_secs,
                        default_key_lease_secs,
                    )
                    &&& state == SrpState::of_item_state(info.state)
                    &&& free == !srp@.conf_taken
                },
                _ => r matches Err(e) && e == error_of(OT_ERROR_INVALID_STATE),
            },
    {
        if self.active {
            return Err(OtError::new(OT_ERROR_INVALID_STATE));
        }
        self.context.srp_conf(info, ttl, default_lease_secs, default_key_lease_secs)
    }

    /// The SRP services registered with the SRP client: for each service
    /// that the stack lists, by its slot and its item state, the service,
    /// its state and its slot, in the order of the list. While an
    /// activation is open, the call is refused with
    /// `OT_ERROR_INVALID_STATE`.
    pub fn srp_services(&self, listed: &[(SrpServiceSlot, u32)]) -> (r: Result<
        Vec<(OutSrpService<'_>, SrpState, SrpServiceSlot)>,
        OtError,
    >)
        requires
            self.wf(),
            self.context().srp() matches Some(srp) ==> forall|i: int|
                0 <= i < listed@.len() ==> (#[trigger] listed@[i]).0 < srp@.taken.len(),
        ensures
            match self.context().srp() {
                Some(srp) if !self.is_active() => {
                    &&& r matches Ok(services)
                    &&& services@.len() == listed@.len()
                    &&& forall|i: int|
                        0 <= i < listed@.len() ==> {
                            &&& (#[trigger] services@[i]).0@ == service_read(
                                srp.records()[listed@[i].0 as int],
                                srp.slot_buffer(listed@[i].0 as int),
                                srp@.slot_addr(listed@[i].0 as int),
                            )
                            &&& services@[i].1 == SrpState::of_item_state(listed@[i].1)
                            &&& services@[i].2 == listed@[i].0
                        }
                },
                _ => r matches Err(e) && e == error_of(OT_ERROR_INVALID_STATE),
            },
    {
        if self.active {
            return Err(OtError::new(OT_ERROR_INVALID_STATE));
        }
        self.context.srp_services(listed)
    }

    /// Return the SRP server address, if the SRP client is running and
    /// had connected to a server: the address `addr` that the stack
    /// reports, with its port, unless it is the unspecified address.
    pub fn srp_server_addr(&self, addr: &[u8; 16], port: u16) -> (r: Result<
        Option<([u8; 16], u16)>,
        OtError,
    >)
        ensures
            r == self.activated_read(
                |arena: SrpArenaView|
                    Ok::<Option<([u8; 16], u16)>, OtError>(
                        if is_unspecified(addr@) {
                            None
                        } else {
                            Some((*addr, port))
                        },
                    ),
            ),
    {
        if self.active {
            return Err(OtError::new(OT_ERROR_INVALID_STATE));
        }
        self.context.srp_server_addr(addr, port)
    }

    /// The SRP state, to read it: the records and buffers that the stack
    /// is handed. While an activation is open, there is none to be had.
    pub fn srp_state(&self) -> (r: Result<&OtSrpState, OtError>)
        ensures
            match self.context().srp() {
                Some(srp) if !self.is_active() => r == Ok::<&OtSrpState, OtError>(&srp),
                _ => r == Err::<&OtSrpState, OtError>(error_of(OT_ERROR_INVALID_STATE)),
            },
    {
        if self.active {
            return Err(OtError::new(OT_ERROR_INVALID_STATE));
        }
        self.context.srp_state()
    }

    /// One poll of a wait for the SRP state to change. `waiter` is
    /// `registered` if an earlier poll of the same wait has registered it.
    /// The result says whether the wait is over and whether `waiter` is
    /// registered now.
    ///
    /// A waiter that was registered and is registered no more has been
    /// reached by a change: its wait is over. The wait is never over if
    /// `OpenThread` is not instantiated with SRP; then, and while an
    /// activation is open, nobody is registered and nothing changes.
    pub fn srp_wait_poll(&mut self, registered: bool, waiter: W) -> (r: (bool, bool))
        ensures
            final(self).is_active() == old(self).is_active(),
            final(self).context().srp() == old(self).context().srp(),
            final(self).context().changes() == old(self).context().changes(),
            if old(self).is_active() || old(self).context().srp() is None {
                r == (false, false) && final(self).context().srp_changes() == old(self).context().srp_changes()
            } else {
                (final(self).context().srp_changes(), r.0, r.1) == poll_step(
                    old(self).context().srp_changes(),
                    registered,
                    waiter,
                )
            },
    {
        if self.active {
            return (false, false);
        }
        self.active = true;
        let r = self.context.srp_wait_poll(registered, waiter);
        self.active = false;
        r
    }

    /// Whether a waiter is registered for the next change of the SRP
    /// state.
    pub fn srp_is_waiting(&self) -> (b: bool)
        ensures
            b == (self.context().srp_changes() is Waiting),
    {
        self.context.srp_is_waiting()
    }

    /// Gives up the wait for the SRP state to change: nobody is registered
    /// afterwards. While an activation is open, nothing happens.
    pub fn srp_cancel_wait(&mut self)
        ensures
            final(self).is_active() == old(self).is_active(),
            final(self).context().srp() == old(self).context().srp(),
            final(self).context().changes() == old(self).context().changes(),
            final(self).context().srp_changes() == (if old(self).is_active() {
                old(self).context().srp_changes()
            } else {
                cancel_step(old(self).context().srp_changes())
            }),
    {
        if self.active {
            return ;
        }
        self.active = true;
        self.context.srp_cancel_wait();
        self.active = false;
    }

    /// The way of a callback of the stack to the state: the call works
    /// through the open activation. `None` where no activation is open: the
    /// stack calls back only while it is active.
    pub fn callback_srp_changed(&mut self, host_state: u32, removed: &[SrpServiceSlot]) -> (woken:
        Option<(Option<W>, Option<W>)>)
        requires
            old(self).wf(),
            old(self).context().srp() matches Some(srp) ==> forall|i: int|
                0 <= i < removed@.len() ==> removed@[i] < srp@.taken.len(),
        ensures
            final(self).wf(),
            final(self).is_active() == old(self).is_active(),
            !old(self).is_active() ==> woken is None
                && final(self).context() == old(self).context(),
            old(self).is_active() ==> (woken matches Some(w) && old(self).context().changed_step(
                &final(self).context(),
                host_state,
                removed@,
                w,
            )),
    {
        if self.active {
            Some(self.context.plat_srp_changed(host_state, removed))
        } else {
            None
        }
    }

    /// The way of the callback "the SRP client was started by itself" to
    /// the state, through the open activation. `None` where no activation
    /// is open.
    pub fn callback_srp_auto_started(&mut self) -> (woken: Option<(Option<W>, Option<W>)>)
        ensures
            final(self).is_active() == old(self).is_active(),
            !old(self).is_active() ==> woken is None
                && final(self).context() == old(self).context(),
            old(self).is_active() ==> (woken matches Some(w)
                && old(self).context().signalled_step(&final(self).context(), w)),
    {
        if self.active {
            Some(self.context.plat_srp_auto_started())
        } else {
            None
        }
    }
}

} // verus!
