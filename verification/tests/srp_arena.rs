use openthread::carve::ElemLayout;
use openthread::context::{OpenThread, OtContext};
use openthread::error::{
    OtError, OT_ERROR_INVALID_ARGS, OT_ERROR_INVALID_STATE, OT_ERROR_NO_BUFS,
};
use openthread::srp::{AbiLayout, OtSrpResources, SrpConf, SrpHostRecord, SrpService, SrpState};

const ABI: AbiLayout = AbiLayout {
    pointer: ElemLayout { size: 8, align: 8 },
    txt_entry: ElemLayout { size: 24, align: 8 },
    ip6_address: ElemLayout { size: 16, align: 1 },
};

fn service(name: &'static str) -> SrpService<'static> {
    SrpService {
        name: "_svc._udp",
        instance_name: name,
        subtype_labels: &[],
        txt_entries: &[],
        port: 1,
        priority: 0,
        weight: 0,
        lease_secs: 0,
        key_lease_secs: 0,
    }
}

fn stack<const N: usize, const SZ: usize>() -> OpenThread<u32> {
    let mut resources = OtSrpResources::<N, SZ>::new();
    OpenThread::new_with_srp(&mut resources, ABI, 0x1000, 0x2000)
}

fn configure(ot: &mut OpenThread<u32>, conf: &SrpConf) -> Result<(), OtError> {
    ot.srp_set_conf(conf)?;
    ot.srp_set_conf_done(0)
}

fn add(ot: &mut OpenThread<u32>, name: &'static str) -> Result<usize, OtError> {
    ot.srp_add_service(&service(name))?;
    ot.srp_add_service_done(0)
}

#[test]
fn arena_of_two_slots_takes_two_services() {
    let mut ot = stack::<2, 64>();
    assert_eq!(ot.srp_is_empty(), Ok(true));
    assert_eq!(add(&mut ot, "a"), Ok(0));
    assert_eq!(ot.srp_is_empty(), Ok(false));
    assert_eq!(add(&mut ot, "b"), Ok(1));
    assert_eq!(add(&mut ot, "c"), Err(OtError::new(OT_ERROR_NO_BUFS)));
    assert_eq!(ot.srp_remove_service(0, true, 0), Ok(()));
    assert_eq!(add(&mut ot, "c"), Ok(0));
    assert_eq!(add(&mut ot, "d"), Err(OtError::new(OT_ERROR_NO_BUFS)));
}

#[test]
fn arena_takes_as_many_services_as_it_has_slots() {
    let mut ot = stack::<5, 32>();
    for slot in 0..5 {
        assert_eq!(add(&mut ot, "x"), Ok(slot));
    }
    assert_eq!(add(&mut ot, "x"), Err(OtError::new(OT_ERROR_NO_BUFS)));
    assert_eq!(add(&mut ot, "x"), Err(OtError::new(OT_ERROR_NO_BUFS)));
}

#[test]
fn arena_without_slots_takes_nothing() {
    let mut ot = stack::<0, 32>();
    assert_eq!(ot.srp_is_empty(), Ok(true));
    assert_eq!(add(&mut ot, "x"), Err(OtError::new(OT_ERROR_NO_BUFS)));
    assert_eq!(ot.srp_service_taken(0), Err(OtError::new(OT_ERROR_INVALID_ARGS)));
}

#[test]
fn released_slot_is_the_next_to_be_taken_if_it_is_the_lowest() {
    let mut ot = stack::<4, 32>();
    for _ in 0..4 {
        add(&mut ot, "x").unwrap();
    }
    assert_eq!(ot.srp_remove_service(2, true, 0), Ok(()));
    assert_eq!(ot.srp_remove_service(1, true, 0), Ok(()));
    assert_eq!(add(&mut ot, "y"), Ok(1));
    assert_eq!(add(&mut ot, "z"), Ok(2));
    assert_eq!(add(&mut ot, "w"), Err(OtError::new(OT_ERROR_NO_BUFS)));
}

#[test]
fn service_that_does_not_fit_is_refused() {
    let mut ot = stack::<2, 20>();
    assert_eq!(
        ot.srp_add_service(&service("a-very-long-instance-name")),
        Err(OtError::new(OT_ERROR_NO_BUFS))
    );
    assert_eq!(ot.srp_add_service_done(0), Err(OtError::new(OT_ERROR_INVALID_STATE)));
    assert_eq!(ot.srp_is_empty(), Ok(true));
    assert_eq!(add(&mut ot, "a"), Ok(0));
}

#[test]
fn slot_is_taken_only_when_the_stack_accepts_the_service() {
    let mut ot = stack::<2, 64>();
    assert_eq!(ot.srp_add_service(&service("a")), Ok(0));
    assert_eq!(ot.srp_is_empty(), Ok(true));
    assert_eq!(ot.srp_service_taken(0), Err(OtError::new(OT_ERROR_INVALID_ARGS)));
    assert_eq!(ot.srp_add_service_done(5), Err(OtError::new(5)));
    assert_eq!(ot.srp_is_empty(), Ok(true));
    assert_eq!(ot.srp_add_service_done(0), Err(OtError::new(OT_ERROR_INVALID_STATE)));
    assert_eq!(ot.srp_add_service(&service("b")), Ok(0));
    assert_eq!(ot.srp_add_service_done(0), Ok(0));
    assert_eq!(ot.srp_service_taken(0), Ok(()));
}

#[test]
fn graceful_removal_waits_for_the_stack() {
    let mut ot = stack::<2, 64>();
    add(&mut ot, "a").unwrap();
    add(&mut ot, "b").unwrap();
    assert_eq!(ot.srp_remove_service(0, false, 0), Ok(()));
    assert_eq!(ot.srp_service_taken(0), Ok(()));
    assert_eq!(add(&mut ot, "c"), Err(OtError::new(OT_ERROR_NO_BUFS)));

    assert_eq!(ot.activate(), Ok(()));
    assert_eq!(ot.callback_srp_changed(6, &[1]), Some((None, None)));
    ot.release();
    assert_eq!(ot.srp_service_taken(0), Ok(()));
    assert_eq!(ot.srp_service_taken(1), Err(OtError::new(OT_ERROR_INVALID_ARGS)));

    assert_eq!(ot.activate(), Ok(()));
    assert_eq!(ot.callback_srp_changed(6, &[0]), Some((None, None)));
    ot.release();
    assert_eq!(ot.srp_service_taken(0), Err(OtError::new(OT_ERROR_INVALID_ARGS)));
    assert_eq!(ot.srp_is_empty(), Ok(true));
    assert_eq!(add(&mut ot, "c"), Ok(0));
}

#[test]
fn immediate_removal_needs_no_report() {
    let mut ot = stack::<1, 64>();
    add(&mut ot, "a").unwrap();
    assert_eq!(ot.srp_remove_service(0, true, 0), Ok(()));
    assert_eq!(ot.srp_service_taken(0), Err(OtError::new(OT_ERROR_INVALID_ARGS)));
    assert_eq!(ot.srp_is_empty(), Ok(true));
}

#[test]
fn removal_that_the_stack_refuses_changes_nothing() {
    let mut ot = stack::<1, 64>();
    add(&mut ot, "a").unwrap();
    assert_eq!(ot.srp_remove_service(0, true, 23), Err(OtError::new(23)));
    assert_eq!(ot.srp_service_taken(0), Ok(()));
    assert_eq!(ot.srp_remove_service(0, false, 23), Err(OtError::new(23)));
    assert_eq!(ot.srp_service_taken(0), Ok(()));
}

#[test]
fn bad_slots_are_refused() {
    let mut ot = stack::<2, 64>();
    add(&mut ot, "a").unwrap();
    for slot in [1usize, 2, 3, usize::MAX] {
        assert_eq!(ot.srp_service_taken(slot), Err(OtError::new(OT_ERROR_INVALID_ARGS)));
        assert_eq!(
            ot.srp_remove_service(slot, true, 0),
            Err(OtError::new(OT_ERROR_INVALID_ARGS))
        );
        assert_eq!(
            ot.srp_remove_service(slot, false, 0),
            Err(OtError::new(OT_ERROR_INVALID_ARGS))
        );
    }
    assert_eq!(ot.srp_service_taken(0), Ok(()));
}

#[test]
fn host_is_configured_once() {
    let mut ot = stack::<1, 64>();
    let conf = SrpConf::new();
    assert_eq!(configure(&mut ot, &conf), Ok(()));
    assert_eq!(ot.srp_is_empty(), Ok(false));
    assert_eq!(ot.srp_set_conf(&conf), Err(OtError::new(OT_ERROR_INVALID_STATE)));
    assert_eq!(ot.srp_remove_all(true, 0), Ok(()));
    assert_eq!(ot.srp_is_empty(), Ok(true));
    assert_eq!(configure(&mut ot, &conf), Ok(()));
}

#[test]
fn host_that_does_not_fit_is_not_configured() {
    let mut ot = stack::<1, 8>();
    assert_eq!(ot.srp_set_conf(&SrpConf::new()), Err(OtError::new(OT_ERROR_NO_BUFS)));
    assert_eq!(ot.srp_is_empty(), Ok(true));
    let short = SrpConf { host_name: "h", ..SrpConf::new() };
    assert_eq!(ot.srp_set_conf(&short), Ok(()));
}

#[test]
fn graceful_removal_of_all_waits_for_the_stack() {
    let mut ot = stack::<2, 64>();
    configure(&mut ot, &SrpConf::new()).unwrap();
    add(&mut ot, "a").unwrap();
    assert_eq!(ot.srp_remove_all(false, 0), Ok(()));
    assert_eq!(ot.srp_is_empty(), Ok(false));
    assert_eq!(ot.srp_remove_all(false, 9), Err(OtError::new(9)));
    assert_eq!(ot.srp_set_conf(&SrpConf::new()), Err(OtError::new(OT_ERROR_INVALID_STATE)));

    ot.activate().unwrap();
    assert_eq!(ot.callback_srp_changed(5, &[0]), Some((None, None)));
    ot.release();
    assert_eq!(ot.srp_is_empty(), Ok(false));
    ot.activate().unwrap();
    assert_eq!(ot.callback_srp_changed(7, &[]), Some((None, None)));
    ot.release();
    assert_eq!(ot.srp_is_empty(), Ok(true));
    assert_eq!(ot.srp_set_conf(&SrpConf::new()), Ok(()));
}

#[test]
fn immediate_removal_of_all_frees_everything() {
    let mut ot = stack::<3, 64>();
    configure(&mut ot, &SrpConf::new()).unwrap();
    add(&mut ot, "a").unwrap();
    add(&mut ot, "b").unwrap();
    assert_eq!(ot.srp_remove_all(true, 77), Ok(()));
    assert_eq!(ot.srp_is_empty(), Ok(true));
    assert_eq!(add(&mut ot, "c"), Ok(0));
}

#[test]
fn stack_without_srp_refuses_srp() {
    let mut ot: OpenThread<u32> = OpenThread::new();
    let invalid = OtError::new(OT_ERROR_INVALID_STATE);
    assert_eq!(ot.srp_is_empty(), Err(invalid));
    assert_eq!(ot.srp_ready(), Err(invalid));
    assert_eq!(ot.srp_set_conf(&SrpConf::new()), Err(invalid));
    assert_eq!(ot.srp_add_service(&service("a")), Err(invalid));
    assert_eq!(ot.srp_add_service_done(0), Err(invalid));
    assert_eq!(ot.srp_service_taken(0), Err(invalid));
    assert_eq!(ot.srp_remove_service(0, true, 0), Err(invalid));
    assert_eq!(ot.srp_remove_all(true, 0), Err(invalid));
    assert_eq!(ot.srp_server_addr(&[1; 16], 53), Err(invalid));
    assert!(ot.srp_services(&[]).is_err());
    assert!(ot.srp_conf(&SrpHostRecord::new(), 0, 0, 0).is_err());
    assert!(ot.srp_state().is_err());
    assert!(!ot.srp_wait_changed(1));
    assert!(!ot.srp_wait_changed(1));
    ot.activate().unwrap();
    assert_eq!(ot.callback_srp_changed(7, &[]), Some((None, None)));
    assert_eq!(ot.callback_srp_auto_started(), Some((None, None)));
    ot.release();
    assert!(!ot.srp_wait_changed(1));
}

#[test]
fn second_activation_is_refused_until_release() {
    let mut ot = stack::<1, 64>();
    assert!(!ot.active());
    assert_eq!(ot.activate(), Ok(()));
    assert!(ot.active());
    let invalid = OtError::new(OT_ERROR_INVALID_STATE);
    assert_eq!(ot.activate(), Err(invalid));
    assert_eq!(ot.srp_is_empty(), Err(invalid));
    assert_eq!(ot.srp_ready(), Err(invalid));
    assert_eq!(ot.srp_add_service(&service("a")), Err(invalid));
    assert_eq!(ot.srp_set_conf(&SrpConf::new()), Err(invalid));
    assert_eq!(ot.srp_remove_all(true, 0), Err(invalid));
    assert_eq!(ot.srp_server_addr(&[1; 16], 53), Err(invalid));
    assert!(ot.srp_state().is_err());
    assert!(!ot.srp_wait_changed(3));
    assert!(ot.active());
    ot.release();
    assert!(!ot.active());
    assert_eq!(ot.activate(), Ok(()));
    ot.release();
    assert_eq!(ot.srp_is_empty(), Ok(true));
    assert_eq!(ot.srp_ready(), Ok(()));
}

#[test]
fn operations_release_the_stack_on_every_way_out() {
    let mut ot = stack::<1, 16>();
    assert!(ot.srp_add_service(&service("much-too-long-for-the-slot")).is_err());
    assert!(!ot.active());
    assert!(ot.srp_remove_service(5, true, 0).is_err());
    assert!(!ot.active());
    assert!(ot.srp_add_service_done(0).is_err());
    assert!(!ot.active());
    assert_eq!(ot.activate(), Ok(()));
}

#[test]
fn callbacks_need_an_open_activation() {
    let mut ot = stack::<1, 64>();
    add(&mut ot, "a").unwrap();
    assert_eq!(ot.callback_srp_changed(7, &[0]), None);
    assert_eq!(ot.callback_srp_auto_started(), None);
    assert_eq!(ot.srp_service_taken(0), Ok(()));
    assert!(!ot.srp_wait_changed(9));
    ot.activate().unwrap();
    assert_eq!(ot.callback_srp_changed(7, &[0]), Some((Some(9), None)));
    ot.release();
    assert_eq!(ot.srp_service_taken(0), Err(OtError::new(OT_ERROR_INVALID_ARGS)));
}

#[test]
fn change_of_the_srp_state_ends_the_wait() {
    let mut ot = stack::<1, 64>();
    assert!(!ot.srp_wait_changed(4));
    ot.activate().unwrap();
    assert_eq!(ot.callback_srp_auto_started(), Some((Some(4), None)));
    assert_eq!(ot.callback_srp_auto_started(), Some((None, None)));
    assert_eq!(ot.callback_srp_changed(6, &[]), Some((None, None)));
    ot.release();
    assert!(ot.srp_wait_changed(4));
    assert!(!ot.srp_wait_changed(4));
}

#[test]
fn context_reclaims_what_the_stack_reports() {
    let mut resources = OtSrpResources::<3, 64>::default();
    let state = resources.init(ABI, 0x1000, 0x2000);
    let mut context: OtContext<u32> = OtContext::new_with_srp(state);
    assert!(context.has_srp());
    for slot in 0..3 {
        assert_eq!(context.srp_add_service(&service("s")), Ok(slot));
        assert_eq!(context.srp_add_service_done(0), Ok(slot));
    }
    context.srp_set_conf(&SrpConf::new()).unwrap();
    context.srp_set_conf_done(0).unwrap();
    context.cleanup(6, &[2, 0, 2]);
    assert_eq!(context.srp_service_taken(0), Err(OtError::new(OT_ERROR_INVALID_ARGS)));
    assert_eq!(context.srp_service_taken(1), Ok(()));
    assert_eq!(context.srp_service_taken(2), Err(OtError::new(OT_ERROR_INVALID_ARGS)));
    assert_eq!(context.srp_is_empty(), Ok(false));
    assert_eq!(context.plat_srp_changed(7, &[1]), (None, None));
    assert_eq!(context.srp_is_empty(), Ok(true));
    assert!(context.srp_poll_changed(1));
    assert!(!context.srp_poll_changed(1));
    assert_eq!(context.plat_srp_auto_started(), (Some(1), None));
}

#[test]
fn listed_services_are_read_from_their_slots() {
    let mut ot = stack::<3, 64>();
    add(&mut ot, "first").unwrap();
    add(&mut ot, "second").unwrap();
    let listed = ot.srp_services(&[(1, 6), (0, 1)]).unwrap();
    assert_eq!(listed.len(), 2);
    assert_eq!(listed[0].0.name, "_svc._udp");
    assert_eq!(listed[0].0.instance_name, "second");
    assert_eq!(listed[0].0.port, 1);
    assert_eq!(listed[0].1, SrpState::Registered);
    assert_eq!(listed[0].2, 1);
    assert_eq!(listed[1].0.instance_name, "first");
    assert_eq!(listed[1].1, SrpState::Adding);
    assert_eq!(listed[1].2, 0);
    assert!(ot.srp_services(&[]).unwrap().is_empty());
}

#[test]
fn slots_do_not_share_bytes() {
    let mut ot = stack::<3, 32>();
    add(&mut ot, "first").unwrap();
    add(&mut ot, "second").unwrap();
    add(&mut ot, "third").unwrap();
    ot.srp_remove_service(1, true, 0).unwrap();
    assert_eq!(add(&mut ot, "other"), Ok(1));
    let state = ot.srp_state().unwrap();
    assert_eq!(state.slot_count(), 3);
    assert_eq!(state.slot_address(0), Some(0x2000));
    assert_eq!(state.slot_address(1), Some(0x2020));
    assert_eq!(state.slot_address(2), Some(0x2040));
    assert_eq!(state.slot_address(3), None);
    assert_eq!(state.slot_data(0).unwrap().len(), 32);
    assert_eq!(state.slot_data(3), None);
    assert_eq!(state.record(0).unwrap().name, 0x2008);
    assert_eq!(state.record(1).unwrap().name, 0x2028);
    assert_eq!(state.record(2).unwrap().name, 0x2048);
    assert!(state.record(3).is_none());
    assert_eq!(state.service(0).unwrap().instance_name, "first");
    assert_eq!(state.service(1).unwrap().instance_name, "other");
    assert_eq!(state.service(2).unwrap().instance_name, "third");
    assert!(state.service(3).is_none());
    assert_eq!(state.find_free(), None);
    assert!(state.is_taken(2));
    assert!(!state.is_taken(3));
}

#[test]
fn configuration_is_read_with_the_record_of_the_host() {
    let mut ot = stack::<1, 64>();
    let (conf, state, free) = ot.srp_conf(&SrpHostRecord::new(), 1, 2, 3).unwrap();
    assert_eq!(conf.host_name, "");
    assert!(conf.host_addrs.is_empty());
    assert_eq!(state, SrpState::ToAdd);
    assert!(free);

    let addrs = [[9u8; 16]];
    let set = SrpConf { host_name: "host", host_addrs: &addrs, ..SrpConf::new() };
    configure(&mut ot, &set).unwrap();
    let mut info = ot.srp_state().unwrap().host();
    assert_eq!(info.name, 0x1010);
    assert_eq!(info.addresses, 0x1000);
    assert_eq!(info.num_addresses, 1);
    assert!(!info.auto_address);
    info.state = 6;
    assert_eq!(ot.srp_state().unwrap().conf_data().len(), 64);
    assert!(ot.srp_state().unwrap().is_configured());
    let (conf, state, free) = ot.srp_conf(&info, 60, 7, 8).unwrap();
    assert_eq!(conf.host_name, "host");
    assert_eq!(conf.host_addrs, vec![[9u8; 16]]);
    assert_eq!(conf.ttl, 60);
    assert_eq!(conf.default_lease_secs, 7);
    assert_eq!(conf.default_key_lease_secs, 8);
    assert_eq!(state, SrpState::Registered);
    assert!(!free);
}

#[test]
fn unspecified_server_address_is_no_address() {
    let ot = stack::<1, 64>();
    assert_eq!(ot.srp_server_addr(&[0; 16], 53), Ok(None));
    let mut addr = [0u8; 16];
    addr[15] = 1;
    assert_eq!(ot.srp_server_addr(&addr, 53), Ok(Some((addr, 53))));
    let mut addr = [0u8; 16];
    addr[0] = 0xfd;
    assert_eq!(ot.srp_server_addr(&addr, 0), Ok(Some((addr, 0))));
}

#[test]
fn waiter_that_a_change_has_reached_is_registered_no_more() {
    let mut ot = stack::<1, 64>();
    assert!(!ot.srp_is_waiting());
    assert!(!ot.srp_wait_changed(4));
    assert!(ot.srp_is_waiting());
    ot.activate().unwrap();
    assert_eq!(ot.callback_srp_changed(6, &[]), Some((Some(4), None)));
    ot.release();
    assert!(!ot.srp_is_waiting());
    assert!(!ot.srp_wait_changed(4));
    ot.srp_cancel_wait();
    assert!(!ot.srp_is_waiting());
    ot.activate().unwrap();
    assert_eq!(ot.callback_srp_changed(6, &[]), Some((None, None)));
    ot.release();
    ot.srp_cancel_wait();
    assert!(ot.srp_wait_changed(4));
}

#[test]
fn fresh_memory_is_zero() {
    let mut resources = OtSrpResources::<3, 300>::new();
    let state = resources.init(ABI, 0x1000, 0x2000);
    assert_eq!(state.slot_count(), 3);
    assert!(state.is_empty());
    assert!(!state.is_configured());
    assert_eq!(state.host(), SrpHostRecord::new());
    assert_eq!(state.conf_data(), &[0u8; 300][..]);
    for slot in 0..3 {
        assert!(!state.is_taken(slot));
        assert_eq!(state.slot_data(slot), Some(&[0u8; 300][..]));
    }
    let ot = stack::<2, 16>();
    let state = ot.srp_state().unwrap();
    assert_eq!(state.conf_data(), &[0u8; 16][..]);
    assert_eq!(state.slot_data(1), Some(&[0u8; 16][..]));
}

#[test]
fn service_with_a_nul_is_refused_and_takes_no_slot() {
    let mut ot = stack::<2, 64>();
    assert_eq!(add(&mut ot, "a"), Ok(0));
    let before: Vec<u8> = ot.srp_state().unwrap().slot_data(0).unwrap().to_vec();
    assert_eq!(ot.srp_add_service(&service("b")), Ok(1));
    assert_eq!(
        ot.srp_add_service(&service("b\0d")),
        Err(OtError::new(OT_ERROR_INVALID_ARGS))
    );
    assert_eq!(ot.srp_state().unwrap().slot_data(0).unwrap(), &before[..]);
    assert_eq!(ot.srp_add_service_done(0), Err(OtError::new(OT_ERROR_INVALID_STATE)));
    assert_eq!(ot.srp_service_taken(0), Ok(()));
    assert_eq!(ot.srp_service_taken(1), Err(OtError::new(OT_ERROR_INVALID_ARGS)));
    assert_eq!(add(&mut ot, "c"), Ok(1));
    assert_eq!(
        ot.srp_add_service(&service("\0")),
        Err(OtError::new(OT_ERROR_NO_BUFS))
    );
}

#[test]
fn service_that_finds_no_room_is_refused_whatever_its_strings() {
    let mut ot = stack::<1, 16>();
    assert_eq!(
        ot.srp_add_service(&service("much-too-long\0for-the-slot")),
        Err(OtError::new(OT_ERROR_NO_BUFS))
    );
    let mut bad = service("x");
    bad.name = "a\0";
    assert_eq!(ot.srp_add_service(&bad), Err(OtError::new(OT_ERROR_INVALID_ARGS)));
    let txt: [(&str, &[u8]); 1] = [("k", b"v")];
    bad.txt_entries = &txt;
    assert_eq!(ot.srp_add_service(&bad), Err(OtError::new(OT_ERROR_NO_BUFS)));
    assert_eq!(ot.srp_is_empty(), Ok(true));
}

#[test]
fn failed_add_leaves_nothing_to_accept() {
    let mut ot = stack::<2, 32>();
    assert_eq!(ot.srp_add_service(&service("a")), Ok(0));
    assert_eq!(
        ot.srp_add_service(&service("a-name-that-is-much-too-long-for-it")),
        Err(OtError::new(OT_ERROR_NO_BUFS))
    );
    assert_eq!(ot.srp_add_service_done(0), Err(OtError::new(OT_ERROR_INVALID_STATE)));
    assert_eq!(ot.srp_is_empty(), Ok(true));
    assert_eq!(add(&mut ot, "a"), Ok(0));
    assert_eq!(add(&mut ot, "b"), Ok(1));
    assert_eq!(ot.srp_add_service(&service("c")), Err(OtError::new(OT_ERROR_NO_BUFS)));
    assert_eq!(ot.srp_add_service_done(0), Err(OtError::new(OT_ERROR_INVALID_STATE)));
}

#[test]
fn host_is_configured_when_the_stack_accepts_it() {
    let mut ot = stack::<1, 64>();
    assert_eq!(ot.srp_set_conf_done(0), Err(OtError::new(OT_ERROR_INVALID_STATE)));
    assert_eq!(ot.srp_set_conf(&SrpConf::new()), Ok(()));
    assert!(ot.srp_state().unwrap().is_configuring());
    assert!(!ot.srp_state().unwrap().is_configured());
    assert_eq!(ot.srp_is_empty(), Ok(true));
    assert_eq!(ot.srp_set_conf_done(5), Err(OtError::new(5)));
    assert!(!ot.srp_state().unwrap().is_configuring());
    assert_eq!(ot.srp_is_empty(), Ok(true));
    assert_eq!(ot.srp_set_conf_done(0), Err(OtError::new(OT_ERROR_INVALID_STATE)));
    let retry = SrpConf { host_name: "again", ..SrpConf::new() };
    assert_eq!(ot.srp_set_conf(&retry), Ok(()));
    assert_eq!(ot.srp_set_conf_done(0), Ok(()));
    assert_eq!(ot.srp_is_empty(), Ok(false));
    assert!(ot.srp_state().unwrap().is_configured());
    assert_eq!(ot.srp_set_conf(&retry), Err(OtError::new(OT_ERROR_INVALID_STATE)));
    assert_eq!(ot.srp_set_conf_done(0), Err(OtError::new(OT_ERROR_INVALID_STATE)));
    assert_eq!(&ot.srp_state().unwrap().conf_data()[..6], b"again\0");
}

#[test]
fn failed_configuration_leaves_nothing_to_accept() {
    let mut ot = stack::<1, 12>();
    assert_eq!(ot.srp_set_conf(&SrpConf::new()), Ok(()));
    let long = SrpConf { host_name: "a-long-host-name", ..SrpConf::new() };
    assert_eq!(ot.srp_set_conf(&long), Err(OtError::new(OT_ERROR_NO_BUFS)));
    assert_eq!(ot.srp_set_conf_done(0), Err(OtError::new(OT_ERROR_INVALID_STATE)));
    assert_eq!(ot.srp_is_empty(), Ok(true));
}

#[test]
fn host_name_with_a_nul_is_refused_and_changes_nothing() {
    let mut ot = stack::<1, 64>();
    let bad = SrpConf { host_name: "ho\0st", ..SrpConf::new() };
    assert_eq!(ot.srp_set_conf(&bad), Err(OtError::new(OT_ERROR_INVALID_ARGS)));
    assert_eq!(ot.srp_is_empty(), Ok(true));
    assert_eq!(ot.srp_state().unwrap().conf_data(), &[0u8; 64][..]);
    assert_eq!(ot.srp_state().unwrap().host(), SrpHostRecord::new());
    assert_eq!(configure(&mut ot, &SrpConf::new()), Ok(()));
    assert_eq!(ot.srp_set_conf(&bad), Err(OtError::new(OT_ERROR_INVALID_STATE)));
}

#[test]
fn adding_and_removing_touch_no_other_slot() {
    let mut ot = stack::<3, 48>();
    configure(&mut ot, &SrpConf::new()).unwrap();
    add(&mut ot, "first").unwrap();
    add(&mut ot, "second").unwrap();
    let memory = |ot: &OpenThread<u32>| {
        let state = ot.srp_state().unwrap();
        (
            state.conf_data().to_vec(),
            state.host(),
            state.slot_data(0).unwrap().to_vec(),
            state.record(0).unwrap().clone(),
            state.slot_data(1).unwrap().to_vec(),
            state.record(1).unwrap().clone(),
            state.slot_data(2).unwrap().to_vec(),
            state.record(2).unwrap().clone(),
        )
    };
    let before = memory(&ot);
    assert_eq!(ot.srp_add_service(&service("third")), Ok(2));
    let stored = memory(&ot);
    assert_eq!((&stored.0, &stored.1, &stored.2, &stored.3), (&before.0, &before.1, &before.2, &before.3));
    assert_eq!((&stored.4, &stored.5), (&before.4, &before.5));
    assert_ne!(stored.6, before.6);
    assert_eq!(ot.srp_add_service_done(0), Ok(2));
    assert_eq!(memory(&ot), stored);
    assert_eq!(ot.srp_remove_service(1, false, 0), Ok(()));
    assert_eq!(ot.srp_remove_service(0, true, 0), Ok(()));
    assert_eq!(memory(&ot), stored);
    ot.activate().unwrap();
    assert_eq!(ot.callback_srp_changed(7, &[1, 2]), Some((None, None)));
    ot.release();
    assert_eq!(memory(&ot), stored);
    assert_eq!(ot.srp_is_empty(), Ok(true));
    assert_eq!(ot.srp_remove_all(true, 0), Ok(()));
    assert_eq!(memory(&ot), stored);
    assert_eq!(ot.srp_set_conf(&SrpConf { host_name: "h", ..SrpConf::new() }), Ok(()));
    let set = memory(&ot);
    assert_ne!(set.0, stored.0);
    assert_eq!((&set.2, &set.3, &set.4, &set.5, &set.6, &set.7), (&stored.2, &stored.3, &stored.4, &stored.5, &stored.6, &stored.7));
}

#[test]
fn wait_without_srp_is_never_over() {
    let mut ot: OpenThread<u32> = OpenThread::new();
    let mut registered = false;
    for _ in 0..4 {
        let (ready, now) = ot.srp_wait_poll(registered, 1);
        assert!(!ready && !now);
        registered = now;
        ot.activate().unwrap();
        assert_eq!(ot.callback_srp_changed(6, &[]), Some((None, None)));
        ot.release();
    }
    assert_eq!(ot.srp_wait_poll(true, 1), (false, false));
    assert!(!ot.srp_is_waiting());
}

#[test]
fn wait_is_over_when_a_change_has_reached_the_waiter() {
    let mut ot = stack::<1, 64>();
    assert_eq!(ot.srp_wait_poll(false, 8), (false, true));
    assert_eq!(ot.srp_wait_poll(true, 8), (false, true));
    assert!(ot.srp_is_waiting());
    ot.activate().unwrap();
    assert_eq!(ot.srp_wait_poll(true, 8), (false, false));
    assert_eq!(ot.callback_srp_changed(6, &[]), Some((Some(8), None)));
    ot.release();
    assert_eq!(ot.srp_wait_poll(true, 8), (true, false));
    assert_eq!(ot.srp_wait_poll(false, 8), (false, true));
    ot.srp_cancel_wait();
    ot.activate().unwrap();
    assert_eq!(ot.callback_srp_auto_started(), Some((None, None)));
    ot.release();
    assert_eq!(ot.srp_wait_poll(false, 8), (true, false));
    assert_eq!(ot.srp_wait_poll(false, 8), (false, true));
    assert_eq!(ot.srp_wait_poll(true, 9), (false, true));
    ot.activate().unwrap();
    assert_eq!(ot.callback_srp_auto_started(), Some((Some(9), None)));
    ot.release();
}
