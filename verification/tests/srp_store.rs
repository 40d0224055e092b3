use openthread::carve::ElemLayout;
use openthread::error::{OtError, OT_ERROR_INVALID_ARGS, OT_ERROR_NO_BUFS};
use openthread::srp::{
    AbiLayout, OutSrpConf, OutSrpService, SrpConf, SrpHostRecord, SrpService, SrpServiceRecord,
    SrpState, SrpTxtRecord,
};

const ABI: AbiLayout = AbiLayout {
    pointer: ElemLayout { size: 8, align: 8 },
    txt_entry: ElemLayout { size: 24, align: 8 },
    ip6_address: ElemLayout { size: 16, align: 1 },
};

const ABI_32: AbiLayout = AbiLayout {
    pointer: ElemLayout { size: 4, align: 4 },
    txt_entry: ElemLayout { size: 12, align: 4 },
    ip6_address: ElemLayout { size: 16, align: 4 },
};

fn web<'a>(labels: &'a [&'a str], txt: &'a [(&'a str, &'a [u8])]) -> SrpService<'a> {
    SrpService {
        name: "_http._tcp",
        instance_name: "web",
        subtype_labels: labels,
        txt_entries: txt,
        port: 8080,
        priority: 1,
        weight: 2,
        lease_secs: 3600,
        key_lease_secs: 7200,
    }
}

#[test]
fn abi_layouts_are_checked() {
    assert!(ABI.is_wf());
    assert!(ABI_32.is_wf());
    let mut bad = ABI;
    bad.pointer.align = 0;
    assert!(!bad.is_wf());
    let mut bad = ABI;
    bad.ip6_address.size = 4;
    assert!(!bad.is_wf());
    let mut bad = ABI;
    bad.txt_entry.size = 0;
    assert!(!bad.is_wf());
}

#[test]
fn service_is_stored_behind_its_arrays() {
    let labels = ["_sub1", "_s2"];
    let txt: [(&str, &[u8]); 2] = [("path", b"/"), ("v", b"")];
    let service = web(&labels, &txt);
    let mut record = SrpServiceRecord::new();
    let mut buf = [0xeeu8; 128];
    assert_eq!(service.store(&mut record, &ABI, 0x1003, &mut buf), Ok(()));
    assert_eq!(
        record,
        SrpServiceRecord {
            name: 0x1050,
            instance_name: 0x105b,
            sub_type_labels: 0x1038,
            labels: vec![0x105f, 0x1065, 0],
            txt_entries: 0x1008,
            txt: vec![
                SrpTxtRecord { key: 0x1069, value: 0x106e, value_length: 1 },
                SrpTxtRecord { key: 0x106f, value: 0x1071, value_length: 0 },
            ],
            num_txt_entries: 2,
            port: 8080,
            priority: 1,
            weight: 2,
            state: 0,
            lease: 3600,
            key_lease: 7200,
        }
    );
    assert!(buf[..77].iter().all(|&b| b == 0xee));
    assert_eq!(&buf[77..110], b"_http._tcp\0web\0_sub1\0_s2\0path\0/v\0");
    assert!(buf[110..].iter().all(|&b| b == 0xee));
}

#[test]
fn service_needs_room_for_its_last_byte() {
    let labels = ["_sub1", "_s2"];
    let txt: [(&str, &[u8]); 2] = [("path", b"/"), ("v", b"")];
    let service = web(&labels, &txt);
    let mut record = SrpServiceRecord::new();
    let mut buf = [0u8; 110];
    assert_eq!(service.store(&mut record, &ABI, 0x1003, &mut buf), Ok(()));
    let mut record = SrpServiceRecord::new();
    let mut buf = [0u8; 109];
    assert_eq!(
        service.store(&mut record, &ABI, 0x1003, &mut buf),
        Err(OtError::new(OT_ERROR_NO_BUFS))
    );
    assert_eq!(record, SrpServiceRecord::new());
}

#[test]
fn service_needs_room_for_its_arrays() {
    let service = web(&[], &[]);
    let mut record = SrpServiceRecord::new();
    for len in 0..8 {
        let mut buf = vec![0u8; len];
        assert_eq!(
            service.store(&mut record, &ABI, 0x1000, &mut buf),
            Err(OtError::new(OT_ERROR_NO_BUFS))
        );
    }
    let mut buf = [0u8; 8 + 11 + 4];
    assert_eq!(service.store(&mut record, &ABI, 0x1000, &mut buf), Ok(()));
    let mut buf = [0u8; 8 + 11 + 4];
    assert_eq!(
        service.store(&mut record, &ABI, 0x1001, &mut buf),
        Err(OtError::new(OT_ERROR_NO_BUFS))
    );
}

#[test]
fn service_without_entries_has_a_null_label_and_no_txt_array() {
    let service = web(&[], &[]);
    let mut record = SrpServiceRecord::new();
    let mut buf = [0u8; 32];
    assert_eq!(service.store(&mut record, &ABI_32, 0x2002, &mut buf), Ok(()));
    assert_eq!(record.txt_entries, 4);
    assert_eq!(record.num_txt_entries, 0);
    assert!(record.txt.is_empty());
    assert_eq!(record.sub_type_labels, 0x2004);
    assert_eq!(record.labels, vec![0]);
    assert_eq!(record.name, 0x2008);
    assert_eq!(record.instance_name, 0x2013);
}

#[test]
fn stored_service_reads_back() {
    let labels = ["_sub1", "_s2", "_ünï"];
    let txt: [(&str, &[u8]); 3] = [("path", b"/index"), ("v", b""), ("bin", &[0, 255, 0])];
    let service = web(&labels, &txt);
    let mut record = SrpServiceRecord::new();
    let mut buf = [0x11u8; 200];
    assert_eq!(service.store(&mut record, &ABI, 0x7001, &mut buf), Ok(()));
    let mut read = OutSrpService::from(&record, &buf, 0x7001);
    assert_eq!(read.name, "_http._tcp");
    assert_eq!(read.instance_name, "web");
    assert_eq!(read.port, 8080);
    assert_eq!(read.priority, 1);
    assert_eq!(read.weight, 2);
    assert_eq!(read.lease_secs, 3600);
    assert_eq!(read.key_lease_secs, 7200);
    assert_eq!(read.subtype_labels.next(), Some("_sub1"));
    assert_eq!(read.subtype_labels.next(), Some("_s2"));
    assert_eq!(read.subtype_labels.next(), Some("_ünï"));
    assert_eq!(read.subtype_labels.next(), None);
    assert_eq!(read.subtype_labels.next(), None);
    assert_eq!(read.txt_entries.next(), Some(("path", &b"/index"[..])));
    assert_eq!(read.txt_entries.next(), Some(("v", &b""[..])));
    assert_eq!(read.txt_entries.next(), Some(("bin", &[0u8, 255, 0][..])));
    assert_eq!(read.txt_entries.next(), None);
}

#[test]
fn empty_record_reads_as_nothing() {
    let record = SrpServiceRecord::new();
    let buf = [0u8; 16];
    let mut read = OutSrpService::from(&record, &buf, 0x1000);
    assert_eq!(read.name, "");
    assert_eq!(read.instance_name, "");
    assert_eq!(read.subtype_labels.next(), None);
    assert_eq!(read.txt_entries.next(), None);
}

#[test]
fn unreadable_names_read_as_nothing() {
    let mut record = SrpServiceRecord::new();
    let buf = [b'a', b'b', 0, 0xff, 0xfe, 0, b'x', b'y'];
    record.name = 0x1000;
    record.instance_name = 0x1003;
    assert_eq!(OutSrpService::from(&record, &buf, 0x1000).name, "ab");
    assert_eq!(OutSrpService::from(&record, &buf, 0x1000).instance_name, "");
    record.name = 0x1006;
    assert_eq!(OutSrpService::from(&record, &buf, 0x1000).name, "");
    record.name = 0x0fff;
    assert_eq!(OutSrpService::from(&record, &buf, 0x1000).name, "");
    record.name = 0x1008;
    assert_eq!(OutSrpService::from(&record, &buf, 0x1000).name, "");
}

#[test]
fn host_is_stored_with_its_addresses_first() {
    let addrs = [[0x20u8; 16], [0x30u8; 16]];
    let conf = SrpConf {
        host_name: "my-host",
        host_addrs: &addrs,
        ttl: 120,
        default_lease_secs: 10,
        default_key_lease_secs: 20,
    };
    let mut record = SrpHostRecord::new();
    record.state = 6;
    let mut buf = [0xeeu8; 64];
    assert_eq!(conf.store(&mut record, &ABI_32, 0x3001, &mut buf), Ok(()));
    assert_eq!(
        record,
        SrpHostRecord {
            name: 0x3024,
            addresses: 0x3004,
            num_addresses: 2,
            auto_address: false,
            state: 6,
        }
    );
    assert_eq!(&buf[..3], &[0xee, 0xee, 0xee]);
    assert_eq!(&buf[3..19], &[0x20u8; 16]);
    assert_eq!(&buf[19..35], &[0x30u8; 16]);
    assert_eq!(&buf[35..43], b"my-host\0");
    assert!(buf[43..].iter().all(|&b| b == 0xee));

    let read = OutSrpConf::from(&record, &buf, 0x3001, 120, 10, 20);
    assert_eq!(read.host_name, "my-host");
    assert_eq!(read.host_addrs, vec![[0x20u8; 16], [0x30u8; 16]]);
    assert_eq!(read.ttl, 120);
    assert_eq!(read.default_lease_secs, 10);
    assert_eq!(read.default_key_lease_secs, 20);
}

#[test]
fn host_without_addresses_leaves_them_to_the_stack() {
    let conf = SrpConf::new();
    assert_eq!(conf.host_name, "ot-device");
    assert!(conf.host_addrs.is_empty());
    assert_eq!(conf.ttl, 60);
    assert_eq!(conf.default_lease_secs, 0);
    assert_eq!(conf.default_key_lease_secs, 0);
    assert_eq!(SrpConf::default(), conf);
    let mut record = SrpHostRecord::new();
    let mut buf = [0u8; 10];
    assert_eq!(conf.store(&mut record, &ABI, 0x4000, &mut buf), Ok(()));
    assert_eq!(
        record,
        SrpHostRecord { name: 0x4000, addresses: 0, num_addresses: 0, auto_address: true, state: 0 }
    );
    assert_eq!(&buf, b"ot-device\0");
    let read = OutSrpConf::from(&record, &buf, 0x4000, 60, 0, 0);
    assert_eq!(read.host_name, "ot-device");
    assert!(read.host_addrs.is_empty());
}

#[test]
fn host_without_room_changes_nothing() {
    let conf = SrpConf::new();
    let mut record = SrpHostRecord::new();
    let mut buf = [7u8; 9];
    assert_eq!(
        conf.store(&mut record, &ABI, 0x4000, &mut buf),
        Err(OtError::new(OT_ERROR_NO_BUFS))
    );
    assert_eq!(record, SrpHostRecord::new());
    assert_eq!(buf, [7u8; 9]);
    let addrs = [[1u8; 16]];
    let conf = SrpConf { host_addrs: &addrs, ..SrpConf::new() };
    let mut buf = [7u8; 25];
    assert_eq!(
        conf.store(&mut record, &ABI, 0x4000, &mut buf),
        Err(OtError::new(OT_ERROR_NO_BUFS))
    );
    assert_eq!(buf, [7u8; 25]);
    let mut buf = [7u8; 26];
    assert_eq!(conf.store(&mut record, &ABI, 0x4000, &mut buf), Ok(()));
}

#[test]
fn unconfigured_host_reads_as_nothing() {
    let buf = [0u8; 16];
    let read = OutSrpConf::from(&SrpHostRecord::new(), &buf, 0x4000, 1, 2, 3);
    assert_eq!(read.host_name, "");
    assert!(read.host_addrs.is_empty());
    assert_eq!(read.ttl, 1);
    assert_eq!(read.default_lease_secs, 2);
    assert_eq!(read.default_key_lease_secs, 3);
}

#[test]
fn states_stand_for_item_states() {
    assert_eq!(SrpState::from(0), SrpState::ToAdd);
    assert_eq!(SrpState::from(1), SrpState::Adding);
    assert_eq!(SrpState::from(2), SrpState::ToRefresh);
    assert_eq!(SrpState::from(3), SrpState::Refreshing);
    assert_eq!(SrpState::from(4), SrpState::ToRemove);
    assert_eq!(SrpState::from(5), SrpState::Removing);
    assert_eq!(SrpState::from(6), SrpState::Registered);
    assert_eq!(SrpState::from(7), SrpState::Removed);
    assert_eq!(SrpState::from(8), SrpState::Other(8));
    assert_eq!(SrpState::from(u32::MAX), SrpState::Other(u32::MAX));
}

#[test]
fn states_render_as_text() {
    assert_eq!(SrpState::ToAdd.to_string(), "To add");
    assert_eq!(SrpState::Adding.to_string(), "Adding");
    assert_eq!(SrpState::ToRefresh.to_string(), "To refresh");
    assert_eq!(SrpState::Refreshing.to_string(), "Refreshing");
    assert_eq!(SrpState::ToRemove.to_string(), "To remove");
    assert_eq!(SrpState::Removing.to_string(), "Removing");
    assert_eq!(SrpState::Removed.to_string(), "Removed");
    assert_eq!(SrpState::Registered.to_string(), "Registered");
    assert_eq!(SrpState::Other(42).to_string(), "Other (42)");
}

#[test]
fn services_render_as_text() {
    let labels = ["_sub1", "_s2"];
    let txt: [(&str, &[u8]); 2] = [("path", b"/a"), ("v", b"")];
    assert_eq!(
        web(&labels, &txt).to_string(),
        "SRP Service {name: _http._tcp, instance: web, port: 8080, priority: 1, weight: 2, \
         lease: 3600, keylease: 7200, labels: [_sub1, _s2], txt: [path: [47, 97], v: []]}"
    );
    assert_eq!(
        web(&[], &[]).to_string(),
        "SRP Service {name: _http._tcp, instance: web, port: 8080, priority: 1, weight: 2, \
         lease: 3600, keylease: 7200, labels: [], txt: []}"
    );
    assert_eq!(
        web(&labels, &txt).to_string(),
        format!(
            "SRP Service {{name: {}, instance: {}, port: {}, priority: {}, weight: {}, \
             lease: {}, keylease: {}, labels: [_sub1, _s2], txt: [path: {:?}, v: {:?}]}}",
            "_http._tcp", "web", 8080, 1, 2, 3600, 7200, b"/a", b""
        )
    );
}

#[test]
fn first_part_that_cannot_be_stored_decides_the_error() {
    let good_labels = ["_a"];
    let bad_labels = ["_a", "_b\0c"];
    let good_txt: [(&str, &[u8]); 1] = [("k", b"v\0w")];
    let bad_txt: [(&str, &[u8]); 2] = [("k", b"v"), ("k\0", b"v")];
    let mut bad_name = web(&good_labels, &good_txt);
    bad_name.name = "_http\0._tcp";
    let mut bad_instance = web(&good_labels, &good_txt);
    bad_instance.instance_name = "\0";
    // Of each: the service, and the bytes that its arrays and the strings
    // in front of the bad string take at an aligned address.
    let bad = [
        (bad_name, 24 + 16),
        (bad_instance, 24 + 16 + 11),
        (web(&bad_labels, &good_txt), 24 + 24 + 11 + 4 + 3),
        (web(&good_labels, &bad_txt), 48 + 16 + 11 + 4 + 3 + 2 + 1),
    ];
    for (service, front) in bad {
        assert!(!service.is_storable());
        let mut record = SrpServiceRecord::new();
        record.port = 9;
        let before = record.clone();
        // Too small for the arrays, or for the bad string: no room.
        for len in [0usize, 4, front, front + 1] {
            let mut buf = vec![0x5au8; len];
            assert_eq!(
                service.store(&mut record, &ABI, 0x1000, &mut buf),
                Err(OtError::new(OT_ERROR_NO_BUFS))
            );
            assert_eq!(record, before);
        }
        // Room for the bad string: it is refused for its NUL.
        let mut buf = vec![0x5au8; 256];
        assert_eq!(
            service.store(&mut record, &ABI, 0x1000, &mut buf),
            Err(OtError::new(OT_ERROR_INVALID_ARGS))
        );
        assert_eq!(record, before);
        let arrays = 24 * service.txt_entries.len() + 8 * (service.subtype_labels.len() + 1);
        assert!(buf[..arrays].iter().all(|&b| b == 0x5a));
        assert!(buf[front..].iter().all(|&b| b == 0x5a));
    }
    let good = web(&good_labels, &good_txt);
    assert!(good.is_storable());
    let mut record = SrpServiceRecord::new();
    let mut buf = [0u8; 256];
    assert_eq!(good.store(&mut record, &ABI, 0x1003, &mut buf), Ok(()));
    let mut read = OutSrpService::from(&record, &buf, 0x1003);
    assert_eq!(read.txt_entries.next(), Some(("k", &b"v\0w"[..])));
}

#[test]
fn host_name_with_a_nul_inside_is_refused_where_it_finds_room() {
    let conf = SrpConf { host_name: "my\0host", ..SrpConf::new() };
    assert!(!conf.is_storable());
    assert!(SrpConf::new().is_storable());
    let mut record = SrpHostRecord::new();
    for (len, code) in [
        (0usize, OT_ERROR_NO_BUFS),
        (3, OT_ERROR_NO_BUFS),
        (7, OT_ERROR_NO_BUFS),
        (8, OT_ERROR_INVALID_ARGS),
        (64, OT_ERROR_INVALID_ARGS),
    ] {
        let mut buf = vec![3u8; len];
        assert_eq!(conf.store(&mut record, &ABI, 0x4000, &mut buf), Err(OtError::new(code)));
        assert_eq!(record, SrpHostRecord::new());
        assert!(buf.iter().all(|&b| b == 3));
    }
    let addrs = [[1u8; 16]];
    let conf = SrpConf { host_name: "my\0host", host_addrs: &addrs, ..SrpConf::new() };
    for (len, code) in [(15usize, OT_ERROR_NO_BUFS), (23, OT_ERROR_NO_BUFS), (24, OT_ERROR_INVALID_ARGS)] {
        let mut buf = vec![3u8; len];
        assert_eq!(conf.store(&mut record, &ABI, 0x4000, &mut buf), Err(OtError::new(code)));
        assert!(buf.iter().all(|&b| b == 3));
    }
}
