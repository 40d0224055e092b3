//! Services and host configuration as callers give them, and the records
//! that the stack reads of them.

use vstd::prelude::*;
use vstd::string::StringSliceAdditionalSpecFns;
use vstd::std_specs::convert::FromSpecImpl;
use vstd::utf8::valid_utf8;
use crate::carve::contains_nul;
use crate::carve::ElemLayout;

verus! {

/// The unique ID of a registered SRP service.
pub type SrpServiceSlot = usize;

/// The item is to be added.
pub const OT_SRP_CLIENT_ITEM_STATE_TO_ADD: u32 = 0;

/// The item is being added.
pub const OT_SRP_CLIENT_ITEM_STATE_ADDING: u32 = 1;

/// The item is to be refreshed.
pub const OT_SRP_CLIENT_ITEM_STATE_TO_REFRESH: u32 = 2;

/// The item is being refreshed.
pub const OT_SRP_CLIENT_ITEM_STATE_REFRESHING: u32 = 3;

/// The item is to be removed.
pub const OT_SRP_CLIENT_ITEM_STATE_TO_REMOVE: u32 = 4;

/// The item is being removed.
pub const OT_SRP_CLIENT_ITEM_STATE_REMOVING: u32 = 5;

/// The item is registered with the server.
pub const OT_SRP_CLIENT_ITEM_STATE_REGISTERED: u32 = 6;

/// The item is removed.
pub const OT_SRP_CLIENT_ITEM_STATE_REMOVED: u32 = 7;

/// An enum describing the status of either a concrete SRP service, or the SRP host.
#[derive(Debug, Copy, Clone, Eq, PartialEq, Hash, Structural)]
pub enum SrpState {
    /// The service/host is to be added/registered.
    ToAdd,
    /// The service/host is being added/registered.
    Adding,
    /// The service/host is to be refreshed (re-register to renew lease).
    ToRefresh,
    /// The service/host is being refreshed.
    Refreshing,
    /// The service/host is to be removed/unregistered.
    ToRemove,
    /// The service/host is being removed/unregistered.
    Removing,
    /// The service/host has been removed/unregistered.
    Removed,
    /// The service/host is registered.
    Registered,
    /// Any other state.
    Other(u32),
}

impl SrpState {
    /// The state that an item state of the stack stands for.
    pub open spec fn of_item_state(value: u32) -> SrpState {
        if value == OT_SRP_CLIENT_ITEM_STATE_TO_ADD {
            SrpState::ToAdd
        } else if value == OT_SRP_CLIENT_ITEM_STATE_ADDING {
            SrpState::Adding
        } else if value == OT_SRP_CLIENT_ITEM_STATE_TO_REFRESH {
            SrpState::ToRefresh
        } else if value == OT_SRP_CLIENT_ITEM_STATE_REFRESHING {
            SrpState::Refreshing
        } else if value == OT_SRP_CLIENT_ITEM_STATE_TO_REMOVE {
            SrpState::ToRemove
        } else if value == OT_SRP_CLIENT_ITEM_STATE_REMOVING {
            SrpState::Removing
        } else if value == OT_SRP_CLIENT_ITEM_STATE_REMOVED {
            SrpState::Removed
        } else if value == OT_SRP_CLIENT_ITEM_STATE_REGISTERED {
            SrpState::Registered
        } else {
            SrpState::Other(value)
        }
    }

    /// The item state of the stack that a state stands for.
    pub open spec fn item_state(self) -> u32 {
        match self {
            SrpState::ToAdd => OT_SRP_CLIENT_ITEM_STATE_TO_ADD,
            SrpState::Adding => OT_SRP_CLIENT_ITEM_STATE_ADDING,
            SrpState::ToRefresh => OT_SRP_CLIENT_ITEM_STATE_TO_REFRESH,
            SrpState::Refreshing => OT_SRP_CLIENT_ITEM_STATE_REFRESHING,
            SrpState::ToRemove => OT_SRP_CLIENT_ITEM_STATE_TO_REMOVE,
            SrpState::Removing => OT_SRP_CLIENT_ITEM_STATE_REMOVING,
            SrpState::Removed => OT_SRP_CLIENT_ITEM_STATE_REMOVED,
            SrpState::Registered => OT_SRP_CLIENT_ITEM_STATE_REGISTERED,
            SrpState::Other(value) => value,
        }
    }

    /// No item state is lost: the state that it stands for stands for it.
    pub proof fn item_state_round_trip(value: u32)
        ensures
            Self::of_item_state(value).item_state() == value,
    {
    }
}

impl From<u32> for SrpState {
    fn from(value: u32) -> (state: Self) {
        if value == OT_SRP_CLIENT_ITEM_STATE_TO_ADD {
            SrpState::ToAdd
        } else if value == OT_SRP_CLIENT_ITEM_STATE_ADDING {
            SrpState::Adding
        } else if value == OT_SRP_CLIENT_ITEM_STATE_TO_REFRESH {
            SrpState::ToRefresh
        } else if value == OT_SRP_CLIENT_ITEM_STATE_REFRESHING {
            SrpState::Refreshing
        } else if value == OT_SRP_CLIENT_ITEM_STATE_TO_REMOVE {
            SrpState::ToRemove
        } else if value == OT_SRP_CLIENT_ITEM_STATE_REMOVING {
            SrpState::Removing
        } else if value == OT_SRP_CLIENT_ITEM_STATE_REMOVED {
            SrpState::Removed
        } else if value == OT_SRP_CLIENT_ITEM_STATE_REGISTERED {
            SrpState::Registered
        } else {
            SrpState::Other(value)
        }
    }
}

impl FromSpecImpl<u32> for SrpState {
    open spec fn obeys_from_spec() -> bool {
        true
    }

    open spec fn from_spec(value: u32) -> Self {
        SrpState::of_item_state(value)
    }
}

/// Sizes and alignments of what the stack reads from a buffer: a pointer,
/// a TXT entry and an IPv6 address.
#[derive(Debug, Copy, Clone, Eq, PartialEq, Hash, Structural)]
pub struct AbiLayout {
    /// A pointer to a string.
    pub pointer: ElemLayout,
    /// One TXT entry: two pointers and a length.
    pub txt_entry: ElemLayout,
    /// One IPv6 address: its 16 octets.
    pub ip6_address: ElemLayout,
}

impl AbiLayout {
    /// Pointers and TXT entries take room, an address takes 16 bytes, and
    /// no alignment is zero.
    pub open spec fn wf(self) -> bool {
        &&& self.pointer.wf()
        &&& self.pointer.size > 0
        &&& self.txt_entry.wf()
        &&& self.txt_entry.size > 0
        &&& self.ip6_address.wf()
        &&& self.ip6_address.size == 16
    }

    /// Whether the layout is one that a machine can have.
    pub fn is_wf(&self) -> (b: bool)
        ensures
            b == self.wf(),
    {
        self.pointer.align > 0 && self.pointer.size > 0 && self.txt_entry.align > 0
            && self.txt_entry.size > 0 && self.ip6_address.align > 0 && self.ip6_address.size
            == 16
    }
}

/// The SRP configuration of the OpenThread stack.
#[derive(Debug, Clone, Eq, PartialEq, Hash)]
pub struct SrpConf<'a> {
    /// SRP hostname
    pub host_name: &'a str,
    /// SRP host Ipv6 addresses, each by its 16 octets.
    /// If empty, the SRP implementation will automatically set the host addresses
    /// by itself, using non-link-local addresses, once these become available.
    pub host_addrs: &'a [[u8; 16]],
    /// SRP TTL (Time To Live) value.
    pub ttl: u32,
    /// Default lease time for SRP services if they specify 0 for their lease time.
    /// Set to 0 to use the OpenThread default value.
    pub default_lease_secs: u32,
    /// Default key lease time for SRP services' keys if they specify 0 for their key lease time.
    /// Set to 0 to use the OpenThread default value.
    pub default_key_lease_secs: u32,
}

/// A host configuration as a value: the host name by its bytes, each
/// address by its octets.
pub struct SrpConfView {
    pub host_name: Seq<u8>,
    pub host_addrs: Seq<Seq<u8>>,
    pub ttl: u32,
    pub default_lease_secs: u32,
    pub default_key_lease_secs: u32,
}

impl<'a> View for SrpConf<'a> {
    type V = SrpConfView;

    open spec fn view(&self) -> SrpConfView {
        SrpConfView {
            host_name: self.host_name.spec_bytes(),
            host_addrs: self.host_addrs@.map_values(|a: [u8; 16]| a@),
            ttl: self.ttl,
            default_lease_secs: self.default_lease_secs,
            default_key_lease_secs: self.default_key_lease_secs,
        }
    }
}

impl SrpConfView {
    /// The host name is a C string's content and every address has its 16
    /// octets.
    pub open spec fn storable(self) -> bool {
        &&& !self.host_name.contains(0u8)
        &&& forall|i: int| 0 <= i < self.host_addrs.len() ==> (#[trigger] self.host_addrs[i]).len() == 16
    }
}

impl<'a> SrpConf<'a> {
    /// Whether the configuration can be stored: the host name has no NUL in
    /// it.
    pub fn is_storable(&self) -> (b: bool)
        ensures
            b == self@.storable(),
            b == !self.host_name.spec_bytes().contains(0u8),
    {
        proof {
            assert forall|i: int| 0 <= i < self@.host_addrs.len() implies (
            #[trigger] self@.host_addrs[i]).len() == 16 by {
                assert(self@.host_addrs[i] == self.host_addrs@[i]@);
            }
        }
        !contains_nul(self.host_name.as_bytes())
    }

    /// Create a new `SrpConf` instance, with a host named "ot-device",
    /// no explicit host addresses, a TTL of 60 seconds, and default lease times.
    pub fn new() -> (conf: Self)
        ensures
            conf.host_name@ == "ot-device"@,
            conf.host_addrs@.len() == 0,
            conf.ttl == 60,
            conf.default_lease_secs == 0,
            conf.default_key_lease_secs == 0,
    {
        SrpConf {
            host_name: "ot-device",
            host_addrs: &[],
            ttl: 60,
            default_lease_secs: 0,
            default_key_lease_secs: 0,
        }
    }
}

impl<'a> Default for SrpConf<'a> {
    fn default() -> (conf: Self)
        ensures
            conf.host_name@ == "ot-device"@,
            conf.host_addrs@.len() == 0,
            conf.ttl == 60,
            conf.default_lease_secs == 0,
            conf.default_key_lease_secs == 0,
    {
        Self::new()
    }
}

/// An SRP service that can be registered with the OpenThread stack.
#[derive(Debug, Clone, Eq, PartialEq, Hash)]
pub struct SrpService<'a> {
    /// The service name.
    pub name: &'a str,
    /// The instance name.
    pub instance_name: &'a str,
    /// The subtype labels.
    pub subtype_labels: &'a [&'a str],
    /// The TXT entries.
    pub txt_entries: &'a [(&'a str, &'a [u8])],
    /// The service port.
    pub port: u16,
    /// The service priority.
    pub priority: u16,
    /// The service weight.
    pub weight: u16,
    /// The service lease time in seconds.
    /// Set to 0 to use the default value as specified in `SrpConf`.
    pub lease_secs: u32,
    /// The service key lease time in seconds.
    /// Set to 0 to use the default value as specified in `SrpConf`.
    pub key_lease_secs: u32,
}

/// A service as a value: each string by its bytes.
pub struct SrpServiceView {
    pub name: Seq<u8>,
    pub instance_name: Seq<u8>,
    pub subtype_labels: Seq<Seq<u8>>,
    pub txt_entries: Seq<(Seq<u8>, Seq<u8>)>,
    pub port: u16,
    pub priority: u16,
    pub weight: u16,
    pub lease_secs: u32,
    pub key_lease_secs: u32,
}

impl<'a> View for SrpService<'a> {
    type V = SrpServiceView;

    open spec fn view(&self) -> SrpServiceView {
        SrpServiceView {
            name: self.name.spec_bytes(),
            instance_name: self.instance_name.spec_bytes(),
            subtype_labels: self.subtype_labels@.map_values(|s: &str| s.spec_bytes()),
            txt_entries: self.txt_entries@.map_values(
                |e: (&str, &[u8])| (e.0.spec_bytes(), e.1@),
            ),
            port: self.port,
            priority: self.priority,
            weight: self.weight,
            lease_secs: self.lease_secs,
            key_lease_secs: self.key_lease_secs,
        }
    }
}

impl SrpServiceView {
    /// Every string of the service is a C string's content: none has a NUL
    /// in it. The values of TXT entries are free.
    pub open spec fn storable(self) -> bool {
        &&& !self.name.contains(0u8)
        &&& !self.instance_name.contains(0u8)
        &&& forall|i: int|
            0 <= i < self.subtype_labels.len() ==> !(#[trigger] self.subtype_labels[i]).contains(
                0u8,
            )
        &&& forall|i: int|
            0 <= i < self.txt_entries.len() ==> !(#[trigger] self.txt_entries[i]).0.contains(0u8)
    }

    /// Every string of the service is the UTF-8 form of a text.
    pub open spec fn is_text(self) -> bool {
        &&& valid_utf8(self.name)
        &&& valid_utf8(self.instance_name)
        &&& forall|i: int|
            0 <= i < self.subtype_labels.len() ==> valid_utf8(#[trigger] self.subtype_labels[i])
        &&& forall|i: int|
            0 <= i < self.txt_entries.len() ==> valid_utf8((#[trigger] self.txt_entries[i]).0)
    }
}

impl<'a> SrpService<'a> {
    /// Whether the service can be stored: none of its names, labels and
    /// keys has a NUL in it.
    pub fn is_storable(&self) -> (b: bool)
        ensures
            b == self@.storable(),
    {
        if contains_nul(self.name.as_bytes()) || contains_nul(self.instance_name.as_bytes()) {
            return false;
        }
        let mut index: usize = 0;
        while index < self.subtype_labels.len()
            invariant
                index <= self.subtype_labels@.len(),
                forall|i: int| 0 <= i < index ==> !(#[trigger] self@.subtype_labels[i]).contains(0u8),
            decreases self.subtype_labels@.len() - index,
        {
            let label = self.subtype_labels[index];
            assert(self@.subtype_labels[index as int] == label.spec_bytes());
            if contains_nul(label.as_bytes()) {
                return false;
            }
            index += 1;
        }
        index = 0;
        while index < self.txt_entries.len()
            invariant
                index <= self.txt_entries@.len(),
                !self@.name.contains(0u8),
                !self@.instance_name.contains(0u8),
                forall|i: int|
                    0 <= i < self@.subtype_labels.len() ==> !(
                    #[trigger] self@.subtype_labels[i]).contains(0u8),
                forall|i: int| 0 <= i < index ==> !(#[trigger] self@.txt_entries[i]).0.contains(0u8),
            decreases self.txt_entries@.len() - index,
        {
            let (key, _) = self.txt_entries[index];
            assert(self@.txt_entries[index as int].0 == key.spec_bytes());
            if contains_nul(key.as_bytes()) {
                return false;
            }
            index += 1;
        }
        true
    }

    /// The strings of a service are texts.
    pub proof fn lemma_is_text(&self)
        ensures
            self@.is_text(),
    {
        broadcast use vstd::utf8::encode_utf8_valid_utf8;

        assert forall|i: int| 0 <= i < self@.subtype_labels.len() implies valid_utf8(
            #[trigger] self@.subtype_labels[i],
        ) by {
            assert(self@.subtype_labels[i] == self.subtype_labels@[i].spec_bytes());
        }
        assert forall|i: int| 0 <= i < self@.txt_entries.len() implies valid_utf8(
            (#[trigger] self@.txt_entries[i]).0,
        ) by {
            assert(self@.txt_entries[i].0 == self.txt_entries@[i].0.spec_bytes());
        }
    }
}

/// The host as the stack reads it. An address of 0 is the null pointer.
#[derive(Debug, Copy, Clone, Eq, PartialEq, Hash, Structural)]
pub struct SrpHostRecord {
    /// The address of the host name, a C string.
    pub name: usize,
    /// The address of the first host address, or null without addresses.
    pub addresses: usize,
    /// The number of host addresses.
    pub num_addresses: u8,
    /// Whether the stack picks the host addresses by itself.
    pub auto_address: bool,
    /// The item state of the host.
    pub state: u32,
}

/// One TXT entry as the stack reads it.
#[derive(Debug, Copy, Clone, Eq, PartialEq, Hash, Structural)]
pub struct SrpTxtRecord {
    /// The address of the key, a C string.
    pub key: usize,
    /// The address of the value's first byte.
    pub value: usize,
    /// The number of bytes of the value.
    pub value_length: u16,
}

/// A service as the stack reads it. An address of 0 is the null pointer.
#[derive(Debug, Clone, Eq, PartialEq, Hash)]
pub struct SrpServiceRecord {
    /// The address of the service name, a C string.
    pub name: usize,
    /// The address of the instance name, a C string.
    pub instance_name: usize,
    /// The address of the array of label pointers.
    pub sub_type_labels: usize,
    /// What the array of label pointers holds: the address of each label,
    /// and null behind the last.
    pub labels: Vec<usize>,
    /// The address of the array of TXT entries.
    pub txt_entries: usize,
    /// What the array of TXT entries holds.
    pub txt: Vec<SrpTxtRecord>,
    /// The number of TXT entries.
    pub num_txt_entries: u8,
    /// The service port.
    pub port: u16,
    /// The service priority.
    pub priority: u16,
    /// The service weight.
    pub weight: u16,
    /// The item state of the service.
    pub state: u32,
    /// The service lease time in seconds.
    pub lease: u32,
    /// The service key lease time in seconds.
    pub key_lease: u32,
}

/// A service record as a value.
pub struct SrpServiceRecordView {
    pub name: int,
    pub instance_name: int,
    pub sub_type_labels: int,
    pub labels: Seq<int>,
    pub txt_entries: int,
    pub txt: Seq<(int, int, int)>,
    pub num_txt_entries: int,
    pub port: u16,
    pub priority: u16,
    pub weight: u16,
    pub state: u32,
    pub lease: u32,
    pub key_lease: u32,
}

impl View for SrpServiceRecord {
    type V = SrpServiceRecordView;

    open spec fn view(&self) -> SrpServiceRecordView {
        SrpServiceRecordView {
            name: self.name as int,
            instance_name: self.instance_name as int,
            sub_type_labels: self.sub_type_labels as int,
            labels: self.labels@.map_values(|a: usize| a as int),
            txt_entries: self.txt_entries as int,
            txt: self.txt@.map_values(
                |t: SrpTxtRecord| (t.key as int, t.value as int, t.value_length as int),
            ),
            num_txt_entries: self.num_txt_entries as int,
            port: self.port,
            priority: self.priority,
            weight: self.weight,
            state: self.state,
            lease: self.lease,
            key_lease: self.key_lease,
        }
    }
}

impl SrpServiceRecord {
    /// A record that names nothing: every pointer is null, every number 0.
    pub fn new() -> (record: Self)
        ensures
            record@ == Self::spec_empty(),
    {
        let record = SrpServiceRecord {
            name: 0,
            instance_name: 0,
            sub_type_labels: 0,
            labels: Vec::new(),
            txt_entries: 0,
            txt: Vec::new(),
            num_txt_entries: 0,
            port: 0,
            priority: 0,
            weight: 0,
            state: 0,
            lease: 0,
            key_lease: 0,
        };
        assert(record@.labels =~= Seq::<int>::empty());
        assert(record@.txt =~= Seq::<(int, int, int)>::empty());
        record
    }

    /// The record that names nothing.
    pub open spec fn spec_empty() -> SrpServiceRecordView {
        SrpServiceRecordView {
            name: 0,
            instance_name: 0,
            sub_type_labels: 0,
            labels: Seq::empty(),
            txt_entries: 0,
            txt: Seq::empty(),
            num_txt_entries: 0,
            port: 0,
            priority: 0,
            weight: 0,
            state: 0,
            lease: 0,
            key_lease: 0,
        }
    }
}

impl SrpHostRecord {
    /// The record of a host that is not configured.
    pub open spec fn spec_empty() -> SrpHostRecord {
        SrpHostRecord { name: 0, addresses: 0, num_addresses: 0, auto_address: true, state: 0 }
    }

    /// The record of a host that is not configured.
    pub fn new() -> (record: Self)
        ensures
            record == Self::spec_empty(),
    {
        SrpHostRecord { name: 0, addresses: 0, num_addresses: 0, auto_address: true, state: 0 }
    }
}

} // verus!
