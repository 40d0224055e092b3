//! States and services as text.

use vstd::prelude::*;
use vstd::string::StringExecFns;
use crate::srp::types::SrpService;
use crate::srp::types::SrpState;
use crate::text::decimal;
use crate::text::u64_to_string;

verus! {

/// The items one after the other, with a comma and a blank between two.
pub open spec fn joined(items: Seq<Seq<char>>) -> Seq<char>
    decreases items.len(),
{
    if items.len() == 0 {
        Seq::empty()
    } else if items.len() == 1 {
        items[0]
    } else {
        joined(items.drop_last()) + ", "@ + items.last()
    }
}

/// The text of a value: its bytes as decimal numbers in square brackets.
pub open spec fn bytes_text(value: Seq<u8>) -> Seq<char> {
    "["@ + joined(value.map_values(|b: u8| decimal(b as nat))) + "]"@
}

/// The text of a TXT entry: its key, a colon and its value.
pub open spec fn txt_text(entry: (&str, &[u8])) -> Seq<char> {
    entry.0@ + ": "@ + bytes_text(entry.1@)
}

/// The text of a service.
pub open spec fn service_text(service: SrpService) -> Seq<char> {
    "SRP Service {name: "@ + service.name@ + ", instance: "@ + service.instance_name@
        + ", port: "@ + decimal(service.port as nat) + ", priority: "@ + decimal(
        service.priority as nat,
    ) + ", weight: "@ + decimal(service.weight as nat) + ", lease: "@ + decimal(
        service.lease_secs as nat,
    ) + ", keylease: "@ + decimal(service.key_lease_secs as nat) + ", labels: ["@ + joined(
        service.subtype_labels@.map_values(|label: &str| label@),
    ) + "], txt: ["@ + joined(
        service.txt_entries@.map_values(|entry: (&str, &[u8])| txt_text(entry)),
    ) + "]}"@
}

/// The first `count + 1` items joined are the first `count` joined and
/// item `count` behind them, divided by a comma where an item comes
/// before.
pub proof fn lemma_joined_step(items: Seq<Seq<char>>, count: int)
    requires
        0 <= count < items.len(),
    ensures
        joined(items.take(count + 1)) == (if count == 0 {
            items[0]
        } else {
            joined(items.take(count)) + ", "@ + items[count]
        }),
        joined(items.take(0)) == Seq::<char>::empty(),
        joined(items.take(items.len() as int)) == joined(items),
{
    assert(items.take(count + 1).drop_last() =~= items.take(count));
    assert(items.take(count + 1).last() == items[count]);
    assert(items.take(items.len() as int) =~= items);
}

/// Appends the items to `text`, with a comma and a blank between two.
fn append_joined(text: &mut String, items: &Vec<String>)
    ensures
        final(text)@ == old(text)@ + joined(items@.map_values(|item: String| item@)),
{
    let ghost all = items@.map_values(|item: String| item@);
    let ghost before = text@;
    let mut index: usize = 0;
    proof {
        assert(all.take(0) =~= Seq::<Seq<char>>::empty());
    }
    while index < items.len()
        invariant
            index <= items@.len(),
            all == items@.map_values(|item: String| item@),
            text@ == before + joined(all.take(index as int)),
        decreases items@.len() - index,
    {
        proof {
            lemma_joined_step(all, index as int);
        }
        if index > 0 {
            text.append(", ");
        }
        text.append(items[index].as_str());
        assert(text@ =~= before + joined(all.take(index + 1)));
        index += 1;
    }
    proof {
        assert(all.take(all.len() as int) =~= all);
    }
}

/// The text of a value: its bytes as decimal numbers in square brackets.
fn bytes_to_string(value: &[u8]) -> (text: String)
    ensures
        text@ == bytes_text(value@),
{
    let mut numbers: Vec<String> = Vec::new();
    let mut index: usize = 0;
    while index < value.len()
        invariant
            index <= value@.len(),
            numbers@.len() == index,
            forall|i: int| 0 <= i < index ==> (#[trigger] numbers@[i])@ == decimal(value@[i] as nat),
        decreases value@.len() - index,
    {
        numbers.push(u64_to_string(value[index] as u64));
        index += 1;
    }
    assert(numbers@.map_values(|item: String| item@) =~= value@.map_values(
        |b: u8| decimal(b as nat),
    ));
    let mut text = String::from_str("[");
    append_joined(&mut text, &numbers);
    text.append("]");
    text
}

impl SrpState {
    /// The text of the state.
    pub open spec fn spec_to_string(self) -> Seq<char> {
        match self {
            SrpState::ToAdd => "To add"@,
            SrpState::Adding => "Adding"@,
            SrpState::ToRefresh => "To refresh"@,
            SrpState::Refreshing => "Refreshing"@,
            SrpState::ToRemove => "To remove"@,
            SrpState::Removing => "Removing"@,
            SrpState::Removed => "Removed"@,
            SrpState::Registered => "Registered"@,
            SrpState::Other(state) => "Other ("@ + decimal(state as nat) + ")"@,
        }
    }

    /// The text of the state.
    pub fn to_string(&self) -> (text: String)
        ensures
            text@ == self.spec_to_string(),
    {
        match self {
            SrpState::ToAdd => String::from_str("To add"),
            SrpState::Adding => String::from_str("Adding"),
            SrpState::ToRefresh => String::from_str("To refresh"),
            SrpState::Refreshing => String::from_str("Refreshing"),
            SrpState::ToRemove => String::from_str("To remove"),
            SrpState::Removing => String::from_str("Removing"),
            SrpState::Removed => String::from_str("Removed"),
            SrpState::Registered => String::from_str("Registered"),
            SrpState::Other(state) => {
                let mut text = String::from_str("Other (");
                let number = u64_to_string(*state as u64);
                text.append(number.as_str());
                text.append(")");
                text
            },
        }
    }
}

impl<'a> SrpService<'a> {
    /// The text of the service: its names and numbers, its labels and its
    /// TXT entries.
    pub fn to_string(&self) -> (text: String)
        ensures
            text@ == service_text(*self),
    {
        let mut text = String::from_str("SRP Service {name: ");
        text.append(self.name);
        text.append(", instance: ");
        text.append(self.instance_name);
        text.append(", port: ");
        text.append(u64_to_string(self.port as u64).as_str());
        text.append(", priority: ");
        text.append(u64_to_string(self.priority as u64).as_str());
        text.append(", weight: ");
        text.append(u64_to_string(self.weight as u64).as_str());
        text.append(", lease: ");
        text.append(u64_to_string(self.lease_secs as u64).as_str());
        text.append(", keylease: ");
        text.append(u64_to_string(self.key_lease_secs as u64).as_str());
        text.append(", labels: [");

        let mut labels: Vec<String> = Vec::new();
        let mut index: usize = 0;
        while index < self.subtype_labels.len()
            invariant
                index <= self.subtype_labels@.len(),
                labels@.len() == index,
                forall|i: int| 0 <= i < index ==> (#[trigger] labels@[i])@ == self.subtype_labels@[i]@,
            decreases self.subtype_labels@.len() - index,
        {
            labels.push(String::from_str(self.subtype_labels[index]));
            index += 1;
        }
        assert(labels@.map_values(|item: String| item@) =~= self.subtype_labels@.map_values(
            |label: &str| label@,
        ));
        append_joined(&mut text, &labels);
        text.append("], txt: [");

        let mut entries: Vec<String> = Vec::new();
        index = 0;
        while index < self.txt_entries.len()
            invariant
                index <= self.txt_entries@.len(),
                entries@.len() == index,
                forall|i: int|
                    0 <= i < index ==> (#[trigger] entries@[i])@ == txt_text(self.txt_entries@[i]),
            decreases self.txt_entries@.len() - index,
        {
            let (key, value) = self.txt_entries[index];
            let mut entry = String::from_str(key);
            entry.append(": ");
            entry.append(bytes_to_string(value).as_str());
            entries.push(entry);
            index += 1;
        }
        assert(entries@.map_values(|item: String| item@) =~= self.txt_entries@.map_values(
            |entry: (&str, &[u8])| txt_text(entry),
        ));
        append_joined(&mut text, &entries);
        text.append("]}");
        text
    }
}

} // verus!
