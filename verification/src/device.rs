//! The devices in reach, which of them are Ledgers, and the links to them.
use btleplug::api::CharPropFlags;
use uuid::Uuid;
use vstd::prelude::*;

verus! {

/// The identifier of a Ledger Nano X: `9c332c11-e85b-3c29-536c-50c4d347ed4d`.
pub const NANO_X_UUID: u128 = 0x9c332c11_e85b_3c29_536c_50c4d347ed4d;

/// The property of a characteristic that can be written to with a confirmation.
pub const WRITE: u8 = 0x08;

/// The property of a characteristic that notifies of its value.
pub const NOTIFY: u8 = 0x10;

/// A link to a device: which device it is, and the characteristics that packets are written to
/// and notified on, each by its position.
#[derive(Debug, Clone, Copy, PartialEq, Eq)]
pub struct TransportNativeBle {
    pub device: usize,
    pub write_characteristic: usize,
    pub notify_characteristic: usize,
}

/// `uuid::Uuid::from_fields`, as the number that `uuid::Uuid::as_u128` packs it into.
///
/// The fields follow each other from the most significant end, and so do the bytes of the last
/// one.
#[verifier::external_body]
fn uuid_from_fields(d1: u32, d2: u16, d3: u16, d4: &[u8; 8]) -> (id: u128)
    ensures
        id == d1 * 0x1_0000_0000_0000_0000_0000_0000 + d2 * 0x1_0000_0000_0000_0000_0000 + d3
            * 0x1_0000_0000_0000_0000 + d4[0] * 0x100_0000_0000_0000 + d4[1] * 0x1_0000_0000_0000
            + d4[2] * 0x100_0000_0000 + d4[3] * 0x1_0000_0000 + d4[4] * 0x100_0000 + d4[5]
            * 0x1_0000 + d4[6] * 0x100 + d4[7],
{
    Uuid::from_fields(d1, d2, d3, d4).as_u128()
}

/// `contains` of `btleplug::api::CharPropFlags`, on the bits of two sets of properties.
///
/// A set contains another one if all bits of the other are among its own.
#[verifier::external_body]
fn contains(properties: u8, others: u8) -> (contained: bool)
    ensures
        contained == (properties & others == others),
{
    CharPropFlags::from_bits_retain(properties).contains(CharPropFlags::from_bits_retain(others))
}

/// Whether a device is a Ledger; devices may come without an identifier of this kind.
pub open spec fn is_ledger(id: Option<u128>) -> bool {
    id == Some(NANO_X_UUID)
}

/// The positions of the Ledgers among some devices, in their order.
pub open spec fn ledgers(ids: Seq<Option<u128>>) -> Seq<usize>
    decreases ids.len(),
{
    if ids.len() == 0 {
        Seq::empty()
    } else if is_ledger(ids.last()) {
        ledgers(ids.drop_last()).push((ids.len() - 1) as usize)
    } else {
        ledgers(ids.drop_last())
    }
}

/// The position of the first characteristic with a property.
pub open spec fn first_with(properties: Seq<u8>, property: u8) -> Option<usize>
    decreases properties.len(),
{
    if properties.len() == 0 {
        None
    } else {
        match first_with(properties.drop_last(), property) {
            Some(i) => Some(i),
            None => if properties.last() & property == property {
                Some((properties.len() - 1) as usize)
            } else {
                None
            },
        }
    }
}

impl TransportNativeBle {
    /// Whether a device is a Ledger.
    pub fn is_ledger(id: Option<u128>) -> (ledger: bool)
        ensures
            ledger == is_ledger(id),
            ledger <==> id == Some(0x9c332c11_e85b_3c29_536c_50c4d347ed4du128),
    {
        let nano_x: u128 = uuid_from_fields(
            0x9c332c11,
            0xe85b,
            0x3c29,
            &[0x53, 0x6c, 0x50, 0xc4, 0xd3, 0x47, 0xed, 0x4d],
        );
        assert(nano_x == NANO_X_UUID);
        match id {
            Some(id) => id == nano_x,
            None => false,
        }
    }
}

/// Picks the Ledgers among some devices.
pub fn find_ledgers(ids: &Vec<Option<u128>>) -> (found: Vec<usize>)
    ensures
        found@ == ledgers(ids@),
        forall|i: int|
            0 <= i < ids@.len() ==> (found@.contains(i as usize) <==> #[trigger] ids@[i] == Some(
                0x9c332c11_e85b_3c29_536c_50c4d347ed4du128,
            )),
        forall|j: int, k: int| 0 <= j < k < found@.len() ==> found@[j] < found@[k],
        forall|k: int| 0 <= k < found@.len() ==> #[trigger] found@[k] < ids@.len(),
{
    let mut found: Vec<usize> = Vec::new();
    let mut i: usize = 0;
    while i < ids.len()
        invariant
            i <= ids@.len(),
            found@ == ledgers(ids@.take(i as int)),
        decreases ids@.len() - i,
    {
        if TransportNativeBle::is_ledger(ids[i]) {
            found.push(i);
        }
        i = i + 1;
        assert(ids@.take(i as int).drop_last() == ids@.take(i - 1));
    }
    assert(ids@.take(i as int) == ids@);
    proof {
        nano_x_is_found(ids@);
        ledgers_are_found(ids@);
    }
    found
}

/// Finds the first characteristic with a property.
pub fn find_characteristic(properties: &Vec<u8>, property: u8) -> (found: Option<usize>)
    ensures
        found == first_with(properties@, property),
        found matches Some(i) ==> is_first_with(properties@, property, i as int),
        found is None ==> forall|j: int|
            0 <= j < properties@.len() ==> #[trigger] properties@[j] & property != property,
{
    let mut found: Option<usize> = None;
    let mut i: usize = 0;
    while i < properties.len()
        invariant
            i <= properties@.len(),
            found == first_with(properties@.take(i as int), property),
        decreases properties@.len() - i,
    {
        if found.is_none() && contains(properties[i], property) {
            found = Some(i);
        }
        i = i + 1;
        assert(properties@.take(i as int).drop_last() == properties@.take(i - 1));
    }
    assert(properties@.take(i as int) == properties@);
    proof {
        first_with_is_first(properties@, property);
    }
    found
}

/// The Ledgers that are found among some devices are Ledgers, they are all that there are, and
/// each is found once, in the order of the devices.
pub proof fn ledgers_are_found(ids: Seq<Option<u128>>)
    requires
        ids.len() <= usize::MAX,
    ensures
        forall|k: int|
            0 <= k < ledgers(ids).len() ==> (#[trigger] ledgers(ids)[k]) < ids.len() && is_ledger(
                ids[ledgers(ids)[k] as int],
            ),
        forall|i: int|
            0 <= i < ids.len() && is_ledger(#[trigger] ids[i]) ==> ledgers(ids).contains(
                i as usize,
            ),
        forall|j: int, k: int|
            0 <= j < k < ledgers(ids).len() ==> #[trigger] ledgers(ids)[j] < #[trigger] ledgers(
                ids,
            )[k],
    decreases ids.len(),
{
    if ids.len() > 0 {
        let before = ids.drop_last();
        ledgers_are_found(before);
        assert forall|i: int| 0 <= i < ids.len() && is_ledger(#[trigger] ids[i]) implies ledgers(
            ids,
        ).contains(i as usize) by {
            if i < before.len() {
                assert(before[i] == ids[i]);
                let k = choose|k: int|
                    0 <= k < ledgers(before).len() && ledgers(before)[k] == i as usize;
                assert(ledgers(ids)[k] == i as usize);
            } else {
                assert(ledgers(ids).last() == i as usize);
            }
        }
    }
}

/// The first characteristic with a property has it, and none before it has it. If none is
/// found, none has it.
pub proof fn first_with_is_first(properties: Seq<u8>, property: u8)
    requires
        properties.len() <= usize::MAX,
    ensures
        match first_with(properties, property) {
            Some(i) => {
                &&& i < properties.len()
                &&& properties[i as int] & property == property
                &&& forall|j: int| 0 <= j < i ==> #[trigger] properties[j] & property != property
            },
            None => forall|j: int|
                0 <= j < properties.len() ==> #[trigger] properties[j] & property != property,
        },
    decreases properties.len(),
{
    if properties.len() > 0 {
        let before = properties.drop_last();
        first_with_is_first(before, property);
        assert(forall|j: int| 0 <= j < before.len() ==> before[j] == properties[j]);
    }
}

/// Whether a position is that of the first characteristic that has all bits of a property.
pub open spec fn is_first_with(properties: Seq<u8>, property: u8, i: int) -> bool {
    &&& 0 <= i < properties.len()
    &&& properties[i] & property == property
    &&& forall|j: int| 0 <= j < i ==> #[trigger] properties[j] & property != property
}

/// A device is found if and only if its identifier is that of a Nano X,
/// `9c332c11-e85b-3c29-536c-50c4d347ed4d`, to the last bit. Each is found once, in the order of
/// the devices, and nothing else is.
pub proof fn nano_x_is_found(ids: Seq<Option<u128>>)
    requires
        ids.len() <= usize::MAX,
    ensures
        forall|i: int|
            0 <= i < ids.len() ==> (ledgers(ids).contains(i as usize) <==> #[trigger] ids[i]
                == Some(0x9c332c11_e85b_3c29_536c_50c4d347ed4du128)),
        forall|k: int| 0 <= k < ledgers(ids).len() ==> #[trigger] ledgers(ids)[k] < ids.len(),
        forall|j: int, k: int|
            0 <= j < k < ledgers(ids).len() ==> #[trigger] ledgers(ids)[j] < #[trigger] ledgers(
                ids,
            )[k],
{
    ledgers_are_found(ids);
    assert forall|i: int| 0 <= i < ids.len() implies (ledgers(ids).contains(i as usize)
        <==> #[trigger] ids[i] == Some(0x9c332c11_e85b_3c29_536c_50c4d347ed4du128)) by {
        if ledgers(ids).contains(i as usize) {
            let k = choose|k: int| 0 <= k < ledgers(ids).len() && ledgers(ids)[k] == i as usize;
            assert(is_ledger(ids[ledgers(ids)[k] as int]));
        }
        if ids[i] == Some(0x9c332c11_e85b_3c29_536c_50c4d347ed4du128) {
            assert(is_ledger(ids[i]));
        }
    }
}

/// A device is a Ledger if and only if its identifier is that of a Nano X, to the last bit.
pub proof fn only_nano_x_is_a_ledger(id: Option<u128>)
    ensures
        is_ledger(id) <==> id == Some(0x9c332c11_e85b_3c29_536c_50c4d347ed4du128),
{
}

} // verus!
