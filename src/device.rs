use vstd::bytes::*;
use vstd::prelude::*;

use crate::event::EV_KEY;

verus! {

/// Bus type of a USB device.
pub const BUS_USB: u16 = 3;

/// Length of the name buffer of a device descriptor.
pub const NAME_SIZE: usize = 80;

/// Size in bytes of a device descriptor in the kernel's layout: four 16-bit
/// ids, the name buffer and a 32-bit effect count, with no padding.
pub const DESCRIPTOR_SIZE: usize = 92;

/// Key codes enabled on the virtual device run from `FIRST_KEY` up to, but
/// not including, `KEY_LIMIT`.
pub const FIRST_KEY: u16 = 1;

/// See `FIRST_KEY`.
pub const KEY_LIMIT: u16 = 249;

/// Identity of an input device.
#[derive(Clone, Copy, Debug, PartialEq, Eq, Structural)]
pub struct LinuxInputId {
    pub bustype: u16,
    pub vendor: u16,
    pub product: u16,
    pub version: u16,
}

/// Descriptor that registers the virtual device with the kernel.
#[derive(Clone, Copy, Debug)]
pub struct LinuxUSetup {
    pub id: LinuxInputId,
    pub name: [u8; 80],
    pub ff_effects_max: u32,
}

/// The bytes of a descriptor with the given fields, in the kernel's layout.
pub open spec fn descriptor_bytes(id: LinuxInputId, name: Seq<u8>, ff_effects_max: u32) -> Seq<u8> {
    spec_u16_to_le_bytes(id.bustype) + spec_u16_to_le_bytes(id.vendor) + spec_u16_to_le_bytes(
        id.product,
    ) + spec_u16_to_le_bytes(id.version) + name + spec_u32_to_le_bytes(ff_effects_max)
}

impl LinuxUSetup {
    /// The descriptor of the replay device: a USB device with vendor 0x1234,
    /// product 0x5678, version 0, a name of 80 bytes of value 30, and no
    /// force-feedback effects.
    pub fn replay_device() -> (r: LinuxUSetup)
        ensures
            r.id == (LinuxInputId { bustype: BUS_USB, vendor: 0x1234, product: 0x5678, version: 0 }),
            r.name@ == Seq::new(80, |i: int| 30u8),
            r.ff_effects_max == 0,
    {
        let name: [u8; 80] = [30u8; 80];
        let r = LinuxUSetup {
            id: LinuxInputId { bustype: BUS_USB, vendor: 0x1234, product: 0x5678, version: 0 },
            name,
            ff_effects_max: 0,
        };
        assert(r.name@ =~= Seq::new(80, |i: int| 30u8));
        r
    }

    /// Encodes the descriptor in the kernel's layout.
    pub fn encode(&self) -> (r: Vec<u8>)
        ensures
            r@ == descriptor_bytes(self.id, self.name@, self.ff_effects_max),
            r@.len() == DESCRIPTOR_SIZE,
    {
        proof {
            lemma_auto_spec_u32_to_from_le_bytes();
            lemma_auto_spec_u16_to_from_le_bytes();
        }
        let mut r = u16_to_le_bytes(self.id.bustype);
        let mut b = u16_to_le_bytes(self.id.vendor);
        r.append(&mut b);
        let mut b = u16_to_le_bytes(self.id.product);
        r.append(&mut b);
        let mut b = u16_to_le_bytes(self.id.version);
        r.append(&mut b);
        let ghost head = r@;
        let mut i: usize = 0;
        while i < NAME_SIZE
            invariant
                i <= NAME_SIZE,
                self.name@.len() == NAME_SIZE,
                r@ == head + self.name@.subrange(0, i as int),
            decreases NAME_SIZE - i,
        {
            r.push(self.name[i]);
            assert(self.name@.subrange(0, i + 1) =~= self.name@.subrange(0, i as int).push(
                self.name@[i as int],
            ));
            i = i + 1;
        }
        assert(self.name@.subrange(0, NAME_SIZE as int) =~= self.name@);
        let mut b = u32_to_le_bytes(self.ff_effects_max);
        r.append(&mut b);
        r
    }
}

/// One control call of the virtual device's setup.
#[derive(Clone, Copy, Debug, PartialEq, Eq, Structural)]
pub enum SetupCall {
    /// Enables an event type on the device.
    EnableEventType(u16),
    /// Enables one key code on the device.
    EnableKey(u16),
    /// Submits the device descriptor.
    SubmitDescriptor,
    /// Creates the device.
    CreateDevice,
}

/// The setup sequence: enable key events, enable each key code of
/// `[FIRST_KEY, KEY_LIMIT)` in increasing order, submit the descriptor,
/// create the device.
pub open spec fn setup_sequence() -> Seq<SetupCall> {
    seq![SetupCall::EnableEventType(EV_KEY)] + Seq::new(
        (KEY_LIMIT - FIRST_KEY) as nat,
        |i: int| SetupCall::EnableKey((FIRST_KEY + i) as u16),
    ) + seq![SetupCall::SubmitDescriptor, SetupCall::CreateDevice]
}

/// The control calls that set up the virtual device, in the order in which
/// they must be issued.
pub fn setup_calls() -> (r: Vec<SetupCall>)
    ensures
        r@ == setup_sequence(),
{
    let mut r: Vec<SetupCall> = Vec::new();
    r.push(SetupCall::EnableEventType(EV_KEY));
    let mut k: u16 = FIRST_KEY;
    while k < KEY_LIMIT
        invariant
            FIRST_KEY <= k <= KEY_LIMIT,
            r@ == seq![SetupCall::EnableEventType(EV_KEY)] + Seq::new(
                (k - FIRST_KEY) as nat,
                |i: int| SetupCall::EnableKey((FIRST_KEY + i) as u16),
            ),
        decreases KEY_LIMIT - k,
    {
        r.push(SetupCall::EnableKey(k));
        proof {
            let keys = Seq::new(
                (k - FIRST_KEY) as nat,
                |i: int| SetupCall::EnableKey((FIRST_KEY + i) as u16),
            );
            let next = Seq::new(
                (k + 1 - FIRST_KEY) as nat,
                |i: int| SetupCall::EnableKey((FIRST_KEY + i) as u16),
            );
            assert(next =~= keys.push(SetupCall::EnableKey(k)));
            assert(seq![SetupCall::EnableEventType(EV_KEY)] + next =~= (seq![
                SetupCall::EnableEventType(EV_KEY),
            ] + keys).push(SetupCall::EnableKey(k)));
        }
        k = k + 1;
    }
    r.push(SetupCall::SubmitDescriptor);
    r.push(SetupCall::CreateDevice);
    assert(r@ =~= setup_sequence());
    r
}

} // verus!
