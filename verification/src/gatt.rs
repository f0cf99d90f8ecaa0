//! The peripheral notification channel's decision logic: one characteristic
//! value, and what each GATT event does to it. The event loop, the radio,
//! and the channels stay outside; they feed events in and carry the
//! actions out.

use vstd::prelude::*;

verus! {

/// Short UUID of the advertised service.
pub const SERVICE_SHORT_UUID: u16 = 0x1234;

/// Short UUID of the readable, writable, notifying characteristic.
pub const CHARACTERISTIC_SHORT_UUID: u16 = 0x2A3D;

/// Short UUID of the characteristic's descriptor.
pub const DESCRIPTOR_SHORT_UUID: u16 = 0x2A13;

/// The bytes the characteristic greets with before anything was written.
pub open spec fn greeting() -> Seq<u8> {
    "Hello iOS"@.map(|i: int, c: char| c as u8)
}

/// The peripheral's state: the current characteristic value.
#[derive(Debug)]
pub struct PeripheralState {
    pub value: Vec<u8>,
}

/// The state the peripheral starts in, holding the greeting.
#[verifier::loop_isolation(false)]
pub fn initial_peripheral_state() -> (r: PeripheralState)
    ensures
        r.value@ == greeting(),
{
    let cs = crate::text::chars_of("Hello iOS");
    let n = cs.len();
    let mut value: Vec<u8> = Vec::new();
    let mut i: usize = 0;
    while i < n
        invariant
            i <= n == cs@.len(),
            cs@ == "Hello iOS"@,
            value@ == cs@.subrange(0, i as int).map(|k: int, c: char| c as u8),
        decreases n - i,
    {
        let c = cs[i];
        let ghost prev = value@;
        value.push(c as u8);
        proof {
            assert(cs@.subrange(0, i + 1 as int) =~= cs@.subrange(0, i as int).push(
                cs@[i as int],
            ));
            assert(cs@.subrange(0, i + 1 as int).map(|k: int, c: char| c as u8) =~= prev.push(
                cs@[i as int] as u8,
            ));
        }
        i = i + 1;
    }
    proof {
        assert(cs@.subrange(0, n as int) =~= cs@);
    }
    PeripheralState { value }
}

/// One event the channel can hand the peripheral. Text handed in over the
/// input channel arrives as its bytes.
#[derive(Debug)]
pub enum GattEvent {
    /// A central asks to read the characteristic.
    ReadRequest,
    /// A central writes the characteristic.
    WriteRequest(Vec<u8>),
    /// A line arrived on the input channel and is to be pushed out.
    LineInput(Vec<u8>),
    /// A central subscribed or unsubscribed.
    SubscriptionUpdate(bool),
}

/// What the event loop is to do in answer to one event.
#[derive(Debug, PartialEq)]
pub enum GattAction {
    /// Answer the read with this value, successfully.
    RespondRead(Vec<u8>),
    /// Acknowledge the write, successfully.
    AckWrite,
    /// Push the new value out on the characteristic.
    UpdateCharacteristic(Vec<u8>),
    /// Nothing to send; the event is only noted.
    Noted,
}

impl PeripheralState {
    /// Decides one event: a read answers with the current value and leaves
    /// it unchanged; a write stores the written bytes and is acknowledged;
    /// an input line stores its bytes and pushes them out; a subscription
    /// update changes nothing.
    pub fn handle_event(&mut self, event: GattEvent) -> (r: GattAction)
        ensures
            match event {
                GattEvent::ReadRequest => {
                    &&& (r matches GattAction::RespondRead(v) && v@ == old(self).value@)
                    &&& final(self).value == old(self).value
                },
                GattEvent::WriteRequest(v) => {
                    &&& r == GattAction::AckWrite
                    &&& final(self).value == v
                },
                GattEvent::LineInput(v) => {
                    &&& (r matches GattAction::UpdateCharacteristic(u) && u@ == v@)
                    &&& final(self).value == v
                },
                GattEvent::SubscriptionUpdate(_) => {
                    &&& r == GattAction::Noted
                    &&& final(self).value == old(self).value
                },
            },
    {
        match event {
            GattEvent::ReadRequest => {
                let copy = clone_bytes(&self.value);
                GattAction::RespondRead(copy)
            },
            GattEvent::WriteRequest(v) => {
                self.value = v;
                GattAction::AckWrite
            },
            GattEvent::LineInput(v) => {
                let copy = clone_bytes(&v);
                self.value = v;
                GattAction::UpdateCharacteristic(copy)
            },
            GattEvent::SubscriptionUpdate(_) => GattAction::Noted,
        }
    }
}

/// A byte-for-byte copy.
fn clone_bytes(v: &Vec<u8>) -> (r: Vec<u8>)
    ensures
        r@ == v@,
{
    let mut r: Vec<u8> = Vec::new();
    let mut i: usize = 0;
    while i < v.len()
        invariant
            i <= v@.len(),
            r@ == v@.subrange(0, i as int),
        decreases v@.len() - i,
    {
        let b = v[i];
        r.push(b);
        proof {
            assert(v@.subrange(0, i + 1 as int) =~= v@.subrange(0, i as int).push(v@[i as int]));
        }
        i = i + 1;
    }
    proof {
        assert(v@.subrange(0, v@.len() as int) =~= v@);
    }
    r
}

} // verus!
