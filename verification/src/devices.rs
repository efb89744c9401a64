use vstd::prelude::*;

use crate::alu::wrap8;
use crate::cpu::Device;

verus! {

/// A simple stateful device for hosts and tests: it remembers the last byte
/// pushed to it and answers every load with that byte.
pub struct EchoDevice {
    pub addr: u8,
    pub last: u8,
}

impl Device for EchoDevice {
    open spec fn spec_address(&self) -> u8 {
        self.addr
    }

    open spec fn dev_state(&self) -> Seq<u8> {
        seq![self.last]
    }

    /// A load answers the remembered byte and changes nothing.
    open spec fn load_rel(&self, addr: u8, r: u8, post: Seq<u8>) -> bool {
        r == self.last && post == seq![self.last]
    }

    /// A push replaces the remembered byte.
    open spec fn push_rel(&self, addr: u8, data: u8, post: Seq<u8>) -> bool {
        post == seq![data]
    }

    fn address(&self) -> (r: u8) {
        self.addr
    }

    fn load(&mut self, _addr: u8) -> (r: u8) {
        self.last
    }

    fn push(&mut self, _addr: u8, data: u8) {
        self.last = data;
    }
}

/// A stateful device for hosts and tests: every load answers with the
/// current count and then increments it (wrapping); a push sets the count.
/// Because each load changes it, it makes the order of a tick's operand
/// loads observable: the engine loads the first operand before the second.
pub struct CounterDevice {
    pub addr: u8,
    pub count: u8,
}

impl Device for CounterDevice {
    open spec fn spec_address(&self) -> u8 {
        self.addr
    }

    open spec fn dev_state(&self) -> Seq<u8> {
        seq![self.count]
    }

    /// A load answers the current count and increments it, wrapping.
    open spec fn load_rel(&self, addr: u8, r: u8, post: Seq<u8>) -> bool {
        r == self.count && post == seq![wrap8(self.count + 1)]
    }

    /// A push sets the count.
    open spec fn push_rel(&self, addr: u8, data: u8, post: Seq<u8>) -> bool {
        post == seq![data]
    }

    fn address(&self) -> (r: u8) {
        self.addr
    }

    fn load(&mut self, _addr: u8) -> (r: u8) {
        let current = self.count;
        self.count = self.count.wrapping_add(1);
        current
    }

    fn push(&mut self, _addr: u8, data: u8) {
        self.count = data;
    }
}

/// Echo round trip: a push of `data` leaves an echo device in a state from
/// which any load answers exactly `data`. Together with the engine's router
/// contracts — a store to a declared device address reaches that device
/// under its push relation, and a load's answer satisfies its load relation
/// — this is the device round-trip law for the echo device.
pub proof fn lemma_echo_round_trip(
    pre: EchoDevice,
    push_addr: u8,
    data: u8,
    mid: EchoDevice,
    load_addr: u8,
    r: u8,
    post: Seq<u8>,
)
    requires
        pre.push_rel(push_addr, data, mid.dev_state()),
        mid.load_rel(load_addr, r, post),
    ensures
        r == data,
{
    assert(mid.dev_state()[0] == data);
}

} // verus!
