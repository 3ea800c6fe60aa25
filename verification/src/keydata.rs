//! The event model: one observed keypress.

use vstd::prelude::*;

verus! {

/// How a key was pressed: a discrete press-and-release, or a key-repeat
/// emitted while the key is held.  Only `Single` presses count toward the
/// cumulative total and the throughput window's "words per minute" figure.
#[derive(Clone, Copy, Debug, PartialEq, Eq, Structural)]
pub enum KeyKind {
    Single,
    Hold,
}

/// One observed keypress: the key's stable symbolic name, how it was
/// pressed, and the logical tick at which the aggregator received it.
///
/// The timestamp is a tick number of the aggregator's own clock, not a
/// wall-clock instant; the source creates events with timestamp 0 and the
/// aggregator stamps them on arrival.
#[derive(Debug)]
pub struct Keydata {
    pub symbol: String,
    pub kind: KeyKind,
    pub timestamp: u64,
}

impl Clone for Keydata {
    fn clone(&self) -> (kd: Self)
        ensures
            kd == *self,
    {
        Keydata { symbol: self.symbol.clone(), kind: self.kind, timestamp: self.timestamp }
    }
}

impl Keydata {
    pub fn new(symbol: String, kind: KeyKind) -> (kd: Keydata)
        ensures
            kd.symbol == symbol,
            kd.kind == kind,
            kd.timestamp == 0,
    {
        Keydata { symbol, kind, timestamp: 0 }
    }

    pub fn set_timestamp(&mut self, timestamp: u64)
        ensures
            *final(self) == (Keydata { timestamp, ..*old(self) }),
    {
        self.timestamp = timestamp;
    }

    pub fn get_timestamp(&self) -> (t: u64)
        ensures
            t == self.timestamp,
    {
        self.timestamp
    }

    pub fn get_kind(&self) -> (k: &KeyKind)
        ensures
            *k == self.kind,
    {
        &self.kind
    }

    pub fn get_symbol(&self) -> (s: &String)
        ensures
            *s == self.symbol,
    {
        &self.symbol
    }
}

} // verus!
