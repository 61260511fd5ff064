//! The collaborators the driver needs from its surroundings: a bus handle
//! with a byte-write transaction primitive and a blocking delay provider.
//! The hardware supplies real implementations; [`ScriptedBus`] is a recording
//! stand-in with scripted failures for exercising the layers above.

use vstd::prelude::*;

verus! {

/// Opaque transport failure: a write transaction that the bus did not accept
/// (covers NACK, bus timeout, arbitration loss — at whatever granularity the
/// transport exposes). Propagated verbatim; never wrapped or classified.
#[derive(Clone, Copy, Debug, PartialEq, Eq, Structural)]
pub struct BusError;

/// A two-wire bus handle: one single-address byte-write transaction at a
/// time. Implementations keep a ghost log of every transaction attempted so
/// far, so that the layers above can state exactly which bytes they put on
/// the bus and in what order.
pub trait Bus {
    /// Every transaction attempted so far, oldest first: target address, the
    /// payload bytes, and whether the bus accepted the write. The default
    /// body lets unverified hardware implementations supply `write` alone; an
    /// implementation whose callers reason about the log overrides it with
    /// its real transaction history.
    open spec fn log(&self) -> Seq<(u8, Seq<u8>, bool)> {
        Seq::empty()
    }

    /// Perform one write transaction to `address` with the given payload.
    /// Exactly one entry is appended to the log, accepted iff the result is
    /// `Ok`; nothing else about the outcome is promised — the transport
    /// decides.
    fn write(&mut self, address: u8, payload: &[u8]) -> (r: Result<(), BusError>)
        ensures
            final(self).log() == old(self).log().push((address, payload@, r is Ok)),
    ;
}

/// A blocking delay provider: returns after (at least) the given number of
/// milliseconds. Implementations keep a ghost history of the holds requested
/// so far, so that the layers above can state exactly how many holds they
/// take and for how long; the real passage of time is not modelled.
pub trait Delay {
    /// Every hold requested so far, oldest first, in milliseconds. The
    /// default body lets unverified hardware implementations supply
    /// `delay_ms` alone; an implementation whose callers reason about the
    /// holds overrides it with its real history.
    open spec fn calls(&self) -> Seq<u32> {
        Seq::empty()
    }

    /// Block the calling context for `ms` milliseconds. Exactly one hold is
    /// appended to the history.
    fn delay_ms(&mut self, ms: u32)
        ensures
            final(self).calls() == old(self).calls().push(ms),
    ;
}

/// A bus stand-in that records every transaction and fails exactly the
/// scripted ones: write number `k` (counting from zero) is rejected when
/// `failures[k]` is true; writes past the end of the script succeed.
pub struct ScriptedBus {
    /// Transactions performed so far, oldest first: address, payload,
    /// accepted.
    pub events: Vec<(u8, Vec<u8>, bool)>,
    /// The failure script.
    pub failures: Vec<bool>,
}

impl ScriptedBus {
    /// A scripted bus that has seen no transactions yet.
    pub fn new(failures: Vec<bool>) -> (r: ScriptedBus)
        ensures
            r.log() == Seq::<(u8, Seq<u8>, bool)>::empty(),
            r.failures == failures,
    {
        let r = ScriptedBus { events: Vec::new(), failures };
        proof {
            assert(r.log() =~= Seq::<(u8, Seq<u8>, bool)>::empty());
        }
        r
    }
}

impl Bus for ScriptedBus {
    open spec fn log(&self) -> Seq<(u8, Seq<u8>, bool)> {
        self.events@.map(|i: int, e: (u8, Vec<u8>, bool)| (e.0, e.1@, e.2))
    }

    fn write(&mut self, address: u8, payload: &[u8]) -> (r: Result<(), BusError>)
        ensures
            final(self).failures == old(self).failures,
            r is Ok <==> !(old(self).events@.len() < old(self).failures@.len() && old(
                self,
            ).failures@[old(self).events@.len() as int]),
    {
        let k = self.events.len();
        let fail = k < self.failures.len() && self.failures[k];
        let mut copied: Vec<u8> = Vec::new();
        let mut i: usize = 0;
        while i < payload.len()
            invariant
                i <= payload@.len(),
                copied@ == payload@.take(i as int),
            decreases payload@.len() - i,
        {
            copied.push(payload[i]);
            proof {
                assert(copied@ =~= payload@.take(i + 1));
            }
            i = i + 1;
        }
        proof {
            assert(copied@ =~= payload@);
        }
        self.events.push((address, copied, !fail));
        proof {
            assert(self.log() =~~= old(self).log().push((address, payload@, !fail)));
        }
        if fail {
            Err(BusError)
        } else {
            Ok(())
        }
    }
}

/// A delay provider that does not wait: for driving the layers above where
/// real time is irrelevant. It only records the holds requested of it.
pub struct NoopDelay {
    /// The holds requested so far, oldest first.
    pub history: Ghost<Seq<u32>>,
}

impl NoopDelay {
    /// A delay provider that has seen no holds yet.
    pub fn new() -> (r: NoopDelay)
        ensures
            r.calls() == Seq::<u32>::empty(),
    {
        NoopDelay { history: Ghost(Seq::empty()) }
    }
}

impl Delay for NoopDelay {
    open spec fn calls(&self) -> Seq<u32> {
        self.history@
    }

    fn delay_ms(&mut self, ms: u32) {
        self.history = Ghost(self.history@.push(ms));
    }
}

} // verus!
