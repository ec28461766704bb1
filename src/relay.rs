//! The stream relay's decisions: each chunk read from the source is
//! transformed and forwarded as it is; a zero-length read ends the stream.
//! Reading and writing belong to the caller.

use vstd::prelude::*;
use crate::cipher::{lemma_keystream_continuity, xor_keystream, SessionCipher};

verus! {

/// Size of the buffer that chunks are read into.
pub const CHUNK_SIZE: usize = 4096;

/// Most bytes of a chunk shown in a diagnostic sample.
pub const SAMPLE_LEN: usize = 32;

pub enum RelayStep {
    /// Write these bytes to the sink.
    Forward(Vec<u8>),
    /// The source is exhausted: the session ends cleanly.
    Finished,
    /// The keystream position would overflow: the session ends with an error.
    Exhausted,
}

/// Relays one session's bytes through its cipher, keeping the whole history
/// of what was read and what was sent.
pub struct StreamRelay {
    cipher: SessionCipher,
    finished: bool,
    consumed: Ghost<Seq<u8>>,
    produced: Ghost<Seq<u8>>,
}

impl StreamRelay {
    pub closed spec fn spec_cipher(&self) -> SessionCipher {
        self.cipher
    }

    /// Every byte read from the source so far, in order.
    pub closed spec fn spec_consumed(&self) -> Seq<u8> {
        self.consumed@
    }

    /// Every byte handed out for the sink so far, in order.
    pub closed spec fn spec_produced(&self) -> Seq<u8> {
        self.produced@
    }

    pub closed spec fn spec_finished(&self) -> bool {
        self.finished
    }

    /// What was sent is the keystream transform, from its first byte, of what
    /// was read.
    pub closed spec fn wf(&self) -> bool {
        &&& self.cipher.wf()
        &&& self.cipher.spec_position() == self.consumed@.len()
        &&& self.produced@ == xor_keystream(
            self.cipher.spec_strength(),
            self.cipher.spec_key(),
            self.cipher.spec_nonce(),
            0,
            self.consumed@,
        )
    }

    pub fn new(cipher: SessionCipher) -> (r: StreamRelay)
        requires
            cipher.wf(),
            cipher.spec_position() == 0,
        ensures
            r.wf(),
            r.spec_cipher() == cipher,
            r.spec_consumed() == Seq::<u8>::empty(),
            r.spec_produced() == Seq::<u8>::empty(),
            !r.spec_finished(),
    {
        let r = StreamRelay {
            cipher,
            finished: false,
            consumed: Ghost(Seq::empty()),
            produced: Ghost(Seq::empty()),
        };
        assert(r.produced@ =~= xor_keystream(
            cipher.spec_strength(),
            cipher.spec_key(),
            cipher.spec_nonce(),
            0,
            Seq::empty(),
        ));
        r
    }

    pub fn is_finished(&self) -> (r: bool)
        ensures
            r == self.spec_finished(),
    {
        self.finished
    }

    /// Takes the bytes of one read. An empty read finishes the relay; any
    /// other is transformed at the current keystream position and forwarded
    /// whole. After `Forward`, all bytes sent so far are the transform of all
    /// bytes read so far.
    pub fn on_read(&mut self, chunk: Vec<u8>) -> (r: RelayStep)
        requires
            old(self).wf(),
            !old(self).spec_finished(),
        ensures
            final(self).wf(),
            final(self).spec_cipher().spec_strength() == old(self).spec_cipher().spec_strength(),
            final(self).spec_cipher().spec_key() == old(self).spec_cipher().spec_key(),
            final(self).spec_cipher().spec_nonce() == old(self).spec_cipher().spec_nonce(),
            chunk@.len() == 0 ==> r is Finished && final(self).spec_finished()
                && final(self).spec_consumed() == old(self).spec_consumed()
                && final(self).spec_produced() == old(self).spec_produced(),
            chunk@.len() > 0 && old(self).spec_consumed().len() + chunk@.len() > u64::MAX
                ==> r is Exhausted && final(self).spec_finished()
                && final(self).spec_consumed() == old(self).spec_consumed()
                && final(self).spec_produced() == old(self).spec_produced(),
            chunk@.len() > 0 && old(self).spec_consumed().len() + chunk@.len() <= u64::MAX ==> {
                &&& !final(self).spec_finished()
                &&& final(self).spec_consumed() == old(self).spec_consumed() + chunk@
                &&& r matches RelayStep::Forward(out) && out@ == xor_keystream(
                    old(self).spec_cipher().spec_strength(),
                    old(self).spec_cipher().spec_key(),
                    old(self).spec_cipher().spec_nonce(),
                    old(self).spec_consumed().len() as int,
                    chunk@,
                ) && final(self).spec_produced() == old(self).spec_produced() + out@
            },
    {
        if chunk.len() == 0 {
            self.finished = true;
            return RelayStep::Finished;
        }
        if chunk.len() as u64 > self.cipher.room() {
            self.finished = true;
            return RelayStep::Exhausted;
        }
        let mut data = chunk;
        self.cipher.transform(&mut data);
        proof {
            lemma_keystream_continuity(
                self.cipher.spec_strength(),
                self.cipher.spec_key(),
                self.cipher.spec_nonce(),
                0,
                self.consumed@,
                chunk@,
            );
            self.consumed = Ghost(self.consumed@ + chunk@);
            self.produced = Ghost(self.produced@ + data@);
        }
        RelayStep::Forward(data)
    }
}

/// The first bytes of a chunk, at most `SAMPLE_LEN` of them.
pub fn sample_prefix(chunk: &[u8]) -> (r: Vec<u8>)
    ensures
        r@ == chunk@.subrange(
            0,
            if chunk@.len() < SAMPLE_LEN {
                chunk@.len() as int
            } else {
                SAMPLE_LEN as int
            },
        ),
{
    let n = if chunk.len() < SAMPLE_LEN {
        chunk.len()
    } else {
        SAMPLE_LEN
    };
    vstd::slice::slice_to_vec(vstd::slice::slice_subrange(chunk, 0, n))
}

/// Lets a diagnostic sample through at most once per interval.
pub struct SampleGate {
    last_ms: u64,
    interval_ms: u64,
}

impl SampleGate {
    pub closed spec fn spec_last_ms(&self) -> u64 {
        self.last_ms
    }

    pub closed spec fn spec_interval_ms(&self) -> u64 {
        self.interval_ms
    }

    /// A gate whose interval starts at `now_ms`.
    pub fn new(now_ms: u64, interval_ms: u64) -> (r: SampleGate)
        ensures
            r.spec_last_ms() == now_ms,
            r.spec_interval_ms() == interval_ms,
    {
        SampleGate { last_ms: now_ms, interval_ms }
    }

    /// Whether a sample may be shown at `now_ms`: a full interval has passed
    /// since the last one. A shown sample starts a new interval.
    pub fn should_sample(&mut self, now_ms: u64) -> (r: bool)
        ensures
            r == (now_ms >= old(self).spec_last_ms() && now_ms - old(self).spec_last_ms()
                >= old(self).spec_interval_ms()),
            final(self).spec_interval_ms() == old(self).spec_interval_ms(),
            final(self).spec_last_ms() == if r {
                now_ms
            } else {
                old(self).spec_last_ms()
            },
    {
        if now_ms >= self.last_ms && now_ms - self.last_ms >= self.interval_ms {
            self.last_ms = now_ms;
            true
        } else {
            false
        }
    }
}

} // verus!
