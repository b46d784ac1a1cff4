use vstd::prelude::*;

use crate::clock::{since, tokio_elapsed_ns, NS_PER_MS};

verus! {

/// Quiet time after the last byte after which the output counts as settled.
pub const DEBOUNCE_MS: u64 = 16;

/// The same quiet time in nanoseconds.
pub const DEBOUNCE_NS: u64 = DEBOUNCE_MS * NS_PER_MS;

/// A run of bytes without a newline longer than this forces a frame.
pub const MAX_BYTES_WITHOUT_NEWLINE: usize = 4096;

/// Number of bytes after the last newline of `data`, counting from `start`
/// when `data` holds no newline.
pub open spec fn trailing_count(start: nat, data: Seq<u8>) -> nat
    decreases data.len(),
{
    if data.len() == 0 {
        start
    } else if data.last() == 10u8 {
        0
    } else {
        trailing_count(start, data.drop_last()) + 1
    }
}

/// The byte counter as a machine word holds it: saturated at `usize::MAX`.
pub open spec fn capped(n: nat) -> nat {
    if n > usize::MAX { usize::MAX as nat } else { n }
}

/// Whether a frame is due, `elapsed_ns` nanoseconds after the last byte,
/// with `pending` bytes seen since the last newline.
pub open spec fn frame_due(elapsed_ns: int, pending: nat) -> bool {
    elapsed_ns >= DEBOUNCE_NS || pending > MAX_BYTES_WITHOUT_NEWLINE
}

/// Decides when the output stream has settled into a frame worth evaluating.
/// Times are nanoseconds since the detector's `clock` started.
pub struct FrameDetector {
    clock: tokio::time::Instant,
    last_data_ns: u64,
    bytes_since_newline: usize,
}

impl Default for FrameDetector {
    fn default() -> (r: Self)
        ensures
            r.last_data() == 0,
            r.pending() == 0,
    {
        FrameDetector::new()
    }
}

impl FrameDetector {
    pub closed spec fn last_data(&self) -> u64 {
        self.last_data_ns
    }

    pub closed spec fn pending(&self) -> nat {
        self.bytes_since_newline as nat
    }

    /// A detector whose clock starts now, with no byte seen yet.
    pub fn new() -> (r: Self)
        ensures
            r.last_data() == 0,
            r.pending() == 0,
    {
        FrameDetector { clock: tokio::time::Instant::now(), last_data_ns: 0, bytes_since_newline: 0 }
    }

    /// Nanoseconds since the detector was made.
    pub fn now_ns(&self) -> u64 {
        tokio_elapsed_ns(&self.clock)
    }

    /// Records that `data` arrived at `now_ns`.
    pub fn on_data_at(&mut self, data: &[u8], now_ns: u64)
        ensures
            final(self).last_data() == now_ns,
            final(self).pending() == capped(trailing_count(old(self).pending(), data@)),
    {
        self.last_data_ns = now_ns;
        let mut i: usize = 0;
        while i < data.len()
            invariant
                0 <= i <= data@.len(),
                self.last_data_ns == now_ns,
                self.bytes_since_newline as nat == capped(
                    trailing_count(old(self).pending(), data@.subrange(0, i as int)),
                ),
            decreases data@.len() - i,
        {
            proof {
                assert(data@.subrange(0, i + 1).drop_last() =~= data@.subrange(0, i as int));
            }
            if data[i] == 10u8 {
                self.bytes_since_newline = 0;
            } else if self.bytes_since_newline < usize::MAX {
                self.bytes_since_newline = self.bytes_since_newline + 1;
            }
            i = i + 1;
        }
        proof {
            assert(data@.subrange(0, data@.len() as int) =~= data@);
        }
    }

    /// Records that `data` arrived now.
    pub fn on_data(&mut self, data: &[u8])
        ensures
            final(self).pending() == capped(trailing_count(old(self).pending(), data@)),
    {
        let now = self.now_ns();
        self.on_data_at(data, now);
    }

    /// Whether a frame is due at `now_ns`. A clock reading before the last
    /// byte counts as no time elapsed.
    pub fn should_capture_frame_at(&self, now_ns: u64) -> (r: bool)
        ensures
            r == frame_due(since(self.last_data(), now_ns), self.pending()),
    {
        let elapsed: u64 = if now_ns >= self.last_data_ns { now_ns - self.last_data_ns } else { 0 };
        elapsed >= DEBOUNCE_NS || self.bytes_since_newline > MAX_BYTES_WITHOUT_NEWLINE
    }

    /// Whether a frame is due now. A run of more than
    /// `MAX_BYTES_WITHOUT_NEWLINE` bytes without a newline makes it due
    /// whatever the clock says.
    pub fn should_capture_frame(&self) -> (r: bool)
        ensures
            exists|now: u64| r == #[trigger] frame_due(since(self.last_data(), now), self.pending()),
            self.pending() > MAX_BYTES_WITHOUT_NEWLINE ==> r,
    {
        let now = self.now_ns();
        self.should_capture_frame_at(now)
    }

    /// Clears the count of bytes since the last newline; the time of the
    /// last byte stays.
    pub fn reset(&mut self)
        ensures
            final(self).pending() == 0,
            final(self).last_data() == old(self).last_data(),
    {
        self.bytes_since_newline = 0;
    }
}

/// Over bytes without a newline the counter grows by one per byte.
pub proof fn lemma_count_without_newline(start: nat, data: Seq<u8>)
    requires
        forall|i: int| 0 <= i < data.len() ==> data[i] != 10u8,
    ensures
        trailing_count(start, data) == start + data.len(),
    decreases data.len(),
{
    if data.len() > 0 {
        lemma_count_without_newline(start, data.drop_last());
    }
}

/// Debounce: after `data` arrives at `last` on a counter at `start`, no
/// frame is due while less than `DEBOUNCE_NS` has passed and at most
/// `MAX_BYTES_WITHOUT_NEWLINE` bytes follow the last newline; a frame is due
/// once `DEBOUNCE_NS` has passed; and a run of more than
/// `MAX_BYTES_WITHOUT_NEWLINE` bytes without a newline makes one due at once.
pub proof fn lemma_debounce(start: nat, data: Seq<u8>, last: u64, now: u64)
    ensures
        ({
            let p = capped(trailing_count(start, data));
            &&& p <= MAX_BYTES_WITHOUT_NEWLINE && since(last, now) < DEBOUNCE_NS ==> !frame_due(
                since(last, now),
                p,
            )
            &&& since(last, now) >= DEBOUNCE_NS ==> frame_due(since(last, now), p)
            &&& (forall|i: int| 0 <= i < data.len() ==> data[i] != 10u8) && start + data.len()
                > MAX_BYTES_WITHOUT_NEWLINE ==> frame_due(since(last, last), p)
        }),
{
    if forall|i: int| 0 <= i < data.len() ==> data[i] != 10u8 {
        lemma_count_without_newline(start, data);
    }
}

} // verus!
