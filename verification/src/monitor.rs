//! The memory gauge: a byte counter that the copy engine feeds and that is
//! compared against a threshold at intervals. It never holds the engine up.

use vstd::prelude::*;

verus! {

/// The number of bytes in a mebibyte.
pub const MEBIBYTE: usize = 1048576;

/// `x` brought back into the range of the counter by one turn of
/// wrap-around, as machine addition and subtraction do.
pub open spec fn wrapped(x: int) -> int {
    if x < 0 {
        x + usize::MAX + 1
    } else if x > usize::MAX {
        x - usize::MAX - 1
    } else {
        x
    }
}

/// A counter of buffered bytes with the interval at which it is looked at
/// and the threshold above which a warning is due.
#[derive(Clone, Copy, Debug, PartialEq, Eq)]
pub struct MemoryMonitor {
    usage: usize,
    interval_secs: u64,
    threshold_mb: usize,
}

impl MemoryMonitor {
    /// The bytes counted.
    pub closed spec fn usage(&self) -> nat {
        self.usage as nat
    }

    /// The seconds between two looks at the counter.
    pub closed spec fn interval(&self) -> nat {
        self.interval_secs as nat
    }

    /// The threshold in mebibytes.
    pub closed spec fn threshold(&self) -> nat {
        self.threshold_mb as nat
    }

    /// Whether the counter stands above the threshold.
    pub open spec fn exceeded(&self) -> bool {
        self.usage() > self.threshold() * MEBIBYTE
    }

    /// A gauge that has counted nothing.
    pub fn new(interval_secs: u64, threshold_mb: usize) -> (m: MemoryMonitor)
        ensures
            m.usage() == 0,
            m.interval() == interval_secs,
            m.threshold() == threshold_mb,
    {
        MemoryMonitor { usage: 0, interval_secs, threshold_mb }
    }

    /// The bytes counted.
    pub fn get_usage(&self) -> (bytes: usize)
        ensures
            bytes == self.usage(),
    {
        self.usage
    }

    /// The seconds between two looks at the counter.
    pub fn interval_secs(&self) -> (secs: u64)
        ensures
            secs == self.interval(),
    {
        self.interval_secs
    }

    /// The threshold in mebibytes.
    pub fn threshold_mb(&self) -> (mb: usize)
        ensures
            mb == self.threshold(),
    {
        self.threshold_mb
    }

    /// Adds a signed number of bytes to the counter, wrapping around at
    /// either end of its range.
    pub fn update_usage(&mut self, delta: isize)
        ensures
            final(self).usage() == wrapped(old(self).usage() + delta),
            final(self).interval() == old(self).interval(),
            final(self).threshold() == old(self).threshold(),
    {
        if delta >= 0 {
            let d = delta as usize;
            if d <= usize::MAX - self.usage {
                self.usage = self.usage + d;
            } else {
                self.usage = self.usage - (usize::MAX - d) - 1;
            }
        } else {
            let m = (-(delta + 1)) as usize + 1;
            if m <= self.usage {
                self.usage = self.usage - m;
            } else {
                self.usage = usize::MAX - (m - self.usage - 1);
            }
        }
    }

    /// What a look at the counter finds: where it stands above the
    /// threshold, the usage and the threshold in whole mebibytes.
    pub fn warning(&self) -> (w: Option<(usize, usize)>)
        ensures
            w is Some <==> self.exceeded(),
            w is Some ==> w->Some_0 == (
                (self.usage() / (MEBIBYTE as nat)) as usize,
                self.threshold() as usize,
            ),
    {
        let over = match self.threshold_mb.checked_mul(MEBIBYTE) {
            Some(limit) => self.usage > limit,
            None => false,
        };
        if over {
            Some((self.usage / MEBIBYTE, self.threshold_mb))
        } else {
            None
        }
    }
}

/// Taking bytes off the counter after adding them leaves it where it was.
pub proof fn lemma_release_restores(usage: int, bytes: int)
    requires
        0 <= usage <= usize::MAX,
        0 <= bytes <= isize::MAX,
    ensures
        wrapped(wrapped(usage + bytes) - bytes) == usage,
{
}

} // verus!
