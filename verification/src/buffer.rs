use vstd::prelude::*;
use vstd::arithmetic::div_mod::lemma_fundamental_div_mod;
use vstd::arithmetic::div_mod::lemma_fundamental_div_mod_converse;
use vstd::arithmetic::div_mod::lemma_mod_division_less_than_divisor;
use vstd::arithmetic::div_mod::lemma_small_mod;
use vstd::arithmetic::mul::lemma_mul_is_distributive_add;
use vstd::arithmetic::mul::lemma_mul_is_distributive_sub;
use vstd::arithmetic::mul::lemma_mul_strictly_positive;
use crate::sample::Sample;
use crate::sums::lemma_seq_sum_bounds;
use crate::sums::lemma_seq_sum_take_step;
use crate::sums::lemma_seq_sum_zero;
use crate::sums::seq_sum;

verus! {

/// Number of samples each axis of the default-sized window retains.
pub const DATA_LENGTH: usize = 32;

/// Largest window capacity the buffer accepts; keeps every per-axis sum
/// (at most capacity times an i32 magnitude) well inside i64's range.
pub const MAX_CAPACITY: usize = 1000000;

/// Per-sample threshold, in raw sensor units: with every axis's window sum
/// strictly below capacity times this value the board counts as falling.
pub const FALL_THRESHOLD: i32 = 200;

/// A sliding window over the most recently inserted acceleration samples:
/// one fixed-length ring per axis, sharing a single write cursor. Slots
/// that have never been written hold zero and take part in the sums, a
/// deliberate warm-up bias towards small-magnitude (falling) sums.
pub struct AccelerationData {
    pub x: Vec<i32>,
    pub y: Vec<i32>,
    pub z: Vec<i32>,
    pub i: usize,
    pub hist: Ghost<Seq<Sample>>,
}

impl AccelerationData {
    /// The window capacity: how many samples are retained per axis.
    pub open spec fn capacity(&self) -> int {
        self.x@.len() as int
    }

    /// Every sample ever inserted, in arrival order.
    pub open spec fn history(&self) -> Seq<Sample> {
        self.hist@
    }

    /// The insertion index whose sample the ring currently keeps in slot
    /// `j`, for a history of length `m`, capacity `n` and cursor `c`;
    /// negative when the slot has never been written.
    pub open spec fn slot_source(m: int, n: int, c: int, j: int) -> int {
        if j < c {
            m - c + j
        } else {
            m - c + j - n
        }
    }

    /// The sample whose axes slot `j` currently stores, or the all-zero
    /// initialisation if the slot has never been written.
    pub open spec fn slot_sample(h: Seq<Sample>, n: int, c: int, j: int) -> Sample {
        let k = Self::slot_source(h.len() as int, n, c, j);
        if 0 <= k {
            h[k]
        } else {
            Sample { x: 0, y: 0, z: 0 }
        }
    }

    /// Well-formedness: the three axis rings share one capacity and one
    /// cursor, the cursor equals the history length modulo the capacity,
    /// and each slot holds the axes of the sample the ring assigns to it.
    pub open spec fn wf(&self) -> bool {
        let n = self.capacity();
        let m = self.history().len() as int;
        let c = self.i as int;
        &&& 1 <= n <= MAX_CAPACITY
        &&& self.y@.len() == n
        &&& self.z@.len() == n
        &&& 0 <= c < n
        &&& m % n == c
        &&& forall|j: int|
            0 <= j < n ==> self.x@[j] == (#[trigger] Self::slot_sample(self.history(), n, c, j)).x
        &&& forall|j: int|
            0 <= j < n ==> self.y@[j] == (#[trigger] Self::slot_sample(self.history(), n, c, j)).y
        &&& forall|j: int|
            0 <= j < n ==> self.z@[j] == (#[trigger] Self::slot_sample(self.history(), n, c, j)).z
    }

    /// The exact arithmetic sum of the stored x-axis slots.
    pub open spec fn sum_x(&self) -> int {
        seq_sum(self.x@)
    }

    /// The exact arithmetic sum of the stored y-axis slots.
    pub open spec fn sum_y(&self) -> int {
        seq_sum(self.y@)
    }

    /// The exact arithmetic sum of the stored z-axis slots.
    pub open spec fn sum_z(&self) -> int {
        seq_sum(self.z@)
    }

    /// Free-fall classification: every axis's window sum lies strictly
    /// within capacity-times-threshold of zero.
    pub open spec fn falling_spec(&self, threshold: int) -> bool {
        let lim = self.capacity() * threshold;
        &&& -lim < self.sum_x() < lim
        &&& -lim < self.sum_y() < lim
        &&& -lim < self.sum_z() < lim
    }

    /// Writes the sample's axes into the cursor slot of the respective
    /// rings — overwriting whatever was written there a full window ago —
    /// then advances the cursor by one, modulo the capacity.
    pub fn add_measurement(&mut self, m: Sample)
        requires
            old(self).wf(),
        ensures
            final(self).wf(),
            final(self).capacity() == old(self).capacity(),
            final(self).history() == old(self).history().push(m),
    {
        let c: usize = self.i;
        let n: usize = self.x.len();
        self.x.set(c, m.x);
        self.y.set(c, m.y);
        self.z.set(c, m.z);
        self.i = if c + 1 == n { 0 } else { c + 1 };
        self.hist = Ghost(self.hist@.push(m));
        proof {
            let ni: int = n as int;
            let mi: int = old(self).hist@.len() as int;
            let ci: int = c as int;
            lemma_fundamental_div_mod(mi, ni);
            if ci + 1 == ni {
                lemma_mul_is_distributive_add(ni, mi / ni, 1);
                lemma_fundamental_div_mod_converse(mi + 1, ni, mi / ni + 1, 0);
            } else {
                lemma_fundamental_div_mod_converse(mi + 1, ni, mi / ni, ci + 1);
            }
            let ci2: int = self.i as int;
            assert forall|j: int| 0 <= j < ni implies {
                &&& self.x@[j] == (#[trigger] Self::slot_sample(self.hist@, ni, ci2, j)).x
                &&& self.y@[j] == Self::slot_sample(self.hist@, ni, ci2, j).y
                &&& self.z@[j] == Self::slot_sample(self.hist@, ni, ci2, j).z
            } by {
                assert(old(self).x@[j] == Self::slot_sample(old(self).hist@, ni, ci, j).x);
                assert(old(self).y@[j] == Self::slot_sample(old(self).hist@, ni, ci, j).y);
                assert(old(self).z@[j] == Self::slot_sample(old(self).hist@, ni, ci, j).z);
            }
        }
    }

    /// Returns the exact arithmetic sum of the stored slots of each axis,
    /// as (x, y, z). The accumulator is widened to i64, which the capacity
    /// bound keeps free of overflow.
    pub fn sum(&self) -> (r: (i64, i64, i64))
        requires
            self.wf(),
        ensures
            r.0 == self.sum_x(),
            r.1 == self.sum_y(),
            r.2 == self.sum_z(),
    {
        let sx: i64 = sum_axis(&self.x);
        let sy: i64 = sum_axis(&self.y);
        let sz: i64 = sum_axis(&self.z);
        (sx, sy, sz)
    }

    /// True iff the window sum of every axis is strictly within
    /// capacity-times-threshold of zero: the average magnitude per stored
    /// sample stays below the threshold on all three axes at once.
    pub fn is_falling(&self, threshold: i32) -> (falling: bool)
        requires
            self.wf(),
        ensures
            falling == self.falling_spec(threshold as int),
    {
        let (sx, sy, sz): (i64, i64, i64) = self.sum();
        let n: i64 = self.x.len() as i64;
        proof {
            assert((n as int) * (threshold as int) <= (MAX_CAPACITY as int) * 0x7fff_ffff
                && -((MAX_CAPACITY as int) * 0x8000_0000) <= (n as int) * (threshold as int))
                by (nonlinear_arith)
                requires
                    1 <= n <= MAX_CAPACITY as int,
                    -0x8000_0000 <= threshold as int <= 0x7fff_ffff,
            ;
        }
        let lim: i64 = n * (threshold as i64);
        -lim < sx && sx < lim && -lim < sy && sy < lim && -lim < sz && sz < lim
    }

    /// One control-loop decision: record the sample, then classify the
    /// updated window against the threshold.
    pub fn step(&mut self, m: Sample, threshold: i32) -> (falling: bool)
        requires
            old(self).wf(),
        ensures
            final(self).wf(),
            final(self).capacity() == old(self).capacity(),
            final(self).history() == old(self).history().push(m),
            falling == final(self).falling_spec(threshold as int),
    {
        self.add_measurement(m);
        self.is_falling(threshold)
    }

    /// Creates an all-zero window of the given capacity, cursor at zero.
    pub fn new(capacity: usize) -> (d: AccelerationData)
        requires
            1 <= capacity <= MAX_CAPACITY,
        ensures
            d.wf(),
            d.capacity() == capacity,
            d.history().len() == 0,
            d.sum_x() == 0,
            d.sum_y() == 0,
            d.sum_z() == 0,
    {
        let d = AccelerationData {
            x: zeroed_axis(capacity),
            y: zeroed_axis(capacity),
            z: zeroed_axis(capacity),
            i: 0,
            hist: Ghost(Seq::empty()),
        };
        proof {
            lemma_small_mod(0, capacity as nat);
            lemma_seq_sum_zero(d.x@);
            lemma_seq_sum_zero(d.y@);
            lemma_seq_sum_zero(d.z@);
        }
        d
    }
}

impl Default for AccelerationData {
    /// An all-zero window of the standard capacity.
    fn default() -> (d: Self)
        ensures
            d.wf(),
            d.capacity() == DATA_LENGTH as int,
            d.history().len() == 0,
            d.sum_x() == 0,
            d.sum_y() == 0,
            d.sum_z() == 0,
    {
        AccelerationData::new(DATA_LENGTH)
    }
}

/// Sliding-window law: after any number M of insertions, the rings hold
/// exactly the last min(M, N) inserted samples — the sample of insertion
/// index k sits at slot k mod N — and, while M < N, every slot that has
/// not yet been written still holds its zero initialisation.
pub proof fn lemma_window_contents(d: AccelerationData)
    requires
        d.wf(),
    ensures
        forall|k: int|
            0 <= k < d.history().len() && d.history().len() - d.capacity() <= k ==> {
                &&& d.x@[k % d.capacity()] == (#[trigger] d.history()[k]).x
                &&& d.y@[k % d.capacity()] == d.history()[k].y
                &&& d.z@[k % d.capacity()] == d.history()[k].z
            },
        d.history().len() < d.capacity() ==> forall|j: int|
            d.history().len() <= j < d.capacity() ==> {
                &&& #[trigger] d.x@[j] == 0
                &&& d.y@[j] == 0
                &&& d.z@[j] == 0
            },
{
    let n: int = d.capacity();
    let m: int = d.history().len() as int;
    let c: int = d.i as int;
    lemma_fundamental_div_mod(m, n);
    assert forall|k: int| 0 <= k < m && m - n <= k implies {
        &&& d.x@[k % n] == (#[trigger] d.history()[k]).x
        &&& d.y@[k % n] == d.history()[k].y
        &&& d.z@[k % n] == d.history()[k].z
    } by {
        lemma_mod_division_less_than_divisor(k, n);
        lemma_fundamental_div_mod(k, n);
        let j: int = k % n;
        let s: int = AccelerationData::slot_source(m, n, c, j);
        let qs: int = if j < c { m / n } else { m / n - 1 };
        let qk: int = k / n;
        lemma_mul_is_distributive_sub(n, m / n, 1);
        assert(s == n * qs + j);
        lemma_mul_is_distributive_sub(n, qs, qk);
        assert(n * (qs - qk) == s - k);
        assert(-n < s - k < n);
        assert(qs == qk) by (nonlinear_arith)
            requires
                n >= 1,
                -n < n * (qs - qk) < n,
        ;
        assert(d.x@[j] == AccelerationData::slot_sample(d.history(), n, c, j).x);
        assert(d.y@[j] == AccelerationData::slot_sample(d.history(), n, c, j).y);
        assert(d.z@[j] == AccelerationData::slot_sample(d.history(), n, c, j).z);
    }
    if m < n {
        lemma_small_mod(m as nat, n as nat);
        assert forall|j: int| m <= j < n implies {
            &&& #[trigger] d.x@[j] == 0
            &&& d.y@[j] == 0
            &&& d.z@[j] == 0
        } by {
            assert(d.x@[j] == AccelerationData::slot_sample(d.history(), n, c, j).x);
            assert(d.y@[j] == AccelerationData::slot_sample(d.history(), n, c, j).y);
            assert(d.z@[j] == AccelerationData::slot_sample(d.history(), n, c, j).z);
        }
    }
}

/// Ring-overwrite law: once at least N samples have been inserted, every
/// stored slot holds the axes of one of the N most recent samples — any
/// older sample no longer contributes to the window.
pub proof fn lemma_ring_overwrite(d: AccelerationData)
    requires
        d.wf(),
        d.history().len() >= d.capacity(),
    ensures
        forall|j: int|
            #![trigger d.x@[j]]
            #![trigger d.y@[j]]
            #![trigger d.z@[j]]
            0 <= j < d.capacity() ==> {
                let k = AccelerationData::slot_source(
                    d.history().len() as int,
                    d.capacity(),
                    d.i as int,
                    j,
                );
                &&& d.history().len() - d.capacity() <= k < d.history().len()
                &&& d.x@[j] == d.history()[k].x
                &&& d.y@[j] == d.history()[k].y
                &&& d.z@[j] == d.history()[k].z
            },
{
    let n: int = d.capacity();
    let m: int = d.history().len() as int;
    let c: int = d.i as int;
    assert forall|j: int|
        #![trigger d.x@[j]]
        #![trigger d.y@[j]]
        #![trigger d.z@[j]]
        0 <= j < n implies {
        let k = AccelerationData::slot_source(m, n, c, j);
        &&& m - n <= k < m
        &&& d.x@[j] == d.history()[k].x
        &&& d.y@[j] == d.history()[k].y
        &&& d.z@[j] == d.history()[k].z
    } by {
        assert(d.x@[j] == AccelerationData::slot_sample(d.history(), n, c, j).x);
        assert(d.y@[j] == AccelerationData::slot_sample(d.history(), n, c, j).y);
        assert(d.z@[j] == AccelerationData::slot_sample(d.history(), n, c, j).z);
    }
}

/// Startup law: before any sample has been inserted every slot is zero, so
/// each axis sums to zero and any positive threshold classifies the board
/// as falling — the deliberate warm-up bias.
pub proof fn lemma_startup_is_falling(d: AccelerationData, threshold: int)
    requires
        d.wf(),
        d.history().len() == 0,
        1 <= threshold,
    ensures
        d.sum_x() == 0,
        d.sum_y() == 0,
        d.sum_z() == 0,
        d.falling_spec(threshold),
{
    let n: int = d.capacity();
    let c: int = d.i as int;
    lemma_small_mod(0, n as nat);
    assert forall|j: int|
        #![trigger d.x@[j]]
        #![trigger d.y@[j]]
        #![trigger d.z@[j]]
        0 <= j < n implies {
        &&& d.x@[j] == 0
        &&& d.y@[j] == 0
        &&& d.z@[j] == 0
    } by {
        assert(d.x@[j] == AccelerationData::slot_sample(d.history(), n, c, j).x);
        assert(d.y@[j] == AccelerationData::slot_sample(d.history(), n, c, j).y);
        assert(d.z@[j] == AccelerationData::slot_sample(d.history(), n, c, j).z);
    }
    lemma_seq_sum_zero(d.x@);
    lemma_seq_sum_zero(d.y@);
    lemma_seq_sum_zero(d.z@);
    lemma_mul_strictly_positive(n, threshold);
}

/// Sums one axis ring into a widened accumulator; the capacity bound keeps
/// every partial sum inside i64's range.
fn sum_axis(v: &Vec<i32>) -> (s: i64)
    requires
        v@.len() <= MAX_CAPACITY,
    ensures
        s == seq_sum(v@),
{
    let mut s: i64 = 0;
    let mut k: usize = 0;
    proof {
        assert(v@.take(0) =~= Seq::<i32>::empty());
    }
    while k < v.len()
        invariant
            k <= v@.len(),
            v@.len() <= MAX_CAPACITY,
            s == seq_sum(v@.take(k as int)),
        decreases v@.len() - k,
    {
        proof {
            lemma_seq_sum_bounds(v@.take(k as int));
            lemma_seq_sum_take_step(v@, k as int);
        }
        s = s + (v[k] as i64);
        k = k + 1;
    }
    proof {
        assert(v@.take(v@.len() as int) =~= v@);
    }
    s
}

/// One axis ring of the requested length, entirely zero-initialised.
fn zeroed_axis(n: usize) -> (v: Vec<i32>)
    ensures
        v@.len() == n,
        forall|j: int| 0 <= j < n ==> v@[j] == 0i32,
{
    let mut v: Vec<i32> = Vec::new();
    let mut k: usize = 0;
    while k < n
        invariant
            k <= n,
            v@.len() == k,
            forall|j: int| 0 <= j < k ==> v@[j] == 0i32,
        decreases n - k,
    {
        v.push(0);
        k = k + 1;
    }
    v
}

} // verus!
