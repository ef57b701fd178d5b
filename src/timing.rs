use vstd::prelude::*;

verus! {

/// One whole guest frame in accumulator units. A rate in millihertz times a
/// period in nanoseconds is a number of frames in these units.
pub const FRAME_UNITS: u128 = 1_000_000_000_000;
pub const NANOS_PER_SECOND: u64 = 1_000_000_000;
/// Millihertz times nanoseconds per second.
pub const MILLIHERTZ_NANOS: u64 = 1_000_000_000_000;
/// Highest guest rate accepted: 1 MHz.
pub const MAX_GUEST_MILLIHERTZ: u64 = 1_000_000_000;
/// Host periods at or below one over this rate are measurement glitches.
pub const FASTEST_PLAUSIBLE_HOST_HZ: u64 = 240;
/// Host periods at or above one over this rate are stalls.
pub const SLOWEST_PLAUSIBLE_HOST_HZ: u64 = 20;
/// How close to a deadline the pacer stops sleeping and spins.
pub const SPIN_MARGIN_NANOS: u64 = 1_000_000;

/// Abstract state of the rate crossover.
pub struct CrossoverModel {
    pub guest_millihertz: nat,
    pub host_period_nanos: nat,
    /// Guest frames per host tick, in `FRAME_UNITS`.
    pub guest_per_host: nat,
    /// Fraction of a guest frame carried over, in `FRAME_UNITS`.
    pub accumulator: nat,
}

/// A host period of `1 / host_hz`, rounded to the nearest nanosecond.
pub open spec fn period_for_rate(host_millihertz: nat) -> nat {
    ((MILLIHERTZ_NANOS as int + host_millihertz as int / 2) / host_millihertz as int) as nat
}

/// Whether a measured host period is believable: strictly between 1/240 s and 1/20 s.
pub open spec fn plausible_host_period(dt_nanos: nat) -> bool {
    dt_nanos * FASTEST_PLAUSIBLE_HOST_HZ > NANOS_PER_SECOND && dt_nanos * SLOWEST_PLAUSIBLE_HOST_HZ
        < NANOS_PER_SECOND
}

/// The smoothed period: nine tenths of the old one and one tenth of the
/// sample, rounded to the nearest nanosecond.
pub open spec fn smoothed_period(period: nat, dt_nanos: nat) -> nat {
    ((period * 9 + dt_nanos + 5) / 10) as nat
}

impl CrossoverModel {
    pub open spec fn wf(self) -> bool {
        &&& 0 < self.guest_millihertz <= MAX_GUEST_MILLIHERTZ
        &&& self.host_period_nanos <= MILLIHERTZ_NANOS
        &&& self.guest_per_host == self.guest_millihertz * self.host_period_nanos
        &&& self.accumulator <= FRAME_UNITS
    }

    /// The state after one host tick, and the guest steps it yields.
    pub open spec fn tick(self) -> (CrossoverModel, nat) {
        let total = self.accumulator as int + self.guest_per_host as int;
        (
            CrossoverModel { accumulator: (total % FRAME_UNITS as int) as nat, ..self },
            (total / FRAME_UNITS as int) as nat,
        )
    }

    /// The state after `n` host ticks.
    pub open spec fn after_ticks(self, n: nat) -> CrossoverModel
        decreases n,
    {
        if n == 0 {
            self
        } else {
            self.after_ticks((n - 1) as nat).tick().0
        }
    }

    /// The guest steps yielded by `n` host ticks.
    pub open spec fn steps_in_ticks(self, n: nat) -> nat
        decreases n,
    {
        if n == 0 {
            0
        } else {
            self.steps_in_ticks((n - 1) as nat) + self.after_ticks((n - 1) as nat).tick().1
        }
    }
}

/// The accumulator loses nothing: over `n` ticks the steps handed out plus
/// the carried fraction equal the starting carry plus `n` times the rate
/// ratio, and after any tick the carry is below one frame. So the total never
/// drifts from `n * guest_per_host` by a whole frame beyond the initial carry.
pub proof fn lemma_ticks_conserve_frames(m: CrossoverModel, n: nat)
    requires
        m.wf(),
    ensures
        m.after_ticks(n).wf(),
        m.after_ticks(n) == (CrossoverModel { accumulator: m.after_ticks(n).accumulator, ..m }),
        m.steps_in_ticks(n) * FRAME_UNITS + m.after_ticks(n).accumulator == m.accumulator + n
            * m.guest_per_host,
        n > 0 ==> m.after_ticks(n).accumulator < FRAME_UNITS,
    decreases n,
{
    if n > 0 {
        let k = (n - 1) as nat;
        lemma_ticks_conserve_frames(m, k);
        let before = m.after_ticks(k);
        let total = before.accumulator as int + before.guest_per_host as int;
        assert(total == (total / FRAME_UNITS as int) * FRAME_UNITS as int + total % FRAME_UNITS as int);
        let t = total / FRAME_UNITS as int;
        let sk = m.steps_in_ticks(k) as int;
        assert((sk + t) * FRAME_UNITS as int == sk * FRAME_UNITS as int + t * FRAME_UNITS as int)
            by (nonlinear_arith);
        assert(m.accumulator + n * m.guest_per_host == m.accumulator + k * m.guest_per_host
            + m.guest_per_host) by (nonlinear_arith)
            requires
                n == k + 1,
        ;
    }
}

/// Turns host ticks into whole guest steps at the ratio of the two rates.
pub struct CrossoverSync {
    guest_millihertz: u64,
    host_period_nanos: u64,
    guest_per_host: u128,
    accumulator: u128,
}

impl View for CrossoverSync {
    type V = CrossoverModel;

    closed spec fn view(&self) -> CrossoverModel {
        CrossoverModel {
            guest_millihertz: self.guest_millihertz as nat,
            host_period_nanos: self.host_period_nanos as nat,
            guest_per_host: self.guest_per_host as nat,
            accumulator: self.accumulator as nat,
        }
    }
}

impl CrossoverSync {
    /// A crossover from a guest at `guest_millihertz` to a host at
    /// `host_millihertz`. The carry starts at one whole frame, so the first
    /// tick always yields a step.
    pub fn new(guest_millihertz: u64, host_millihertz: u64) -> (r: CrossoverSync)
        requires
            0 < guest_millihertz <= MAX_GUEST_MILLIHERTZ,
            0 < host_millihertz,
        ensures
            r@.wf(),
            r@.guest_millihertz == guest_millihertz,
            r@.host_period_nanos == period_for_rate(host_millihertz as nat),
            r@.accumulator == FRAME_UNITS,
    {
        let host_period_nanos = (MILLIHERTZ_NANOS + host_millihertz / 2) / host_millihertz;
        assert(host_period_nanos <= MILLIHERTZ_NANOS) by (nonlinear_arith)
            requires
                host_period_nanos as int == (MILLIHERTZ_NANOS as int + host_millihertz as int / 2)
                    / host_millihertz as int,
                host_millihertz >= 1,
        ;
        assert(guest_millihertz as u128 * host_period_nanos as u128 <= 1_000_000_000_000_000_000_000)
            by (nonlinear_arith)
            requires
                guest_millihertz <= MAX_GUEST_MILLIHERTZ,
                host_period_nanos <= MILLIHERTZ_NANOS,
        ;
        CrossoverSync {
            guest_millihertz,
            host_period_nanos,
            guest_per_host: guest_millihertz as u128 * host_period_nanos as u128,
            accumulator: FRAME_UNITS,
        }
    }

    /// Adds one host tick's worth of guest frames to the carry and hands out
    /// its whole part.
    pub fn on_host_tick(&mut self) -> (r: usize)
        requires
            old(self)@.wf(),
        ensures
            final(self)@ == old(self)@.tick().0,
            r == old(self)@.tick().1,
            final(self)@.wf(),
            final(self)@.accumulator < FRAME_UNITS,
    {
        proof {
            let m = self@;
            assert(m.guest_per_host <= 1_000_000_000_000_000_000_000) by (nonlinear_arith)
                requires
                    m.guest_per_host == m.guest_millihertz * m.host_period_nanos,
                    m.guest_millihertz <= MAX_GUEST_MILLIHERTZ,
                    m.host_period_nanos <= MILLIHERTZ_NANOS,
            ;
        }
        let total = self.accumulator + self.guest_per_host;
        let steps = total / FRAME_UNITS;
        self.accumulator = total % FRAME_UNITS;
        steps as usize
    }

    /// Folds a measured host period into the estimate, ignoring samples at
    /// or below 1/240 s and at or above 1/20 s.
    pub fn update_host_period_from_measurement(&mut self, dt_nanos: u64)
        requires
            old(self)@.wf(),
        ensures
            final(self)@.wf(),
            !plausible_host_period(dt_nanos as nat) ==> final(self)@ == old(self)@,
            plausible_host_period(dt_nanos as nat) ==> final(self)@ == (CrossoverModel {
                host_period_nanos: smoothed_period(old(self)@.host_period_nanos, dt_nanos as nat),
                guest_per_host: old(self)@.guest_millihertz * smoothed_period(
                    old(self)@.host_period_nanos,
                    dt_nanos as nat,
                ),
                ..old(self)@
            }),
    {
        if dt_nanos <= NANOS_PER_SECOND / FASTEST_PLAUSIBLE_HOST_HZ || dt_nanos
            >= NANOS_PER_SECOND / SLOWEST_PLAUSIBLE_HOST_HZ {
            return;
        }
        let period = (self.host_period_nanos as u128 * 9 + dt_nanos as u128 + 5) / 10;
        assert(period <= MILLIHERTZ_NANOS);
        self.host_period_nanos = period as u64;
        assert(self.guest_millihertz as u128 * period <= 1_000_000_000_000_000_000_000)
            by (nonlinear_arith)
            requires
                self.guest_millihertz <= MAX_GUEST_MILLIHERTZ,
                period <= MILLIHERTZ_NANOS,
        ;
        self.guest_per_host = self.guest_millihertz as u128 * period;
    }

    /// The current host period estimate, in nanoseconds.
    pub fn host_period(&self) -> (r: u64)
        ensures
            r == self@.host_period_nanos,
    {
        self.host_period_nanos
    }
}

/// The next deadline: one period after the last one, whether or not it was met.
pub fn advance_deadline(deadline: u64, period: u64) -> (r: u64)
    requires
        deadline + period <= u64::MAX,
    ensures
        r == deadline + period,
{
    deadline + period
}

/// How long to sleep at `now` before spinning up to `deadline`: until one
/// spin margin before it, or not at all when that point has passed.
pub fn sleep_before_spin(now: u64, deadline: u64) -> (r: Option<u64>)
    ensures
        now + SPIN_MARGIN_NANOS < deadline ==> r == Some((deadline - now - SPIN_MARGIN_NANOS) as u64),
        now + SPIN_MARGIN_NANOS >= deadline ==> r is None,
{
    if deadline > now && deadline - now > SPIN_MARGIN_NANOS {
        Some(deadline - now - SPIN_MARGIN_NANOS)
    } else {
        None
    }
}

/// The deadline to keep after waking at `now`: after a stall of more than
/// two periods past it, pacing restarts from `now` rather than catching up.
pub fn settle_deadline(deadline: u64, now: u64, period: u64) -> (r: u64)
    ensures
        now > deadline + 2 * period ==> r == now,
        now <= deadline + 2 * period ==> r == deadline,
{
    if now > deadline && (now - deadline) as u128 > 2 * (period as u128) {
        now
    } else {
        deadline
    }
}

} // verus!
