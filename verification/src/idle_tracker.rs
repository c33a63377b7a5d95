//! Idle tracking of a LED device.

use std::time::{Duration, Instant};
use vstd::prelude::*;

verus! {

/// `std::time::Instant`, carried as an opaque value: the tracker keeps the
/// instant at which it was created and measures all times from it.
#[verifier::external_type_specification]
#[verifier::external_body]
pub struct ExInstant(std::time::Instant);

/// Calls `Instant::now`. Nothing is claimed of the instant it returns: it
/// depends on the machine's clock.
#[verifier::external_body]
fn instant_now() -> Instant {
    Instant::now()
}

/// Calls `Instant::elapsed`. Nothing is claimed of the duration it returns: it
/// depends on the machine's clock.
#[verifier::external_body]
fn instant_elapsed(instant: &Instant) -> Duration {
    instant.elapsed()
}

/// Calls `Duration::as_nanos`. A `Duration` is opaque here, so nothing is
/// claimed of the number of nanoseconds it returns.
#[verifier::external_body]
fn duration_as_nanos(duration: &Duration) -> u128 {
    duration.as_nanos()
}

/// Current state of the tracked device.
#[derive(Clone, Copy, Debug, PartialEq, Eq, Structural)]
pub enum IdleState {
    /// The device is actively being updated.
    Active,
    /// The device is idle and turned off.
    IdleBlack,
    /// The device is idle but with a solid color.
    IdleColor { update_required: bool },
}

impl IdleState {
    /// The state requires writing to the target device.
    pub open spec fn spec_should_write(self) -> bool {
        match self {
            IdleState::Active => true,
            IdleState::IdleColor { update_required } => update_required,
            IdleState::IdleBlack => false,
        }
    }

    /// The two states are different variants.
    pub open spec fn spec_has_changed(self, other: IdleState) -> bool {
        match (self, other) {
            (IdleState::Active, IdleState::Active) => false,
            (IdleState::IdleBlack, IdleState::IdleBlack) => false,
            (IdleState::IdleColor { .. }, IdleState::IdleColor { .. }) => false,
            _ => true,
        }
    }

    /// The text of the state.
    pub open spec fn spec_label(self) -> Seq<char> {
        match self {
            IdleState::Active => "active"@,
            IdleState::IdleColor { .. } => "idle (active)"@,
            IdleState::IdleBlack => "idle (inactive)"@,
        }
    }

    /// Returns the text of the state: "active", "idle (active)" for an idle
    /// device showing a color, "idle (inactive)" for an idle black device.
    pub fn to_string(&self) -> (s: String)
        ensures
            s@ == self.spec_label(),
    {
        match self {
            IdleState::Active => String::from_str("active"),
            IdleState::IdleColor { .. } => String::from_str("idle (active)"),
            IdleState::IdleBlack => String::from_str("idle (inactive)"),
        }
    }

    /// Returns true if the state requires updating the target device.
    pub fn should_write(&self) -> (r: bool)
        ensures
            r == self.spec_should_write(),
    {
        match self {
            IdleState::Active | IdleState::IdleColor { update_required: true } => true,
            _ => false,
        }
    }

    /// Returns true if the two states are different variants.
    pub fn has_changed(&self, other: &IdleState) -> (r: bool)
        ensures
            r == self.spec_has_changed(*other),
    {
        match self {
            IdleState::Active => match other {
                IdleState::Active => false,
                _ => true,
            },
            IdleState::IdleBlack => match other {
                IdleState::IdleBlack => false,
                _ => true,
            },
            IdleState::IdleColor { .. } => match other {
                IdleState::IdleColor { .. } => false,
                _ => true,
            },
        }
    }
}

/// Settings for the idle modes of a device.
#[derive(Clone, Copy, Debug, PartialEq, Eq, Structural)]
pub struct IdleSettings {
    /// Idle modes are enabled.
    pub enabled: bool,
    /// Delay without significant change after which the device is considered
    /// idle, in nanoseconds.
    pub delay_ns: u64,
    /// The device holds its colors without periodic updates.
    pub holds: bool,
    /// Number of passes for which a oneshot update is repeated.
    pub retries: u32,
    /// Resolution, in bits, below which a color change is not significant.
    pub resolution: u32,
}

/// The state of an idle tracker, as plain values. Times are nanoseconds
/// elapsed since the tracker was created.
pub ghost struct TrackerView {
    pub settings: IdleSettings,
    /// Number of LEDs with a non-zero color in the current pass.
    pub nonzero_color_count: nat,
    /// Time of the last significant change in any LED value.
    pub last_change: int,
    /// Number of passes to apply the oneshot notification for.
    pub oneshot_pass: int,
    /// Switching back to idle after a oneshot change.
    pub oneshot_pending: bool,
    /// Time of the last update of the target device.
    pub last_update: int,
    /// An update pass is running.
    pub pass_started: bool,
    /// Current state of the tracker.
    pub current_state: IdleState,
    /// The latest clock reading taken by the tracker.
    pub last_reading: int,
}

/// `v`, with `t` as the latest clock reading.
pub open spec fn with_reading(v: TrackerView, t: int) -> TrackerView {
    TrackerView { last_reading: t, ..v }
}

/// `a - b`, or zero where `b` is later than `a`: the distance between two
/// instants as `Instant`'s subtraction measures it.
pub open spec fn elapsed_between(a: int, b: int) -> int {
    if a >= b {
        a - b
    } else {
        0
    }
}

/// `nanos` as a `u64`, or `u64::MAX` where it does not fit.
fn saturate_nanos(nanos: u128) -> (r: u64)
    ensures
        r == if nanos > u64::MAX {
            u64::MAX as int
        } else {
            nanos as int
        },
{
    if nanos > u64::MAX as u128 {
        u64::MAX
    } else {
        nanos as u64
    }
}

/// The state of a tracker created with `settings`.
pub open spec fn initial_view(settings: IdleSettings) -> TrackerView {
    TrackerView {
        settings,
        nonzero_color_count: 0,
        last_change: 0,
        oneshot_pass: settings.retries as int,
        oneshot_pending: false,
        last_update: 0,
        pass_started: false,
        current_state: IdleState::Active,
        last_reading: 0,
    }
}

/// The state after a pass starts.
pub open spec fn view_after_start(v: TrackerView) -> TrackerView {
    TrackerView { nonzero_color_count: 0, pass_started: true, ..v }
}

/// The state after a LED update, `nonzero` telling whether the new color of
/// the LED is not black.
pub open spec fn view_after_color(v: TrackerView, nonzero: bool) -> TrackerView {
    TrackerView {
        nonzero_color_count: if nonzero {
            v.nonzero_color_count + 1
        } else {
            v.nonzero_color_count
        },
        ..v
    }
}

/// The state after a pass ends at time `now`, `changed` telling whether the
/// colors changed significantly during the pass. A oneshot pass is followed
/// by `retries` repeated updates before the device may idle; any other pass
/// drops the retries and the pending switch to idle, so that the device waits
/// for the delay to expire.
pub open spec fn view_after_end(v: TrackerView, oneshot: bool, changed: bool, now: int) -> TrackerView {
    let pass = if oneshot {
        v.settings.retries as int
    } else {
        0
    };
    TrackerView {
        last_change: if changed {
            now
        } else {
            v.last_change
        },
        oneshot_pass: pass,
        oneshot_pending: v.oneshot_pending && pass > 0,
        pass_started: false,
        ..v
    }
}

/// The idle delay has expired at time `now`.
pub open spec fn delay_expired(v: TrackerView, now: int) -> bool {
    elapsed_between(now, v.last_change) > v.settings.delay_ns
}

/// The device may be considered idle at time `now`.
pub open spec fn may_idle(v: TrackerView, now: int) -> bool {
    &&& v.settings.enabled
    &&& v.oneshot_pass == 0
    &&& (delay_expired(v, now) || v.oneshot_pending)
}

/// The state that an update at time `now` reports.
pub open spec fn next_state(v: TrackerView, now: int) -> IdleState {
    if may_idle(v, now) {
        if v.nonzero_color_count > 0 {
            IdleState::IdleColor {
                update_required: !v.settings.holds && elapsed_between(now, v.last_update)
                    > v.settings.delay_ns / 2,
            }
        } else {
            IdleState::IdleBlack
        }
    } else {
        IdleState::Active
    }
}

/// The number of oneshot retries that an update at time `now` leaves unsent,
/// where the delay expired before they were all sent.
pub open spec fn skipped_retries(v: TrackerView, now: int) -> Option<u32> {
    if !may_idle(v, now) && v.oneshot_pass > 1 && delay_expired(v, now) {
        Some((v.oneshot_pass - 1) as u32)
    } else {
        None
    }
}

/// The state of the tracker after it decides, at time `now`, on the state
/// to report, before any write to the device.
pub open spec fn view_after_decide(v: TrackerView, now: int) -> TrackerView {
    let (pass, pending) = if may_idle(v, now) {
        (v.oneshot_pass, v.oneshot_pending && !delay_expired(v, now))
    } else if v.oneshot_pass > 0 {
        if v.oneshot_pass - 1 == 0 || delay_expired(v, now) {
            (0, true)
        } else {
            (v.oneshot_pass - 1, v.oneshot_pending)
        }
    } else {
        (v.oneshot_pass, v.oneshot_pending)
    };
    TrackerView {
        oneshot_pass: pass,
        oneshot_pending: pending,
        current_state: next_state(v, now),
        ..v
    }
}

/// The state of the tracker after an update decided at time `now`, the device
/// being written to at time `written` where the reported state asks for it.
pub open spec fn view_after_update_written(v: TrackerView, now: int, written: int) -> TrackerView {
    TrackerView {
        last_update: if next_state(v, now).spec_should_write() {
            written
        } else {
            v.last_update
        },
        ..view_after_decide(v, now)
    }
}

/// The state of the tracker after an update at time `now`, the device being
/// written to at that time where the reported state asks for it.
pub open spec fn view_after_update(v: TrackerView, now: int) -> TrackerView {
    view_after_update_written(v, now, now)
}

/// RGB LED idle tracker.
///
/// The tracker counts the LEDs that are not black in each update pass, and is
/// told at the end of each pass whether the colors changed significantly. From
/// this and the time of the last change it decides whether the device is idle.
pub struct IdleTracker {
    idle_settings: IdleSettings,
    nonzero_color_count: usize,
    last_change: u64,
    oneshot_pass: u32,
    oneshot_pending: bool,
    last_update: u64,
    pass_started: bool,
    current_state: IdleState,
    /// The latest clock reading, in nanoseconds since `epoch`.
    last_reading: u64,
    /// The instant from which times are measured.
    epoch: Instant,
}

impl View for IdleTracker {
    type V = TrackerView;

    closed spec fn view(&self) -> TrackerView {
        TrackerView {
            settings: self.idle_settings,
            nonzero_color_count: self.nonzero_color_count as nat,
            last_change: self.last_change as int,
            oneshot_pass: self.oneshot_pass as int,
            oneshot_pending: self.oneshot_pending,
            last_update: self.last_update as int,
            pass_started: self.pass_started,
            current_state: self.current_state,
            last_reading: self.last_reading as int,
        }
    }
}

impl TrackerView {
    /// What holds of every tracker: the oneshot passes left never exceed the
    /// configured retries; times are `u64` nanoseconds; a disabled tracker is
    /// active; without retries, no oneshot pass is ever pending.
    pub open spec fn wf(self) -> bool {
        &&& 0 <= self.oneshot_pass <= self.settings.retries
        &&& 0 <= self.last_change <= u64::MAX
        &&& 0 <= self.last_update <= u64::MAX
        &&& 0 <= self.last_reading <= u64::MAX
        &&& !self.settings.enabled ==> self.current_state == IdleState::Active
        &&& self.settings.retries == 0 ==> (self.oneshot_pass == 0 && !self.oneshot_pending)
    }
}

impl IdleTracker {
    /// Every tracker satisfies `wf`.
    #[verifier::type_invariant]
    spec fn inv(&self) -> bool {
        self@.wf()
    }

    /// Creates a new idle tracker with the given settings.
    pub fn new(idle_settings: IdleSettings) -> (t: IdleTracker)
        ensures
            t@ == initial_view(idle_settings),
            t@.wf(),
    {
        IdleTracker {
            idle_settings,
            nonzero_color_count: 0,
            last_change: 0,
            oneshot_pass: idle_settings.retries,
            oneshot_pending: false,
            last_update: 0,
            pass_started: false,
            current_state: IdleState::Active,
            last_reading: 0,
            epoch: instant_now(),
        }
    }

    /// Returns true if an update pass is running.
    pub fn pass_started(&self) -> (r: bool)
        ensures
            r == self@.pass_started,
    {
        self.pass_started
    }

    /// Returns the number of LEDs with a non-zero color in the current pass.
    pub fn nonzero_color_count(&self) -> (r: usize)
        ensures
            r == self@.nonzero_color_count,
    {
        self.nonzero_color_count
    }

    /// Returns the settings of the tracker.
    pub fn idle_settings(&self) -> (r: IdleSettings)
        ensures
            r == self@.settings,
    {
        self.idle_settings
    }

    /// Nanoseconds elapsed since the tracker was created, saturated to `u64`.
    /// The clock decides the value: every `u64` is a possible outcome.
    fn now(&self) -> u64 {
        let nanos = duration_as_nanos(&instant_elapsed(&self.epoch));
        saturate_nanos(nanos)
    }

    /// The current time, in nanoseconds since the tracker was created, taken
    /// no earlier than `floor`, than the times the tracker recorded, nor than
    /// its latest reading: clock readings never go backwards. It becomes the
    /// latest reading.
    fn clock_from(&mut self, floor: u64) -> (r: u64)
        ensures
            r >= floor,
            r >= old(self)@.last_change,
            r >= old(self)@.last_update,
            r >= old(self)@.last_reading,
            final(self)@ == with_reading(old(self)@, r as int),
    {
        proof {
            use_type_invariant(&*self);
        }
        let mut t = self.now();
        if t < floor {
            t = floor;
        }
        if t < self.last_change {
            t = self.last_change;
        }
        if t < self.last_update {
            t = self.last_update;
        }
        if t < self.last_reading {
            t = self.last_reading;
        }
        self.last_reading = t;
        t
    }

    /// Starts a new pass. This should be called before updating the LEDs of
    /// the device.
    pub fn start_pass(&mut self)
        requires
            !old(self)@.pass_started,
        ensures
            final(self)@ == view_after_start(old(self)@),
            final(self)@.nonzero_color_count == 0,
            final(self)@.pass_started,
            old(self)@.wf(),
            final(self)@.wf(),
    {
        proof {
            use_type_invariant(&*self);
        }
        self.nonzero_color_count = 0;
        self.pass_started = true;
    }

    /// Notifies of the update of one LED. `nonzero` tells whether the new
    /// color of the LED is not black. This only counts, and does not update
    /// the actual color.
    pub fn update_color(&mut self, nonzero: bool)
        requires
            nonzero ==> old(self)@.nonzero_color_count < usize::MAX,
        ensures
            final(self)@ == view_after_color(old(self)@, nonzero),
            final(self)@.nonzero_color_count == old(self)@.nonzero_color_count + if nonzero {
                1int
            } else {
                0int
            },
            old(self)@.wf(),
            final(self)@.wf(),
    {
        proof {
            use_type_invariant(&*self);
        }
        if nonzero {
            self.nonzero_color_count = self.nonzero_color_count + 1;
        }
    }

    /// Completes the current pass, at time `now` (nanoseconds since the
    /// tracker was created). `changed` tells whether the colors changed
    /// significantly during the pass. `oneshot` tells whether this is a
    /// oneshot pass, after which the device should be considered idle once
    /// the retries are sent; it should be false where continuous updates are
    /// expected.
    pub fn end_pass_at(&mut self, oneshot: bool, changed: bool, now: u64)
        requires
            old(self)@.pass_started,
        ensures
            final(self)@ == view_after_end(old(self)@, oneshot, changed, now as int),
            final(self)@.last_change == if changed {
                now as int
            } else {
                old(self)@.last_change
            },
            old(self)@.wf(),
            final(self)@.wf(),
    {
        proof {
            use_type_invariant(&*self);
        }
        if changed {
            self.last_change = now;
        }
        self.oneshot_pass = if oneshot {
            self.idle_settings.retries
        } else {
            0
        };
        // If a non-oneshot update comes in, stop waiting for the delay to expire
        self.oneshot_pending = self.oneshot_pending && (self.oneshot_pass > 0);
        self.pass_started = false;
    }

    /// Completes the current pass, at the current time, which is read no
    /// earlier than the times the tracker recorded and its latest reading. See
    /// `end_pass_at`.
    pub fn end_pass(&mut self, oneshot: bool, changed: bool)
        requires
            old(self)@.pass_started,
        ensures
            exists|now: u64|
                {
                    &&& now >= old(self)@.last_change
                    &&& now >= old(self)@.last_update
                    &&& now >= old(self)@.last_reading
                    &&& final(self)@ == view_after_end(
                        with_reading(old(self)@, now as int),
                        oneshot,
                        changed,
                        now as int,
                    )
                },
            final(self)@.last_change >= old(self)@.last_change,
            final(self)@.last_reading >= old(self)@.last_reading,
            old(self)@.wf(),
            final(self)@.wf(),
    {
        let now = self.clock_from(0);
        self.end_pass_at(oneshot, changed, now);
    }

    /// Decides, at time `now`, on the state to report, and returns
    /// `(changed, state)` as `update_state_at` does, without noting any write.
    fn decide_at(&mut self, now: u64) -> (r: (bool, IdleState, Option<u32>))
        ensures
            final(self)@ == view_after_decide(old(self)@, now as int),
            r.1 == next_state(old(self)@, now as int),
            r.0 == r.1.spec_has_changed(old(self)@.current_state),
            r.2 == skipped_retries(old(self)@, now as int),
    {
        proof {
            use_type_invariant(&*self);
        }
        let mut skipped: Option<u32> = None;
        let elapsed = if now >= self.last_change {
            now - self.last_change
        } else {
            0
        };
        let delay_expired = elapsed > self.idle_settings.delay_ns;

        let new_state = if self.idle_settings.enabled && self.oneshot_pass == 0 && (delay_expired
            || self.oneshot_pending) {
            if self.oneshot_pending && delay_expired {
                // The delay expired so the oneshot lock is released
                self.oneshot_pending = false;
            }
            if self.nonzero_color_count > 0 {
                // A device that shows a color only needs an update every
                // delay/2, and only if it needs periodic updates to stay on
                let since_update = if now >= self.last_update {
                    now - self.last_update
                } else {
                    0
                };
                IdleState::IdleColor {
                    update_required: !self.idle_settings.holds && since_update
                        > self.idle_settings.delay_ns / 2,
                }
            } else {
                IdleState::IdleBlack
            }
        } else {
            if self.oneshot_pass > 0 {
                self.oneshot_pass = self.oneshot_pass - 1;
                if self.oneshot_pass == 0 || delay_expired {
                    // All retries sent, or the delay expired before they
                    // were: switch back to idle
                    if self.oneshot_pass > 0 {
                        // The retries should all be sent before the delay
                        // expires; the caller is told how many were left
                        skipped = Some(self.oneshot_pass);
                    }
                    self.oneshot_pass = 0;
                    self.oneshot_pending = true;
                }
            }
            IdleState::Active
        };

        let changed = new_state.has_changed(&self.current_state);
        self.current_state = new_state;
        (changed, new_state, skipped)
    }

    /// Updates the state of this tracker at time `now` (nanoseconds since the
    /// tracker was created), and returns `(changed, state)`: `changed` is true
    /// if the state changed to its current value `state`, without regard to
    /// `update_required`. Where `state` asks for the device to be written to,
    /// the tracker assumes that the caller does so at time `now`.
    pub fn update_state_at(&mut self, now: u64) -> (r: (bool, IdleState))
        ensures
            final(self)@ == view_after_update(old(self)@, now as int),
            r.1 == next_state(old(self)@, now as int),
            r.1 == final(self)@.current_state,
            r.0 == r.1.spec_has_changed(old(self)@.current_state),
            old(self)@.wf(),
            final(self)@.wf(),
            !old(self)@.settings.enabled ==> r == (false, IdleState::Active),
    {
        proof {
            use_type_invariant(&*self);
        }
        let (changed, state, _) = self.decide_at(now);
        // The caller is assumed to write to the device
        if state.should_write() {
            self.notify_update(now);
        }
        (changed, state)
    }

    /// Updates the state of this tracker at the current time, as
    /// `update_state_at` does, the time of the write that the tracker assumes
    /// being read again after the decision. Clock readings are never earlier
    /// than the times the tracker recorded nor than its previous readings.
    /// Returns `(changed, state, skipped)`: `skipped` holds the number of
    /// oneshot retries left unsent where the delay expired before they were
    /// all sent.
    pub fn update_state_noting_skips(&mut self) -> (r: (bool, IdleState, Option<u32>))
        ensures
            exists|now: u64, written: u64|
                {
                    &&& now >= old(self)@.last_change
                    &&& now >= old(self)@.last_update
                    &&& now >= old(self)@.last_reading
                    &&& written >= now
                    &&& final(self)@ == with_reading(
                        view_after_update_written(old(self)@, now as int, written as int),
                        if r.1.spec_should_write() {
                            written as int
                        } else {
                            now as int
                        },
                    )
                    &&& r.1 == next_state(old(self)@, now as int)
                    &&& r.2 == skipped_retries(old(self)@, now as int)
                },
            r.1 == final(self)@.current_state,
            r.0 == r.1.spec_has_changed(old(self)@.current_state),
            final(self)@.last_update >= old(self)@.last_update,
            final(self)@.last_reading >= old(self)@.last_reading,
            old(self)@.wf(),
            final(self)@.wf(),
            !old(self)@.settings.enabled ==> (r.0, r.1) == (false, IdleState::Active),
    {
        proof {
            use_type_invariant(&*self);
        }
        let ghost v0 = self@;
        let now = self.clock_from(0);
        let r = self.decide_at(now);
        let ghost written: u64 = now;
        // The caller is assumed to write to the device
        if r.1.should_write() {
            let t = self.clock_from(now);
            proof {
                written = t;
            }
            self.notify_update(t);
        }
        proof {
            use_type_invariant(&*self);
        }
        assert(self@ == with_reading(
            view_after_update_written(v0, now as int, written as int),
            if r.1.spec_should_write() {
                written as int
            } else {
                now as int
            },
        ));
        r
    }

    /// Updates the state of this tracker at the current time; see
    /// `update_state_noting_skips`, whose `(changed, state)` this returns.
    pub fn update_state(&mut self) -> (r: (bool, IdleState))
        ensures
            exists|now: u64, written: u64|
                {
                    &&& now >= old(self)@.last_change
                    &&& now >= old(self)@.last_update
                    &&& now >= old(self)@.last_reading
                    &&& written >= now
                    &&& final(self)@ == with_reading(
                        view_after_update_written(old(self)@, now as int, written as int),
                        if r.1.spec_should_write() {
                            written as int
                        } else {
                            now as int
                        },
                    )
                    &&& r.1 == next_state(old(self)@, now as int)
                },
            r.1 == final(self)@.current_state,
            r.0 == r.1.spec_has_changed(old(self)@.current_state),
            final(self)@.last_update >= old(self)@.last_update,
            final(self)@.last_reading >= old(self)@.last_reading,
            old(self)@.wf(),
            final(self)@.wf(),
            !old(self)@.settings.enabled ==> r == (false, IdleState::Active),
    {
        let (changed, state, _) = self.update_state_noting_skips();
        (changed, state)
    }

    /// Notes that the device was updated at time `now`.
    fn notify_update(&mut self, now: u64)
        requires
            old(self)@.wf(),
        ensures
            final(self)@ == (TrackerView { last_update: now as int, ..old(self)@ }),
    {
        self.last_update = now;
    }
}

/// `has_changed` compares variants only: a state has not changed from
/// itself, the comparison is symmetric, and two idle-color states never
/// differ, whatever their `update_required`.
pub proof fn lemma_has_changed_compares_variants(a: IdleState, b: IdleState)
    ensures
        !a.spec_has_changed(a),
        a.spec_has_changed(b) == b.spec_has_changed(a),
        (a is IdleColor && b is IdleColor) ==> !a.spec_has_changed(b),
        a.spec_has_changed(b) <==> !((a is Active && b is Active) || (a is IdleBlack
            && b is IdleBlack) || (a is IdleColor && b is IdleColor)),
{
}

/// A pass that is not a oneshot pass drops the retries and any pending switch
/// to idle; from then on, until the delay expires or another pass ends, every
/// update reports the device as active and keeps it so.
pub proof fn lemma_plain_pass_waits_for_delay(
    v: TrackerView,
    changed: bool,
    now: int,
    w: TrackerView,
    t: int,
    written: int,
)
    ensures
        view_after_end(v, false, changed, now).oneshot_pass == 0,
        !view_after_end(v, false, changed, now).oneshot_pending,
        (w.oneshot_pass == 0 && !w.oneshot_pending && !delay_expired(w, t)) ==> {
            &&& next_state(w, t) == IdleState::Active
            &&& view_after_update_written(w, t, written).oneshot_pass == 0
            &&& !view_after_update_written(w, t, written).oneshot_pending
            &&& view_after_update_written(w, t, written).last_change == w.last_change
        },
{
}

/// Every operation of the tracker, at times that are `u64` nanoseconds, keeps
/// what holds of every tracker (`wf`).
pub proof fn lemma_tracker_invariant(
    v: TrackerView,
    nonzero: bool,
    oneshot: bool,
    changed: bool,
    now: int,
    written: int,
)
    requires
        v.wf(),
        0 <= now <= u64::MAX,
        0 <= written <= u64::MAX,
    ensures
        view_after_start(v).wf(),
        view_after_color(v, nonzero).wf(),
        view_after_end(v, oneshot, changed, now).wf(),
        view_after_update_written(v, now, written).wf(),
        with_reading(v, written).wf(),
{
}

/// While oneshot retries are left, an update reports the device as active
/// and uses up at least one retry.
pub proof fn lemma_retries_keep_active(v: TrackerView, now: int)
    requires
        v.oneshot_pass > 0,
    ensures
        next_state(v, now) == IdleState::Active,
        view_after_update(v, now).oneshot_pass < v.oneshot_pass,
{
}

/// A device is reported idle exactly where idling is enabled, no oneshot
/// retry is left, and the delay expired or a oneshot pass is pending; it is
/// idle and black exactly where, besides, no LED was lit in the last pass.
pub proof fn lemma_idle_only_when_allowed(v: TrackerView, now: int)
    ensures
        next_state(v, now) != IdleState::Active <==> may_idle(v, now),
        next_state(v, now) == IdleState::IdleBlack <==> (may_idle(v, now)
            && v.nonzero_color_count == 0),
{
}

/// An idle device showing a color is asked for an update exactly where it
/// does not hold its colors and more than half the delay has passed since its
/// last update, whether or not the delay has expired.
pub proof fn lemma_idle_color_refresh(v: TrackerView, now: int)
    ensures
        next_state(v, now) matches IdleState::IdleColor { update_required } ==> (update_required
            <==> (!v.settings.holds && elapsed_between(now, v.last_update) > v.settings.delay_ns
            / 2)),
        next_state(v, now) == (IdleState::IdleColor { update_required: true }) ==> {
            &&& !v.settings.holds
            &&& elapsed_between(now, v.last_update) > v.settings.delay_ns / 2
        },
        v.settings.holds ==> next_state(v, now) != (IdleState::IdleColor {
            update_required: true,
        }),
{
}

/// After an update the tracker remembers the reported state, and the time of
/// the last device update is `now` exactly where the state asks for a write.
pub proof fn lemma_update_records_write(v: TrackerView, now: int)
    ensures
        view_after_update(v, now).current_state == next_state(v, now),
        view_after_update(v, now).last_update == if next_state(v, now).spec_should_write() {
            now
        } else {
            v.last_update
        },
        view_after_update(v, now).settings == v.settings,
        view_after_update(v, now).nonzero_color_count == v.nonzero_color_count,
        view_after_update(v, now).last_change == v.last_change,
{
}

/// Without a new pass, an idle device stays idle as time goes on: an update
/// that reports it idle at `now`, followed by one at any later time, reports
/// it idle again.
pub proof fn lemma_idle_stays_idle(v: TrackerView, now: int, written: int, later: int)
    requires
        next_state(v, now) != IdleState::Active,
        later >= now,
    ensures
        next_state(view_after_update_written(v, now, written), later) != IdleState::Active,
{
}

/// Without retries, the device is idle exactly where idling is enabled and
/// the delay has expired since the last significant change.
pub proof fn lemma_zero_retries(v: TrackerView, now: int)
    requires
        v.wf(),
        v.settings.retries == 0,
    ensures
        (next_state(v, now) == IdleState::Active) <==> !(v.settings.enabled && delay_expired(
            v,
            now,
        )),
{
}

/// With the longest delay, the delay never expires within the `u64`
/// nanoseconds that the tracker measures.
pub proof fn lemma_longest_delay_never_expires(v: TrackerView, now: int)
    requires
        v.wf(),
        0 <= now <= u64::MAX,
        v.settings.delay_ns == u64::MAX,
    ensures
        !delay_expired(v, now),
{
}

/// A LED update only counts: the count of lit LEDs does not decrease, and
/// nothing else of the tracker changes.
pub proof fn lemma_color_only_counts(v: TrackerView, nonzero: bool)
    ensures
        view_after_color(v, nonzero).nonzero_color_count >= v.nonzero_color_count,
        view_after_color(v, nonzero) == (TrackerView {
            nonzero_color_count: view_after_color(v, nonzero).nonzero_color_count,
            ..v
        }),
{
}

/// The tracker after updates at the successive times `times`, the device
/// being written to at each update's time where it asks for it.
pub open spec fn after_updates(v: TrackerView, times: Seq<int>) -> TrackerView
    decreases times.len(),
{
    if times.len() == 0 {
        v
    } else {
        view_after_update(after_updates(v, times.drop_last()), times.last())
    }
}

/// The first `k` updates after a oneshot pass, while the delay has not
/// expired, report the device active and use up one retry each.
#[verifier::spinoff_prover]
proof fn lemma_oneshot_countdown(v: TrackerView, times: Seq<int>, k: int)
    requires
        v.wf(),
        v.oneshot_pass == v.settings.retries,
        0 <= k <= v.settings.retries,
        k <= times.len(),
        forall|i: int| 0 <= i < times.len() ==> !delay_expired(v, #[trigger] times[i]),
    ensures
        after_updates(v, times.take(k)).oneshot_pass == v.settings.retries - k,
        after_updates(v, times.take(k)).settings == v.settings,
        after_updates(v, times.take(k)).last_change == v.last_change,
        after_updates(v, times.take(k)).oneshot_pending == if k == v.settings.retries && k > 0 {
            true
        } else {
            v.oneshot_pending
        },
        forall|i: int|
            0 <= i < k ==> next_state(after_updates(v, times.take(i)), #[trigger] times[i])
                == IdleState::Active,
    decreases k,
{
    if k == 0 {
        assert(times.take(0) =~= Seq::<int>::empty());
    } else {
        lemma_oneshot_countdown(v, times, k - 1);
        assert(times.take(k).drop_last() =~= times.take(k - 1));
        assert(times.take(k).last() == times[k - 1]);
        let u = after_updates(v, times.take(k - 1));
        assert(after_updates(v, times.take(k)) == view_after_update(u, times[k - 1]));
        assert(!delay_expired(v, times[k - 1]));
        assert(!delay_expired(u, times[k - 1]));
        assert(!may_idle(u, times[k - 1]));
        assert(next_state(u, times[k - 1]) == IdleState::Active);
        assert forall|i: int| 0 <= i < k implies next_state(
            after_updates(v, times.take(i)),
            #[trigger] times[i],
        ) == IdleState::Active by {
            if i == k - 1 {
                assert(times.take(i) == times.take(k - 1));
            }
        }
    }
}

/// After a oneshot pass, as long as the delay does not expire, the first
/// `retries` updates report the device active, and the one after them
/// reports it idle without waiting for the delay.
pub proof fn lemma_oneshot_retries_then_idle(v: TrackerView, times: Seq<int>)
    requires
        v.wf(),
        v.settings.enabled,
        v.settings.retries >= 1,
        v.oneshot_pass == v.settings.retries,
        forall|i: int| 0 <= i < times.len() ==> !delay_expired(v, #[trigger] times[i]),
    ensures
        forall|i: int|
            0 <= i < times.len() && i < v.settings.retries ==> next_state(
                after_updates(v, times.take(i)),
                #[trigger] times[i],
            ) == IdleState::Active,
        times.len() > v.settings.retries ==> next_state(
            after_updates(v, times.take(v.settings.retries as int)),
            times[v.settings.retries as int],
        ) != IdleState::Active,
{
    let r = v.settings.retries as int;
    if times.len() > r {
        lemma_oneshot_countdown(v, times, r);
    } else {
        lemma_oneshot_countdown(v, times, times.len() as int);
    }
}

/// A pass that ends at time `t` with a significant change, oneshot or not,
/// records `t` as the time of the last change; without one, the time of the
/// last change is kept. Right after such a change the device is active until
/// more than the delay has passed since `t`, whatever the tracker's state
/// before the pass.
pub proof fn lemma_change_restarts_delay(v: TrackerView, oneshot: bool, t: int, u: int)
    requires
        v.wf(),
        t <= u <= t + v.settings.delay_ns,
    ensures
        view_after_end(v, oneshot, true, t).last_change == t,
        view_after_end(v, oneshot, false, t).last_change == v.last_change,
        !delay_expired(view_after_end(v, oneshot, true, t), u),
        next_state(view_after_end(v, oneshot, true, t), u) == IdleState::Active,
{
}

/// The number of `true` values in `s`.
pub open spec fn count_true(s: Seq<bool>) -> nat
    decreases s.len(),
{
    if s.len() == 0 {
        0
    } else {
        count_true(s.drop_last()) + if s.last() {
            1nat
        } else {
            0nat
        }
    }
}

/// The tracker after the LED updates `lit`, each telling whether the new
/// color of a LED is not black.
pub open spec fn after_colors(v: TrackerView, lit: Seq<bool>) -> TrackerView
    decreases lit.len(),
{
    if lit.len() == 0 {
        v
    } else {
        view_after_color(after_colors(v, lit.drop_last()), lit.last())
    }
}

/// Every update of a LED to a non-black color adds one to the count of lit
/// LEDs, and every update to black leaves it, in any state of the tracker.
pub proof fn lemma_color_counts_lit(v: TrackerView)
    ensures
        view_after_color(v, true).nonzero_color_count == v.nonzero_color_count + 1,
        view_after_color(v, false).nonzero_color_count == v.nonzero_color_count,
{
}

/// A pass counts the LEDs that are lit in it, and those alone: starting a
/// pass and updating the LEDs `lit` leaves as count the number of lit LEDs
/// among them, whatever was counted before and whatever the tracker's state;
/// nothing else but the pass flag changes.
pub proof fn lemma_pass_counts_lit(v: TrackerView, lit: Seq<bool>)
    ensures
        view_after_start(v).nonzero_color_count == 0,
        after_colors(view_after_start(v), lit).nonzero_color_count == count_true(lit),
        after_colors(view_after_start(v), lit) == (TrackerView {
            nonzero_color_count: count_true(lit),
            pass_started: true,
            ..v
        }),
    decreases lit.len(),
{
    if lit.len() > 0 {
        lemma_pass_counts_lit(v, lit.drop_last());
    }
}

/// After a pass in which every LED is black, an update that finds the device
/// idle reports it idle and black; after a pass with a lit LED, idle with a
/// color.
pub proof fn lemma_black_pass_idles_black(
    v: TrackerView,
    lit: Seq<bool>,
    oneshot: bool,
    changed: bool,
    t: int,
    u: int,
)
    ensures
        ({
            let w = view_after_end(after_colors(view_after_start(v), lit), oneshot, changed, t);
            &&& (count_true(lit) == 0 && next_state(w, u) != IdleState::Active) ==> next_state(w, u)
                == IdleState::IdleBlack
            &&& (count_true(lit) > 0 && next_state(w, u) != IdleState::Active) ==> next_state(
                w,
                u,
            ) is IdleColor
        }),
{
    lemma_pass_counts_lit(v, lit);
}

/// A oneshot pass sets up `retries` repeated updates and keeps a pending
/// switch to idle only where there are retries; any other pass drops both.
/// Ending a pass stops it, and changes nothing of the settings, the lit count,
/// the reported state or the last update.
pub proof fn lemma_end_pass_sets_retries(v: TrackerView, changed: bool, t: int)
    ensures
        view_after_end(v, true, changed, t).oneshot_pass == v.settings.retries,
        view_after_end(v, true, changed, t).oneshot_pending == (v.oneshot_pending
            && v.settings.retries > 0),
        view_after_end(v, false, changed, t).oneshot_pass == 0,
        !view_after_end(v, false, changed, t).oneshot_pending,
        forall|o: bool|
            {
                let w = #[trigger] view_after_end(v, o, changed, t);
                &&& !w.pass_started
                &&& w.settings == v.settings
                &&& w.nonzero_color_count == v.nonzero_color_count
                &&& w.current_state == v.current_state
                &&& w.last_update == v.last_update
            },
{
}

/// The delay has expired exactly where more than `delay_ns` nanoseconds
/// have passed since the last change; never before that change.
pub proof fn lemma_delay_expiry(v: TrackerView, now: int)
    ensures
        now >= v.last_change ==> (delay_expired(v, now) <==> now - v.last_change
            > v.settings.delay_ns),
        now < v.last_change ==> !delay_expired(v, now),
{
}

/// The device is written to while active, never while idle and black, and
/// while idle with a color exactly where an update is required.
pub proof fn lemma_should_write(update_required: bool)
    ensures
        IdleState::Active.spec_should_write(),
        !IdleState::IdleBlack.spec_should_write(),
        (IdleState::IdleColor { update_required }).spec_should_write() == update_required,
{
}

} // verus!
