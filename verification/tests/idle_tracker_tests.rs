use hyperion::idle_tracker::{IdleSettings, IdleState, IdleTracker};

const MS: u64 = 1_000_000;

fn settings(enabled: bool, holds: bool, retries: u32) -> IdleSettings {
    IdleSettings { enabled, delay_ns: 1000 * MS, holds, retries, resolution: 8 }
}

/// Runs one pass at time `now` in which `lit` LEDs out of 3 are not black.
fn pass(t: &mut IdleTracker, lit: usize, changed: bool, now: u64) {
    run_pass(t, false, lit, changed, now);
}

/// Runs one oneshot pass at time `now` in which `lit` LEDs are not black.
fn oneshot_pass(t: &mut IdleTracker, lit: usize, changed: bool, now: u64) {
    run_pass(t, true, lit, changed, now);
}

fn run_pass(t: &mut IdleTracker, oneshot: bool, lit: usize, changed: bool, now: u64) {
    t.start_pass();
    for i in 0..3 {
        t.update_color(i < lit);
    }
    t.end_pass_at(oneshot, changed, now);
}

#[test]
fn should_write_by_state() {
    assert!(IdleState::Active.should_write());
    assert!(!IdleState::IdleBlack.should_write());
    assert!(IdleState::IdleColor { update_required: true }.should_write());
    assert!(!IdleState::IdleColor { update_required: false }.should_write());
}

#[test]
fn has_changed_compares_variants() {
    let states = [
        IdleState::Active,
        IdleState::IdleBlack,
        IdleState::IdleColor { update_required: true },
        IdleState::IdleColor { update_required: false },
    ];
    for a in states.iter() {
        for b in states.iter() {
            let same = matches!(
                (a, b),
                (IdleState::Active, IdleState::Active)
                    | (IdleState::IdleBlack, IdleState::IdleBlack)
                    | (IdleState::IdleColor { .. }, IdleState::IdleColor { .. })
            );
            assert_eq!(a.has_changed(b), !same);
            assert_eq!(a.has_changed(b), b.has_changed(a));
        }
    }
}

#[test]
fn idle_state_text() {
    assert_eq!(IdleState::Active.to_string(), "active");
    assert_eq!(IdleState::IdleColor { update_required: false }.to_string(), "idle (active)");
    assert_eq!(IdleState::IdleBlack.to_string(), "idle (inactive)");
}

#[test]
fn disabled_tracker_stays_active() {
    let mut t = IdleTracker::new(settings(false, false, 0));
    pass(&mut t, 0, false, 0);
    assert_eq!(t.update_state_at(10_000 * MS), (false, IdleState::Active));
    assert_eq!(t.update_state_at(u64::MAX), (false, IdleState::Active));
}

#[test]
fn black_device_goes_idle_black_after_delay() {
    let mut t = IdleTracker::new(settings(true, false, 0));
    pass(&mut t, 0, true, 100 * MS);
    assert_eq!(t.update_state_at(500 * MS), (false, IdleState::Active));
    assert_eq!(t.update_state_at(1100 * MS), (false, IdleState::Active));
    assert_eq!(t.update_state_at(1101 * MS), (true, IdleState::IdleBlack));
    assert_eq!(t.update_state_at(2000 * MS), (false, IdleState::IdleBlack));
}

#[test]
fn significant_change_wakes_device() {
    let mut t = IdleTracker::new(settings(true, false, 0));
    pass(&mut t, 2, false, 0);
    assert_eq!(t.update_state_at(2000 * MS).1, IdleState::IdleColor { update_required: true });
    pass(&mut t, 2, true, 2100 * MS);
    assert_eq!(t.update_state_at(2200 * MS), (true, IdleState::Active));
}

#[test]
fn lit_device_is_refreshed_every_half_delay() {
    let mut t = IdleTracker::new(settings(true, false, 0));
    pass(&mut t, 1, false, 0);
    // The last write happened at creation time 0
    assert_eq!(t.update_state_at(1500 * MS), (true, IdleState::IdleColor { update_required: true }));
    // Written at 1500 ms: no refresh needed until 2000 ms have passed
    assert_eq!(t.update_state_at(1900 * MS), (false, IdleState::IdleColor { update_required: false }));
    assert_eq!(t.update_state_at(2000 * MS), (false, IdleState::IdleColor { update_required: false }));
    assert_eq!(t.update_state_at(2001 * MS), (false, IdleState::IdleColor { update_required: true }));
}

#[test]
fn holding_device_is_never_refreshed_while_idle() {
    let mut t = IdleTracker::new(settings(true, true, 0));
    pass(&mut t, 3, false, 0);
    assert_eq!(t.update_state_at(5000 * MS), (true, IdleState::IdleColor { update_required: false }));
    assert_eq!(t.update_state_at(50_000 * MS), (false, IdleState::IdleColor { update_required: false }));
}

#[test]
fn oneshot_retries_keep_device_active_then_idle() {
    let mut t = IdleTracker::new(settings(true, false, 3));
    oneshot_pass(&mut t, 0, true, 0);
    // Three retries are sent
    assert_eq!(t.update_state_at(10 * MS), (false, IdleState::Active));
    assert_eq!(t.update_state_at(20 * MS), (false, IdleState::Active));
    assert_eq!(t.update_state_at(30 * MS), (false, IdleState::Active));
    // Then the pending oneshot lets the device idle before the delay expires
    assert_eq!(t.update_state_at(40 * MS), (true, IdleState::IdleBlack));
    assert_eq!(t.update_state_at(50 * MS), (false, IdleState::IdleBlack));
}

#[test]
fn oneshot_retries_cut_short_when_delay_expires() {
    let mut t = IdleTracker::new(settings(true, false, 5));
    oneshot_pass(&mut t, 0, true, 0);
    assert_eq!(t.update_state_at(10 * MS), (false, IdleState::Active));
    // The delay expires with retries left: they are dropped
    assert_eq!(t.update_state_at(2000 * MS), (false, IdleState::Active));
    assert_eq!(t.update_state_at(2010 * MS), (true, IdleState::IdleBlack));
}

#[test]
fn new_oneshot_pass_reloads_retries() {
    let mut t = IdleTracker::new(settings(true, false, 1));
    oneshot_pass(&mut t, 0, true, 0);
    assert_eq!(t.update_state_at(10 * MS), (false, IdleState::Active));
    assert_eq!(t.update_state_at(20 * MS), (true, IdleState::IdleBlack));
    oneshot_pass(&mut t, 0, false, 30 * MS);
    assert_eq!(t.update_state_at(40 * MS), (true, IdleState::Active));
    assert_eq!(t.update_state_at(50 * MS), (true, IdleState::IdleBlack));
}

#[test]
fn plain_pass_waits_for_delay() {
    let mut t = IdleTracker::new(settings(true, false, 1));
    oneshot_pass(&mut t, 0, true, 0);
    assert_eq!(t.update_state_at(10 * MS), (false, IdleState::Active));
    // A continuous update drops the pending switch to idle
    pass(&mut t, 0, true, 15 * MS);
    for i in 2..100 {
        assert_eq!(t.update_state_at(i * 10 * MS), (false, IdleState::Active));
    }
    // The delay expires 1000 ms after the last change
    assert_eq!(t.update_state_at(1015 * MS), (false, IdleState::Active));
    assert_eq!(t.update_state_at(1016 * MS), (true, IdleState::IdleBlack));
}

#[test]
fn skipped_retries_are_reported() {
    let mut t = IdleTracker::new(IdleSettings {
        enabled: true,
        delay_ns: 0,
        holds: false,
        retries: 3,
        resolution: 8,
    });
    t.start_pass();
    t.update_color(false);
    t.end_pass(true, false);
    // The delay (zero) has expired with two retries left
    assert_eq!(t.update_state_noting_skips(), (false, IdleState::Active, Some(2)));
    assert_eq!(t.update_state_noting_skips(), (true, IdleState::IdleBlack, None));
}

#[test]
fn clock_based_tracker_starts_active() {
    let mut t = IdleTracker::new(settings(true, false, 0));
    t.start_pass();
    t.update_color(false);
    t.end_pass(true, true);
    assert_eq!(t.update_state(), (false, IdleState::Active));
}

#[test]
fn disabled_tracker_never_changes() {
    let mut t = IdleTracker::new(settings(false, false, 2));
    for i in 0..5u64 {
        run_pass(&mut t, i % 2 == 0, 1, i % 3 == 0, i * 700 * MS);
        assert_eq!(t.update_state_at(i * 700 * MS + 10), (false, IdleState::Active));
        assert_eq!(t.update_state(), (false, IdleState::Active));
    }
}

#[test]
fn idle_device_stays_idle_without_pass() {
    let mut t = IdleTracker::new(settings(true, true, 0));
    pass(&mut t, 1, true, 0);
    assert_eq!(t.update_state_at(1001 * MS).0, true);
    for i in 2..20u64 {
        assert_eq!(t.update_state_at(i * 1000 * MS), (false, IdleState::IdleColor { update_required: false }));
    }
}
