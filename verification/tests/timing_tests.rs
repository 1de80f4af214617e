//! Tests of the cooperative timers, driven by an explicit virtual clock.

use pbft_core::timing::Ticker;
use pbft_core::timing::Timeout;

#[test]
fn timeout_expires_only_past_duration() {
    let mut t = Timeout::new(1000);
    // Not armed: never expired.
    assert!(!t.is_expired(5000));
    t.start(0);
    assert!(!t.is_expired(500));
    // Exactly the duration has not yet exceeded it.
    assert!(!t.is_expired(1000));
    assert!(t.is_expired(1001));
    // Once expired, it stays expired until stopped or restarted.
    assert!(t.is_expired(1002));
    t.stop();
    assert!(!t.is_expired(5000));
    t.start(6000);
    assert!(!t.is_expired(6500));
    assert!(t.is_expired(7500));
}

#[test]
fn ticker_fires_once_per_period() {
    let mut ticker = Ticker::new(10);
    assert!(ticker.tick(10));
    assert!(!ticker.tick(15));
    assert!(!ticker.tick(19));
    assert!(ticker.tick(20));
    assert!(!ticker.tick(29));
    assert!(ticker.tick(30));
}
