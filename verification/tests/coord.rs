use ce_gke::sdk::coord::{live_holders, now_secs, secs_or_zero, winner};
use ce_gke::sdk::{Claim, Lease};

#[test]
fn lease_expiry() {
    let l = Lease::new("svc", "node-a", 60, 1000);
    assert_eq!(l.expires_at, 1060);
    assert!(!l.expired(1059));
    assert!(l.expired(1060));
    assert!(l.expired(2000));
}

#[test]
fn live_holders_counts_only_unexpired() {
    let now = 1000;
    let leases = vec![
        Lease::new("svc", "a", 100, now),
        Lease::new("svc", "b", 5, now),
        Lease::new("svc", "c", 100, now),
    ];
    assert_eq!(live_holders(&leases, 1004), 3);
    assert_eq!(live_holders(&leases, 1006), 2);
    assert_eq!(live_holders(&leases, 2000), 0);
}

#[test]
fn winner_is_lowest_id_and_ignores_expired() {
    let now = 1000;
    let claims = vec![
        Claim::new("svc", "cccc", 100, now),
        Claim::new("svc", "aaaa", 100, now),
        Claim::new("svc", "bbbb", 100, now),
    ];
    assert_eq!(winner(&claims, now).unwrap().owner, "aaaa");

    let claims2 = vec![
        Claim::new("svc", "aaaa", 5, now),
        Claim::new("svc", "bbbb", 100, now),
    ];
    assert_eq!(winner(&claims2, 1006).unwrap().owner, "bbbb");
    assert!(winner(&[], now).is_none());
}

#[test]
fn winner_is_deterministic_regardless_of_order() {
    let now = 0;
    let a = vec![Claim::new("s", "z", 9, now), Claim::new("s", "a", 9, now)];
    let b = vec![Claim::new("s", "a", 9, now), Claim::new("s", "z", 9, now)];
    assert_eq!(winner(&a, now).unwrap().owner, winner(&b, now).unwrap().owner);
}

#[test]
fn a_lease_lasts_a_second_at_least_and_never_overflows() {
    let l = Lease::new("s", "h", 0, 10);
    assert_eq!(l.expires_at, 11);
    assert!(!l.expired(10));
    assert!(l.expired(11));
    assert_eq!(Lease::new("s", "h", 5, u64::MAX - 1).expires_at, u64::MAX);
    let c = Claim::new("s", "o", 0, 10);
    assert_eq!(c.expires_at, 11);
    assert!(!c.expired(10));
    assert!(c.expired(11));
}

#[test]
fn the_first_of_several_winning_claims_is_returned() {
    let claims = vec![
        Claim::new("s", "b", 9, 0),
        Claim::new("s", "a", 5, 0),
        Claim::new("s", "a", 7, 0),
    ];
    assert_eq!(winner(&claims, 0), Some(&claims[1]));
    assert_eq!(winner(&claims, 6), Some(&claims[2]));
    assert_eq!(winner(&claims, 8), Some(&claims[0]));
    assert_eq!(winner(&claims, 9), None);
}

#[test]
fn owners_are_ordered_like_strings() {
    let owners = ["", "a", "aa", "b", "B", "é", "z", "\u{10000}", "\u{ffff}"];
    for x in owners {
        for y in owners {
            let claims = vec![Claim::new("s", x, 9, 0), Claim::new("s", y, 9, 0)];
            let lowest = if y < x { y } else { x };
            assert_eq!(winner(&claims, 0).unwrap().owner, lowest);
        }
    }
}

#[test]
fn holders_only_lapse_as_time_passes() {
    let leases: Vec<Lease> = (1..20).map(|i| Lease::new("s", "h", i, 0)).collect();
    for t in 0..20 {
        assert!(live_holders(&leases, t + 1) <= live_holders(&leases, t));
    }
}

#[test]
fn the_clock_reads_after_the_epoch() {
    assert!(now_secs() > 1_600_000_000);
    assert_eq!(secs_or_zero(Some(7)), 7);
    assert_eq!(secs_or_zero(None), 0);
}
