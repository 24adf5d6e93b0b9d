use miru_agent::cooldown::Backoff;

#[test]
fn cooldown_grows_geometrically_and_caps() {
    let b = Backoff {
        base_secs: 15,
        growth_factor: 2,
        max_secs: 86_400,
    };
    assert_eq!(miru_agent::cooldown::calc(&b, 0), 15);
    assert_eq!(miru_agent::cooldown::calc(&b, 1), 30);
    assert_eq!(miru_agent::cooldown::calc(&b, 3), 120);
    assert_eq!(miru_agent::cooldown::calc(&b, 20), 86_400);
    assert_eq!(miru_agent::cooldown::calc(&b, u32::MAX), 86_400);
}

#[test]
fn cooldown_saturates_instead_of_overflowing() {
    let b = Backoff {
        base_secs: i64::MAX,
        growth_factor: 3,
        max_secs: i64::MAX,
    };
    assert_eq!(miru_agent::cooldown::calc(&b, 5), i64::MAX);
    let neg = Backoff {
        base_secs: -2,
        growth_factor: 3,
        max_secs: 10,
    };
    assert_eq!(miru_agent::cooldown::calc(&neg, 2), -18);
}
