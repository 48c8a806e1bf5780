use mars_weather::conversion::{calculate_no_of_martian_sol_elapsed, LANDING_TIMESTAMP};
use mars_weather::dates::parse_date_from_string;

#[test]
fn test_martian_sol_formula() {
    // One Martian year is 668.6 sols, approx. 687 Earth days.
    let ts = 687 * 86_400;

    let martian_sols = calculate_no_of_martian_sol_elapsed(LANDING_TIMESTAMP + ts);

    // Should be 669 because of ceil func
    assert_eq!(martian_sols, 669);

    let date = parse_date_from_string("2026-02-10T00:00:00+01:00").expect("Failed to parse date");

    let martian_sols = calculate_no_of_martian_sol_elapsed(date);

    // Newest API response
    assert_eq!(martian_sols, 4804);
}

#[test]
fn ceiling_law_edge_values() {
    // A delta of zero seconds is sol 0, not sol 1.
    assert_eq!(calculate_no_of_martian_sol_elapsed(LANDING_TIMESTAMP), 0);
    // Any started fraction of a sol counts as the next sol.
    assert_eq!(calculate_no_of_martian_sol_elapsed(LANDING_TIMESTAMP + 1), 1);
    assert_eq!(calculate_no_of_martian_sol_elapsed(LANDING_TIMESTAMP + 88775), 1);
    assert_eq!(calculate_no_of_martian_sol_elapsed(LANDING_TIMESTAMP + 88776), 2);
}

#[test]
fn dates_before_landing_give_nonpositive_sols() {
    // 2012-08-01, five days before landing.
    let ts = parse_date_from_string("2012-08-01").unwrap();
    assert_eq!(calculate_no_of_martian_sol_elapsed(ts), -5);
    // Midnight on the landing day is still before the landing instant.
    let ts = parse_date_from_string("2012-08-06").unwrap();
    assert_eq!(calculate_no_of_martian_sol_elapsed(ts), 0);
    assert_eq!(calculate_no_of_martian_sol_elapsed(LANDING_TIMESTAMP - 1), 0);
}
