use reminder_bot::clock::{clock, clock_time_text, CommandError};
use reminder_bot::models::UserData;
use reminder_bot::store::Store;

fn user_in(timezone: &str, store: &mut Store) -> UserData {
    UserData::create_with_dm_channel(
        42,
        String::from("someone"),
        900,
        "EN",
        timezone,
        store,
    )
}

// 2021-01-15 14:05:30 UTC, when London is on GMT (UTC+0).
const WINTER_AFTERNOON: i64 = 1_610_719_530;

// 2021-07-15 14:05:30 UTC, when London is on BST (UTC+1).
const SUMMER_AFTERNOON: i64 = 1_626_357_930;

#[test]
fn london_winter_twelve_hour() {
    let mut store = Store::new();
    let user = user_in("Europe/London", &mut store);
    let out = clock(&user, WINTER_AFTERNOON, "12").unwrap();
    assert_eq!(out, "02:05:30 PM");
}

#[test]
fn london_winter_twenty_four_hour() {
    let mut store = Store::new();
    let user = user_in("Europe/London", &mut store);
    let out = clock(&user, WINTER_AFTERNOON, "").unwrap();
    assert_eq!(out, "14:05:30");
}

#[test]
fn zone_offset_shifts_the_hour() {
    let mut store = Store::new();
    let user = user_in("Etc/GMT-1", &mut store);
    let out = clock(&user, WINTER_AFTERNOON, "").unwrap();
    assert_eq!(out, "15:05:30");
}

#[test]
fn zone_offset_depends_on_the_instant() {
    let mut store = Store::new();
    let user = user_in("Europe/London", &mut store);
    let out = clock(&user, SUMMER_AFTERNOON, "").unwrap();
    assert_eq!(out, "15:05:30");
}

#[test]
fn malformed_timezone_fails_the_command() {
    let mut store = Store::new();
    let user = user_in("Not/AZone", &mut store);
    assert_eq!(
        clock(&user, WINTER_AFTERNOON, ""),
        Err(CommandError::MalformedPreference)
    );
}

#[test]
fn only_the_exact_argument_selects_twelve_hour() {
    let mut store = Store::new();
    let user = user_in("Europe/London", &mut store);
    assert_eq!(clock(&user, WINTER_AFTERNOON, "12 ").unwrap(), "14:05:30");
    assert_eq!(clock(&user, WINTER_AFTERNOON, "24").unwrap(), "14:05:30");
}

#[test]
fn formatting_edges() {
    assert_eq!(clock_time_text(0, 0, false), "00:00:00");
    assert_eq!(clock_time_text(0, 0, true), "12:00:00 AM");
    assert_eq!(clock_time_text(86_399, 0, true), "11:59:59 PM");
    assert_eq!(clock_time_text(-1, 0, false), "23:59:59");
    assert_eq!(clock_time_text(12 * 3600, 0, true), "12:00:00 PM");
    assert_eq!(clock_time_text(11 * 3600 + 59 * 60 + 59, 0, true), "11:59:59 AM");
}
