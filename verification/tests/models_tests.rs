use reminder_bot::models::{ChannelData, GuildData, Timer, UserData};
use reminder_bot::store::Store;

#[test]
fn guild_is_created_once_and_found_after() {
    let mut store = Store::new();
    let g1 = GuildData::from_guild(5, String::from("a guild"), "$", &mut store);
    assert_eq!(g1.prefix, "$");
    assert_eq!(g1.name.as_deref(), Some("a guild"));
    let g2 = GuildData::from_guild(5, String::from("renamed"), "$", &mut store);
    assert_eq!(g2.id, g1.id);
    assert_eq!(g2.name.as_deref(), Some("renamed"));
    assert_eq!(store.guilds.len(), 1);
}

#[test]
fn guild_commit_changes_is_read_back() {
    let mut store = Store::new();
    let mut g = GuildData::from_guild(5, String::from("a guild"), "$", &mut store);
    g.prefix = String::from("!!");
    g.commit_changes(&mut store);
    let again = GuildData::from_guild(5, String::from("a guild"), "$", &mut store);
    assert_eq!(again.prefix, "!!");
}

#[test]
fn channel_is_created_with_permissive_defaults() {
    let mut store = Store::new();
    let c = ChannelData::from_channel(20, Some((5, String::from("general"))), &mut store);
    assert!(!c.blacklisted);
    assert!(!c.paused);
    assert_eq!(c.nudge, 0);
    assert_eq!(c.paused_until, None);
    let again = ChannelData::from_channel(20, None, &mut store);
    assert_eq!(again.id, c.id);
    assert_eq!(store.channels.len(), 1);
}

#[test]
fn channel_commit_changes_is_read_back() {
    let mut store = Store::new();
    let mut c = ChannelData::from_channel(20, None, &mut store);
    c.blacklisted = true;
    c.paused = true;
    c.paused_until = Some(1_610_719_530);
    c.commit_changes(&mut store);
    let again = ChannelData::from_channel(20, None, &mut store);
    assert!(again.blacklisted);
    assert!(again.paused);
    assert_eq!(again.paused_until, Some(1_610_719_530));
}

#[test]
fn unseen_user_gets_local_defaults() {
    let mut store = Store::new();
    assert_eq!(UserData::language_of(42, "EN", &mut store), "EN");
    assert_eq!(UserData::timezone_of(42, "UTC", &mut store), "UTC");
    assert!(!UserData::meridian_of(42, &mut store).fmt_str_short().contains("%p"));
}

#[test]
fn created_user_carries_defaults_and_dm_channel() {
    let mut store = Store::new();
    assert!(UserData::from_user(42, "EN", "UTC", &mut store).is_none());
    let u = UserData::create_with_dm_channel(
        42,
        String::from("someone"),
        900,
        "EN",
        "UTC",
        &mut store,
    );
    assert_eq!(u.user, 42);
    assert_eq!(u.language, "EN");
    assert_eq!(u.timezone, "UTC");
    assert!(!u.meridian_time);
    let found = UserData::from_user(42, "EN", "UTC", &mut store).unwrap();
    assert_eq!(found.id, u.id);
    assert_eq!(found.dm_channel, u.dm_channel);
    assert_eq!(store.users.len(), 1);
    assert_eq!(store.channels.len(), 1);
}

#[test]
fn duplicate_creation_converges_to_one_row() {
    let mut store = Store::new();
    let u1 = UserData::create_with_dm_channel(
        42,
        String::from("someone"),
        900,
        "EN",
        "UTC",
        &mut store,
    );
    let u2 = UserData::create_with_dm_channel(
        42,
        String::from("someone else"),
        900,
        "EN",
        "UTC",
        &mut store,
    );
    assert_eq!(store.users.len(), 1);
    assert_eq!(u1.id, u2.id);
    assert_eq!(u1.dm_channel, u2.dm_channel);
    assert_eq!(u2.name, "someone");
}

#[test]
fn user_commit_changes_is_read_back() {
    let mut store = Store::new();
    let mut u = UserData::create_with_dm_channel(
        42,
        String::from("someone"),
        900,
        "EN",
        "UTC",
        &mut store,
    );
    u.meridian_time = true;
    u.timezone = String::from("Europe/London");
    u.commit_changes(&mut store);
    let again = UserData::from_user(42, "EN", "UTC", &mut store).unwrap();
    assert!(again.meridian_time);
    assert_eq!(again.timezone().as_str(), "Europe/London");
    assert!(again.meridian().fmt_str().contains("%p"));
}

#[test]
fn meridian_format_strings() {
    let mut store = Store::new();
    let mut u = UserData::create_with_dm_channel(
        42,
        String::from("someone"),
        900,
        "EN",
        "UTC",
        &mut store,
    );
    assert_eq!(u.meridian().fmt_str(), "%Y-%m-%d %H:%M:%S");
    assert_eq!(u.meridian().fmt_str_short(), "%H:%M");
    u.meridian_time = true;
    assert_eq!(u.meridian().fmt_str(), "%Y-%m-%d %I:%M:%S %p");
    assert_eq!(u.meridian().fmt_str_short(), "%I:%M %p");
}

#[test]
fn timers_are_per_owner_in_insertion_order() {
    let mut store = Store::new();
    Timer::create(String::from("first"), 1, 100, &mut store);
    Timer::create(String::from("second"), 1, 200, &mut store);
    Timer::create(String::from("other"), 2, 300, &mut store);
    assert_eq!(Timer::count_from_owner(1, &mut store), 2);
    assert_eq!(Timer::count_from_owner(2, &mut store), 1);
    assert_eq!(Timer::count_from_owner(3, &mut store), 0);
    let mine = Timer::from_owner(1, &mut store);
    assert_eq!(mine.len(), 2);
    assert_eq!(mine[0].name, "first");
    assert_eq!(mine[0].start_time, 100);
    assert_eq!(mine[1].name, "second");
    assert_eq!(mine[1].start_time, 200);
}
