use reminder_bot::models::GuildData;
use reminder_bot::prefix::{set_guild_prefix, PrefixCache};
use reminder_bot::store::Store;

#[test]
fn unseen_guild_resolves_default() {
    let mut store = Store::new();
    let mut cache = PrefixCache::new();
    let p = GuildData::prefix_from_id(Some(5), &mut cache, &mut store, "$");
    assert_eq!(p, "$");
}

#[test]
fn repeated_resolution_reads_store_once() {
    let mut store = Store::new();
    let mut cache = PrefixCache::new();
    assert_eq!(store.reads, 0);
    let first = GuildData::prefix_from_id(Some(5), &mut cache, &mut store, "$");
    assert_eq!(first, "$");
    assert_eq!(store.reads, 1);
    let second = GuildData::prefix_from_id(Some(5), &mut cache, &mut store, "$");
    assert_eq!(second, "$");
    assert_eq!(store.reads, 1);
    let third = GuildData::prefix_from_id(Some(5), &mut cache, &mut store, "$");
    assert_eq!(third, "$");
    assert_eq!(store.reads, 1);
}

#[test]
fn direct_message_resolves_default_without_store_read() {
    let mut store = Store::new();
    let mut cache = PrefixCache::new();
    let p = GuildData::prefix_from_id(None, &mut cache, &mut store, "$");
    assert_eq!(p, "$");
    assert_eq!(store.reads, 0);
}

#[test]
fn stored_prefix_is_resolved() {
    let mut store = Store::new();
    let mut cache = PrefixCache::new();
    set_guild_prefix(&mut store, &mut cache, 7, String::from("!"));
    let mut fresh = PrefixCache::new();
    let p = GuildData::prefix_from_id(Some(7), &mut fresh, &mut store, "$");
    assert_eq!(p, "!");
}

#[test]
fn prefix_update_is_visible_to_next_resolution() {
    let mut store = Store::new();
    let mut cache = PrefixCache::new();
    let before = GuildData::prefix_from_id(Some(9), &mut cache, &mut store, "$");
    assert_eq!(before, "$");
    set_guild_prefix(&mut store, &mut cache, 9, String::from("%"));
    let after = GuildData::prefix_from_id(Some(9), &mut cache, &mut store, "$");
    assert_eq!(after, "%");
}

#[test]
fn update_does_not_disturb_other_guilds() {
    let mut store = Store::new();
    let mut cache = PrefixCache::new();
    set_guild_prefix(&mut store, &mut cache, 1, String::from("!"));
    set_guild_prefix(&mut store, &mut cache, 2, String::from("?"));
    assert_eq!(
        GuildData::prefix_from_id(Some(1), &mut cache, &mut store, "$"),
        "!"
    );
    assert_eq!(
        GuildData::prefix_from_id(Some(2), &mut cache, &mut store, "$"),
        "?"
    );
}
