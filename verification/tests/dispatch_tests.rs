use reminder_bot::dispatch::{BotConfig, DispatchOutcome, Dispatcher, MessageEvent};
use reminder_bot::models::ChannelData;
use reminder_bot::registry::CommandRegistry;
use reminder_bot::store::Store;

fn standard_registry() -> CommandRegistry {
    let mut reg = CommandRegistry::new();
    reg.register(String::from("help"), true).unwrap();
    reg.register(String::from("info"), false).unwrap();
    reg.register(String::from("donate"), false).unwrap();
    reg.register(String::from("dashboard"), false).unwrap();
    reg.register(String::from("clock"), false).unwrap();
    reg.register(String::from("todo"), false).unwrap();
    reg.register(String::from("blacklist"), false).unwrap();
    reg.register(String::from("timezone"), false).unwrap();
    reg.register(String::from("prefix"), false).unwrap();
    reg.register(String::from("lang"), false).unwrap();
    reg.register(String::from("pause"), false).unwrap();
    reg
}

fn config() -> BotConfig {
    BotConfig {
        default_prefix: String::from("$"),
        local_language: String::from("EN"),
        local_timezone: String::from("UTC"),
        ignore_bots: true,
    }
}

fn event(guild: Option<u64>, channel: u64, author: u64, text: &str) -> MessageEvent {
    MessageEvent {
        author,
        author_name: String::from("someone"),
        author_is_bot: false,
        channel,
        channel_name: Some(String::from("general")),
        guild,
        text: String::from(text),
        timestamp: 1_610_719_530,
    }
}

#[test]
fn info_in_unseen_guild_reaches_invocation_with_empty_tail() {
    let mut store = Store::new();
    let mut d = Dispatcher::new(standard_registry(), config());
    let ev = event(Some(10), 20, 30, "$info");
    match d.on_message(&mut store, &ev) {
        DispatchOutcome::NeedDmChannel(pending) => {
            assert_eq!(d.registry.name_of(pending.command_index).as_str(), "info");
            assert_eq!(pending.args, "");
            assert!(!pending.channel.blacklisted);
            let inv = d
                .on_dm_channel(&mut store, pending, Some(900))
                .expect("dm channel supplied, so the command must run");
            assert_eq!(d.registry.name_of(inv.command_index).as_str(), "info");
            assert_eq!(inv.args, "");
            assert_eq!(inv.user.user, 30);
            assert_eq!(inv.user.language, "EN");
            assert_eq!(inv.user.timezone, "UTC");
        }
        _ => panic!("expected a dispatch waiting on the dm channel"),
    }
    assert_eq!(store.users.len(), 1);
}

#[test]
fn known_user_is_invoked_directly() {
    let mut store = Store::new();
    let mut d = Dispatcher::new(standard_registry(), config());
    let first = d.on_message(&mut store, &event(Some(10), 20, 30, "$info"));
    match first {
        DispatchOutcome::NeedDmChannel(p) => {
            d.on_dm_channel(&mut store, p, Some(900)).unwrap();
        }
        _ => panic!("first contact should wait on the dm channel"),
    }
    match d.on_message(&mut store, &event(Some(10), 20, 30, "$info again")) {
        DispatchOutcome::Invoke(inv) => {
            assert_eq!(inv.args, "again");
            assert_eq!(inv.user.user, 30);
        }
        _ => panic!("second contact should invoke directly"),
    }
    assert_eq!(store.users.len(), 1);
}

#[test]
fn concurrent_first_contact_converges_to_one_row() {
    let mut store = Store::new();
    let mut d = Dispatcher::new(standard_registry(), config());
    let pending_first = match d.on_message(&mut store, &event(Some(10), 20, 30, "$info")) {
        DispatchOutcome::NeedDmChannel(p) => p,
        _ => panic!("expected a pending dispatch"),
    };
    let pending_second = match d.on_message(&mut store, &event(Some(10), 20, 30, "$help")) {
        DispatchOutcome::NeedDmChannel(p) => p,
        _ => panic!("expected a pending dispatch"),
    };
    let inv1 = d.on_dm_channel(&mut store, pending_first, Some(900)).unwrap();
    let inv2 = d.on_dm_channel(&mut store, pending_second, Some(900)).unwrap();
    assert_eq!(store.users.len(), 1);
    assert_eq!(inv1.user.id, inv2.user.id);
    assert_eq!(inv1.user.dm_channel, inv2.user.dm_channel);
}

#[test]
fn gateway_failure_aborts_without_row() {
    let mut store = Store::new();
    let mut d = Dispatcher::new(standard_registry(), config());
    let p = match d.on_message(&mut store, &event(Some(10), 20, 30, "$info")) {
        DispatchOutcome::NeedDmChannel(p) => p,
        _ => panic!("expected a pending dispatch"),
    };
    assert!(d.on_dm_channel(&mut store, p, None).is_none());
    assert_eq!(store.users.len(), 0);
}

fn blacklist_channel(store: &mut Store, channel: u64) {
    let mut data = ChannelData::from_channel(channel, None, store);
    data.blacklisted = true;
    data.commit_changes(store);
}

#[test]
fn exempt_command_runs_in_blacklisted_channel() {
    let mut store = Store::new();
    let mut d = Dispatcher::new(standard_registry(), config());
    blacklist_channel(&mut store, 20);
    match d.on_message(&mut store, &event(Some(10), 20, 30, "$help")) {
        DispatchOutcome::NeedDmChannel(p) => {
            assert_eq!(d.registry.name_of(p.command_index).as_str(), "help");
        }
        _ => panic!("an exempt command must proceed in a blacklisted channel"),
    }
}

#[test]
fn non_exempt_command_is_suppressed_in_blacklisted_channel() {
    let mut store = Store::new();
    let mut d = Dispatcher::new(standard_registry(), config());
    blacklist_channel(&mut store, 20);
    match d.on_message(&mut store, &event(Some(10), 20, 30, "$info")) {
        DispatchOutcome::PermissionDenied => {}
        _ => panic!("a non-exempt command must be suppressed in a blacklisted channel"),
    }
    assert_eq!(store.users.len(), 0);
}

#[test]
fn bot_authors_are_ignored() {
    let mut store = Store::new();
    let mut d = Dispatcher::new(standard_registry(), config());
    let mut ev = event(Some(10), 20, 30, "$info");
    ev.author_is_bot = true;
    match d.on_message(&mut store, &ev) {
        DispatchOutcome::IgnoredAuthor => {}
        _ => panic!("automated authors must be ignored"),
    }
    assert_eq!(store.reads, 0);
}

#[test]
fn non_prefixed_message_produces_no_dispatch() {
    let mut store = Store::new();
    let mut d = Dispatcher::new(standard_registry(), config());
    match d.on_message(&mut store, &event(Some(10), 20, 30, "hello there")) {
        DispatchOutcome::NoMatch => {}
        _ => panic!("a plain message is not a command"),
    }
    match d.on_message(&mut store, &event(None, 21, 30, "!info")) {
        DispatchOutcome::NoMatch => {}
        _ => panic!("a direct message is matched against the default prefix"),
    }
    assert_eq!(store.users.len(), 0);
    assert_eq!(store.channels.len(), 0);
}

#[test]
fn direct_message_uses_default_prefix() {
    let mut store = Store::new();
    let mut d = Dispatcher::new(standard_registry(), config());
    match d.on_message(&mut store, &event(None, 21, 30, "$help")) {
        DispatchOutcome::NeedDmChannel(p) => {
            assert_eq!(d.registry.name_of(p.command_index).as_str(), "help");
        }
        _ => panic!("the default prefix applies to direct messages"),
    }
}
