use vstd::prelude::*;

verus! {

use crate::prefix::{
    cache_has, cache_preserves_others, cache_val, resolve_consults_store, resolved_prefix,
    PrefixCache,
};
use crate::store::{
    channel_row, effective, guild_id_ix, guild_row, has_channel, has_guild, has_guild_id,
    has_user, has_user_id, opt_text, sat_inc, timer_like, timers_of, user_id_ix, user_row, Store,
};

/// A guild's settings record: internal row id, name, and command prefix.
pub struct GuildData {
    pub id: u32,
    pub name: Option<String>,
    pub prefix: String,
}

/// A channel's settings record. `paused_until` is a timestamp in seconds
/// since the Unix epoch.
pub struct ChannelData {
    pub id: u32,
    pub name: Option<String>,
    pub nudge: i16,
    pub blacklisted: bool,
    pub webhook_id: Option<u64>,
    pub webhook_token: Option<String>,
    pub paused: bool,
    pub paused_until: Option<i64>,
}

/// A user's identity and preference record, with effective (never null)
/// language and timezone values.
pub struct UserData {
    pub id: u32,
    pub user: u64,
    pub name: String,
    pub dm_channel: u32,
    pub language: String,
    pub timezone: String,
    pub meridian_time: bool,
}

/// A user's preference for 12-hour (AM/PM) or 24-hour time display.
pub struct MeridianType(pub(crate) bool);

/// A named stopwatch owned by a user; `start_time` is a timestamp in seconds
/// since the Unix epoch.
pub struct Timer {
    pub name: String,
    pub start_time: i64,
    pub owner: u64,
}

impl MeridianType {
    /// True when the preference is for 12-hour (AM/PM) display.
    pub closed spec fn is_twelve_hour(self) -> bool {
        self.0
    }

    pub fn fmt_str(&self) -> (r: &str)
        ensures
            self.is_twelve_hour() ==> r@ == "%Y-%m-%d %I:%M:%S %p"@,
            !self.is_twelve_hour() ==> r@ == "%Y-%m-%d %H:%M:%S"@,
    {
        if self.0 {
            "%Y-%m-%d %I:%M:%S %p"
        } else {
            "%Y-%m-%d %H:%M:%S"
        }
    }

    pub fn fmt_str_short(&self) -> (r: &str)
        ensures
            self.is_twelve_hour() ==> r@ == "%I:%M %p"@,
            !self.is_twelve_hour() ==> r@ == "%H:%M"@,
    {
        if self.0 {
            "%I:%M %p"
        } else {
            "%H:%M"
        }
    }
}

impl GuildData {
    /// Resolves the effective command prefix for a message: the cached value
    /// on a hit; otherwise the stored row's prefix (cached on the way out),
    /// or the configured default when the guild has no row yet (also cached,
    /// so repeated resolutions read the store at most once). A direct
    /// message (no guild) resolves to the default without touching cache or
    /// store.
    pub fn prefix_from_id(
        guild_id_opt: Option<u64>,
        cache: &mut PrefixCache,
        store: &mut Store,
        default_prefix: &str,
    ) -> (r: String)
        requires
            old(cache).wf(),
            old(store).wf(),
        ensures
            final(cache).wf(),
            final(store).wf(),
            final(store).same_tables(*old(store)),
            r@ == resolved_prefix(
                old(cache).entries@,
                old(store).guilds@,
                default_prefix@,
                guild_id_opt,
            ),
            !resolve_consults_store(old(cache).entries@, guild_id_opt) ==> *final(store) == *old(store) && *final(cache) == *old(cache),
            resolve_consults_store(old(cache).entries@, guild_id_opt) ==> final(store).reads
                == sat_inc(old(store).reads),
            guild_id_opt matches Some(g) ==> cache_has(final(cache).entries@, g) && cache_val(
                final(cache).entries@,
                g,
            ) == r@ && cache_preserves_others(old(cache).entries@, final(cache).entries@, g),
    {
        match guild_id_opt {
            Some(g) => {
                let hit = cache.get(g);
                match hit {
                    Some(p) => p,
                    None => {
                        let row = store.select_guild(g);
                        let p = match row {
                            Some(gd) => gd.prefix,
                            None => String::from_str(default_prefix),
                        };
                        cache.insert(g, p.clone());
                        p
                    },
                }
            },
            None => String::from_str(default_prefix),
        }
    }

    /// The find-or-create protocol for a guild row: a keyed read, then on
    /// not-found an insert of the defaults and an unconditional re-read, so
    /// the caller always observes a fully populated row.
    pub fn from_guild(guild: u64, guild_name: String, default_prefix: &str, store: &mut Store)
        -> (r: GuildData)
        requires
            old(store).wf(),
            old(store).next_id < u32::MAX,
        ensures
            final(store).wf(),
            final(store).channels@ == old(store).channels@,
            final(store).users@ == old(store).users@,
            final(store).timers@ == old(store).timers@,
            opt_text(r.name) == Some(guild_name@),
            has_guild(final(store).guilds@, guild),
            has_guild(old(store).guilds@, guild) ==> {
                &&& final(store).guilds@ == old(store).guilds@
                &&& final(store).next_id == old(store).next_id
                &&& r.id == guild_row(old(store).guilds@, guild).id
                &&& r.prefix@ == guild_row(old(store).guilds@, guild).prefix@
            },
            !has_guild(old(store).guilds@, guild) ==> {
                &&& final(store).guilds@.len() == old(store).guilds@.len() + 1
                &&& (forall|j: int|
                    0 <= j < old(store).guilds@.len() ==> final(store).guilds@[j] == old(store).guilds@[j])
                &&& final(store).guilds@.last().guild == guild
                &&& final(store).guilds@.last().id == old(store).next_id
                &&& opt_text(final(store).guilds@.last().name) == Some(guild_name@)
                &&& final(store).guilds@.last().prefix@ == default_prefix@
                &&& final(store).next_id == old(store).next_id + 1
                &&& r.id == old(store).next_id
                &&& r.prefix@ == default_prefix@
            },
    {
        let first = store.select_guild(guild);
        match first {
            Some(g) => GuildData { id: g.id, name: Some(guild_name), prefix: g.prefix },
            None => {
                store.insert_guild(guild, Some(guild_name.clone()), String::from_str(default_prefix));
                proof {
                    let n = old(store).guilds@.len() as int;
                    assert(store.guilds@[n].guild == guild);
                    crate::store::lemma_guild_key_at(store.guilds@, n);
                }
                let again = store.select_guild(guild);
                match again {
                    Some(g2) => GuildData { id: g2.id, name: Some(guild_name), prefix: g2.prefix },
                    None => {
                        proof {
                            assert(false);
                        }
                        GuildData { id: 0, name: None, prefix: String::new() }
                    },
                }
            },
        }
    }

    /// Writes this record's name and prefix back to its stored row.
    pub fn commit_changes(&self, store: &mut Store)
        requires
            old(store).wf(),
        ensures
            final(store).wf(),
            final(store).reads == old(store).reads,
            final(store).channels@ == old(store).channels@,
            final(store).users@ == old(store).users@,
            final(store).timers@ == old(store).timers@,
            final(store).next_id == old(store).next_id,
            final(store).guilds@.len() == old(store).guilds@.len(),
            !has_guild_id(old(store).guilds@, self.id) ==> final(store).guilds@ == old(store).guilds@,
            has_guild_id(old(store).guilds@, self.id) ==> {
                let ix = guild_id_ix(old(store).guilds@, self.id);
                &&& (forall|j: int|
                    0 <= j < old(store).guilds@.len() && j != ix ==> final(store).guilds@[j]
                        == old(store).guilds@[j])
                &&& final(store).guilds@[ix].guild == old(store).guilds@[ix].guild
                &&& final(store).guilds@[ix].id == self.id
                &&& opt_text(final(store).guilds@[ix].name) == opt_text(self.name)
                &&& final(store).guilds@[ix].prefix@ == self.prefix@
            },
    {
        let name = match &self.name {
            Some(s) => Some(s.clone()),
            None => None,
        };
        store.update_guild(self.id, name, self.prefix.clone());
    }
}

impl ChannelData {
    /// The find-or-create protocol for a channel row: a keyed read, then on
    /// not-found an insert (ignoring a concurrent duplicate) with the
    /// channel's guild reference and name, then an unconditional re-read.
    /// `channel_info` carries the guild's platform id and the channel's name
    /// when the channel belongs to a guild; a direct-message channel has
    /// neither.
    pub fn from_channel(channel: u64, channel_info: Option<(u64, String)>, store: &mut Store)
        -> (r: ChannelData)
        requires
            old(store).wf(),
            old(store).next_id < u32::MAX,
        ensures
            final(store).wf(),
            final(store).guilds@ == old(store).guilds@,
            final(store).users@ == old(store).users@,
            final(store).timers@ == old(store).timers@,
            has_channel(final(store).channels@, channel),
            has_channel(old(store).channels@, channel) ==> {
                let row = channel_row(old(store).channels@, channel);
                &&& final(store).channels@ == old(store).channels@
                &&& final(store).next_id == old(store).next_id
                &&& r.id == row.id
                &&& opt_text(r.name) == opt_text(row.name)
                &&& r.nudge == row.nudge
                &&& r.blacklisted == row.blacklisted
                &&& r.webhook_id == row.webhook_id
                &&& opt_text(r.webhook_token) == opt_text(row.webhook_token)
                &&& r.paused == row.paused
                &&& r.paused_until == row.paused_until
            },
            !has_channel(old(store).channels@, channel) ==> {
                &&& final(store).channels@.len() == old(store).channels@.len() + 1
                &&& (forall|j: int|
                    0 <= j < old(store).channels@.len() ==> final(store).channels@[j] == old(store).channels@[j])
                &&& final(store).channels@.last().channel == channel
                &&& final(store).channels@.last().id == old(store).next_id
                &&& opt_text(final(store).channels@.last().name) == (match channel_info {
                    Some(info) => Some(info.1@),
                    None => None,
                })
                &&& final(store).channels@.last().guild_id == (match channel_info {
                    Some(info) => if has_guild(old(store).guilds@, info.0) {
                        Some(guild_row(old(store).guilds@, info.0).id)
                    } else {
                        None
                    },
                    None => None,
                })
                &&& final(store).channels@.last().blacklisted == false
                &&& final(store).channels@.last().nudge == 0
                &&& final(store).channels@.last().paused == false
                &&& final(store).channels@.last().paused_until is None
                &&& final(store).channels@.last().webhook_id is None
                &&& final(store).channels@.last().webhook_token is None
                &&& final(store).next_id == old(store).next_id + 1
                &&& r.id == old(store).next_id
                &&& opt_text(r.name) == opt_text(final(store).channels@.last().name)
                &&& r.blacklisted == false
                &&& r.nudge == 0
                &&& r.paused == false
                &&& r.paused_until is None
                &&& r.webhook_id is None
                &&& r.webhook_token is None
            },
    {
        let first = store.select_channel(channel);
        match first {
            Some(c) => c,
            None => {
                let (guild_id, channel_name): (Option<u32>, Option<String>) = match channel_info {
                    Some(info) => (store.guild_internal_id(info.0), Some(info.1)),
                    None => (None, None),
                };
                store.insert_channel(channel, channel_name, guild_id);
                proof {
                    let n = old(store).channels@.len() as int;
                    assert(store.channels@[n].channel == channel);
                    crate::store::lemma_channel_key_at(store.channels@, n);
                }
                let again = store.select_channel(channel);
                match again {
                    Some(c) => c,
                    None => {
                        proof {
                            assert(false);
                        }
                        ChannelData {
                            id: 0,
                            name: None,
                            nudge: 0,
                            blacklisted: false,
                            webhook_id: None,
                            webhook_token: None,
                            paused: false,
                            paused_until: None,
                        }
                    },
                }
            },
        }
    }

    /// Writes this record's mutable fields back to its stored row.
    pub fn commit_changes(&self, store: &mut Store)
        requires
            old(store).wf(),
        ensures
            final(store).wf(),
            final(store).reads == old(store).reads,
            final(store).guilds@ == old(store).guilds@,
            final(store).users@ == old(store).users@,
            final(store).timers@ == old(store).timers@,
            final(store).next_id == old(store).next_id,
            final(store).channels@.len() == old(store).channels@.len(),
            !crate::store::has_channel_id(old(store).channels@, self.id) ==> final(store).channels@ == old(store).channels@,
            crate::store::has_channel_id(old(store).channels@, self.id) ==> {
                let ix = crate::store::channel_id_ix(old(store).channels@, self.id);
                &&& (forall|j: int|
                    0 <= j < old(store).channels@.len() && j != ix ==> final(store).channels@[j]
                        == old(store).channels@[j])
                &&& final(store).channels@[ix].channel == old(store).channels@[ix].channel
                &&& final(store).channels@[ix].id == self.id
                &&& opt_text(final(store).channels@[ix].name) == opt_text(self.name)
                &&& final(store).channels@[ix].blacklisted == self.blacklisted
                &&& final(store).channels@[ix].paused == self.paused
                &&& final(store).channels@[ix].paused_until == self.paused_until
            },
    {
        store.update_channel(self);
    }
}

impl UserData {
    /// The stored language of a user, presented effectively: the configured
    /// local default when the user has no row or a null column.
    pub fn language_of(user: u64, local_language: &str, store: &mut Store) -> (r: String)
        requires
            old(store).wf(),
        ensures
            final(store).same_tables(*old(store)),
            final(store).wf(),
            final(store).reads == sat_inc(old(store).reads),
            r@ == if has_user(old(store).users@, user) {
                effective(opt_text(user_row(old(store).users@, user).language), local_language@)
            } else {
                local_language@
            },
    {
        let prefs = store.select_user_prefs(user);
        match prefs {
            Some(p) => match p.0 {
                Some(l) => l,
                None => String::from_str(local_language),
            },
            None => String::from_str(local_language),
        }
    }

    /// The stored timezone name of a user, presented effectively.
    pub fn timezone_of(user: u64, local_timezone: &str, store: &mut Store) -> (r: String)
        requires
            old(store).wf(),
        ensures
            final(store).same_tables(*old(store)),
            final(store).wf(),
            final(store).reads == sat_inc(old(store).reads),
            r@ == if has_user(old(store).users@, user) {
                effective(opt_text(user_row(old(store).users@, user).timezone), local_timezone@)
            } else {
                local_timezone@
            },
    {
        let prefs = store.select_user_prefs(user);
        match prefs {
            Some(p) => match p.1 {
                Some(t) => t,
                None => String::from_str(local_timezone),
            },
            None => String::from_str(local_timezone),
        }
    }

    /// The stored meridian preference of a user; 24-hour display when the
    /// user has no row.
    pub fn meridian_of(user: u64, store: &mut Store) -> (r: MeridianType)
        requires
            old(store).wf(),
        ensures
            final(store).same_tables(*old(store)),
            final(store).wf(),
            final(store).reads == sat_inc(old(store).reads),
            r.is_twelve_hour() == (has_user(old(store).users@, user) && user_row(
                old(store).users@,
                user,
            ).meridian_time),
    {
        let prefs = store.select_user_prefs(user);
        match prefs {
            Some(p) => MeridianType(p.2),
            None => MeridianType(false),
        }
    }

    /// The keyed-read phase of the find-or-create protocol for a user:
    /// `None` means the user has no row yet, and creation must wait for the
    /// gateway to supply a direct-message channel (see
    /// `create_with_dm_channel`).
    pub fn from_user(user: u64, local_language: &str, local_timezone: &str, store: &mut Store)
        -> (r: Option<UserData>)
        requires
            old(store).wf(),
        ensures
            final(store).same_tables(*old(store)),
            final(store).wf(),
            final(store).reads == sat_inc(old(store).reads),
            r is Some <==> has_user(old(store).users@, user),
            r matches Some(u) ==> {
                let row = user_row(old(store).users@, user);
                &&& u.id == row.id
                &&& u.user == row.user
                &&& u.name@ == row.name@
                &&& u.dm_channel == row.dm_channel
                &&& u.language@ == effective(opt_text(row.language), local_language@)
                &&& u.timezone@ == effective(opt_text(row.timezone), local_timezone@)
                &&& u.meridian_time == row.meridian_time
            },
    {
        store.select_user_effective(user, local_language, local_timezone)
    }

    /// The creation phase of the find-or-create protocol, run after the
    /// gateway supplied the user's direct-message channel: insert the
    /// channel reference (ignoring a concurrent duplicate), insert the user
    /// row with the local defaults (a concurrent duplicate is absorbed by
    /// the store's uniqueness constraint), then re-read unconditionally, so
    /// the caller observes the one canonical row whichever attempt won.
    pub fn create_with_dm_channel(
        user: u64,
        user_name: String,
        dm_channel: u64,
        local_language: &str,
        local_timezone: &str,
        store: &mut Store,
    ) -> (r: UserData)
        requires
            old(store).wf(),
            old(store).next_id < u32::MAX - 1,
        ensures
            final(store).wf(),
            final(store).guilds@ == old(store).guilds@,
            final(store).timers@ == old(store).timers@,
            has_channel(final(store).channels@, dm_channel),
            !has_channel(old(store).channels@, dm_channel) ==> {
                &&& final(store).channels@.len() == old(store).channels@.len() + 1
                &&& (forall|j: int|
                    0 <= j < old(store).channels@.len() ==> final(store).channels@[j] == old(store).channels@[j])
                &&& final(store).channels@.last().channel == dm_channel
            },
            has_channel(old(store).channels@, dm_channel) ==> final(store).channels@ == old(store).channels@,
            has_user(final(store).users@, user),
            has_user(old(store).users@, user) ==> crate::store::user_count(
                final(store).users@,
                user,
            ) == crate::store::user_count(old(store).users@, user),
            !has_user(old(store).users@, user) ==> crate::store::user_count(
                final(store).users@,
                user,
            ) == crate::store::user_count(old(store).users@, user) + 1,
            !has_user(old(store).users@, user) ==> {
                &&& final(store).users@.len() == old(store).users@.len() + 1
                &&& (forall|j: int|
                    0 <= j < old(store).users@.len() ==> final(store).users@[j] == old(store).users@[j])
                &&& final(store).users@.last().user == user
                &&& final(store).users@.last().name@ == user_name@
                &&& final(store).users@.last().dm_channel == channel_row(
                    final(store).channels@,
                    dm_channel,
                ).id
                &&& opt_text(final(store).users@.last().language) == Some(local_language@)
                &&& opt_text(final(store).users@.last().timezone) == Some(local_timezone@)
                &&& final(store).users@.last().meridian_time == false
            },
            has_user(old(store).users@, user) ==> final(store).users@ == old(store).users@,
            ({
                let row = user_row(final(store).users@, user);
                &&& r.id == row.id
                &&& r.user == user
                &&& r.name@ == row.name@
                &&& r.dm_channel == row.dm_channel
                &&& r.language@ == effective(opt_text(row.language), local_language@)
                &&& r.timezone@ == effective(opt_text(row.timezone), local_timezone@)
                &&& r.meridian_time == row.meridian_time
            }),
    {
        store.insert_channel(dm_channel, None, None);
        proof {
            if !has_channel(old(store).channels@, dm_channel) {
                let n = old(store).channels@.len() as int;
                assert(store.channels@[n].channel == dm_channel);
                crate::store::lemma_channel_key_at(store.channels@, n);
            } else {
                let cx = crate::store::channel_ix(old(store).channels@, dm_channel);
                assert(old(store).channels@[cx].channel == dm_channel);
                assert(store.channels@[cx].channel == dm_channel);
                assert(has_channel(store.channels@, dm_channel));
            }
        }
        let dm_internal = store.channel_internal_id(dm_channel);
        let dm_id = match dm_internal {
            Some(id) => id,
            None => {
                proof {
                    assert(false);
                }
                0
            },
        };
        let inserted = store.insert_user(
            user,
            user_name,
            dm_id,
            String::from_str(local_language),
            String::from_str(local_timezone),
        );
        proof {
            if inserted {
                crate::laws::lemma_user_count_push(
                    old(store).users@,
                    store.users@.last(),
                    user,
                );
                assert(store.users@ == old(store).users@.push(store.users@.last()));
                let n = (store.users@.len() - 1) as int;
                assert(store.users@[n].user == user);
                crate::store::lemma_user_key_at(store.users@, n);
            } else {
                let ux = crate::store::user_ix(old(store).users@, user);
                assert(old(store).users@[ux].user == user);
                assert(store.users@[ux].user == user);
                assert(has_user(store.users@, user));
            }
        }
        let reread = store.select_user_effective(user, local_language, local_timezone);
        match reread {
            Some(u) => u,
            None => {
                proof {
                    assert(false);
                }
                UserData {
                    id: 0,
                    user,
                    name: String::new(),
                    dm_channel: 0,
                    language: String::new(),
                    timezone: String::new(),
                    meridian_time: false,
                }
            },
        }
    }

    /// Writes this record's mutable fields back to its stored row; the
    /// effective language and timezone become the stored values.
    pub fn commit_changes(&self, store: &mut Store)
        requires
            old(store).wf(),
        ensures
            final(store).wf(),
            final(store).reads == old(store).reads,
            final(store).guilds@ == old(store).guilds@,
            final(store).channels@ == old(store).channels@,
            final(store).timers@ == old(store).timers@,
            final(store).next_id == old(store).next_id,
            final(store).users@.len() == old(store).users@.len(),
            !has_user_id(old(store).users@, self.id) ==> final(store).users@ == old(store).users@,
            has_user_id(old(store).users@, self.id) ==> {
                let ix = user_id_ix(old(store).users@, self.id);
                &&& (forall|j: int|
                    0 <= j < old(store).users@.len() && j != ix ==> final(store).users@[j] == old(store).users@[j])
                &&& final(store).users@[ix].user == old(store).users@[ix].user
                &&& final(store).users@[ix].id == self.id
                &&& final(store).users@[ix].name@ == self.name@
                &&& opt_text(final(store).users@[ix].language) == Some(self.language@)
                &&& opt_text(final(store).users@[ix].timezone) == Some(self.timezone@)
                &&& final(store).users@[ix].meridian_time == self.meridian_time
            },
    {
        store.update_user(self);
    }

    /// The user's effective timezone name.
    pub fn timezone(&self) -> (r: &String)
        ensures
            r@ == self.timezone@,
    {
        &self.timezone
    }

    pub fn meridian(&self) -> (r: MeridianType)
        ensures
            r.is_twelve_hour() == self.meridian_time,
    {
        MeridianType(self.meridian_time)
    }
}

impl Timer {
    /// The timers owned by a user, in insertion order.
    pub fn from_owner(owner: u64, store: &mut Store) -> (r: Vec<Timer>)
        requires
            old(store).wf(),
        ensures
            final(store).same_tables(*old(store)),
            final(store).wf(),
            final(store).reads == sat_inc(old(store).reads),
            r@.len() == timers_of(old(store).timers@, owner).len(),
            forall|k: int|
                0 <= k < r@.len() ==> timer_like(r@[k], timers_of(old(store).timers@, owner)[k]),
    {
        store.timers_for_owner(owner)
    }

    /// How many timers a user owns.
    pub fn count_from_owner(owner: u64, store: &mut Store) -> (r: u32)
        requires
            old(store).wf(),
        ensures
            final(store).same_tables(*old(store)),
            final(store).wf(),
            final(store).reads == sat_inc(old(store).reads),
            r as nat == timers_of(old(store).timers@, owner).len(),
    {
        store.count_timers(owner)
    }

    /// Creates a timer starting at the given instant.
    pub fn create(name: String, owner: u64, now: i64, store: &mut Store)
        requires
            old(store).wf(),
            old(store).timers@.len() < 0xffff_ffff,
        ensures
            final(store).wf(),
            final(store).reads == old(store).reads,
            final(store).guilds@ == old(store).guilds@,
            final(store).channels@ == old(store).channels@,
            final(store).users@ == old(store).users@,
            final(store).next_id == old(store).next_id,
            final(store).timers@ == old(store).timers@.push(
                Timer { name, start_time: now, owner },
            ),
    {
        store.insert_timer(name, owner, now);
    }
}

} // verus!
