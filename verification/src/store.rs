use vstd::prelude::*;

verus! {

use crate::models::{ChannelData, GuildData, Timer, UserData};

/// View of an optional text column as an optional character sequence.
pub open spec fn opt_text(o: Option<String>) -> Option<Seq<char>> {
    match o {
        Some(s) => Some(s@),
        None => None,
    }
}

/// The effective value of a nullable stored column: the stored value when
/// present, otherwise the configured default.
pub open spec fn effective(stored: Option<Seq<char>>, dflt: Seq<char>) -> Seq<char> {
    match stored {
        Some(s) => s,
        None => dflt,
    }
}

/// Saturating increment, used for the store's read-access counter.
pub open spec fn sat_inc(n: u64) -> u64 {
    if n < u64::MAX {
        (n + 1) as u64
    } else {
        n
    }
}

/// A persisted guild row: platform id, internal id, name and command prefix.
pub struct GuildRow {
    pub guild: u64,
    pub id: u32,
    pub name: Option<String>,
    pub prefix: String,
}

/// A persisted channel row. `paused_until` is a timestamp in seconds since
/// the Unix epoch.
pub struct ChannelRow {
    pub channel: u64,
    pub id: u32,
    pub name: Option<String>,
    pub guild_id: Option<u32>,
    pub nudge: i16,
    pub blacklisted: bool,
    pub webhook_id: Option<u64>,
    pub webhook_token: Option<String>,
    pub paused: bool,
    pub paused_until: Option<i64>,
}

/// A persisted user row. `language` and `timezone` are nullable in storage;
/// callers always observe effective values (see `effective`).
pub struct UserRow {
    pub user: u64,
    pub id: u32,
    pub name: String,
    pub dm_channel: u32,
    pub language: Option<String>,
    pub timezone: Option<String>,
    pub meridian_time: bool,
}

pub open spec fn has_guild(rows: Seq<GuildRow>, guild: u64) -> bool {
    exists|i: int| 0 <= i < rows.len() && rows[i].guild == guild
}

pub open spec fn guild_ix(rows: Seq<GuildRow>, guild: u64) -> int {
    choose|i: int| 0 <= i < rows.len() && rows[i].guild == guild
}

pub open spec fn guild_row(rows: Seq<GuildRow>, guild: u64) -> GuildRow {
    rows[guild_ix(rows, guild)]
}

pub open spec fn has_guild_id(rows: Seq<GuildRow>, id: u32) -> bool {
    exists|i: int| 0 <= i < rows.len() && rows[i].id == id
}

pub open spec fn guild_id_ix(rows: Seq<GuildRow>, id: u32) -> int {
    choose|i: int| 0 <= i < rows.len() && rows[i].id == id
}

pub open spec fn has_channel(rows: Seq<ChannelRow>, channel: u64) -> bool {
    exists|i: int| 0 <= i < rows.len() && rows[i].channel == channel
}

pub open spec fn channel_ix(rows: Seq<ChannelRow>, channel: u64) -> int {
    choose|i: int| 0 <= i < rows.len() && rows[i].channel == channel
}

pub open spec fn channel_row(rows: Seq<ChannelRow>, channel: u64) -> ChannelRow {
    rows[channel_ix(rows, channel)]
}

pub open spec fn has_channel_id(rows: Seq<ChannelRow>, id: u32) -> bool {
    exists|i: int| 0 <= i < rows.len() && rows[i].id == id
}

pub open spec fn channel_id_ix(rows: Seq<ChannelRow>, id: u32) -> int {
    choose|i: int| 0 <= i < rows.len() && rows[i].id == id
}

pub open spec fn has_user(rows: Seq<UserRow>, user: u64) -> bool {
    exists|i: int| 0 <= i < rows.len() && rows[i].user == user
}

pub open spec fn user_ix(rows: Seq<UserRow>, user: u64) -> int {
    choose|i: int| 0 <= i < rows.len() && rows[i].user == user
}

pub open spec fn user_row(rows: Seq<UserRow>, user: u64) -> UserRow {
    rows[user_ix(rows, user)]
}

pub open spec fn has_user_id(rows: Seq<UserRow>, id: u32) -> bool {
    exists|i: int| 0 <= i < rows.len() && rows[i].id == id
}

pub open spec fn user_id_ix(rows: Seq<UserRow>, id: u32) -> int {
    choose|i: int| 0 <= i < rows.len() && rows[i].id == id
}

/// The number of user rows carrying the given platform id.
pub open spec fn user_count(rows: Seq<UserRow>, user: u64) -> nat
    decreases rows.len(),
{
    if rows.len() == 0 {
        0
    } else {
        user_count(rows.drop_last(), user) + if rows.last().user == user {
            1nat
        } else {
            0nat
        }
    }
}

/// The timer rows owned by the given user, in insertion order.
pub open spec fn timers_of(rows: Seq<Timer>, owner: u64) -> Seq<Timer>
    decreases rows.len(),
{
    if rows.len() == 0 {
        Seq::empty()
    } else {
        let rest = timers_of(rows.drop_last(), owner);
        if rows.last().owner == owner {
            rest.push(rows.last())
        } else {
            rest
        }
    }
}

pub open spec fn timer_like(a: Timer, b: Timer) -> bool {
    a.name@ == b.name@ && a.start_time == b.start_time && a.owner == b.owner
}

/// The effect of inserting a user row under the store's uniqueness
/// constraint: the insert is absorbed when a row with the same platform id
/// already exists.
pub open spec fn user_insert_result(rows: Seq<UserRow>, row: UserRow) -> Seq<UserRow> {
    if has_user(rows, row.user) {
        rows
    } else {
        rows.push(row)
    }
}

/// The effect of inserting a channel row under the store's uniqueness
/// constraint.
pub open spec fn channel_insert_result(rows: Seq<ChannelRow>, row: ChannelRow) -> Seq<ChannelRow> {
    if has_channel(rows, row.channel) {
        rows
    } else {
        rows.push(row)
    }
}

/// With unique guild keys, the looked-up index is the index of any row that
/// carries the key.
pub proof fn lemma_guild_key_at(s: Seq<GuildRow>, i: int)
    requires
        forall|a: int, b: int| 0 <= a < b < s.len() ==> s[a].guild != s[b].guild,
        0 <= i < s.len(),
    ensures
        has_guild(s, s[i].guild),
        guild_ix(s, s[i].guild) == i,
        guild_row(s, s[i].guild) == s[i],
{
    assert(has_guild(s, s[i].guild));
    let ix = guild_ix(s, s[i].guild);
    assert(0 <= ix < s.len() && s[ix].guild == s[i].guild);
    if ix < i {
        assert(s[ix].guild != s[i].guild);
    }
    if i < ix {
        assert(s[i].guild != s[ix].guild);
    }
}

/// With strictly increasing internal ids, the looked-up index is the index
/// of any row that carries the id.
pub proof fn lemma_guild_id_at(s: Seq<GuildRow>, i: int)
    requires
        forall|a: int, b: int| 0 <= a < b < s.len() ==> s[a].id < s[b].id,
        0 <= i < s.len(),
    ensures
        has_guild_id(s, s[i].id),
        guild_id_ix(s, s[i].id) == i,
{
    assert(has_guild_id(s, s[i].id));
    let ix = guild_id_ix(s, s[i].id);
    assert(0 <= ix < s.len() && s[ix].id == s[i].id);
    if ix < i {
        assert(s[ix].id < s[i].id);
    }
    if i < ix {
        assert(s[i].id < s[ix].id);
    }
}

pub proof fn lemma_channel_key_at(s: Seq<ChannelRow>, i: int)
    requires
        forall|a: int, b: int| 0 <= a < b < s.len() ==> s[a].channel != s[b].channel,
        0 <= i < s.len(),
    ensures
        has_channel(s, s[i].channel),
        channel_ix(s, s[i].channel) == i,
        channel_row(s, s[i].channel) == s[i],
{
    assert(has_channel(s, s[i].channel));
    let ix = channel_ix(s, s[i].channel);
    assert(0 <= ix < s.len() && s[ix].channel == s[i].channel);
    if ix < i {
        assert(s[ix].channel != s[i].channel);
    }
    if i < ix {
        assert(s[i].channel != s[ix].channel);
    }
}

pub proof fn lemma_channel_id_at(s: Seq<ChannelRow>, i: int)
    requires
        forall|a: int, b: int| 0 <= a < b < s.len() ==> s[a].id < s[b].id,
        0 <= i < s.len(),
    ensures
        has_channel_id(s, s[i].id),
        channel_id_ix(s, s[i].id) == i,
{
    assert(has_channel_id(s, s[i].id));
    let ix = channel_id_ix(s, s[i].id);
    assert(0 <= ix < s.len() && s[ix].id == s[i].id);
    if ix < i {
        assert(s[ix].id < s[i].id);
    }
    if i < ix {
        assert(s[i].id < s[ix].id);
    }
}

pub proof fn lemma_user_key_at(s: Seq<UserRow>, i: int)
    requires
        forall|a: int, b: int| 0 <= a < b < s.len() ==> s[a].user != s[b].user,
        0 <= i < s.len(),
    ensures
        has_user(s, s[i].user),
        user_ix(s, s[i].user) == i,
        user_row(s, s[i].user) == s[i],
{
    assert(has_user(s, s[i].user));
    let ix = user_ix(s, s[i].user);
    assert(0 <= ix < s.len() && s[ix].user == s[i].user);
    if ix < i {
        assert(s[ix].user != s[i].user);
    }
    if i < ix {
        assert(s[i].user != s[ix].user);
    }
}

pub proof fn lemma_user_id_at(s: Seq<UserRow>, i: int)
    requires
        forall|a: int, b: int| 0 <= a < b < s.len() ==> s[a].id < s[b].id,
        0 <= i < s.len(),
    ensures
        has_user_id(s, s[i].id),
        user_id_ix(s, s[i].id) == i,
{
    assert(has_user_id(s, s[i].id));
    let ix = user_id_ix(s, s[i].id);
    assert(0 <= ix < s.len() && s[ix].id == s[i].id);
    if ix < i {
        assert(s[ix].id < s[i].id);
    }
    if i < ix {
        assert(s[i].id < s[ix].id);
    }
}

/// In-memory model of the relational store: one table per entity, keyed by
/// the platform ("snowflake") id, with the uniqueness constraints the
/// schema declares. `reads` counts row lookups, so that callers can state
/// when an operation consulted the store.
pub struct Store {
    pub guilds: Vec<GuildRow>,
    pub channels: Vec<ChannelRow>,
    pub users: Vec<UserRow>,
    pub timers: Vec<Timer>,
    pub next_id: u32,
    pub reads: u64,
}

impl Store {
    /// Well-formedness: platform ids are unique per table, and internal ids
    /// are assigned in increasing order below `next_id`.
    pub open spec fn wf(self) -> bool {
        &&& forall|i: int, j: int|
            0 <= i < j < self.guilds@.len() ==> self.guilds@[i].guild != self.guilds@[j].guild
        &&& forall|i: int, j: int|
            0 <= i < j < self.guilds@.len() ==> self.guilds@[i].id < self.guilds@[j].id
        &&& forall|i: int| 0 <= i < self.guilds@.len() ==> self.guilds@[i].id < self.next_id
        &&& forall|i: int, j: int|
            0 <= i < j < self.channels@.len() ==> self.channels@[i].channel
                != self.channels@[j].channel
        &&& forall|i: int, j: int|
            0 <= i < j < self.channels@.len() ==> self.channels@[i].id < self.channels@[j].id
        &&& forall|i: int| 0 <= i < self.channels@.len() ==> self.channels@[i].id < self.next_id
        &&& forall|i: int, j: int|
            0 <= i < j < self.users@.len() ==> self.users@[i].user != self.users@[j].user
        &&& forall|i: int, j: int|
            0 <= i < j < self.users@.len() ==> self.users@[i].id < self.users@[j].id
        &&& forall|i: int| 0 <= i < self.users@.len() ==> self.users@[i].id < self.next_id
        &&& self.timers@.len() <= 0xffff_ffff
    }

    /// Everything but the read counter is unchanged.
    pub open spec fn same_tables(self, other: Store) -> bool {
        &&& self.guilds@ == other.guilds@
        &&& self.channels@ == other.channels@
        &&& self.users@ == other.users@
        &&& self.timers@ == other.timers@
        &&& self.next_id == other.next_id
    }

    pub fn new() -> (r: Store)
        ensures
            r.wf(),
            r.guilds@.len() == 0,
            r.channels@.len() == 0,
            r.users@.len() == 0,
            r.timers@.len() == 0,
            r.reads == 0,
    {
        Store {
            guilds: Vec::new(),
            channels: Vec::new(),
            users: Vec::new(),
            timers: Vec::new(),
            next_id: 1,
            reads: 0,
        }
    }

    fn bump_reads(&mut self)
        ensures
            final(self).same_tables(*old(self)),
            final(self).guilds@ == old(self).guilds@,
            final(self).channels@ == old(self).channels@,
            final(self).users@ == old(self).users@,
            final(self).timers@ == old(self).timers@,
            final(self).wf() == old(self).wf(),
            final(self).reads == sat_inc(old(self).reads),
    {
        if self.reads < u64::MAX {
            self.reads = self.reads + 1;
        }
    }

    fn guild_index_of(&self, guild: u64) -> (r: Option<usize>)
        ensures
            r is Some <==> has_guild(self.guilds@, guild),
            r matches Some(i) ==> i < self.guilds@.len() && self.guilds@[i as int].guild == guild,
    {
        let mut i: usize = 0;
        while i < self.guilds.len()
            invariant
                i <= self.guilds@.len(),
                forall|j: int| 0 <= j < i ==> self.guilds@[j].guild != guild,
            decreases self.guilds@.len() - i,
        {
            if self.guilds[i].guild == guild {
                return Some(i);
            }
            i += 1;
        }
        None
    }

    /// One row lookup: `SELECT id, name, prefix FROM guilds WHERE guild = ?`.
    pub fn select_guild(&mut self, guild: u64) -> (r: Option<GuildData>)
        requires
            old(self).wf(),
        ensures
            final(self).same_tables(*old(self)),
            final(self).wf() == old(self).wf(),
            final(self).reads == sat_inc(old(self).reads),
            r is Some <==> has_guild(old(self).guilds@, guild),
            r matches Some(g) ==> {
                let row = guild_row(old(self).guilds@, guild);
                &&& g.id == row.id
                &&& opt_text(g.name) == opt_text(row.name)
                &&& g.prefix@ == row.prefix@
            },
    {
        let found = self.guild_index_of(guild);
        proof {
            match found {
                Some(i) => lemma_guild_key_at(self.guilds@, i as int),
                None => (),
            }
        }
        let r = match found {
            Some(i) => {
                let g = GuildData {
                    id: self.guilds[i].id,
                    name: clone_opt_string(&self.guilds[i].name),
                    prefix: self.guilds[i].prefix.clone(),
                };
                Some(g)
            },
            None => None,
        };
        self.bump_reads();
        r
    }

    /// Row creation under the uniqueness constraint on `guild`: absorbed when
    /// a row for this guild already exists; returns whether a row was added.
    pub fn insert_guild(&mut self, guild: u64, name: Option<String>, prefix: String) -> (r: bool)
        requires
            old(self).wf(),
            old(self).next_id < u32::MAX,
        ensures
            final(self).wf(),
            final(self).reads == old(self).reads,
            final(self).channels@ == old(self).channels@,
            final(self).users@ == old(self).users@,
            final(self).timers@ == old(self).timers@,
            r == !has_guild(old(self).guilds@, guild),
            has_guild(old(self).guilds@, guild) ==> *final(self) == *old(self),
            !has_guild(old(self).guilds@, guild) ==> {
                &&& final(self).guilds@ == old(self).guilds@.push(
                    GuildRow { guild, id: old(self).next_id, name, prefix },
                )
                &&& final(self).next_id == old(self).next_id + 1
            },
    {
        let found = self.guild_index_of(guild);
        match found {
            Some(_) => false,
            None => {
                let id = self.next_id;
                self.guilds.push(GuildRow { guild, id, name, prefix });
                self.next_id = self.next_id + 1;
                true
            },
        }
    }

    /// `UPDATE guilds SET name = ?, prefix = ? WHERE id = ?`.
    pub fn update_guild(&mut self, id: u32, name: Option<String>, prefix: String)
        requires
            old(self).wf(),
        ensures
            final(self).wf(),
            final(self).reads == old(self).reads,
            final(self).channels@ == old(self).channels@,
            final(self).users@ == old(self).users@,
            final(self).timers@ == old(self).timers@,
            final(self).next_id == old(self).next_id,
            !has_guild_id(old(self).guilds@, id) ==> final(self).guilds@ == old(self).guilds@,
            has_guild_id(old(self).guilds@, id) ==> {
                let ix = guild_id_ix(old(self).guilds@, id);
                final(self).guilds@ == old(self).guilds@.update(
                    ix,
                    GuildRow { guild: old(self).guilds@[ix].guild, id, name, prefix },
                )
            },
    {
        let mut i: usize = 0;
        while i < self.guilds.len()
            invariant
                *self == *old(self),
                old(self).wf(),
                i <= self.guilds@.len(),
                forall|j: int| 0 <= j < i ==> self.guilds@[j].id != id,
            decreases self.guilds@.len() - i,
        {
            if self.guilds[i].id == id {
                let guild = self.guilds[i].guild;
                self.guilds.set(i, GuildRow { guild, id, name, prefix });
                proof {
                    lemma_guild_id_at(old(self).guilds@, i as int);
                }
                return;
            }
            i += 1;
        }
    }

    /// `SELECT id FROM guilds WHERE guild = ?`, the subquery used when a row
    /// must reference a guild by its internal id.
    pub fn guild_internal_id(&mut self, guild: u64) -> (r: Option<u32>)
        requires
            old(self).wf(),
        ensures
            final(self).same_tables(*old(self)),
            final(self).wf() == old(self).wf(),
            final(self).reads == sat_inc(old(self).reads),
            r is Some <==> has_guild(old(self).guilds@, guild),
            r matches Some(id) ==> id == guild_row(old(self).guilds@, guild).id,
    {
        let found = self.guild_index_of(guild);
        proof {
            match found {
                Some(i) => lemma_guild_key_at(self.guilds@, i as int),
                None => (),
            }
        }
        let r = match found {
            Some(i) => Some(self.guilds[i].id),
            None => None,
        };
        self.bump_reads();
        r
    }

    fn channel_index_of(&self, channel: u64) -> (r: Option<usize>)
        ensures
            r is Some <==> has_channel(self.channels@, channel),
            r matches Some(i) ==> i < self.channels@.len() && self.channels@[i as int].channel
                == channel,
    {
        let mut i: usize = 0;
        while i < self.channels.len()
            invariant
                i <= self.channels@.len(),
                forall|j: int| 0 <= j < i ==> self.channels@[j].channel != channel,
            decreases self.channels@.len() - i,
        {
            if self.channels[i].channel == channel {
                return Some(i);
            }
            i += 1;
        }
        None
    }

    /// One row lookup over the channels table.
    pub fn select_channel(&mut self, channel: u64) -> (r: Option<ChannelData>)
        requires
            old(self).wf(),
        ensures
            final(self).same_tables(*old(self)),
            final(self).wf() == old(self).wf(),
            final(self).reads == sat_inc(old(self).reads),
            r is Some <==> has_channel(old(self).channels@, channel),
            r matches Some(c) ==> {
                let row = channel_row(old(self).channels@, channel);
                &&& c.id == row.id
                &&& opt_text(c.name) == opt_text(row.name)
                &&& c.nudge == row.nudge
                &&& c.blacklisted == row.blacklisted
                &&& c.webhook_id == row.webhook_id
                &&& opt_text(c.webhook_token) == opt_text(row.webhook_token)
                &&& c.paused == row.paused
                &&& c.paused_until == row.paused_until
            },
    {
        let found = self.channel_index_of(channel);
        proof {
            match found {
                Some(i) => lemma_channel_key_at(self.channels@, i as int),
                None => (),
            }
        }
        let r = match found {
            Some(i) => Some(
                ChannelData {
                    id: self.channels[i].id,
                    name: clone_opt_string(&self.channels[i].name),
                    nudge: self.channels[i].nudge,
                    blacklisted: self.channels[i].blacklisted,
                    webhook_id: self.channels[i].webhook_id,
                    webhook_token: clone_opt_string(&self.channels[i].webhook_token),
                    paused: self.channels[i].paused,
                    paused_until: self.channels[i].paused_until,
                },
            ),
            None => None,
        };
        self.bump_reads();
        r
    }

    /// `SELECT id FROM channels WHERE channel = ?`, the subquery used when a
    /// row must reference a channel by its internal id.
    pub fn channel_internal_id(&mut self, channel: u64) -> (r: Option<u32>)
        requires
            old(self).wf(),
        ensures
            final(self).same_tables(*old(self)),
            final(self).wf() == old(self).wf(),
            final(self).reads == sat_inc(old(self).reads),
            r is Some <==> has_channel(old(self).channels@, channel),
            r matches Some(id) ==> id == channel_row(old(self).channels@, channel).id,
    {
        let found = self.channel_index_of(channel);
        proof {
            match found {
                Some(i) => lemma_channel_key_at(self.channels@, i as int),
                None => (),
            }
        }
        let r = match found {
            Some(i) => Some(self.channels[i].id),
            None => None,
        };
        self.bump_reads();
        r
    }

    /// `INSERT IGNORE INTO channels (channel, name, guild_id)`: row creation
    /// with schema defaults, absorbed when the channel already has a row.
    pub fn insert_channel(
        &mut self,
        channel: u64,
        name: Option<String>,
        guild_id: Option<u32>,
    ) -> (r: bool)
        requires
            old(self).wf(),
            old(self).next_id < u32::MAX,
        ensures
            final(self).wf(),
            final(self).reads == old(self).reads,
            final(self).guilds@ == old(self).guilds@,
            final(self).users@ == old(self).users@,
            final(self).timers@ == old(self).timers@,
            r == !has_channel(old(self).channels@, channel),
            final(self).channels@ == channel_insert_result(
                old(self).channels@,
                ChannelRow {
                    channel,
                    id: old(self).next_id,
                    name,
                    guild_id,
                    nudge: 0,
                    blacklisted: false,
                    webhook_id: None,
                    webhook_token: None,
                    paused: false,
                    paused_until: None,
                },
            ),
            has_channel(old(self).channels@, channel) ==> *final(self) == *old(self),
            !has_channel(old(self).channels@, channel) ==> final(self).next_id == old(self).next_id + 1,
    {
        let found = self.channel_index_of(channel);
        match found {
            Some(_) => false,
            None => {
                let id = self.next_id;
                self.channels.push(
                    ChannelRow {
                        channel,
                        id,
                        name,
                        guild_id,
                        nudge: 0,
                        blacklisted: false,
                        webhook_id: None,
                        webhook_token: None,
                        paused: false,
                        paused_until: None,
                    },
                );
                self.next_id = self.next_id + 1;
                true
            },
        }
    }

    /// `UPDATE channels SET ... WHERE id = ?` with the record's fields.
    pub fn update_channel(&mut self, data: &ChannelData)
        requires
            old(self).wf(),
        ensures
            final(self).wf(),
            final(self).reads == old(self).reads,
            final(self).guilds@ == old(self).guilds@,
            final(self).users@ == old(self).users@,
            final(self).timers@ == old(self).timers@,
            final(self).next_id == old(self).next_id,
            final(self).channels@.len() == old(self).channels@.len(),
            !has_channel_id(old(self).channels@, data.id) ==> final(self).channels@ == old(self).channels@,
            has_channel_id(old(self).channels@, data.id) ==> {
                let ix = channel_id_ix(old(self).channels@, data.id);
                &&& forall|j: int|
                    0 <= j < old(self).channels@.len() && j != ix ==> final(self).channels@[j]
                        == old(self).channels@[j]
                &&& final(self).channels@[ix].channel == old(self).channels@[ix].channel
                &&& final(self).channels@[ix].guild_id == old(self).channels@[ix].guild_id
                &&& final(self).channels@[ix].id == data.id
                &&& opt_text(final(self).channels@[ix].name) == opt_text(data.name)
                &&& final(self).channels@[ix].nudge == data.nudge
                &&& final(self).channels@[ix].blacklisted == data.blacklisted
                &&& final(self).channels@[ix].webhook_id == data.webhook_id
                &&& opt_text(final(self).channels@[ix].webhook_token) == opt_text(
                    data.webhook_token,
                )
                &&& final(self).channels@[ix].paused == data.paused
                &&& final(self).channels@[ix].paused_until == data.paused_until
            },
    {
        let mut i: usize = 0;
        while i < self.channels.len()
            invariant
                *self == *old(self),
                old(self).wf(),
                i <= self.channels@.len(),
                forall|j: int| 0 <= j < i ==> self.channels@[j].id != data.id,
            decreases self.channels@.len() - i,
        {
            if self.channels[i].id == data.id {
                let row = ChannelRow {
                    channel: self.channels[i].channel,
                    id: data.id,
                    name: clone_opt_string(&data.name),
                    guild_id: self.channels[i].guild_id,
                    nudge: data.nudge,
                    blacklisted: data.blacklisted,
                    webhook_id: data.webhook_id,
                    webhook_token: clone_opt_string(&data.webhook_token),
                    paused: data.paused,
                    paused_until: data.paused_until,
                };
                self.channels.set(i, row);
                proof {
                    lemma_channel_id_at(old(self).channels@, i as int);
                }
                return;
            }
            i += 1;
        }
    }

    fn user_index_of(&self, user: u64) -> (r: Option<usize>)
        ensures
            r is Some <==> has_user(self.users@, user),
            r matches Some(i) ==> i < self.users@.len() && self.users@[i as int].user == user,
    {
        let mut i: usize = 0;
        while i < self.users.len()
            invariant
                i <= self.users@.len(),
                forall|j: int| 0 <= j < i ==> self.users@[j].user != user,
            decreases self.users@.len() - i,
        {
            if self.users[i].user == user {
                return Some(i);
            }
            i += 1;
        }
        None
    }

    /// One row lookup over the users table, presenting effective values for
    /// the nullable preference columns, as in
    /// `SELECT ..., IF(language IS NULL, ?, language), ... WHERE user = ?`.
    pub fn select_user_effective(
        &mut self,
        user: u64,
        local_language: &str,
        local_timezone: &str,
    ) -> (r: Option<UserData>)
        requires
            old(self).wf(),
        ensures
            final(self).same_tables(*old(self)),
            final(self).wf() == old(self).wf(),
            final(self).reads == sat_inc(old(self).reads),
            r is Some <==> has_user(old(self).users@, user),
            r matches Some(u) ==> {
                let row = user_row(old(self).users@, user);
                &&& u.id == row.id
                &&& u.user == row.user
                &&& u.name@ == row.name@
                &&& u.dm_channel == row.dm_channel
                &&& u.language@ == effective(opt_text(row.language), local_language@)
                &&& u.timezone@ == effective(opt_text(row.timezone), local_timezone@)
                &&& u.meridian_time == row.meridian_time
            },
    {
        let found = self.user_index_of(user);
        proof {
            match found {
                Some(i) => lemma_user_key_at(self.users@, i as int),
                None => (),
            }
        }
        let r = match found {
            Some(i) => {
                let language = match &self.users[i].language {
                    Some(s) => s.clone(),
                    None => String::from_str(local_language),
                };
                let timezone = match &self.users[i].timezone {
                    Some(s) => s.clone(),
                    None => String::from_str(local_timezone),
                };
                Some(
                    UserData {
                        id: self.users[i].id,
                        user: self.users[i].user,
                        name: self.users[i].name.clone(),
                        dm_channel: self.users[i].dm_channel,
                        language,
                        timezone,
                        meridian_time: self.users[i].meridian_time,
                    },
                )
            },
            None => None,
        };
        self.bump_reads();
        r
    }

    /// One row lookup of the stored (nullable) preference columns:
    /// `SELECT language, timezone, meridian_time FROM users WHERE user = ?`.
    pub fn select_user_prefs(&mut self, user: u64) -> (r: Option<
        (Option<String>, Option<String>, bool),
    >)
        requires
            old(self).wf(),
        ensures
            final(self).same_tables(*old(self)),
            final(self).wf() == old(self).wf(),
            final(self).reads == sat_inc(old(self).reads),
            r is Some <==> has_user(old(self).users@, user),
            r matches Some(p) ==> {
                let row = user_row(old(self).users@, user);
                &&& opt_text(p.0) == opt_text(row.language)
                &&& opt_text(p.1) == opt_text(row.timezone)
                &&& p.2 == row.meridian_time
            },
    {
        let found = self.user_index_of(user);
        proof {
            match found {
                Some(i) => lemma_user_key_at(self.users@, i as int),
                None => (),
            }
        }
        let r = match found {
            Some(i) => Some(
                (
                    clone_opt_string(&self.users[i].language),
                    clone_opt_string(&self.users[i].timezone),
                    self.users[i].meridian_time,
                ),
            ),
            None => None,
        };
        self.bump_reads();
        r
    }

    /// Row creation under the uniqueness constraint on `user`: the insert is
    /// absorbed when the user already has a row, so a concurrent duplicate
    /// attempt loses silently.
    pub fn insert_user(
        &mut self,
        user: u64,
        name: String,
        dm_channel: u32,
        language: String,
        timezone: String,
    ) -> (r: bool)
        requires
            old(self).wf(),
            old(self).next_id < u32::MAX,
        ensures
            final(self).wf(),
            final(self).reads == old(self).reads,
            final(self).guilds@ == old(self).guilds@,
            final(self).channels@ == old(self).channels@,
            final(self).timers@ == old(self).timers@,
            r == !has_user(old(self).users@, user),
            final(self).users@ == user_insert_result(
                old(self).users@,
                UserRow {
                    user,
                    id: old(self).next_id,
                    name,
                    dm_channel,
                    language: Some(language),
                    timezone: Some(timezone),
                    meridian_time: false,
                },
            ),
            has_user(old(self).users@, user) ==> *final(self) == *old(self),
            !has_user(old(self).users@, user) ==> final(self).next_id == old(self).next_id + 1,
    {
        let found = self.user_index_of(user);
        match found {
            Some(_) => false,
            None => {
                let id = self.next_id;
                self.users.push(
                    UserRow {
                        user,
                        id,
                        name,
                        dm_channel,
                        language: Some(language),
                        timezone: Some(timezone),
                        meridian_time: false,
                    },
                );
                self.next_id = self.next_id + 1;
                true
            },
        }
    }

    /// `UPDATE users SET name = ?, language = ?, timezone = ?, meridian_time = ?
    /// WHERE id = ?` with the record's fields.
    pub fn update_user(&mut self, data: &UserData)
        requires
            old(self).wf(),
        ensures
            final(self).wf(),
            final(self).reads == old(self).reads,
            final(self).guilds@ == old(self).guilds@,
            final(self).channels@ == old(self).channels@,
            final(self).timers@ == old(self).timers@,
            final(self).next_id == old(self).next_id,
            final(self).users@.len() == old(self).users@.len(),
            !has_user_id(old(self).users@, data.id) ==> final(self).users@ == old(self).users@,
            has_user_id(old(self).users@, data.id) ==> {
                let ix = user_id_ix(old(self).users@, data.id);
                &&& forall|j: int|
                    0 <= j < old(self).users@.len() && j != ix ==> final(self).users@[j] == old(self).users@[j]
                &&& final(self).users@[ix].user == old(self).users@[ix].user
                &&& final(self).users@[ix].dm_channel == old(self).users@[ix].dm_channel
                &&& final(self).users@[ix].id == data.id
                &&& final(self).users@[ix].name@ == data.name@
                &&& opt_text(final(self).users@[ix].language) == Some(data.language@)
                &&& opt_text(final(self).users@[ix].timezone) == Some(data.timezone@)
                &&& final(self).users@[ix].meridian_time == data.meridian_time
            },
    {
        let mut i: usize = 0;
        while i < self.users.len()
            invariant
                *self == *old(self),
                old(self).wf(),
                i <= self.users@.len(),
                forall|j: int| 0 <= j < i ==> self.users@[j].id != data.id,
            decreases self.users@.len() - i,
        {
            if self.users[i].id == data.id {
                let row = UserRow {
                    user: self.users[i].user,
                    id: data.id,
                    name: data.name.clone(),
                    dm_channel: self.users[i].dm_channel,
                    language: Some(data.language.clone()),
                    timezone: Some(data.timezone.clone()),
                    meridian_time: data.meridian_time,
                };
                self.users.set(i, row);
                proof {
                    lemma_user_id_at(old(self).users@, i as int);
                }
                return;
            }
            i += 1;
        }
    }

    /// `SELECT name, start_time, owner FROM timers WHERE owner = ?`.
    pub fn timers_for_owner(&mut self, owner: u64) -> (r: Vec<Timer>)
        ensures
            final(self).same_tables(*old(self)),
            final(self).wf() == old(self).wf(),
            final(self).reads == sat_inc(old(self).reads),
            r@.len() == timers_of(old(self).timers@, owner).len(),
            forall|k: int|
                0 <= k < r@.len() ==> timer_like(r@[k], timers_of(old(self).timers@, owner)[k]),
    {
        let mut out: Vec<Timer> = Vec::new();
        let mut i: usize = 0;
        while i < self.timers.len()
            invariant
                *self == *old(self),
                i <= self.timers@.len(),
                out@.len() == timers_of(self.timers@.take(i as int), owner).len(),
                forall|k: int|
                    0 <= k < out@.len() ==> timer_like(
                        out@[k],
                        timers_of(self.timers@.take(i as int), owner)[k],
                    ),
            decreases self.timers@.len() - i,
        {
            proof {
                assert(self.timers@.take(i + 1).drop_last() =~= self.timers@.take(i as int));
                assert(self.timers@.take(i + 1).last() == self.timers@[i as int]);
            }
            if self.timers[i].owner == owner {
                let t = Timer {
                    name: self.timers[i].name.clone(),
                    start_time: self.timers[i].start_time,
                    owner: self.timers[i].owner,
                };
                out.push(t);
            }
            i += 1;
        }
        proof {
            assert(self.timers@.take(self.timers@.len() as int) =~= self.timers@);
        }
        self.bump_reads();
        out
    }

    /// `SELECT COUNT(1) FROM timers WHERE owner = ?`.
    pub fn count_timers(&mut self, owner: u64) -> (r: u32)
        requires
            old(self).wf(),
        ensures
            final(self).same_tables(*old(self)),
            final(self).wf(),
            final(self).reads == sat_inc(old(self).reads),
            r as nat == timers_of(old(self).timers@, owner).len(),
    {
        let mut count: u32 = 0;
        let mut i: usize = 0;
        while i < self.timers.len()
            invariant
                *self == *old(self),
                old(self).wf(),
                i <= self.timers@.len(),
                count as nat == timers_of(self.timers@.take(i as int), owner).len(),
                count as int <= i as int,
            decreases self.timers@.len() - i,
        {
            proof {
                assert(self.timers@.take(i + 1).drop_last() =~= self.timers@.take(i as int));
                assert(self.timers@.take(i + 1).last() == self.timers@[i as int]);
            }
            if self.timers[i].owner == owner {
                count = count + 1;
            }
            i += 1;
        }
        proof {
            assert(self.timers@.take(self.timers@.len() as int) =~= self.timers@);
        }
        self.bump_reads();
        count
    }

    /// `INSERT INTO timers (name, owner)`; the start time is the instant the
    /// store applies, handed in by the caller.
    pub fn insert_timer(&mut self, name: String, owner: u64, now: i64)
        requires
            old(self).wf(),
            old(self).timers@.len() < 0xffff_ffff,
        ensures
            final(self).wf(),
            final(self).reads == old(self).reads,
            final(self).guilds@ == old(self).guilds@,
            final(self).channels@ == old(self).channels@,
            final(self).users@ == old(self).users@,
            final(self).next_id == old(self).next_id,
            final(self).timers@ == old(self).timers@.push(Timer { name, start_time: now, owner }),
    {
        self.timers.push(Timer { name, start_time: now, owner });
    }
}

/// A field-for-field copy of an optional text value.
fn clone_opt_string(o: &Option<String>) -> (r: Option<String>)
    ensures
        opt_text(r) == opt_text(*o),
{
    match o {
        Some(s) => Some(s.clone()),
        None => None,
    }
}

} // verus!
