use vstd::prelude::*;

verus! {

use crate::models::{ChannelData, GuildData, UserData};
use crate::prefix::{
    cache_has, cache_preserves_others, cache_val, resolved_prefix, PrefixCache,
};
use crate::registry::{matched_index, matched_tail, CommandRegistry, CommandSpec};
use crate::store::{
    channel_row, effective, has_channel, opt_text, sat_inc, ChannelRow,
    GuildRow, Store, UserRow,
};

/// The configuration the process reads at startup.
pub struct BotConfig {
    pub default_prefix: String,
    pub local_language: String,
    pub local_timezone: String,
    pub ignore_bots: bool,
}

/// One inbound gateway message event, reduced to the fields dispatch reads.
pub struct MessageEvent {
    pub author: u64,
    pub author_name: String,
    pub author_is_bot: bool,
    pub channel: u64,
    pub channel_name: Option<String>,
    pub guild: Option<u64>,
    pub text: String,
    pub timestamp: i64,
}

/// A matched command ready to run: the command, its raw argument tail, and
/// the loaded identity records.
pub struct Invocation {
    pub command_index: usize,
    pub args: String,
    pub user: UserData,
    pub channel: ChannelData,
}

/// A dispatch waiting for the gateway to supply the author's direct-message
/// channel before the user row can be created.
pub struct PendingDispatch {
    pub command_index: usize,
    pub args: String,
    pub channel: ChannelData,
    pub author: u64,
    pub author_name: String,
}

/// What one inbound message led to. Only `Invoke` reaches a handler; the
/// first three are silent no-ops, and `NeedDmChannel` asks the caller for
/// one gateway round-trip (see `Dispatcher::on_dm_channel`).
pub enum DispatchOutcome {
    IgnoredAuthor,
    NoMatch,
    PermissionDenied,
    NeedDmChannel(PendingDispatch),
    Invoke(Invocation),
}

/// The decision stages of dispatch, in order; `Proceed` means identity
/// loading and handler invocation follow.
pub enum Stage {
    Ignored,
    NoMatch,
    Denied,
    Proceed,
}

/// The blacklist rule: an exempt command passes unconditionally; otherwise
/// the channel's blacklist flag decides, and a channel without a row is not
/// blacklisted.
pub open spec fn is_permitted_spec(channels: Seq<ChannelRow>, channel: u64, exempt: bool) -> bool {
    exempt || !(has_channel(channels, channel) && channel_row(channels, channel).blacklisted)
}

/// Which stage a message reaches, over the state dispatch starts from.
pub open spec fn dispatch_stage(
    cmds: Seq<CommandSpec>,
    cache: Seq<(u64, String)>,
    guilds: Seq<GuildRow>,
    channels: Seq<ChannelRow>,
    dflt: Seq<char>,
    ignore_bots: bool,
    ev: MessageEvent,
) -> Stage {
    if ev.author_is_bot && ignore_bots {
        Stage::Ignored
    } else {
        let pfx = resolved_prefix(cache, guilds, dflt, ev.guild);
        match matched_index(cmds, pfx, ev.text@) {
            None => Stage::NoMatch,
            Some(i) => if !is_permitted_spec(channels, ev.channel, cmds[i].permission_exempt) {
                Stage::Denied
            } else {
                Stage::Proceed
            },
        }
    }
}

/// A loaded user record presents this row with effective preferences.
pub open spec fn user_record_matches(
    u: UserData,
    row: UserRow,
    lang: Seq<char>,
    tz: Seq<char>,
) -> bool {
    &&& u.id == row.id
    &&& u.user == row.user
    &&& u.name@ == row.name@
    &&& u.dm_channel == row.dm_channel
    &&& u.language@ == effective(opt_text(row.language), lang)
    &&& u.timezone@ == effective(opt_text(row.timezone), tz)
    &&& u.meridian_time == row.meridian_time
}

/// A loaded channel record presents this row.
pub open spec fn channel_record_matches(c: ChannelData, row: ChannelRow) -> bool {
    &&& c.id == row.id
    &&& opt_text(c.name) == opt_text(row.name)
    &&& c.nudge == row.nudge
    &&& c.blacklisted == row.blacklisted
    &&& c.webhook_id == row.webhook_id
    &&& opt_text(c.webhook_token) == opt_text(row.webhook_token)
    &&& c.paused == row.paused
    &&& c.paused_until == row.paused_until
}

/// The blacklist check of one command against one channel.
pub fn is_permitted(store: &mut Store, channel: u64, cmd: &CommandSpec) -> (r: bool)
    requires
        old(store).wf(),
    ensures
        final(store).wf(),
        final(store).same_tables(*old(store)),
        cmd.permission_exempt ==> *final(store) == *old(store),
        !cmd.permission_exempt ==> final(store).reads == sat_inc(old(store).reads),
        r == is_permitted_spec(old(store).channels@, channel, cmd.permission_exempt),
{
    if cmd.permission_exempt {
        true
    } else {
        let row = store.select_channel(channel);
        match row {
            Some(c) => !c.blacklisted,
            None => true,
        }
    }
}

/// The per-message orchestrator: it owns the command table, the prefix
/// cache and the configuration, and is handed the store with each event.
pub struct Dispatcher {
    pub registry: CommandRegistry,
    pub cache: PrefixCache,
    pub config: BotConfig,
}

impl Dispatcher {
    pub open spec fn wf(self) -> bool {
        self.registry.wf() && self.cache.wf()
    }

    pub fn new(registry: CommandRegistry, config: BotConfig) -> (r: Dispatcher)
        requires
            registry.wf(),
        ensures
            r.wf(),
            r.registry == registry,
            r.config == config,
            r.cache.entries@.len() == 0,
    {
        Dispatcher { registry, cache: PrefixCache::new(), config }
    }

    /// Runs one inbound message through the dispatch steps, in order and
    /// short-circuiting: ignore automated authors; resolve the effective
    /// prefix (the default for a direct message); match the text against
    /// the command table; check the blacklist unless the command is exempt;
    /// find-or-create the channel record and load the author's record. A
    /// previously unseen author yields `NeedDmChannel` instead of an
    /// invocation: row creation waits for the gateway (see
    /// `on_dm_channel`). Messages that are not commands have no effect
    /// beyond the resolved prefix entering the cache.
    pub fn on_message(&mut self, store: &mut Store, ev: &MessageEvent) -> (r: DispatchOutcome)
        requires
            old(self).wf(),
            old(store).wf(),
            old(store).next_id < u32::MAX,
        ensures
            final(self).wf(),
            final(store).wf(),
            final(self).registry == old(self).registry,
            final(self).config == old(self).config,
            final(store).guilds@ == old(store).guilds@,
            final(store).users@ == old(store).users@,
            final(store).timers@ == old(store).timers@,
            ({
                let stage = dispatch_stage(
                    old(self).registry.commands@,
                    old(self).cache.entries@,
                    old(store).guilds@,
                    old(store).channels@,
                    old(self).config.default_prefix@,
                    old(self).config.ignore_bots,
                    *ev,
                );
                &&& (r is IgnoredAuthor <==> stage is Ignored)
                &&& (r is NoMatch <==> stage is NoMatch)
                &&& (r is PermissionDenied <==> stage is Denied)
                &&& ((r is NeedDmChannel || r is Invoke) <==> stage is Proceed)
            }),
            r is IgnoredAuthor ==> *final(store) == *old(store) && *final(self) == *old(self),
            !(r is IgnoredAuthor) && ev.guild is Some ==> {
                let g = ev.guild->0;
                &&& cache_has(final(self).cache.entries@, g)
                &&& cache_val(final(self).cache.entries@, g) == resolved_prefix(
                    old(self).cache.entries@,
                    old(store).guilds@,
                    old(self).config.default_prefix@,
                    ev.guild,
                )
                &&& cache_preserves_others(
                    old(self).cache.entries@,
                    final(self).cache.entries@,
                    g,
                )
            },
            !(r is IgnoredAuthor) && ev.guild is None ==> final(self).cache == old(self).cache,
            !(r is NeedDmChannel || r is Invoke) ==> final(store).channels@ == old(
                store,
            ).channels@ && final(store).next_id == old(store).next_id,
            (r is NeedDmChannel || r is Invoke) ==> has_channel(final(store).channels@, ev.channel),
            (r is NeedDmChannel || r is Invoke) && has_channel(old(store).channels@, ev.channel)
                ==> final(store).channels@ == old(store).channels@,
            (r is NeedDmChannel || r is Invoke) && !has_channel(old(store).channels@, ev.channel)
                ==> {
                &&& final(store).channels@.len() == old(store).channels@.len() + 1
                &&& (forall|j: int|
                    0 <= j < old(store).channels@.len() ==> final(store).channels@[j] == old(
                        store,
                    ).channels@[j])
                &&& final(store).channels@.last().channel == ev.channel
                &&& final(store).channels@.last().blacklisted == false
            },
            r is Invoke <==> (dispatch_stage(
                old(self).registry.commands@,
                old(self).cache.entries@,
                old(store).guilds@,
                old(store).channels@,
                old(self).config.default_prefix@,
                old(self).config.ignore_bots,
                *ev,
            ) is Proceed && crate::store::has_user(old(store).users@, ev.author)),
            ({
                let pfx = resolved_prefix(
                    old(self).cache.entries@,
                    old(store).guilds@,
                    old(self).config.default_prefix@,
                    ev.guild,
                );
                let m = matched_index(old(self).registry.commands@, pfx, ev.text@);
                &&& (r matches DispatchOutcome::Invoke(inv) ==> {
                    &&& m == Some(inv.command_index as int)
                    &&& inv.args@ == matched_tail(pfx, ev.text@)
                    &&& user_record_matches(
                        inv.user,
                        crate::store::user_row(old(store).users@, ev.author),
                        old(self).config.local_language@,
                        old(self).config.local_timezone@,
                    )
                    &&& inv.user.user == ev.author
                    &&& channel_record_matches(
                        inv.channel,
                        channel_row(final(store).channels@, ev.channel),
                    )
                })
                &&& (r matches DispatchOutcome::NeedDmChannel(p) ==> {
                    &&& m == Some(p.command_index as int)
                    &&& p.args@ == matched_tail(pfx, ev.text@)
                    &&& p.author == ev.author
                    &&& p.author_name@ == ev.author_name@
                    &&& channel_record_matches(
                        p.channel,
                        channel_row(final(store).channels@, ev.channel),
                    )
                })
            }),
    {
        if ev.author_is_bot && self.config.ignore_bots {
            return DispatchOutcome::IgnoredAuthor;
        }
        let prefix = GuildData::prefix_from_id(
            ev.guild,
            &mut self.cache,
            store,
            self.config.default_prefix.as_str(),
        );
        let m = self.registry.match_message(prefix.as_str(), ev.text.as_str());
        match m {
            None => DispatchOutcome::NoMatch,
            Some((ci, args)) => {
                let cmd = self.registry.command_at(ci);
                let allowed = is_permitted(store, ev.channel, cmd);
                if !allowed {
                    return DispatchOutcome::PermissionDenied;
                }
                let channel_info: Option<(u64, String)> = match ev.guild {
                    Some(g) => {
                        let cname = match &ev.channel_name {
                            Some(n) => n.clone(),
                            None => String::new(),
                        };
                        Some((g, cname))
                    },
                    None => None,
                };
                let channel = ChannelData::from_channel(ev.channel, channel_info, store);
                proof {
                    if !has_channel(old(store).channels@, ev.channel) {
                        let n = (store.channels@.len() - 1) as int;
                        assert(store.channels@[n].channel == ev.channel);
                        crate::store::lemma_channel_key_at(store.channels@, n);
                    }
                }
                let maybe_user = UserData::from_user(
                    ev.author,
                    self.config.local_language.as_str(),
                    self.config.local_timezone.as_str(),
                    store,
                );
                match maybe_user {
                    Some(user) => DispatchOutcome::Invoke(
                        Invocation { command_index: ci, args, user, channel },
                    ),
                    None => DispatchOutcome::NeedDmChannel(
                        PendingDispatch {
                            command_index: ci,
                            args,
                            channel,
                            author: ev.author,
                            author_name: ev.author_name.clone(),
                        },
                    ),
                }
            },
        }
    }

    /// Finishes a dispatch that waited for the author's direct-message
    /// channel. `None` for the channel means the gateway failed: the
    /// command aborts with no store effect. Otherwise the user row is
    /// created under the store's uniqueness constraint and re-read, so the
    /// invocation carries the one canonical row whichever concurrent
    /// attempt created it.
    pub fn on_dm_channel(&self, store: &mut Store, pending: PendingDispatch, dm_channel: Option<
        u64,
    >) -> (r: Option<Invocation>)
        requires
            old(store).wf(),
            old(store).next_id < u32::MAX - 1,
        ensures
            final(store).wf(),
            final(store).guilds@ == old(store).guilds@,
            final(store).timers@ == old(store).timers@,
            r is Some <==> dm_channel is Some,
            dm_channel is None ==> *final(store) == *old(store),
            dm_channel matches Some(dm) ==> has_channel(final(store).channels@, dm)
                && crate::store::has_user(final(store).users@, pending.author),
            dm_channel is Some && crate::store::has_user(old(store).users@, pending.author)
                ==> final(store).users@ == old(store).users@,
            dm_channel is Some && !crate::store::has_user(old(store).users@, pending.author)
                ==> crate::store::user_count(final(store).users@, pending.author)
                == crate::store::user_count(old(store).users@, pending.author) + 1,
            r matches Some(inv) ==> {
                &&& inv.command_index == pending.command_index
                &&& inv.args@ == pending.args@
                &&& inv.channel == pending.channel
                &&& inv.user.user == pending.author
                &&& user_record_matches(
                    inv.user,
                    crate::store::user_row(final(store).users@, pending.author),
                    self.config.local_language@,
                    self.config.local_timezone@,
                )
            },
    {
        match dm_channel {
            Some(dm) => {
                let user = UserData::create_with_dm_channel(
                    pending.author,
                    pending.author_name,
                    dm,
                    self.config.local_language.as_str(),
                    self.config.local_timezone.as_str(),
                    store,
                );
                Some(
                    Invocation {
                        command_index: pending.command_index,
                        args: pending.args,
                        user,
                        channel: pending.channel,
                    },
                )
            },
            None => None,
        }
    }
}

} // verus!
