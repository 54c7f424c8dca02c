use vstd::prelude::*;

verus! {

use crate::dispatch::{dispatch_stage, MessageEvent, Stage};
use crate::prefix::{
    cache_has, cache_preserves_others, cache_val, resolve_consults_store, resolved_prefix,
};
use crate::registry::{matched_index, starts_with, CommandSpec};
use crate::store::{
    channel_insert_result, channel_row, guild_row, has_channel, has_guild, has_user,
    lemma_channel_key_at, lemma_user_key_at, user_count, user_insert_result, user_ix, user_row,
    ChannelRow, GuildRow, UserRow,
};

/// Appending one row changes the per-user row count by one exactly for that
/// row's user.
pub proof fn lemma_user_count_push(s: Seq<UserRow>, row: UserRow, user: u64)
    ensures
        user_count(s.push(row), user) == user_count(s, user) + if row.user == user {
            1int
        } else {
            0int
        },
{
    assert(s.push(row).drop_last() =~= s);
    assert(s.push(row).last() == row);
}

/// A table holds no row for a user exactly when its count for that user is
/// zero.
pub proof fn lemma_user_count_zero(s: Seq<UserRow>, user: u64)
    ensures
        user_count(s, user) == 0 <==> !has_user(s, user),
    decreases s.len(),
{
    if s.len() == 0 {
    } else {
        lemma_user_count_zero(s.drop_last(), user);
        if s.last().user == user {
            assert(s[s.len() - 1].user == user);
        } else {
            if has_user(s, user) {
                let i = user_ix(s, user);
                assert(s[i].user == user);
                assert(i < s.len() - 1);
                assert(s.drop_last()[i].user == user);
                assert(has_user(s.drop_last(), user));
            }
            if has_user(s.drop_last(), user) {
                let i = choose|i: int|
                    0 <= i < s.drop_last().len() && s.drop_last()[i].user == user;
                assert(s[i].user == user);
            }
        }
    }
}

/// Every cached prefix agrees with the store: the stored row's prefix, or
/// the configured default for a guild without a row.
pub open spec fn cache_coherent(
    cache: Seq<(u64, String)>,
    guilds: Seq<GuildRow>,
    dflt: Seq<char>,
) -> bool {
    forall|g: u64|
        cache_has(cache, g) ==> cache_val(cache, g) == (if has_guild(guilds, g) {
            guild_row(guilds, g).prefix@
        } else {
            dflt
        })
}

/// For a guild with no stored row, resolution returns the configured
/// default; the first resolution consults the store and caches the
/// default, and a repeated resolution on the resulting cache returns the
/// default again without consulting the store.
pub proof fn lemma_resolve_unseen_guild_default(
    cache0: Seq<(u64, String)>,
    cache1: Seq<(u64, String)>,
    guilds: Seq<GuildRow>,
    dflt: Seq<char>,
    g: u64,
)
    requires
        !has_guild(guilds, g),
        !cache_has(cache0, g),
        cache_has(cache1, g),
        cache_val(cache1, g) == resolved_prefix(cache0, guilds, dflt, Some(g)),
    ensures
        resolved_prefix(cache0, guilds, dflt, Some(g)) == dflt,
        resolve_consults_store(cache0, Some(g)),
        resolved_prefix(cache1, guilds, dflt, Some(g)) == dflt,
        !resolve_consults_store(cache1, Some(g)),
{
}

/// For a guild whose stored prefix is P, resolution returns P, whether it
/// hits a coherent cache or reads the row.
pub proof fn lemma_resolve_stored_prefix(
    cache: Seq<(u64, String)>,
    guilds: Seq<GuildRow>,
    dflt: Seq<char>,
    g: u64,
    p: Seq<char>,
)
    requires
        has_guild(guilds, g),
        guild_row(guilds, g).prefix@ == p,
        cache_coherent(cache, guilds, dflt),
    ensures
        resolved_prefix(cache, guilds, dflt, Some(g)) == p,
{
}

/// After a prefix mutation overwrote the cache entry (what
/// `set_guild_prefix` ensures), the very next resolution returns the new
/// prefix, with no staleness window.
pub proof fn lemma_prefix_update_visible(
    cache2: Seq<(u64, String)>,
    guilds2: Seq<GuildRow>,
    dflt: Seq<char>,
    g: u64,
    new_p: Seq<char>,
)
    requires
        cache_has(cache2, g),
        cache_val(cache2, g) == new_p,
    ensures
        resolved_prefix(cache2, guilds2, dflt, Some(g)) == new_p,
        !resolve_consults_store(cache2, Some(g)),
{
}

/// One resolution step keeps the cache coherent: it caches exactly the
/// value the store (or the default) gives, and leaves other keys alone.
pub proof fn lemma_resolve_preserves_coherence(
    cache0: Seq<(u64, String)>,
    cache1: Seq<(u64, String)>,
    guilds: Seq<GuildRow>,
    dflt: Seq<char>,
    g: u64,
)
    requires
        cache_coherent(cache0, guilds, dflt),
        cache_has(cache1, g),
        cache_val(cache1, g) == resolved_prefix(cache0, guilds, dflt, Some(g)),
        cache_preserves_others(cache0, cache1, g),
    ensures
        cache_coherent(cache1, guilds, dflt),
{
    assert forall|h: u64| cache_has(cache1, h) implies cache_val(cache1, h) == (if has_guild(
        guilds,
        h,
    ) {
        guild_row(guilds, h).prefix@
    } else {
        dflt
    }) by {
        if h != g {
            assert(cache_has(cache0, h));
        }
    }
}

/// A permission-exempt command proceeds to identity loading and invocation
/// even when the channel's blacklist flag is set; a non-exempt command is
/// suppressed there, silently.
pub proof fn lemma_blacklist_gate(
    cmds: Seq<CommandSpec>,
    cache: Seq<(u64, String)>,
    guilds: Seq<GuildRow>,
    channels: Seq<ChannelRow>,
    dflt: Seq<char>,
    ignore_bots: bool,
    ev: MessageEvent,
    i: int,
)
    requires
        !(ev.author_is_bot && ignore_bots),
        0 <= i < cmds.len(),
        matched_index(cmds, resolved_prefix(cache, guilds, dflt, ev.guild), ev.text@) == Some(i),
        has_channel(channels, ev.channel),
        channel_row(channels, ev.channel).blacklisted,
    ensures
        cmds[i].permission_exempt ==> dispatch_stage(
            cmds,
            cache,
            guilds,
            channels,
            dflt,
            ignore_bots,
            ev,
        ) is Proceed,
        !cmds[i].permission_exempt ==> dispatch_stage(
            cmds,
            cache,
            guilds,
            channels,
            dflt,
            ignore_bots,
            ev,
        ) is Denied,
{
}

/// Two concurrent first-contact creations for one previously unseen user —
/// each inserting the direct-message channel row, then the user row, under
/// the store's uniqueness constraints — converge to exactly one user row:
/// the first writer's, which references the one channel row for that
/// direct-message channel. The loser is absorbed silently, whichever
/// attempt it is.
pub proof fn lemma_first_contact_converges(
    channels0: Seq<ChannelRow>,
    users0: Seq<UserRow>,
    dmrow1: ChannelRow,
    dmrow2: ChannelRow,
    row1: UserRow,
    row2: UserRow,
    user: u64,
    dm: u64,
)
    requires
        forall|a: int, b: int|
            0 <= a < b < channels0.len() ==> channels0[a].channel != channels0[b].channel,
        forall|a: int, b: int| 0 <= a < b < users0.len() ==> users0[a].user != users0[b].user,
        !has_user(users0, user),
        row1.user == user,
        row2.user == user,
        dmrow1.channel == dm,
        dmrow2.channel == dm,
    ensures
        channel_insert_result(channel_insert_result(channels0, dmrow1), dmrow2)
            == channel_insert_result(channels0, dmrow1),
        has_channel(channel_insert_result(channels0, dmrow1), dm),
        channel_row(channel_insert_result(channels0, dmrow1), dm) == (if has_channel(
            channels0,
            dm,
        ) {
            channel_row(channels0, dm)
        } else {
            dmrow1
        }),
        user_insert_result(user_insert_result(users0, row1), row2) == user_insert_result(
            users0,
            row1,
        ),
        user_count(user_insert_result(user_insert_result(users0, row1), row2), user) == 1,
        user_row(user_insert_result(user_insert_result(users0, row1), row2), user) == row1,
{
    let channels1 = channel_insert_result(channels0, dmrow1);
    if has_channel(channels0, dm) {
        let cx = crate::store::channel_ix(channels0, dm);
        assert(channels0[cx].channel == dm);
        assert(channels1 == channels0);
        assert(has_channel(channels1, dm));
    } else {
        assert(channels1 == channels0.push(dmrow1));
        let n = channels0.len() as int;
        assert(channels1[n].channel == dm);
        assert forall|a: int, b: int| 0 <= a < b < channels1.len() implies channels1[a].channel
            != channels1[b].channel by {
            if b < n {
                assert(channels0[a].channel != channels0[b].channel);
            } else {
                assert(channels0[a].channel != dm);
            }
        }
        lemma_channel_key_at(channels1, n);
    }
    assert(channel_insert_result(channels1, dmrow2) == channels1);
    let users1 = user_insert_result(users0, row1);
    assert(users1 == users0.push(row1));
    let m = users0.len() as int;
    assert(users1[m].user == user);
    assert(has_user(users1, user));
    assert(user_insert_result(users1, row2) == users1);
    lemma_user_count_zero(users0, user);
    lemma_user_count_push(users0, row1, user);
    assert forall|a: int, b: int| 0 <= a < b < users1.len() implies users1[a].user
        != users1[b].user by {
        if b < m {
            assert(users0[a].user != users0[b].user);
        } else {
            assert(users0[a].user != user);
        }
    }
    lemma_user_key_at(users1, m);
}

/// A message that does not begin with the resolved prefix — for a direct
/// message, the default prefix — matches no command: dispatch stops with no
/// effect and no response.
pub proof fn lemma_non_prefixed_message_ignored(
    cmds: Seq<CommandSpec>,
    cache: Seq<(u64, String)>,
    guilds: Seq<GuildRow>,
    channels: Seq<ChannelRow>,
    dflt: Seq<char>,
    ignore_bots: bool,
    ev: MessageEvent,
)
    requires
        !(ev.author_is_bot && ignore_bots),
        !starts_with(ev.text@, resolved_prefix(cache, guilds, dflt, ev.guild)),
    ensures
        matched_index(cmds, resolved_prefix(cache, guilds, dflt, ev.guild), ev.text@) is None,
        dispatch_stage(cmds, cache, guilds, channels, dflt, ignore_bots, ev) is NoMatch,
{
}

} // verus!
