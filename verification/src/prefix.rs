use vstd::prelude::*;

verus! {

use crate::store::{
    guild_ix, guild_row, has_guild, lemma_guild_id_at, lemma_guild_key_at, GuildRow, Store,
};

pub open spec fn cache_has(entries: Seq<(u64, String)>, guild: u64) -> bool {
    exists|i: int| 0 <= i < entries.len() && entries[i].0 == guild
}

pub open spec fn cache_ix(entries: Seq<(u64, String)>, guild: u64) -> int {
    choose|i: int| 0 <= i < entries.len() && entries[i].0 == guild
}

/// The prefix cached for a guild.
pub open spec fn cache_val(entries: Seq<(u64, String)>, guild: u64) -> Seq<char> {
    entries[cache_ix(entries, guild)].1@
}

/// With unique cache keys, the looked-up index is the index of any entry
/// that carries the key.
pub proof fn lemma_cache_key_at(s: Seq<(u64, String)>, i: int)
    requires
        forall|a: int, b: int| 0 <= a < b < s.len() ==> s[a].0 != s[b].0,
        0 <= i < s.len(),
    ensures
        cache_has(s, s[i].0),
        cache_ix(s, s[i].0) == i,
        cache_val(s, s[i].0) == s[i].1@,
{
    assert(cache_has(s, s[i].0));
    let ix = cache_ix(s, s[i].0);
    assert(0 <= ix < s.len() && s[ix].0 == s[i].0);
    if ix < i {
        assert(s[ix].0 != s[i].0);
    }
    if i < ix {
        assert(s[i].0 != s[ix].0);
    }
}

/// Keys other than `guild` keep their presence and their cached value.
pub open spec fn cache_preserves_others(
    before: Seq<(u64, String)>,
    after: Seq<(u64, String)>,
    guild: u64,
) -> bool {
    forall|k: u64|
        k != guild ==> ((cache_has(before, k) <==> cache_has(after, k)) && (cache_has(before, k)
            ==> cache_val(after, k) == cache_val(before, k)))
}

/// The prefix a resolution returns: the cached value on a hit, else the
/// stored row's prefix, else the configured default. A direct message
/// (no guild) always resolves to the default.
pub open spec fn resolved_prefix(
    cache: Seq<(u64, String)>,
    guilds: Seq<GuildRow>,
    dflt: Seq<char>,
    guild: Option<u64>,
) -> Seq<char> {
    match guild {
        None => dflt,
        Some(g) => if cache_has(cache, g) {
            cache_val(cache, g)
        } else if has_guild(guilds, g) {
            guild_row(guilds, g).prefix@
        } else {
            dflt
        },
    }
}

/// Whether a resolution reads the store: only on a cache miss for a guild
/// message.
pub open spec fn resolve_consults_store(cache: Seq<(u64, String)>, guild: Option<u64>) -> bool {
    match guild {
        None => false,
        Some(g) => !cache_has(cache, g),
    }
}

/// The read-through prefix cache, keyed by the guild's platform id. It is an
/// explicitly constructed object owned by the service context, handed to
/// every resolution.
pub struct PrefixCache {
    pub entries: Vec<(u64, String)>,
}

impl PrefixCache {
    /// Well-formedness: one entry per guild.
    pub open spec fn wf(self) -> bool {
        forall|i: int, j: int|
            0 <= i < j < self.entries@.len() ==> self.entries@[i].0 != self.entries@[j].0
    }

    pub fn new() -> (r: PrefixCache)
        ensures
            r.wf(),
            r.entries@.len() == 0,
    {
        PrefixCache { entries: Vec::new() }
    }

    pub fn get(&self, guild: u64) -> (r: Option<String>)
        requires
            self.wf(),
        ensures
            r is Some <==> cache_has(self.entries@, guild),
            r matches Some(p) ==> p@ == cache_val(self.entries@, guild),
    {
        let mut i: usize = 0;
        while i < self.entries.len()
            invariant
                self.wf(),
                i <= self.entries@.len(),
                forall|j: int| 0 <= j < i ==> self.entries@[j].0 != guild,
            decreases self.entries@.len() - i,
        {
            if self.entries[i].0 == guild {
                proof {
                    lemma_cache_key_at(self.entries@, i as int);
                }
                return Some(self.entries[i].1.clone());
            }
            i += 1;
        }
        None
    }

    /// Populates or overwrites the entry for one guild.
    pub fn insert(&mut self, guild: u64, prefix: String)
        requires
            old(self).wf(),
        ensures
            final(self).wf(),
            cache_has(final(self).entries@, guild),
            cache_val(final(self).entries@, guild) == prefix@,
            cache_preserves_others(old(self).entries@, final(self).entries@, guild),
    {
        let mut i: usize = 0;
        while i < self.entries.len()
            invariant
                *self == *old(self),
                old(self).wf(),
                i <= self.entries@.len(),
                forall|j: int| 0 <= j < i ==> self.entries@[j].0 != guild,
            decreases self.entries@.len() - i,
        {
            if self.entries[i].0 == guild {
                self.entries.set(i, (guild, prefix));
                proof {
                    let es = self.entries@;
                    let olds = old(self).entries@;
                    assert(forall|j: int| 0 <= j < es.len() ==> es[j].0 == olds[j].0);
                    assert forall|a: int, b: int| 0 <= a < b < es.len() implies es[a].0
                        != es[b].0 by {
                        assert(es[a].0 == olds[a].0);
                        assert(es[b].0 == olds[b].0);
                    }
                    lemma_cache_key_at(es, i as int);
                    assert forall|k: u64| k != guild implies ((cache_has(olds, k) <==> cache_has(
                        es,
                        k,
                    )) && (cache_has(olds, k) ==> cache_val(es, k) == cache_val(olds, k))) by {
                        if cache_has(olds, k) {
                            let kx = cache_ix(olds, k);
                            assert(olds[kx].0 == k);
                            assert(kx != i);
                            assert(es[kx].0 == k);
                            lemma_cache_key_at(olds, kx);
                            lemma_cache_key_at(es, kx);
                        }
                        if cache_has(es, k) {
                            let kx = cache_ix(es, k);
                            assert(es[kx].0 == k);
                            assert(olds[kx].0 == k);
                            assert(cache_has(olds, k));
                        }
                    }
                }
                return;
            }
            i += 1;
        }
        self.entries.push((guild, prefix));
        proof {
            let es = self.entries@;
            let olds = old(self).entries@;
            let n = olds.len() as int;
            assert(es[n].0 == guild);
            assert forall|a: int, b: int| 0 <= a < b < es.len() implies es[a].0 != es[b].0 by {
                if b < n {
                    assert(olds[a].0 != olds[b].0);
                } else {
                    assert(olds[a].0 != guild);
                }
            }
            lemma_cache_key_at(es, n);
            assert forall|k: u64| k != guild implies ((cache_has(olds, k) <==> cache_has(es, k))
                && (cache_has(olds, k) ==> cache_val(es, k) == cache_val(olds, k))) by {
                if cache_has(olds, k) {
                    let kx = cache_ix(olds, k);
                    assert(olds[kx].0 == k);
                    assert(es[kx].0 == k);
                    lemma_cache_key_at(olds, kx);
                    lemma_cache_key_at(es, kx);
                }
                if cache_has(es, k) {
                    let kx = cache_ix(es, k);
                    assert(es[kx].0 == k);
                    assert(kx != n);
                    assert(olds[kx].0 == k);
                    assert(cache_has(olds, k));
                }
            }
        }
    }
}

/// The prefix-mutation path: gives the guild a row when it has none, sets the
/// stored prefix, and overwrites the cache entry before returning, so the
/// very next resolution observes the new prefix.
pub fn set_guild_prefix(store: &mut Store, cache: &mut PrefixCache, guild: u64, new_prefix: String)
    requires
        old(store).wf(),
        old(cache).wf(),
        old(store).next_id < u32::MAX,
    ensures
        final(store).wf(),
        final(cache).wf(),
        final(store).channels@ == old(store).channels@,
        final(store).users@ == old(store).users@,
        final(store).timers@ == old(store).timers@,
        has_guild(final(store).guilds@, guild),
        guild_row(final(store).guilds@, guild).prefix@ == new_prefix@,
        cache_has(final(cache).entries@, guild),
        cache_val(final(cache).entries@, guild) == new_prefix@,
        cache_preserves_others(old(cache).entries@, final(cache).entries@, guild),
        forall|h: u64|
            h != guild ==> (has_guild(old(store).guilds@, h) <==> has_guild(
                final(store).guilds@,
                h,
            )),
{
    let looked_up = store.select_guild(guild);
    match looked_up {
        Some(g) => {
            proof {
                let ix0 = guild_ix(old(store).guilds@, guild);
                assert(old(store).guilds@[ix0].guild == guild);
                assert(old(store).guilds@[ix0].id == g.id);
                lemma_guild_id_at(old(store).guilds@, ix0);
            }
            store.update_guild(g.id, g.name, new_prefix.clone());
            proof {
                let ix0 = guild_ix(old(store).guilds@, guild);
                assert(store.guilds@[ix0].guild == guild);
                assert(store.guilds@[ix0].prefix@ == new_prefix@);
                lemma_guild_key_at(store.guilds@, ix0);
                assert forall|h: u64| h != guild implies (has_guild(old(store).guilds@, h)
                    <==> has_guild(store.guilds@, h)) by {
                    if has_guild(old(store).guilds@, h) {
                        let hx = guild_ix(old(store).guilds@, h);
                        assert(old(store).guilds@[hx].guild == h);
                        assert(hx != ix0);
                        assert(store.guilds@[hx].guild == h);
                        assert(has_guild(store.guilds@, h));
                    }
                    if has_guild(store.guilds@, h) {
                        let hx = guild_ix(store.guilds@, h);
                        assert(store.guilds@[hx].guild == h);
                        assert(hx != ix0);
                        assert(old(store).guilds@[hx].guild == h);
                        assert(has_guild(old(store).guilds@, h));
                    }
                }
            }
        },
        None => {
            store.insert_guild(guild, None, new_prefix.clone());
            proof {
                let n = old(store).guilds@.len() as int;
                assert(store.guilds@[n].guild == guild);
                lemma_guild_key_at(store.guilds@, n);
                assert forall|h: u64| h != guild implies (has_guild(old(store).guilds@, h)
                    <==> has_guild(store.guilds@, h)) by {
                    if has_guild(old(store).guilds@, h) {
                        let hx = guild_ix(old(store).guilds@, h);
                        assert(old(store).guilds@[hx].guild == h);
                        assert(store.guilds@[hx].guild == h);
                        assert(has_guild(store.guilds@, h));
                    }
                    if has_guild(store.guilds@, h) {
                        let hx = guild_ix(store.guilds@, h);
                        assert(store.guilds@[hx].guild == h);
                        assert(hx != n);
                        assert(old(store).guilds@[hx].guild == h);
                        assert(has_guild(old(store).guilds@, h));
                    }
                }
            }
        },
    }
    cache.insert(guild, new_prefix);
}

} // verus!
