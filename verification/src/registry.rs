use vstd::prelude::*;

verus! {

/// The whitespace characters that end a command word and separate it from
/// its argument tail.
pub open spec fn is_space(c: char) -> bool {
    c == ' ' || c == '\t' || c == '\n' || c == '\r'
}

/// ASCII case folding of one character, the folding command matching uses.
pub open spec fn lower_char(c: char) -> char {
    match c {
        'A' => 'a',
        'B' => 'b',
        'C' => 'c',
        'D' => 'd',
        'E' => 'e',
        'F' => 'f',
        'G' => 'g',
        'H' => 'h',
        'I' => 'i',
        'J' => 'j',
        'K' => 'k',
        'L' => 'l',
        'M' => 'm',
        'N' => 'n',
        'O' => 'o',
        'P' => 'p',
        'Q' => 'q',
        'R' => 'r',
        'S' => 's',
        'T' => 't',
        'U' => 'u',
        'V' => 'v',
        'W' => 'w',
        'X' => 'x',
        'Y' => 'y',
        'Z' => 'z',
        _ => c,
    }
}

pub open spec fn lower(s: Seq<char>) -> Seq<char> {
    s.map_values(|c: char| lower_char(c))
}

pub open spec fn starts_with(text: Seq<char>, prefix: Seq<char>) -> bool {
    text.len() >= prefix.len() && text.subrange(0, prefix.len() as int) == prefix
}

/// The length of the leading run of non-whitespace characters.
pub open spec fn word_len(s: Seq<char>) -> int
    decreases s.len(),
{
    if s.len() == 0 {
        0
    } else if is_space(s[0]) {
        0
    } else {
        1 + word_len(s.skip(1))
    }
}

/// The length of the leading run of whitespace characters.
pub open spec fn ws_len(s: Seq<char>) -> int
    decreases s.len(),
{
    if s.len() == 0 {
        0
    } else if !is_space(s[0]) {
        0
    } else {
        1 + ws_len(s.skip(1))
    }
}

/// `word_len` is the position of the first whitespace character (or the
/// whole length when there is none).
pub proof fn lemma_word_len_at(s: Seq<char>, n: int)
    requires
        0 <= n <= s.len(),
        forall|j: int| 0 <= j < n ==> !is_space(s[j]),
        n == s.len() || is_space(s[n]),
    ensures
        word_len(s) == n,
    decreases n,
{
    if n == 0 {
    } else {
        assert(!is_space(s[0]));
        lemma_word_len_at(s.skip(1), n - 1);
    }
}

/// `ws_len` is the position of the first non-whitespace character (or the
/// whole length when there is none).
pub proof fn lemma_ws_len_at(s: Seq<char>, n: int)
    requires
        0 <= n <= s.len(),
        forall|j: int| 0 <= j < n ==> is_space(s[j]),
        n == s.len() || !is_space(s[n]),
    ensures
        ws_len(s) == n,
    decreases n,
{
    if n == 0 {
    } else {
        assert(is_space(s[0]));
        lemma_ws_len_at(s.skip(1), n - 1);
    }
}

/// A registered command: its (lower-case) name and whether it is exempt
/// from the per-channel blacklist.
pub struct CommandSpec {
    pub name: String,
    pub permission_exempt: bool,
}

/// Why a registration was refused; both are fatal at startup.
#[derive(Debug, PartialEq, Eq, Structural)]
pub enum RegistrationError {
    InvalidName,
    DuplicateName,
}

/// A name can be matched only if it is non-empty, free of whitespace, and
/// already case-folded (so case-insensitive matching can reach it).
pub open spec fn valid_name(s: Seq<char>) -> bool {
    s.len() > 0 && forall|i: int|
        0 <= i < s.len() ==> !is_space(s[i]) && lower_char(s[i]) == s[i]
}

pub open spec fn has_command(cmds: Seq<CommandSpec>, word: Seq<char>) -> bool {
    exists|i: int| 0 <= i < cmds.len() && cmds[i].name@ == word
}

pub open spec fn command_ix(cmds: Seq<CommandSpec>, word: Seq<char>) -> int {
    choose|i: int| 0 <= i < cmds.len() && cmds[i].name@ == word
}

/// With distinct command names, the looked-up index is the index of any
/// command carrying the name.
pub proof fn lemma_command_at(cmds: Seq<CommandSpec>, i: int)
    requires
        forall|a: int, b: int| 0 <= a < b < cmds.len() ==> cmds[a].name@ != cmds[b].name@,
        0 <= i < cmds.len(),
    ensures
        has_command(cmds, cmds[i].name@),
        command_ix(cmds, cmds[i].name@) == i,
{
    assert(has_command(cmds, cmds[i].name@));
    let ix = command_ix(cmds, cmds[i].name@);
    assert(0 <= ix < cmds.len() && cmds[ix].name@ == cmds[i].name@);
    if ix < i {
        assert(cmds[ix].name@ != cmds[i].name@);
    }
    if i < ix {
        assert(cmds[i].name@ != cmds[ix].name@);
    }
}

/// The command word of a message: the whitespace-delimited run right after
/// the prefix.
pub open spec fn message_word(text: Seq<char>, plen: int) -> Seq<char> {
    let rest = text.skip(plen);
    rest.take(word_len(rest))
}

/// Which registered command a message invokes: the message must start with
/// the effective prefix, and the case-folded command word must equal a
/// registered name. No alternative matching means the message is not a
/// command.
pub open spec fn matched_index(
    cmds: Seq<CommandSpec>,
    pfx: Seq<char>,
    text: Seq<char>,
) -> Option<int> {
    if starts_with(text, pfx) && has_command(
        cmds,
        lower(message_word(text, pfx.len() as int)),
    ) {
        Some(command_ix(cmds, lower(message_word(text, pfx.len() as int))))
    } else {
        None
    }
}

/// The raw argument tail of a matched message: everything after the command
/// word and the whitespace that follows it, untokenized.
pub open spec fn matched_tail(pfx: Seq<char>, text: Seq<char>) -> Seq<char> {
    let rest = text.skip(pfx.len() as int);
    let after = rest.skip(word_len(rest));
    after.skip(ws_len(after))
}

fn is_space_exec(c: char) -> (r: bool)
    ensures
        r == is_space(c),
{
    match c {
        ' ' => true,
        '\t' => true,
        '\n' => true,
        '\r' => true,
        _ => false,
    }
}

fn to_lower_char(c: char) -> (r: char)
    ensures
        r == lower_char(c),
{
    match c {
        'A' => 'a',
        'B' => 'b',
        'C' => 'c',
        'D' => 'd',
        'E' => 'e',
        'F' => 'f',
        'G' => 'g',
        'H' => 'h',
        'I' => 'i',
        'J' => 'j',
        'K' => 'k',
        'L' => 'l',
        'M' => 'm',
        'N' => 'n',
        'O' => 'o',
        'P' => 'p',
        'Q' => 'q',
        'R' => 'r',
        'S' => 's',
        'T' => 't',
        'U' => 'u',
        'V' => 'v',
        'W' => 'w',
        'X' => 'x',
        'Y' => 'y',
        'Z' => 'z',
        _ => c,
    }
}

/// The static command table, built once at startup and read-only afterward.
pub struct CommandRegistry {
    pub commands: Vec<CommandSpec>,
}

impl CommandRegistry {
    /// Well-formedness: names are distinct and matchable.
    pub open spec fn wf(self) -> bool {
        &&& forall|i: int, j: int|
            0 <= i < j < self.commands@.len() ==> self.commands@[i].name@
                != self.commands@[j].name@
        &&& forall|i: int| 0 <= i < self.commands@.len() ==> valid_name(self.commands@[i].name@)
    }

    pub fn new() -> (r: CommandRegistry)
        ensures
            r.wf(),
            r.commands@.len() == 0,
    {
        CommandRegistry { commands: Vec::new() }
    }

    pub fn len(&self) -> (r: usize)
        ensures
            r == self.commands@.len(),
    {
        self.commands.len()
    }

    /// Whether the command at a given index is blacklist-exempt.
    pub fn is_exempt(&self, i: usize) -> (r: bool)
        requires
            i < self.commands@.len(),
        ensures
            r == self.commands@[i as int].permission_exempt,
    {
        self.commands[i].permission_exempt
    }

    /// The command at a given index.
    pub fn command_at(&self, i: usize) -> (r: &CommandSpec)
        requires
            i < self.commands@.len(),
        ensures
            *r == self.commands@[i as int],
    {
        &self.commands[i]
    }

    /// The name of the command at a given index.
    pub fn name_of(&self, i: usize) -> (r: &String)
        requires
            i < self.commands@.len(),
        ensures
            r@ == self.commands@[i as int].name@,
    {
        &self.commands[i].name
    }

    /// Registers one command at startup. An invalid name (empty, containing
    /// whitespace, or not case-folded) or a duplicate name is refused; a
    /// refusal is fatal to startup, which the caller enforces by refusing
    /// to run.
    pub fn register(&mut self, name: String, permission_exempt: bool) -> (r: Result<
        (),
        RegistrationError,
    >)
        requires
            old(self).wf(),
        ensures
            final(self).wf(),
            r is Ok <==> valid_name(name@) && !has_command(old(self).commands@, name@),
            r is Ok ==> final(self).commands@ == old(self).commands@.push(
                CommandSpec { name, permission_exempt },
            ),
            r is Err ==> *final(self) == *old(self),
            !valid_name(name@) ==> r == Err::<(), RegistrationError>(
                RegistrationError::InvalidName,
            ),
            valid_name(name@) && has_command(old(self).commands@, name@) ==> r == Err::<
                (),
                RegistrationError,
            >(RegistrationError::DuplicateName),
    {
        let n = name.as_str().unicode_len();
        if n == 0 {
            return Err(RegistrationError::InvalidName);
        }
        let mut i: usize = 0;
        while i < n
            invariant
                *self == *old(self),
                old(self).wf(),
                n == name@.len(),
                i <= n,
                forall|j: int| 0 <= j < i ==> !is_space(name@[j]) && lower_char(name@[j]) == name@[j],
            decreases n - i,
        {
            let c = name.as_str().get_char(i);
            if is_space_exec(c) {
                return Err(RegistrationError::InvalidName);
            }
            if to_lower_char(c) != c {
                return Err(RegistrationError::InvalidName);
            }
            i += 1;
        }
        let mut j: usize = 0;
        while j < self.commands.len()
            invariant
                *self == *old(self),
                old(self).wf(),
                valid_name(name@),
                j <= self.commands@.len(),
                forall|k: int| 0 <= k < j ==> self.commands@[k].name@ != name@,
            decreases self.commands@.len() - j,
        {
            if self.commands[j].name == name {
                return Err(RegistrationError::DuplicateName);
            }
            j += 1;
        }
        self.commands.push(CommandSpec { name, permission_exempt });
        Ok(())
    }

    /// Matches a message against the registered commands under the
    /// effective prefix: on a match, the command's index and the raw
    /// argument tail; `None` when the message is not a command, in which
    /// case the dispatcher takes no further action.
    pub fn match_message(&self, prefix: &str, text: &str) -> (r: Option<(usize, String)>)
        requires
            self.wf(),
        ensures
            r is Some <==> matched_index(self.commands@, prefix@, text@) is Some,
            r matches Some(m) ==> {
                &&& matched_index(self.commands@, prefix@, text@) == Some(m.0 as int)
                &&& m.0 < self.commands@.len()
                &&& m.1@ == matched_tail(prefix@, text@)
            },
    {
        let plen = prefix.unicode_len();
        let tlen = text.unicode_len();
        if tlen < plen {
            return None;
        }
        let mut i: usize = 0;
        while i < plen
            invariant
                plen == prefix@.len(),
                tlen == text@.len(),
                plen <= tlen,
                i <= plen,
                forall|j: int| 0 <= j < i ==> text@[j] == prefix@[j],
            decreases plen - i,
        {
            if text.get_char(i) != prefix.get_char(i) {
                proof {
                    if starts_with(text@, prefix@) {
                        assert(text@.subrange(0, plen as int)[i as int] == text@[i as int]);
                    }
                }
                return None;
            }
            i += 1;
        }
        proof {
            assert(text@.subrange(0, plen as int) =~= prefix@);
        }
        let mut w: usize = plen;
        while w < tlen && !is_space_exec(text.get_char(w))
            invariant
                plen == prefix@.len(),
                tlen == text@.len(),
                plen <= w <= tlen,
                forall|j: int| plen <= j < w ==> !is_space(text@[j]),
            decreases tlen - w,
        {
            w += 1;
        }
        proof {
            let rest = text@.skip(plen as int);
            assert forall|j: int| 0 <= j < w - plen implies !is_space(rest[j]) by {
                assert(rest[j] == text@[plen + j]);
            }
            if w < tlen {
                assert(rest[w - plen] == text@[w as int]);
            }
            lemma_word_len_at(rest, w - plen);
        }
        proof {
            assert(message_word(text@, plen as int) =~= text@.subrange(plen as int, w as int));
        }
        let mut ci: usize = 0;
        while ci < self.commands.len()
            invariant
                self.wf(),
                message_word(text@, plen as int) == text@.subrange(plen as int, w as int),
                plen == prefix@.len(),
                tlen == text@.len(),
                plen <= w <= tlen,
                text@.subrange(0, plen as int) == prefix@,
                word_len(text@.skip(plen as int)) == w - plen,
                w == tlen || is_space(text@[w as int]),
                ci <= self.commands@.len(),
                forall|k: int|
                    0 <= k < ci ==> self.commands@[k].name@ != lower(
                        message_word(text@, plen as int),
                    ),
            decreases self.commands@.len() - ci,
        {
            if self.name_matches_word(ci, text, plen, w) {
                proof {
                    lemma_command_at(self.commands@, ci as int);
                }
                let mut t0: usize = w;
                while t0 < tlen && is_space_exec(text.get_char(t0))
                    invariant
                        tlen == text@.len(),
                        w <= t0 <= tlen,
                        forall|j: int| w <= j < t0 ==> is_space(text@[j]),
                    decreases tlen - t0,
                {
                    t0 += 1;
                }
                proof {
                    let rest = text@.skip(plen as int);
                    let after = rest.skip(word_len(rest));
                    assert(after =~= text@.skip(w as int));
                    assert forall|j: int| 0 <= j < t0 - w implies is_space(after[j]) by {
                        assert(after[j] == text@[w + j]);
                    }
                    if t0 < tlen {
                        assert(after[t0 - w] == text@[t0 as int]);
                    }
                    lemma_ws_len_at(after, t0 - w);
                    assert(after.skip(ws_len(after)) =~= text@.subrange(t0 as int, tlen as int));
                    assert(matched_tail(prefix@, text@) == text@.subrange(t0 as int, tlen as int));
                }
                let tail = text.substring_char(t0, tlen);
                return Some((ci, String::from_str(tail)));
            }
            ci += 1;
        }
        None
    }

    /// Whether the command at index `ci` has the case-folded command word
    /// `text[from..to]` as its name.
    fn name_matches_word(&self, ci: usize, text: &str, from: usize, to: usize) -> (r: bool)
        requires
            ci < self.commands@.len(),
            from <= to <= text@.len(),
        ensures
            r == (self.commands@[ci as int].name@ == lower(
                text@.subrange(from as int, to as int),
            )),
    {
        let name_len = self.commands[ci].name.as_str().unicode_len();
        if name_len != to - from {
            proof {
                assert(lower(text@.subrange(from as int, to as int)).len() == to - from);
            }
            return false;
        }
        let mut j: usize = 0;
        while j < name_len
            invariant
                ci < self.commands@.len(),
                name_len == self.commands@[ci as int].name@.len(),
                from <= to <= text@.len(),
                name_len == to - from,
                j <= name_len,
                forall|k: int|
                    0 <= k < j ==> self.commands@[ci as int].name@[k] == lower_char(
                        text@[from + k],
                    ),
            decreases name_len - j,
        {
            let nc = self.commands[ci].name.as_str().get_char(j);
            let tc = to_lower_char(text.get_char(from + j));
            if nc != tc {
                proof {
                    let word = lower(text@.subrange(from as int, to as int));
                    assert(word[j as int] == lower_char(text@[from + j]));
                }
                return false;
            }
            j += 1;
        }
        proof {
            let word = lower(text@.subrange(from as int, to as int));
            assert forall|k: int| 0 <= k < name_len implies self.commands@[ci as int].name@[k]
                == word[k] by {
                assert(word[k] == lower_char(text@[from + k]));
            }
            assert(self.commands@[ci as int].name@ =~= word);
        }
        true
    }
}

} // verus!
