//! The bot's slash commands and the grammar that reads them from a message.

use vstd::prelude::*;
use crate::text::{chars_of, matches_at_exec, push_str, slice_chars, string_from_chars};

verus! {

/// Bot commands.
#[derive(Clone, Debug, PartialEq)]
pub enum Command {
    /// Create new project and session.
    New(String),
    /// List all sessions.
    Sessions,
    /// Connect to existing session.
    Connect(String),
    /// List available projects.
    Projects,
    /// Close topic and clean up.
    Close,
    /// Link topic to directory.
    Link(String),
    /// Toggle streaming.
    Stream,
    /// Show session info.
    Session,
    /// Show orchestrator status.
    Status,
    /// Clear stale mappings.
    Clear,
    /// Show help.
    Help,
}

/// Why a message is not a command of this bot.
#[derive(Clone, Debug, PartialEq)]
pub enum CommandParseError {
    /// The command is addressed to another bot (`/cmd@other`).
    WrongBotName(String),
    /// No command has this name.
    UnknownCommand(String),
}

/// The names of the commands.
pub enum CommandName {
    New,
    Sessions,
    Connect,
    Projects,
    Close,
    Link,
    Stream,
    Session,
    Status,
    Clear,
    Help,
}

/// The name of a command.
pub open spec fn name_of(c: Command) -> CommandName {
    match c {
        Command::New(_) => CommandName::New,
        Command::Sessions => CommandName::Sessions,
        Command::Connect(_) => CommandName::Connect,
        Command::Projects => CommandName::Projects,
        Command::Close => CommandName::Close,
        Command::Link(_) => CommandName::Link,
        Command::Stream => CommandName::Stream,
        Command::Session => CommandName::Session,
        Command::Status => CommandName::Status,
        Command::Clear => CommandName::Clear,
        Command::Help => CommandName::Help,
    }
}

/// The command a prefixed word names (`/new` .. `/help`).
pub open spec fn name_of_word(w: Seq<char>) -> Option<CommandName> {
    if w == "/new"@ {
        Some(CommandName::New)
    } else if w == "/sessions"@ {
        Some(CommandName::Sessions)
    } else if w == "/connect"@ {
        Some(CommandName::Connect)
    } else if w == "/projects"@ {
        Some(CommandName::Projects)
    } else if w == "/close"@ {
        Some(CommandName::Close)
    } else if w == "/link"@ {
        Some(CommandName::Link)
    } else if w == "/stream"@ {
        Some(CommandName::Stream)
    } else if w == "/session"@ {
        Some(CommandName::Session)
    } else if w == "/status"@ {
        Some(CommandName::Status)
    } else if w == "/clear"@ {
        Some(CommandName::Clear)
    } else if w == "/help"@ {
        Some(CommandName::Help)
    } else {
        None
    }
}

/// Whether a command carries a text argument.
pub open spec fn takes_arg(n: CommandName) -> bool {
    n is New || n is Connect || n is Link
}

/// The argument of a command (empty for commands without one).
pub open spec fn arg_of(c: Command) -> Seq<char> {
    match c {
        Command::New(a) => a@,
        Command::Connect(a) => a@,
        Command::Link(a) => a@,
        _ => seq![],
    }
}

/// First index `>= k` of `c` in `s`, or `s.len()`.
pub open spec fn index_from(s: Seq<char>, c: char, k: int) -> int
    decreases s.len() - k,
{
    if k >= s.len() {
        s.len() as int
    } else if s[k] == c {
        k
    } else {
        index_from(s, c, k + 1)
    }
}

/// The part of the message before the first space.
pub open spec fn head_of(s: Seq<char>) -> Seq<char> {
    s.take(index_from(s, ' ', 0))
}

/// The text after the first space, or empty.
pub open spec fn args_of(s: Seq<char>) -> Seq<char> {
    let i = index_from(s, ' ', 0);
    if i < s.len() {
        s.skip(i + 1)
    } else {
        seq![]
    }
}

/// The command word: the head up to the first `@`.
pub open spec fn word_of(s: Seq<char>) -> Seq<char> {
    let h = head_of(s);
    h.take(index_from(h, '@', 0))
}

/// The bot name after the first `@` of the head, up to the next `@`.
pub open spec fn bot_of(s: Seq<char>) -> Option<Seq<char>> {
    let h = head_of(s);
    let at = index_from(h, '@', 0);
    if at < h.len() {
        Some(h.subrange(at + 1, index_from(h, '@', at + 1)))
    } else {
        None
    }
}

/// ASCII lower case of a character.
pub open spec fn ascii_lower(c: char) -> char {
    if 'A' <= c && c <= 'Z' {
        ((c as u32) + 32) as char
    } else {
        c
    }
}

/// `str::eq_ignore_ascii_case`.
pub open spec fn eq_ignore_ascii_case(a: Seq<char>, b: Seq<char>) -> bool {
    a.len() == b.len() && forall|k: int| 0 <= k < a.len() ==> ascii_lower(#[trigger] a[k]) == ascii_lower(b[k])
}

/// What parsing `s` for the bot `bot` gives, as the command's name and argument.
pub open spec fn parse_outcome(s: Seq<char>, bot: Seq<char>) -> Result<(CommandName, Seq<char>), (bool, Seq<char>)> {
    match bot_of(s) {
        Some(b) if !eq_ignore_ascii_case(b, bot) => Err((true, b)),
        _ => match name_of_word(word_of(s)) {
            Some(n) => Ok((n, if takes_arg(n) { args_of(s) } else { seq![] })),
            None => Err((false, word_of(s))),
        },
    }
}

fn index_from_exec(s: &Vec<char>, c: char, k: usize) -> (r: usize)
    requires
        k <= s.len(),
    ensures
        r == index_from(s@, c, k as int),
        k <= r <= s.len(),
        r < s.len() ==> s@[r as int] == c,
    decreases s.len() - k,
{
    if k == s.len() {
        k
    } else if s[k] == c {
        k
    } else {
        index_from_exec(s, c, k + 1)
    }
}

fn lower_exec(c: char) -> (r: char)
    ensures
        r == ascii_lower(c),
{
    if 'A' <= c && c <= 'Z' {
        let b = (c as u32 + 32) as u8;
        b as char
    } else {
        c
    }
}

fn eq_ignore_ascii_case_exec(a: &Vec<char>, b: &Vec<char>) -> (r: bool)
    ensures
        r == eq_ignore_ascii_case(a@, b@),
{
    if a.len() != b.len() {
        return false;
    }
    let mut k: usize = 0;
    while k < a.len()
        invariant
            a.len() == b.len(),
            k <= a.len(),
            forall|j: int| 0 <= j < k ==> ascii_lower(#[trigger] a@[j]) == ascii_lower(b@[j]),
        decreases a.len() - k,
    {
        if lower_exec(a[k]) != lower_exec(b[k]) {
            return false;
        }
        k += 1;
    }
    true
}

fn word_is(w: &Vec<char>, lit: &str) -> (r: bool)
    ensures
        r == (w@ == lit@),
{
    let l = chars_of(lit);
    if w.len() != l.len() {
        return false;
    }
    let r = matches_at_exec(w, 0, &l);
    assert(r == (w@ == l@)) by {
        if w@.len() == l@.len() {
            assert(w@.subrange(0, l@.len() as int) == w@);
        }
    }
    r
}

fn name_of_word_exec(w: &Vec<char>) -> (r: Option<CommandName>)
    ensures
        r == name_of_word(w@),
{
    if word_is(w, "/new") {
        Some(CommandName::New)
    } else if word_is(w, "/sessions") {
        Some(CommandName::Sessions)
    } else if word_is(w, "/connect") {
        Some(CommandName::Connect)
    } else if word_is(w, "/projects") {
        Some(CommandName::Projects)
    } else if word_is(w, "/close") {
        Some(CommandName::Close)
    } else if word_is(w, "/link") {
        Some(CommandName::Link)
    } else if word_is(w, "/stream") {
        Some(CommandName::Stream)
    } else if word_is(w, "/session") {
        Some(CommandName::Session)
    } else if word_is(w, "/status") {
        Some(CommandName::Status)
    } else if word_is(w, "/clear") {
        Some(CommandName::Clear)
    } else if word_is(w, "/help") {
        Some(CommandName::Help)
    } else {
        None
    }
}

impl Command {
    /// Parses a command addressed to the bot `bot_name`: `/name[@bot] [args]`.
    /// The argument of `/new`, `/connect` and `/link` is the whole text after
    /// the first space; other commands ignore what follows.
    pub fn parse(s: &str, bot_name: &str) -> (r: core::result::Result<Command, CommandParseError>)
        ensures
            match (r, parse_outcome(s@, bot_name@)) {
                (Ok(c), Ok((n, a))) => name_of(c) == n && arg_of(c) == a,
                (Err(CommandParseError::WrongBotName(b)), Err((true, x))) => b@ == x,
                (Err(CommandParseError::UnknownCommand(w)), Err((false, x))) => w@ == x,
                _ => false,
            },
    {
        let v = chars_of(s);
        let bot = chars_of(bot_name);
        let sp = index_from_exec(&v, ' ', 0);
        let head = slice_chars(&v, 0, sp);
        assert(head@ == head_of(s@));
        let at = index_from_exec(&head, '@', 0);
        let word = slice_chars(&head, 0, at);
        assert(word@ == word_of(s@));
        if at < head.len() {
            let end = index_from_exec(&head, '@', at + 1);
            let b = slice_chars(&head, at + 1, end);
            if !eq_ignore_ascii_case_exec(&b, &bot) {
                return Err(CommandParseError::WrongBotName(string_from_chars(&b)));
            }
        }
        let args = if sp < v.len() {
            slice_chars(&v, sp + 1, v.len())
        } else {
            Vec::new()
        };
        assert(args@ == args_of(s@));
        match name_of_word_exec(&word) {
            Some(CommandName::New) => Ok(Command::New(string_from_chars(&args))),
            Some(CommandName::Sessions) => Ok(Command::Sessions),
            Some(CommandName::Connect) => Ok(Command::Connect(string_from_chars(&args))),
            Some(CommandName::Projects) => Ok(Command::Projects),
            Some(CommandName::Close) => Ok(Command::Close),
            Some(CommandName::Link) => Ok(Command::Link(string_from_chars(&args))),
            Some(CommandName::Stream) => Ok(Command::Stream),
            Some(CommandName::Session) => Ok(Command::Session),
            Some(CommandName::Status) => Ok(Command::Status),
            Some(CommandName::Clear) => Ok(Command::Clear),
            Some(CommandName::Help) => Ok(Command::Help),
            None => Err(CommandParseError::UnknownCommand(string_from_chars(&word))),
        }
    }

    /// The command list shown to users: a header, then one line per command.
    pub fn descriptions() -> (r: String)
        ensures
            r@ == command_descriptions(),
    {
        let mut v: Vec<char> = Vec::new();
        push_str(&mut v, "These commands are supported:\n\n");
        push_str(&mut v, "/new \u{2014} create new project and session - Usage: /new <project_name>\n");
        push_str(&mut v, "/sessions \u{2014} list all sessions\n");
        push_str(&mut v, "/connect \u{2014} connect to existing session - Usage: /connect <session_id>\n");
        push_str(&mut v, "/projects \u{2014} list available projects\n");
        push_str(&mut v, "/close \u{2014} close topic and clean up\n");
        push_str(&mut v, "/link \u{2014} link topic to directory - Usage: /link <directory>\n");
        push_str(&mut v, "/stream \u{2014} toggle streaming mode\n");
        push_str(&mut v, "/session \u{2014} show current session info\n");
        push_str(&mut v, "/status \u{2014} show orchestrator status\n");
        push_str(&mut v, "/clear \u{2014} clear stale topic mappings\n");
        push_str(&mut v, "/help \u{2014} display this help text");
        string_from_chars(&v)
    }
}

/// The text of [`Command::descriptions`].
pub open spec fn command_descriptions() -> Seq<char> {
    "These commands are supported:\n\n"@
        + "/new \u{2014} create new project and session - Usage: /new <project_name>\n"@
        + "/sessions \u{2014} list all sessions\n"@
        + "/connect \u{2014} connect to existing session - Usage: /connect <session_id>\n"@
        + "/projects \u{2014} list available projects\n"@
        + "/close \u{2014} close topic and clean up\n"@
        + "/link \u{2014} link topic to directory - Usage: /link <directory>\n"@
        + "/stream \u{2014} toggle streaming mode\n"@
        + "/session \u{2014} show current session info\n"@
        + "/status \u{2014} show orchestrator status\n"@
        + "/clear \u{2014} clear stale topic mappings\n"@
        + "/help \u{2014} display this help text"@
}


proof fn lemma_index_at(s: Seq<char>, c: char, k: int, n: int)
    requires
        0 <= k <= n <= s.len(),
        forall|j: int| k <= j < n ==> #[trigger] s[j] != c,
        n == s.len() || s[n] == c,
    ensures
        index_from(s, c, k) == n,
    decreases n - k,
{
    if k < n {
        lemma_index_at(s, c, k + 1, n);
    }
}

/// Addressing a command to this bot (`/cmd@bot`) reads it as the plain
/// command: the same command with the same argument, or the same refusal.
pub proof fn law_addressed_command_reads_as_plain(word: Seq<char>, bot: Seq<char>, rest: Seq<char>)
    requires
        forall|j: int| 0 <= j < word.len() ==> #[trigger] word[j] != '@' && word[j] != ' ',
        forall|j: int| 0 <= j < bot.len() ==> #[trigger] bot[j] != '@' && bot[j] != ' ',
        rest.len() == 0 || rest[0] == ' ',
    ensures
        parse_outcome(word + seq!['@'] + bot + rest, bot) == parse_outcome(word + rest, bot),
{
    let h1 = word + seq!['@'] + bot;
    let s1 = h1 + rest;
    let s2 = word + rest;
    let lw = word.len() as int;
    let lh = h1.len() as int;
    assert forall|j: int| 0 <= j < lh implies #[trigger] s1[j] != ' ' by {
        if j < lw {
            assert(s1[j] == word[j]);
        } else if j > lw {
            assert(s1[j] == bot[j - lw - 1]);
        }
    }
    lemma_index_at(s1, ' ', 0, lh);
    assert forall|j: int| 0 <= j < lw implies #[trigger] s2[j] != ' ' by {
        assert(s2[j] == word[j]);
    }
    lemma_index_at(s2, ' ', 0, lw);
    assert(head_of(s1) =~= h1);
    assert(head_of(s2) =~= word);
    assert forall|j: int| 0 <= j < lw implies #[trigger] h1[j] != '@' by {
        assert(h1[j] == word[j]);
    }
    lemma_index_at(h1, '@', 0, lw);
    lemma_index_at(word, '@', 0, lw);
    assert forall|j: int| lw + 1 <= j < lh implies #[trigger] h1[j] != '@' by {
        assert(h1[j] == bot[j - lw - 1]);
    }
    lemma_index_at(h1, '@', lw + 1, lh);
    assert(word_of(s1) =~= word);
    assert(word_of(s2) =~= word);
    assert(h1.subrange(lw + 1, lh) =~= bot);
    assert(bot_of(s1) == Some(bot));
    assert(bot_of(s2) is None);
    assert(eq_ignore_ascii_case(bot, bot));
    assert(args_of(s1) =~= args_of(s2)) by {
        if rest.len() > 0 {
            assert(s1.skip(lh + 1) =~= rest.skip(1));
            assert(s2.skip(lw + 1) =~= rest.skip(1));
        }
    }
}


/// A command addressed to another bot (`/cmd@other`, where `other` is not
/// this bot's name up to ASCII case) is refused with that bot's name,
/// whatever the command and its arguments.
pub proof fn law_command_for_other_bot_is_refused(word: Seq<char>, other: Seq<char>, rest: Seq<char>, bot: Seq<char>)
    requires
        forall|j: int| 0 <= j < word.len() ==> #[trigger] word[j] != '@' && word[j] != ' ',
        forall|j: int| 0 <= j < other.len() ==> #[trigger] other[j] != '@' && other[j] != ' ',
        rest.len() == 0 || rest[0] == ' ',
        !eq_ignore_ascii_case(other, bot),
    ensures
        parse_outcome(word + seq!['@'] + other + rest, bot) == Err::<(CommandName, Seq<char>), (bool, Seq<char>)>((true, other)),
{
    let h1 = word + seq!['@'] + other;
    let s1 = h1 + rest;
    let lw = word.len() as int;
    let lh = h1.len() as int;
    assert forall|j: int| 0 <= j < lh implies #[trigger] s1[j] != ' ' by {
        if j < lw {
            assert(s1[j] == word[j]);
        } else if j > lw {
            assert(s1[j] == other[j - lw - 1]);
        }
    }
    lemma_index_at(s1, ' ', 0, lh);
    assert(head_of(s1) =~= h1);
    assert forall|j: int| 0 <= j < lw implies #[trigger] h1[j] != '@' by {
        assert(h1[j] == word[j]);
    }
    lemma_index_at(h1, '@', 0, lw);
    assert forall|j: int| lw + 1 <= j < lh implies #[trigger] h1[j] != '@' by {
        assert(h1[j] == other[j - lw - 1]);
    }
    lemma_index_at(h1, '@', lw + 1, lh);
    assert(h1.subrange(lw + 1, lh) =~= other);
    assert(bot_of(s1) == Some(other));
}

} // verus!
