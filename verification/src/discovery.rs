//! Discovery of OpenCode processes from `ps aux` and `lsof` output.

use vstd::prelude::*;
use crate::text::{
    chars_of, contains_exec, contains_seq, lines, lines_exec, parse_unsigned, parse_unsigned_in,
    slice_chars, starts_with, starts_with_exec, string_from_chars, words, words_exec,
};
use crate::worktree::{to_lowercase, unicode_lowercase};

verus! {

/// How an OpenCode process runs.
#[derive(Debug, Clone, Copy, PartialEq, Eq, Structural)]
pub enum OpenCodeMode {
    Tui,
    Serve,
}

/// A running OpenCode process found on this machine.
#[derive(Debug, Clone)]
pub struct DiscoveredInstance {
    pub pid: u32,
    pub port: Option<u16>,
    pub working_dir: String,
    pub mode: OpenCodeMode,
}

/// What one `ps aux` line tells about an OpenCode process.
#[derive(Debug, Clone)]
pub struct ParsedProcess {
    pub pid: u32,
    pub mode: OpenCodeMode,
    pub port: Option<u16>,
    pub project_path: Option<String>,
}

/// Finds OpenCode processes.
pub struct Discovery;

/// The views of a list of words.
pub open spec fn views(v: Seq<Vec<char>>) -> Seq<Seq<char>> {
    v.map_values(|w: Vec<char>| w@)
}

/// The port that command arguments from index `i` name: the word after
/// `--port` or `-p`, or the text after `--port=`, parsed as a port; the first
/// such flag decides.
pub open spec fn port_from(args: Seq<Seq<char>>, i: int) -> Option<nat>
    decreases args.len() - i,
{
    if i < 0 || i >= args.len() {
        None
    } else if args[i] == "--port"@ || args[i] == "-p"@ {
        if i + 1 < args.len() {
            parse_unsigned(args[i + 1], 65535)
        } else {
            None
        }
    } else if starts_with(args[i], "--port="@) {
        parse_unsigned(args[i].skip(7), 65535)
    } else {
        port_from(args, i + 1)
    }
}

/// The project path that command arguments from index `i` name: the word
/// after `--project`, or the text after `--project=`; the first such flag decides.
pub open spec fn project_from(args: Seq<Seq<char>>, i: int) -> Option<Seq<char>>
    decreases args.len() - i,
{
    if i < 0 || i >= args.len() {
        None
    } else if args[i] == "--project"@ {
        if i + 1 < args.len() {
            Some(args[i + 1])
        } else {
            None
        }
    } else if starts_with(args[i], "--project="@) {
        Some(args[i].skip(10))
    } else {
        project_from(args, i + 1)
    }
}

/// Words joined with single spaces.
pub open spec fn join_spaced(parts: Seq<Seq<char>>) -> Seq<char>
    decreases parts.len(),
{
    if parts.len() == 0 {
        seq![]
    } else if parts.len() == 1 {
        parts[0]
    } else {
        join_spaced(parts.drop_last()) + seq![' '] + parts.last()
    }
}

/// The fields of a process that a `ps aux` line describes, if it is an
/// OpenCode process: not the header, mentions `opencode` (in any case), not a
/// `grep`, at least 11 columns and a numeric PID. The command starts at column 10.
pub open spec fn parsed_ps_line(line: Seq<char>) -> Option<(nat, OpenCodeMode, Option<nat>, Option<Seq<char>>)> {
    let lower = unicode_lowercase(line);
    let parts = words(line);
    if contains_seq(line, "USER"@) && contains_seq(line, "PID"@) {
        None
    } else if !contains_seq(lower, "opencode"@) || contains_seq(lower, "grep"@) {
        None
    } else if parts.len() < 11 {
        None
    } else {
        match parse_unsigned(parts[1], 0xffff_ffff) {
            None => None,
            Some(pid) => {
                let cmd = parts.skip(10);
                let mode = if contains_seq(join_spaced(cmd), "serve"@) {
                    OpenCodeMode::Serve
                } else {
                    OpenCodeMode::Tui
                };
                Some((pid, mode, port_from(cmd, 0), project_from(cmd, 0)))
            },
        }
    }
}

/// The port in `lsof` listening output: on the first line mentioning `LISTEN`
/// whose words, scanned from the last, hold a word with `:` not starting with
/// `(` whose text after the last `:` is a port.
pub open spec fn lsof_port(out: Seq<char>) -> Option<nat> {
    lsof_port_lines(lines(out), 0)
}

/// Text after the last `:` of `w`.
pub open spec fn after_last_colon(w: Seq<char>) -> Seq<char>
    decreases w.len(),
{
    if w.len() == 0 {
        w
    } else if w.last() == ':' {
        seq![]
    } else {
        after_last_colon(w.drop_last()).push(w.last())
    }
}

/// The port found among `parts[..k]`, scanning from the back.
pub open spec fn port_in_parts(parts: Seq<Seq<char>>, k: int) -> Option<nat>
    decreases k,
{
    if k <= 0 || k > parts.len() {
        None
    } else {
        let p = parts[k - 1];
        if contains_seq(p, seq![':']) && !(p.len() > 0 && p[0] == '(') && parse_unsigned(
            after_last_colon(p),
            65535,
        ) is Some {
            parse_unsigned(after_last_colon(p), 65535)
        } else {
            port_in_parts(parts, k - 1)
        }
    }
}

/// The port found on lines `ls[i..]`.
pub open spec fn lsof_port_lines(ls: Seq<Seq<char>>, i: int) -> Option<nat>
    decreases ls.len() - i,
{
    if i < 0 || i >= ls.len() {
        None
    } else if contains_seq(ls[i], "LISTEN"@) && port_in_parts(words(ls[i]), words(ls[i]).len() as int) is Some {
        port_in_parts(words(ls[i]), words(ls[i]).len() as int)
    } else {
        lsof_port_lines(ls, i + 1)
    }
}

/// The working directory in `lsof -d cwd` output: the last word of the first
/// line mentioning `cwd`.
pub open spec fn lsof_cwd(out: Seq<char>) -> Option<Seq<char>> {
    lsof_cwd_lines(lines(out), 0)
}

/// The working directory found on lines `ls[i..]`.
pub open spec fn lsof_cwd_lines(ls: Seq<Seq<char>>, i: int) -> Option<Seq<char>>
    decreases ls.len() - i,
{
    if i < 0 || i >= ls.len() {
        None
    } else if contains_seq(ls[i], "cwd"@) && words(ls[i]).len() > 0 {
        Some(words(ls[i]).last())
    } else {
        lsof_cwd_lines(ls, i + 1)
    }
}

fn is_word(w: &Vec<char>, lit: &str) -> (b: bool)
    ensures
        b == (w@ == lit@),
{
    let l = chars_of(lit);
    if w.len() != l.len() {
        return false;
    }
    let b = crate::text::matches_at_exec(w, 0, &l);
    assert(b == (w@ == l@)) by {
        if w@.len() == l@.len() {
            assert(w@.subrange(0, l@.len() as int) == w@);
        }
    }
    b
}

fn lit_contains(s: &Vec<char>, lit: &str) -> (b: bool)
    ensures
        b == contains_seq(s@, lit@),
{
    let l = chars_of(lit);
    contains_exec(s, &l)
}

fn lit_prefix(s: &Vec<char>, lit: &str) -> (b: bool)
    ensures
        b == starts_with(s@, lit@),
{
    let l = chars_of(lit);
    starts_with_exec(s, &l)
}

fn port_from_words(args: &Vec<Vec<char>>, from: usize) -> (r: Option<u16>)
    requires
        from <= args.len(),
    ensures
        match r {
            Some(p) => port_from(views(args@), from as int) == Some(p as nat),
            None => port_from(views(args@), from as int) is None,
        },
{
    let ghost a = views(args@);
    let mut i = from;
    while i < args.len()
        invariant
            from <= i <= args.len(),
            a == views(args@),
            port_from(a, from as int) == port_from(a, i as int),
        decreases args.len() - i,
    {
        let w = &args[i];
        assert(a[i as int] == w@);
        if is_word(w, "--port") || is_word(w, "-p") {
            if i + 1 < args.len() {
                assert(a[i + 1] == args@[i + 1]@);
                let v = &args[i + 1];
                return match parse_unsigned_in(v, 0, v.len(), 65535) {
                    Some(p) => {
                        assert(v@.subrange(0, v@.len() as int) == v@);
                        Some(p as u16)
                    },
                    None => {
                        assert(v@.subrange(0, v@.len() as int) == v@);
                        None
                    },
                };
            }
            return None;
        }
        if lit_prefix(w, "--port=") {
            proof {
                reveal_strlit("--port=");
            }
            return match parse_unsigned_in(w, 7, w.len(), 65535) {
                Some(p) => {
                    assert(w@.subrange(7, w@.len() as int) == w@.skip(7));
                    Some(p as u16)
                },
                None => {
                    assert(w@.subrange(7, w@.len() as int) == w@.skip(7));
                    None
                },
            };
        }
        i += 1;
    }
    None
}

fn project_from_words(args: &Vec<Vec<char>>, from: usize) -> (r: Option<String>)
    requires
        from <= args.len(),
    ensures
        match r {
            Some(p) => project_from(views(args@), from as int) == Some(p@),
            None => project_from(views(args@), from as int) is None,
        },
{
    let ghost a = views(args@);
    let mut i = from;
    while i < args.len()
        invariant
            from <= i <= args.len(),
            a == views(args@),
            project_from(a, from as int) == project_from(a, i as int),
        decreases args.len() - i,
    {
        let w = &args[i];
        assert(a[i as int] == w@);
        if is_word(w, "--project") {
            if i + 1 < args.len() {
                assert(a[i + 1] == args@[i + 1]@);
                return Some(string_from_chars(&args[i + 1]));
            }
            return None;
        }
        if lit_prefix(w, "--project=") {
            proof {
                reveal_strlit("--project=");
            }
            let rest = slice_chars(w, 10, w.len());
            assert(rest@ == w@.skip(10));
            return Some(string_from_chars(&rest));
        }
        i += 1;
    }
    None
}

fn words_of_strs(args: &[&str]) -> (r: Vec<Vec<char>>)
    ensures
        views(r@) == args@.map_values(|a: &str| a@),
{
    let mut r: Vec<Vec<char>> = Vec::new();
    let mut i: usize = 0;
    while i < args.len()
        invariant
            i <= args@.len(),
            r@.len() == i,
            forall|k: int| 0 <= k < i ==> #[trigger] r@[k]@ == args@[k]@,
        decreases args@.len() - i,
    {
        r.push(chars_of(args[i]));
        i += 1;
    }
    assert(views(r@) =~= args@.map_values(|a: &str| a@));
    r
}

fn join_spaced_exec(parts: &Vec<Vec<char>>, from: usize) -> (r: Vec<char>)
    requires
        from <= parts.len(),
    ensures
        r@ == join_spaced(views(parts@).skip(from as int)),
{
    let ghost p = views(parts@).skip(from as int);
    let mut r: Vec<char> = Vec::new();
    let mut i = from;
    while i < parts.len()
        invariant
            from <= i <= parts.len(),
            p == views(parts@).skip(from as int),
            r@ == join_spaced(p.take(i - from)),
        decreases parts.len() - i,
    {
        let ghost before = p.take(i - from);
        if i > from {
            r.push(' ');
        }
        crate::text::push_chars(&mut r, &parts[i]);
        i += 1;
        proof {
            let now = p.take(i - from);
            assert(now.drop_last() == before);
            assert(now.last() == parts@[i - 1]@);
            if i - 1 == from {
                assert(before.len() == 0);
            }
        }
    }
    assert(p.take(parts.len() - from) == p);
    r
}

/// How a parsed process relates to what [`parsed_ps_line`] gives.
pub open spec fn process_matches(p: ParsedProcess, t: (nat, OpenCodeMode, Option<nat>, Option<Seq<char>>)) -> bool {
    &&& p.pid == t.0
    &&& p.mode == t.1
    &&& match p.port {
        Some(x) => t.2 == Some(x as nat),
        None => t.2 is None,
    }
    &&& match p.project_path {
        Some(x) => t.3 == Some(x@),
        None => t.3 is None,
    }
}

/// The OpenCode processes of `ps aux` output, line by line.
pub open spec fn ps_processes(lines: Seq<Seq<char>>) -> Seq<(nat, OpenCodeMode, Option<nat>, Option<Seq<char>>)>
    decreases lines.len(),
{
    if lines.len() == 0 {
        Seq::empty()
    } else {
        let rest = ps_processes(lines.drop_last());
        match parsed_ps_line(lines.last()) {
            Some(t) => rest.push(t),
            None => rest,
        }
    }
}

impl Discovery {
    /// The port named by command arguments (`--port N`, `-p N`, `--port=N`).
    pub fn extract_port_from_args(args: &[&str]) -> (r: Option<u16>)
        ensures
            match r {
                Some(p) => port_from(args@.map_values(|a: &str| a@), 0) == Some(p as nat),
                None => port_from(args@.map_values(|a: &str| a@), 0) is None,
            },
    {
        let w = words_of_strs(args);
        port_from_words(&w, 0)
    }

    /// The project path named by command arguments (`--project P`, `--project=P`).
    pub fn extract_project_from_args(args: &[&str]) -> (r: Option<String>)
        ensures
            match r {
                Some(p) => project_from(args@.map_values(|a: &str| a@), 0) == Some(p@),
                None => project_from(args@.map_values(|a: &str| a@), 0) is None,
            },
    {
        let w = words_of_strs(args);
        project_from_words(&w, 0)
    }

    /// The OpenCode processes in the output of `ps aux`.
    pub fn parse_ps_output(output: &str) -> (r: Vec<ParsedProcess>)
        ensures
            r@.len() == ps_processes(lines(output@)).len(),
            forall|k: int| 0 <= k < r@.len() ==> process_matches(#[trigger] r@[k], ps_processes(lines(output@))[k]),
    {
        let s = chars_of(output);
        let ls = lines_exec(&s);
        let ghost all = lines(output@);
        let mut r: Vec<ParsedProcess> = Vec::new();
        let mut i: usize = 0;
        while i < ls.len()
            invariant
                i <= ls.len(),
                ls@.len() == all.len(),
                forall|k: int| 0 <= k < ls@.len() ==> #[trigger] ls@[k]@ == all[k],
                r@.len() == ps_processes(all.take(i as int)).len(),
                forall|k: int| 0 <= k < r@.len() ==> process_matches(#[trigger] r@[k], ps_processes(all.take(i as int))[k]),
            decreases ls.len() - i,
        {
            assert(all.take(i + 1).drop_last() =~= all.take(i as int));
            assert(all.take(i + 1).last() == ls@[i as int]@);
            let line = string_from_chars(&ls[i]);
            match Self::parse_ps_line(line.as_str()) {
                Some(p) => {
                    r.push(p);
                },
                None => {},
            }
            i += 1;
        }
        assert(all.take(i as int) =~= all);
        r
    }

    /// Reads an OpenCode process from one `ps aux` line.
    pub fn parse_ps_line(line: &str) -> (r: Option<ParsedProcess>)
        ensures
            match (r, parsed_ps_line(line@)) {
                (Some(p), Some((pid, mode, port, project))) => p.pid == pid && p.mode == mode && (match p.port {
                    Some(x) => port == Some(x as nat),
                    None => port is None,
                }) && (match p.project_path {
                    Some(x) => project == Some(x@),
                    None => project is None,
                }),
                (None, None) => true,
                _ => false,
            },
    {
        let s = chars_of(line);
        if lit_contains(&s, "USER") && lit_contains(&s, "PID") {
            return None;
        }
        let lower_s = to_lowercase(line);
        let lower = chars_of(lower_s.as_str());
        if !lit_contains(&lower, "opencode") || lit_contains(&lower, "grep") {
            return None;
        }
        let parts = words_exec(&s);
        if parts.len() < 11 {
            return None;
        }
        assert(views(parts@) == words(s@));
        assert(views(parts@)[1] == parts@[1]@);
        let pid = match parse_unsigned_in(&parts[1], 0, parts[1].len(), 0xffff_ffff) {
            Some(p) => p as u32,
            None => {
                assert(parts@[1]@.subrange(0, parts@[1]@.len() as int) == parts@[1]@);
                return None;
            },
        };
        assert(parts@[1]@.subrange(0, parts@[1]@.len() as int) == parts@[1]@);
        let cmd = join_spaced_exec(&parts, 10);
        let mode = if lit_contains(&cmd, "serve") {
            OpenCodeMode::Serve
        } else {
            OpenCodeMode::Tui
        };
        let mut rest: Vec<Vec<char>> = Vec::new();
        let mut i: usize = 10;
        while i < parts.len()
            invariant
                10 <= i <= parts.len(),
                rest@.len() == i - 10,
                forall|k: int| 0 <= k < i - 10 ==> #[trigger] rest@[k]@ == parts@[k + 10]@,
            decreases parts.len() - i,
        {
            rest.push(slice_chars(&parts[i], 0, parts[i].len()));
            assert(parts@[i as int]@.subrange(0, parts@[i as int]@.len() as int) == parts@[i as int]@);
            i += 1;
        }
        assert(views(rest@) =~= views(parts@).subrange(10, parts.len() as int));
        assert(views(parts@).subrange(10, parts.len() as int) == views(parts@).skip(10));
        let port = port_from_words(&rest, 0);
        let project_path = project_from_words(&rest, 0);
        Some(ParsedProcess { pid, mode, port, project_path })
    }

    /// The listening port in `lsof -i -sTCP:LISTEN` output (see [`lsof_port`]).
    pub fn parse_lsof_port_output(output: &str) -> (r: Option<u16>)
        ensures
            match r {
                Some(p) => lsof_port(output@) == Some(p as nat),
                None => lsof_port(output@) is None,
            },
    {
        let s = chars_of(output);
        let ls = lines_exec(&s);
        let ghost lv = lines(s@);
        let mut i: usize = 0;
        while i < ls.len()
            invariant
                i <= ls.len(),
                ls@.len() == lv.len(),
                lv == lines(output@),
                forall|k: int| 0 <= k < ls@.len() ==> #[trigger] ls@[k]@ == lv[k],
                lsof_port_lines(lv, 0) == lsof_port_lines(lv, i as int),
            decreases ls.len() - i,
        {
            assert(ls@[i as int]@ == lv[i as int]);
            if lit_contains(&ls[i], "LISTEN") {
                let parts = words_exec(&ls[i]);
                let ghost pv = words(lv[i as int]);
                let mut k = parts.len();
                while k > 0
                    invariant
                        k <= parts.len(),
                        i < lv.len(),
                        pv == words(lv[i as int]),
                        contains_seq(lv[i as int], "LISTEN"@),
                        lv == lines(output@),
                        lsof_port_lines(lv, 0) == lsof_port_lines(lv, i as int),
                        parts@.len() == pv.len(),
                        forall|j: int| 0 <= j < parts@.len() ==> #[trigger] parts@[j]@ == pv[j],
                        port_in_parts(pv, pv.len() as int) == port_in_parts(pv, k as int),
                    decreases k,
                {
                    let p = &parts[k - 1];
                    assert(p@ == pv[k - 1]);
                    let colon = vec![':'];
                    assert(colon@ == seq![':']);
                    if contains_exec(p, &colon) && !(p.len() > 0 && p[0] == '(') {
                        let tail = after_last_colon_exec(p);
                        match parse_unsigned_in(&tail, 0, tail.len(), 65535) {
                            Some(port) => {
                                assert(tail@.subrange(0, tail@.len() as int) == tail@);
                                assert(port_in_parts(pv, k as int) == Some(port as nat));
                                assert(contains_seq(lv[i as int], "LISTEN"@));
                                assert(lsof_port_lines(lv, i as int) == Some(port as nat));
                                return Some(port as u16);
                            },
                            None => {
                                assert(tail@.subrange(0, tail@.len() as int) == tail@);
                            },
                        }
                    }
                    k -= 1;
                }
            }
            i += 1;
        }
        None
    }

    /// The working directory in `lsof -d cwd` output (see [`lsof_cwd`]).
    pub fn parse_lsof_cwd_output(output: &str) -> (r: Option<String>)
        ensures
            match r {
                Some(p) => lsof_cwd(output@) == Some(p@),
                None => lsof_cwd(output@) is None,
            },
    {
        let s = chars_of(output);
        let ls = lines_exec(&s);
        let ghost lv = lines(s@);
        let mut i: usize = 0;
        while i < ls.len()
            invariant
                i <= ls.len(),
                ls@.len() == lv.len(),
                lv == lines(output@),
                forall|k: int| 0 <= k < ls@.len() ==> #[trigger] ls@[k]@ == lv[k],
                lsof_cwd_lines(lv, 0) == lsof_cwd_lines(lv, i as int),
            decreases ls.len() - i,
        {
            assert(ls@[i as int]@ == lv[i as int]);
            if lit_contains(&ls[i], "cwd") {
                let parts = words_exec(&ls[i]);
                if parts.len() > 0 {
                    let last = &parts[parts.len() - 1];
                    return Some(string_from_chars(last));
                }
            }
            i += 1;
        }
        None
    }

    /// Combines what `ps` told about a process with what `lsof` found: the
    /// working directory falls back to the `--project` argument, then `/`;
    /// the port falls back to the `--port` argument.
    pub fn combine(parsed: ParsedProcess, cwd: Option<String>, listening_port: Option<u16>) -> (d: DiscoveredInstance)
        ensures
            d.pid == parsed.pid,
            d.mode == parsed.mode,
            d.port == (match listening_port {
                Some(p) => Some(p),
                None => parsed.port,
            }),
            d.working_dir@ == (match cwd {
                Some(c) => c@,
                None => match parsed.project_path {
                    Some(p) => p@,
                    None => "/"@,
                },
            }),
    {
        let working_dir = match cwd {
            Some(c) => c,
            None => match parsed.project_path {
                Some(p) => p,
                None => "/".to_owned(),
            },
        };
        let port = match listening_port {
            Some(p) => Some(p),
            None => parsed.port,
        };
        DiscoveredInstance { pid: parsed.pid, port, working_dir, mode: parsed.mode }
    }
}

fn after_last_colon_exec(w: &Vec<char>) -> (r: Vec<char>)
    ensures
        r@ == after_last_colon(w@),
{
    let mut k = w.len();
    while k > 0 && w[k - 1] != ':'
        invariant
            k <= w.len(),
            forall|j: int| k <= j < w.len() ==> w@[j] != ':',
        decreases k,
    {
        k -= 1;
    }
    proof {
        lemma_after_last_colon(w@, k as int);
    }
    slice_chars(w, k, w.len())
}

proof fn lemma_after_last_colon(w: Seq<char>, k: int)
    requires
        0 <= k <= w.len(),
        forall|j: int| k <= j < w.len() ==> w[j] != ':',
        k > 0 ==> w[k - 1] == ':',
    ensures
        after_last_colon(w) == w.subrange(k, w.len() as int),
    decreases w.len(),
{
    if w.len() > k {
        let t = w.drop_last();
        assert forall|j: int| k <= j < t.len() implies t[j] != ':' by {
            assert(t[j] == w[j]);
        }
        if k > 0 {
            assert(t[k - 1] == w[k - 1]);
        }
        lemma_after_last_colon(t, k);
        assert(w.subrange(k, w.len() as int) == t.subrange(k, t.len() as int).push(w.last()));
    } else if k > 0 {
        assert(w.last() == ':');
    }
}


/// Whether a word sets the project (`--project`, or `--project=` and the path).
pub open spec fn is_project_flag(w: Seq<char>) -> bool {
    w == "--project"@ || starts_with(w, "--project="@)
}

proof fn lemma_project_from_skips(args: Seq<Seq<char>>, tail: Seq<Seq<char>>, i: int)
    requires
        0 <= i <= args.len(),
        forall|j: int| 0 <= j < args.len() ==> !is_project_flag(#[trigger] args[j]),
    ensures
        project_from(args + tail, i) == project_from(args + tail, args.len() as int),
    decreases args.len() - i,
{
    if i < args.len() {
        assert((args + tail)[i] == args[i]);
        assert(!is_project_flag(args[i]));
        lemma_project_from_skips(args, tail, i + 1);
    }
}

/// The first project flag names the project: after words that set none,
/// `--project={p}` gives `p` and `--project {q}` gives `q`; words that set
/// none give no project.
pub proof fn law_project_flag_is_read(args: Seq<Seq<char>>, p: Seq<char>, q: Seq<char>)
    requires
        forall|j: int| 0 <= j < args.len() ==> !is_project_flag(#[trigger] args[j]),
    ensures
        project_from(args.push("--project="@ + p), 0) == Some(p),
        project_from(args + seq!["--project"@, q], 0) == Some(q),
        project_from(args, 0) is None,
{
    reveal_strlit("--project=");
    reveal_strlit("--project");
    let w = "--project="@ + p;
    let t1 = seq![w];
    assert(args.push(w) =~= args + t1);
    lemma_project_from_skips(args, t1, 0);
    assert((args + t1)[args.len() as int] == w);
    assert(w.len() != "--project"@.len());
    assert(w.take(10) =~= "--project="@);
    assert(w.skip(10) =~= p);
    let t2 = seq!["--project"@, q];
    lemma_project_from_skips(args, t2, 0);
    assert((args + t2)[args.len() as int] == "--project"@);
    assert((args + t2)[args.len() as int + 1] == q);
    let t3 = Seq::<Seq<char>>::empty();
    assert(args + t3 =~= args);
    lemma_project_from_skips(args, t3, 0);
}

} // verus!
