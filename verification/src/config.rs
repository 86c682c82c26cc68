//! Configuration read from environment variables: defaults, validation and
//! the error that names the first variable in the way.

use vstd::prelude::*;
use crate::text::{
    chars_of, find_char, find_char_exec, lemma_find_char, owned, parse_bool, parse_bool_spec, parse_i64_in,
    parse_i64_spec, parse_i64_str, parse_unsigned, parse_unsigned_str, trim, trim_bounds, decimal, int_decimal,
    push_decimal, push_int_decimal, push_str, string_from_chars, digit_char, digit,
};

verus! {

/// The raw values of the configuration variables, `None` where a variable is
/// not set. `project_base_path` has had a leading `~` expanded.
#[derive(Debug, Clone)]
pub struct ConfigEnv {
    pub telegram_bot_token: Option<String>,
    pub telegram_chat_id: Option<String>,
    pub telegram_allowed_users: Option<String>,
    pub handle_general_topic: Option<String>,
    pub opencode_path: Option<String>,
    pub opencode_max_instances: Option<String>,
    pub opencode_idle_timeout_ms: Option<String>,
    pub opencode_port_start: Option<String>,
    pub opencode_port_pool_size: Option<String>,
    pub opencode_health_check_interval_ms: Option<String>,
    pub opencode_startup_timeout_ms: Option<String>,
    pub orchestrator_db_path: Option<String>,
    pub topic_db_path: Option<String>,
    pub project_base_path: Option<String>,
    pub auto_create_project_dirs: Option<String>,
    pub api_port: Option<String>,
    pub api_key: Option<String>,
}

/// Configuration of the bot. Durations are in milliseconds.
#[derive(Debug, Clone)]
pub struct Config {
    pub telegram_bot_token: String,
    pub telegram_chat_id: i64,
    pub telegram_allowed_users: Vec<i64>,
    pub handle_general_topic: bool,
    pub opencode_path: String,
    pub opencode_max_instances: usize,
    pub opencode_idle_timeout: u64,
    pub opencode_port_start: u16,
    pub opencode_port_pool_size: u16,
    pub opencode_health_check_interval: u64,
    pub opencode_startup_timeout: u64,
    pub orchestrator_db_path: String,
    pub topic_db_path: String,
    pub project_base_path: String,
    pub auto_create_project_dirs: bool,
    pub api_port: u16,
    pub api_key: Option<String>,
}

/// The value of a variable, or `default` when it is not set.
pub open spec fn or_default(v: Option<String>, default: Seq<char>) -> Seq<char> {
    match v {
        Some(s) => s@,
        None => default,
    }
}

/// Reading a comma-separated list of user ids from position `k` on, with
/// `acc` read so far: blank entries are skipped, others must be `i64`s
/// (surrounding whitespace allowed).
pub open spec fn users_from(s: Seq<char>, k: int, acc: Seq<i64>) -> Option<Seq<i64>>
    decreases s.len() + 1 - k,
{
    if k < 0 || k > s.len() {
        None
    } else {
        let e = find_char(s, ',', k);
        let t = trim(s.subrange(k, e));
        let next = if t.len() == 0 {
            Some(acc)
        } else {
            match parse_i64_spec(t) {
                Some(x) => Some(acc.push(x as i64)),
                None => None,
            }
        };
        match next {
            None => None,
            Some(a) => if e >= s.len() {
                Some(a)
            } else {
                proof {
                    lemma_find_char(s, ',', k);
                }
                users_from(s, e + 1, a)
            },
        }
    }
}

/// `TELEGRAM_ALLOWED_USERS` read as a list of ids.
pub open spec fn allowed_users(s: Seq<char>) -> Option<Seq<i64>> {
    users_from(s, 0, Seq::empty())
}

/// The first configuration error, in the order the variables are read, if any.
pub open spec fn config_error(env: ConfigEnv) -> Option<Seq<char>> {
    if env.telegram_bot_token is None {
        Some("TELEGRAM_BOT_TOKEN is required but not set"@)
    } else if env.telegram_chat_id is None {
        Some("TELEGRAM_CHAT_ID is required but not set"@)
    } else if parse_i64_spec(env.telegram_chat_id->0@) is None {
        Some("TELEGRAM_CHAT_ID must be a valid integer"@)
    } else if allowed_users(or_default(env.telegram_allowed_users, ""@)) is None {
        Some("TELEGRAM_ALLOWED_USERS contains invalid integer"@)
    } else if parse_bool_spec(or_default(env.handle_general_topic, "true"@)) is None {
        Some("HANDLE_GENERAL_TOPIC must be 'true' or 'false'"@)
    } else if parse_unsigned(or_default(env.opencode_max_instances, "10"@), usize::MAX as nat) is None {
        Some("OPENCODE_MAX_INSTANCES must be a valid integer"@)
    } else if parse_unsigned(or_default(env.opencode_idle_timeout_ms, "1800000"@), u64::MAX as nat) is None {
        Some("OPENCODE_IDLE_TIMEOUT_MS must be a valid integer"@)
    } else if parse_unsigned(or_default(env.opencode_port_start, "4100"@), u16::MAX as nat) is None {
        Some("OPENCODE_PORT_START must be a valid port number"@)
    } else if parse_unsigned(or_default(env.opencode_port_pool_size, "100"@), u16::MAX as nat) is None {
        Some("OPENCODE_PORT_POOL_SIZE must be a valid integer"@)
    } else if parse_unsigned(or_default(env.opencode_health_check_interval_ms, "30000"@), u64::MAX as nat) is None {
        Some("OPENCODE_HEALTH_CHECK_INTERVAL_MS must be a valid integer"@)
    } else if parse_unsigned(or_default(env.opencode_startup_timeout_ms, "60000"@), u64::MAX as nat) is None {
        Some("OPENCODE_STARTUP_TIMEOUT_MS must be a valid integer"@)
    } else if env.project_base_path is None {
        Some("PROJECT_BASE_PATH is required but not set"@)
    } else if parse_bool_spec(or_default(env.auto_create_project_dirs, "true"@)) is None {
        Some("AUTO_CREATE_PROJECT_DIRS must be 'true' or 'false'"@)
    } else if parse_unsigned(or_default(env.api_port, "4200"@), u16::MAX as nat) is None {
        Some("API_PORT must be a valid port number"@)
    } else {
        None
    }
}

/// The configuration read from `env` when no variable is in the way.
pub open spec fn config_fits(c: Config, env: ConfigEnv) -> bool {
    &&& c.telegram_bot_token@ == env.telegram_bot_token->0@
    &&& parse_i64_spec(env.telegram_chat_id->0@) == Some(c.telegram_chat_id as int)
    &&& allowed_users(or_default(env.telegram_allowed_users, ""@)) == Some(c.telegram_allowed_users@)
    &&& parse_bool_spec(or_default(env.handle_general_topic, "true"@)) == Some(c.handle_general_topic)
    &&& c.opencode_path@ == or_default(env.opencode_path, "opencode"@)
    &&& parse_unsigned(or_default(env.opencode_max_instances, "10"@), usize::MAX as nat) == Some(c.opencode_max_instances as nat)
    &&& parse_unsigned(or_default(env.opencode_idle_timeout_ms, "1800000"@), u64::MAX as nat) == Some(c.opencode_idle_timeout as nat)
    &&& parse_unsigned(or_default(env.opencode_port_start, "4100"@), u16::MAX as nat) == Some(c.opencode_port_start as nat)
    &&& parse_unsigned(or_default(env.opencode_port_pool_size, "100"@), u16::MAX as nat) == Some(c.opencode_port_pool_size as nat)
    &&& parse_unsigned(or_default(env.opencode_health_check_interval_ms, "30000"@), u64::MAX as nat) == Some(c.opencode_health_check_interval as nat)
    &&& parse_unsigned(or_default(env.opencode_startup_timeout_ms, "60000"@), u64::MAX as nat) == Some(c.opencode_startup_timeout as nat)
    &&& c.orchestrator_db_path@ == or_default(env.orchestrator_db_path, "./data/orchestrator.db"@)
    &&& c.topic_db_path@ == or_default(env.topic_db_path, "./data/topics.db"@)
    &&& c.project_base_path@ == env.project_base_path->0@
    &&& parse_bool_spec(or_default(env.auto_create_project_dirs, "true"@)) == Some(c.auto_create_project_dirs)
    &&& parse_unsigned(or_default(env.api_port, "4200"@), u16::MAX as nat) == Some(c.api_port as nat)
    &&& match (c.api_key, env.api_key) {
        (Some(a), Some(b)) => a@ == b@,
        (None, None) => true,
        _ => false,
    }
}

fn value_or(v: &Option<String>, default: &str) -> (r: String)
    ensures
        r@ == or_default(*v, default@),
{
    match v {
        Some(s) => s.clone(),
        None => owned(default),
    }
}

/// Reads `TELEGRAM_ALLOWED_USERS`.
pub fn parse_allowed_users(s: &str) -> (r: Option<Vec<i64>>)
    ensures
        match r {
            Some(v) => allowed_users(s@) == Some(v@),
            None => allowed_users(s@) is None,
        },
{
    let c = chars_of(s);
    let mut acc: Vec<i64> = Vec::new();
    let mut k: usize = 0;
    loop
        invariant
            c@ == s@,
            k <= c.len(),
            allowed_users(s@) == users_from(c@, k as int, acc@),
        decreases c.len() + 1 - k,
    {
        let e = find_char_exec(&c, ',', k);
        proof {
            lemma_find_char(c@, ',', k as int);
        }
        let (lo, hi) = trim_bounds(&c, k, e);
        if lo < hi {
            match parse_i64_in(&c, lo, hi) {
                Some(x) => acc.push(x),
                None => return None,
            }
        }
        if e >= c.len() {
            return Some(acc);
        }
        k = e + 1;
    }
}

/// What `{:?}` writes for a path (a quoted, escaped string).
pub uninterp spec fn path_debug(path: Seq<char>) -> Seq<char>;

/// `format!("{:?}", Path::new(path))`: the path as `Debug` writes it; the
/// result is named, as it depends on the path alone.
#[verifier::external_body]
fn debug_path(path: &str) -> (r: String)
    ensures
        r@ == path_debug(path@),
{
    format!("{:?}", std::path::Path::new(path))
}

/// The digits of a nonzero fraction of a second given in milliseconds
/// (`1 ..= 999`), without trailing zeros: 500 gives `5`, 250 gives `25`, 5 gives `005`.
pub open spec fn millis_fraction(f: nat) -> Seq<char> {
    let d1 = digit_char(f / 100);
    let d2 = digit_char((f / 10) % 10);
    let d3 = digit_char(f % 10);
    if f % 100 == 0 {
        seq![d1]
    } else if f % 10 == 0 {
        seq![d1, d2]
    } else {
        seq![d1, d2, d3]
    }
}

/// How `Debug` writes a `Duration` of `ms` milliseconds: `0ns` for zero,
/// `{ms}ms` below a second, else the seconds with the fraction of a second
/// (trailing zeros dropped, no fraction when it is zero) and `s`.
pub open spec fn duration_text(ms: u64) -> Seq<char> {
    if ms == 0 {
        "0ns"@
    } else if ms < 1000 {
        decimal(ms as nat) + "ms"@
    } else if ms % 1000 == 0 {
        decimal((ms / 1000) as nat) + "s"@
    } else {
        decimal((ms / 1000) as nat) + "."@ + millis_fraction((ms % 1000) as nat) + "s"@
    }
}

/// `format!("{:?}", Duration::from_millis(ms))`, written as [`duration_text`] says.
fn debug_duration_ms(ms: u64) -> (r: String)
    ensures
        r@ == duration_text(ms),
{
    let mut v: Vec<char> = Vec::new();
    if ms == 0 {
        push_str(&mut v, "0ns");
    } else if ms < 1000 {
        push_decimal(&mut v, ms);
        push_str(&mut v, "ms");
    } else {
        push_decimal(&mut v, ms / 1000);
        let f = ms % 1000;
        if f != 0 {
            push_str(&mut v, ".");
            v.push(digit(f / 100));
            if f % 100 != 0 {
                v.push(digit((f / 10) % 10));
                if f % 10 != 0 {
                    v.push(digit(f % 10));
                }
            }
        }
        push_str(&mut v, "s");
    }
    proof {
        reveal_strlit("0ns");
        reveal_strlit("ms");
        reveal_strlit("s");
        reveal_strlit(".");
    }
    assert(v@ =~= duration_text(ms));
    string_from_chars(&v)
}

/// `{:?}` of a list of ids: `[1, 2, 3]`.
pub open spec fn ids_debug(v: Seq<i64>) -> Seq<char>
    decreases v.len(),
{
    if v.len() == 0 {
        "[]"@
    } else if v.len() == 1 {
        "["@ + int_decimal(v[0] as int) + "]"@
    } else {
        ids_debug(v.drop_last()).drop_last() + ", "@ + int_decimal(v.last() as int) + "]"@
    }
}

/// `true` or `false`.
pub open spec fn bool_text(b: bool) -> Seq<char> {
    if b { "true"@ } else { "false"@ }
}

/// The configuration as it is logged: the bot token is always masked, and
/// the API key is shown only as masked or `None`.
pub open spec fn config_summary(c: Config) -> Seq<char> {
    "Config {\n  telegram_bot_token: ***MASKED***,\n  telegram_chat_id: "@ + int_decimal(c.telegram_chat_id as int)
        + ",\n  telegram_allowed_users: "@ + ids_debug(c.telegram_allowed_users@) + ",\n  handle_general_topic: "@
        + bool_text(c.handle_general_topic) + ",\n  opencode_path: "@ + path_debug(c.opencode_path@)
        + ",\n  opencode_max_instances: "@ + decimal(c.opencode_max_instances as nat) + ",\n  opencode_idle_timeout: "@
        + duration_text(c.opencode_idle_timeout) + ",\n  opencode_port_start: "@ + decimal(c.opencode_port_start as nat)
        + ",\n  opencode_port_pool_size: "@ + decimal(c.opencode_port_pool_size as nat)
        + ",\n  opencode_health_check_interval: "@ + duration_text(c.opencode_health_check_interval)
        + ",\n  opencode_startup_timeout: "@ + duration_text(c.opencode_startup_timeout) + ",\n  orchestrator_db_path: "@
        + path_debug(c.orchestrator_db_path@) + ",\n  topic_db_path: "@ + path_debug(c.topic_db_path@)
        + ",\n  project_base_path: "@ + path_debug(c.project_base_path@) + ",\n  auto_create_project_dirs: "@
        + bool_text(c.auto_create_project_dirs) + ",\n  api_port: "@ + decimal(c.api_port as nat) + ",\n  api_key: "@
        + (if c.api_key is Some { "***MASKED***"@ } else { "None"@ }) + ",\n}"@
}

fn push_ids(v: &mut Vec<char>, ids: &Vec<i64>)
    ensures
        final(v)@ == old(v)@ + ids_debug(ids@),
{
    let ghost start = v@;
    push_str(v, "[");
    let mut i: usize = 0;
    while i < ids.len()
        invariant
            i <= ids.len(),
            i == 0 ==> v@ == start + "["@,
            i > 0 ==> v@ + "]"@ == start + ids_debug(ids@.take(i as int)),
        decreases ids.len() - i,
    {
        proof {
            reveal_strlit("]");
            reveal_strlit("[");
            reveal_strlit(", ");
        }
        let ghost before = v@;
        if i > 0 {
            push_str(v, ", ");
        }
        push_int_decimal(v, ids[i]);
        proof {
            let t = ids@.take(i + 1);
            assert(t.drop_last() =~= ids@.take(i as int));
            if i == 0 {
                assert(t.len() == 1);
                assert(v@ + "]"@ =~= start + ids_debug(t));
            } else {
                let d = ids_debug(ids@.take(i as int));
                assert(before + "]"@ == start + d);
                assert(d.len() >= 1);
                assert((before + "]"@).drop_last() =~= before);
                assert((start + d).drop_last() =~= start + d.drop_last());
                assert(before =~= start + d.drop_last());
                assert(v@ + "]"@ =~= start + ids_debug(t));
            }
        }
        i += 1;
    }
    proof { reveal_strlit("]"); reveal_strlit("[]"); reveal_strlit("["); }
    push_str(v, "]");
    proof {
        assert(ids@.take(i as int) =~= ids@);
        if i == 0 {
            assert(v@ =~= start + "[]"@);
        }
    }
}

fn push_bool(v: &mut Vec<char>, b: bool)
    ensures
        final(v)@ == old(v)@ + bool_text(b),
{
    if b {
        push_str(v, "true");
    } else {
        push_str(v, "false");
    }
}

impl Config {
    /// Whether messages from `chat_id` are handled: only the configured chat's are.
    pub fn is_whitelisted_chat(&self, chat_id: i64) -> (b: bool)
        ensures
            b == (chat_id == self.telegram_chat_id),
    {
        chat_id == self.telegram_chat_id
    }

    /// The configuration as it is logged, with its secrets masked.
    pub fn masked_summary(&self) -> (r: String)
        ensures
            r@ == config_summary(*self),
    {
        let mut v: Vec<char> = Vec::new();
        push_str(&mut v, "Config {\n  telegram_bot_token: ***MASKED***,\n  telegram_chat_id: ");
        push_int_decimal(&mut v, self.telegram_chat_id);
        push_str(&mut v, ",\n  telegram_allowed_users: ");
        push_ids(&mut v, &self.telegram_allowed_users);
        push_str(&mut v, ",\n  handle_general_topic: ");
        push_bool(&mut v, self.handle_general_topic);
        push_str(&mut v, ",\n  opencode_path: ");
        push_str(&mut v, debug_path(self.opencode_path.as_str()).as_str());
        push_str(&mut v, ",\n  opencode_max_instances: ");
        push_decimal(&mut v, self.opencode_max_instances as u64);
        push_str(&mut v, ",\n  opencode_idle_timeout: ");
        push_str(&mut v, debug_duration_ms(self.opencode_idle_timeout).as_str());
        push_str(&mut v, ",\n  opencode_port_start: ");
        push_decimal(&mut v, self.opencode_port_start as u64);
        push_str(&mut v, ",\n  opencode_port_pool_size: ");
        push_decimal(&mut v, self.opencode_port_pool_size as u64);
        push_str(&mut v, ",\n  opencode_health_check_interval: ");
        push_str(&mut v, debug_duration_ms(self.opencode_health_check_interval).as_str());
        push_str(&mut v, ",\n  opencode_startup_timeout: ");
        push_str(&mut v, debug_duration_ms(self.opencode_startup_timeout).as_str());
        push_str(&mut v, ",\n  orchestrator_db_path: ");
        push_str(&mut v, debug_path(self.orchestrator_db_path.as_str()).as_str());
        push_str(&mut v, ",\n  topic_db_path: ");
        push_str(&mut v, debug_path(self.topic_db_path.as_str()).as_str());
        push_str(&mut v, ",\n  project_base_path: ");
        push_str(&mut v, debug_path(self.project_base_path.as_str()).as_str());
        push_str(&mut v, ",\n  auto_create_project_dirs: ");
        push_bool(&mut v, self.auto_create_project_dirs);
        push_str(&mut v, ",\n  api_port: ");
        push_decimal(&mut v, self.api_port as u64);
        push_str(&mut v, ",\n  api_key: ");
        if self.api_key.is_some() {
            push_str(&mut v, "***MASKED***");
        } else {
            push_str(&mut v, "None");
        }
        push_str(&mut v, ",\n}");
        string_from_chars(&v)
    }

    /// The configuration for the variable values `env`, or the message of the
    /// first variable that is missing or malformed.
    pub fn from_values(env: &ConfigEnv) -> (r: Result<Config, String>)
        ensures
            match r {
                Ok(c) => config_error(*env) is None && config_fits(c, *env),
                Err(m) => config_error(*env) == Some(m@),
            },
    {
        let telegram_bot_token = match &env.telegram_bot_token {
            Some(t) => t.clone(),
            None => return Err(owned("TELEGRAM_BOT_TOKEN is required but not set")),
        };
        let telegram_chat_id = match &env.telegram_chat_id {
            Some(t) => match parse_i64_str(t.as_str()) {
                Some(v) => v,
                None => return Err(owned("TELEGRAM_CHAT_ID must be a valid integer")),
            },
            None => return Err(owned("TELEGRAM_CHAT_ID is required but not set")),
        };
        let users = value_or(&env.telegram_allowed_users, "");
        let telegram_allowed_users = match parse_allowed_users(users.as_str()) {
            Some(v) => v,
            None => return Err(owned("TELEGRAM_ALLOWED_USERS contains invalid integer")),
        };
        let handle_general_topic = match parse_bool(value_or(&env.handle_general_topic, "true").as_str()) {
            Some(b) => b,
            None => return Err(owned("HANDLE_GENERAL_TOPIC must be 'true' or 'false'")),
        };
        let opencode_path = value_or(&env.opencode_path, "opencode");
        let opencode_max_instances = match parse_unsigned_str(value_or(&env.opencode_max_instances, "10").as_str(), usize::MAX as u64) {
            Some(v) => v as usize,
            None => return Err(owned("OPENCODE_MAX_INSTANCES must be a valid integer")),
        };
        let opencode_idle_timeout = match parse_unsigned_str(value_or(&env.opencode_idle_timeout_ms, "1800000").as_str(), u64::MAX) {
            Some(v) => v,
            None => return Err(owned("OPENCODE_IDLE_TIMEOUT_MS must be a valid integer")),
        };
        let opencode_port_start = match parse_unsigned_str(value_or(&env.opencode_port_start, "4100").as_str(), 0xffff) {
            Some(v) => v as u16,
            None => return Err(owned("OPENCODE_PORT_START must be a valid port number")),
        };
        let opencode_port_pool_size = match parse_unsigned_str(value_or(&env.opencode_port_pool_size, "100").as_str(), 0xffff) {
            Some(v) => v as u16,
            None => return Err(owned("OPENCODE_PORT_POOL_SIZE must be a valid integer")),
        };
        let opencode_health_check_interval = match parse_unsigned_str(
            value_or(&env.opencode_health_check_interval_ms, "30000").as_str(),
            u64::MAX,
        ) {
            Some(v) => v,
            None => return Err(owned("OPENCODE_HEALTH_CHECK_INTERVAL_MS must be a valid integer")),
        };
        let opencode_startup_timeout = match parse_unsigned_str(value_or(&env.opencode_startup_timeout_ms, "60000").as_str(), u64::MAX) {
            Some(v) => v,
            None => return Err(owned("OPENCODE_STARTUP_TIMEOUT_MS must be a valid integer")),
        };
        let orchestrator_db_path = value_or(&env.orchestrator_db_path, "./data/orchestrator.db");
        let topic_db_path = value_or(&env.topic_db_path, "./data/topics.db");
        let project_base_path = match &env.project_base_path {
            Some(p) => p.clone(),
            None => return Err(owned("PROJECT_BASE_PATH is required but not set")),
        };
        let auto_create_project_dirs = match parse_bool(value_or(&env.auto_create_project_dirs, "true").as_str()) {
            Some(b) => b,
            None => return Err(owned("AUTO_CREATE_PROJECT_DIRS must be 'true' or 'false'")),
        };
        let api_port = match parse_unsigned_str(value_or(&env.api_port, "4200").as_str(), 0xffff) {
            Some(v) => v as u16,
            None => return Err(owned("API_PORT must be a valid port number")),
        };
        let api_key = match &env.api_key {
            Some(k) => Some(k.clone()),
            None => None,
        };
        Ok(Config {
            telegram_bot_token,
            telegram_chat_id,
            telegram_allowed_users,
            handle_general_topic,
            opencode_path,
            opencode_max_instances,
            opencode_idle_timeout,
            opencode_port_start,
            opencode_port_pool_size,
            opencode_health_check_interval,
            opencode_startup_timeout,
            orchestrator_db_path,
            topic_db_path,
            project_base_path,
            auto_create_project_dirs,
            api_port,
            api_key,
        })
    }
}

/// The logged configuration never depends on the bot token, nor on the value
/// of the API key (only on whether one is set): two configurations that
/// differ only there are logged alike.
pub proof fn law_summary_masks_secrets(a: Config, b: Config)
    requires
        a.telegram_chat_id == b.telegram_chat_id,
        a.telegram_allowed_users@ == b.telegram_allowed_users@,
        a.handle_general_topic == b.handle_general_topic,
        a.opencode_path@ == b.opencode_path@,
        a.opencode_max_instances == b.opencode_max_instances,
        a.opencode_idle_timeout == b.opencode_idle_timeout,
        a.opencode_port_start == b.opencode_port_start,
        a.opencode_port_pool_size == b.opencode_port_pool_size,
        a.opencode_health_check_interval == b.opencode_health_check_interval,
        a.opencode_startup_timeout == b.opencode_startup_timeout,
        a.orchestrator_db_path@ == b.orchestrator_db_path@,
        a.topic_db_path@ == b.topic_db_path@,
        a.project_base_path@ == b.project_base_path@,
        a.auto_create_project_dirs == b.auto_create_project_dirs,
        a.api_port == b.api_port,
        a.api_key is Some <==> b.api_key is Some,
    ensures
        config_summary(a) == config_summary(b),
{
}

} // verus!
