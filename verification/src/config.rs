//! Settings, from the environment and from a `.env` file.

use vstd::prelude::*;
use vstd::string::*;
use crate::text::{trim, trimmed};

verus! {

#[derive(Debug, Clone)]
pub struct Config {
    pub app_id: String,
    pub app_secret: String,
    pub bind_addr: String,
    pub allowed_chat_id: Option<String>,
    pub verification_token: Option<String>,
    /// Where the games are stored.
    pub db_path: String,
}

/// A setting that has to be there and is not.
#[derive(Debug, Clone, Copy, PartialEq, Eq, Structural)]
pub enum ConfigError {
    NoAppId,
    NoAppSecret,
}

impl ConfigError {
    pub open spec fn text(self) -> Seq<char> {
        match self {
            ConfigError::NoAppId => "FEISHU_APP_ID is required"@,
            ConfigError::NoAppSecret => "FEISHU_APP_SECRET is required"@,
        }
    }

    pub fn message(&self) -> (r: &'static str)
        ensures
            r@ == self.text(),
    {
        match self {
            ConfigError::NoAppId => "FEISHU_APP_ID is required",
            ConfigError::NoAppSecret => "FEISHU_APP_SECRET is required",
        }
    }
}

/// The variables that settings are read from, as far as they are set.
#[derive(Debug, Clone)]
pub struct Variables {
    /// `FEISHU_APP_ID`
    pub app_id: Option<String>,
    /// `FEISHU_APP_SECRET`
    pub app_secret: Option<String>,
    /// `BIND_ADDR`
    pub bind_addr: Option<String>,
    /// `ALLOWED_CHAT_ID`
    pub allowed_chat_id: Option<String>,
    /// `FEISHU_VERIFICATION_TOKEN`
    pub verification_token: Option<String>,
    /// `LARKRIVER_DB_PATH`
    pub db_path: Option<String>,
}

pub open spec fn option_view(t: Option<String>) -> Option<Seq<char>> {
    match t {
        Some(s) => Some(s@),
        None => None,
    }
}

/// The text, unless it is empty.
pub open spec fn filled(t: Option<Seq<char>>) -> Option<Seq<char>> {
    match t {
        Some(s) => if s.len() == 0 { None } else { Some(s) },
        None => None,
    }
}

fn env_opt(value: Option<String>) -> (r: Option<String>)
    ensures
        option_view(r) == filled(option_view(value)),
{
    match value {
        Some(s) => if s.as_str().unicode_len() == 0 {
            None
        } else {
            Some(s)
        },
        None => None,
    }
}

fn or_default(value: Option<String>, default: &str) -> (r: String)
    ensures
        r@ == match value {
            Some(s) => s@,
            None => default@,
        },
{
    match value {
        Some(s) => s,
        None => default.to_owned(),
    }
}

impl Config {
    /// The settings that the variables make. The app's id and secret have to be
    /// set; the address and the store's path have defaults; an empty chat id or
    /// token counts as none.
    pub fn from_variables(vars: Variables) -> (r: Result<Config, ConfigError>)
        ensures
            match (vars.app_id, vars.app_secret) {
                (None, _) => r is Err && r->Err_0 == ConfigError::NoAppId,
                (Some(_), None) => r is Err && r->Err_0 == ConfigError::NoAppSecret,
                (Some(id), Some(secret)) => {
                    &&& r is Ok
                    &&& r->Ok_0.app_id@ == id@
                    &&& r->Ok_0.app_secret@ == secret@
                    &&& r->Ok_0.bind_addr@ == (match vars.bind_addr {
                        Some(s) => s@,
                        None => "0.0.0.0:8080"@,
                    })
                    &&& option_view(r->Ok_0.allowed_chat_id) == filled(option_view(vars.allowed_chat_id))
                    &&& option_view(r->Ok_0.verification_token) == filled(option_view(vars.verification_token))
                    &&& r->Ok_0.db_path@ == (match vars.db_path {
                        Some(s) => s@,
                        None => "larkriver.redb"@,
                    })
                },
            },
    {
        let app_id = match vars.app_id {
            Some(s) => s,
            None => {
                return Err(ConfigError::NoAppId);
            },
        };
        let app_secret = match vars.app_secret {
            Some(s) => s,
            None => {
                return Err(ConfigError::NoAppSecret);
            },
        };
        Ok(
            Config {
                app_id,
                app_secret,
                bind_addr: or_default(vars.bind_addr, "0.0.0.0:8080"),
                allowed_chat_id: env_opt(vars.allowed_chat_id),
                verification_token: env_opt(vars.verification_token),
                db_path: or_default(vars.db_path, "larkriver.redb"),
            },
        )
    }
}

// ---- the .env file ----

/// The text without the character at its start, as often as it is there.
pub open spec fn unquoted_start(s: Seq<char>, c: char) -> Seq<char>
    decreases s.len(),
{
    if s.len() > 0 && s[0] == c {
        unquoted_start(s.skip(1), c)
    } else {
        s
    }
}

/// The text without the character at its end, as often as it is there.
pub open spec fn unquoted_end(s: Seq<char>, c: char) -> Seq<char>
    decreases s.len(),
{
    if s.len() > 0 && s.last() == c {
        unquoted_end(s.drop_last(), c)
    } else {
        s
    }
}

pub open spec fn unquoted(s: Seq<char>, c: char) -> Seq<char> {
    unquoted_end(unquoted_start(s, c), c)
}

fn unquote(s: &str, c: char) -> (r: &str)
    ensures
        r@ == unquoted(s@, c),
{
    let n: usize = s.unicode_len();
    let mut i: usize = 0;
    assert(s@.skip(0) =~= s@);
    while i < n && s.get_char(i) == c
        invariant
            n == s@.len(),
            i <= n,
            unquoted_start(s@, c) == unquoted_start(s@.skip(i as int), c),
        decreases n - i,
    {
        assert(s@.skip(i as int).skip(1) =~= s@.skip(i + 1));
        i = i + 1;
    }
    let t = s.substring_char(i, n);
    assert(t@ =~= s@.skip(i as int));
    let mut m: usize = t.unicode_len();
    assert(t@.take(m as int) =~= t@);
    while m > 0 && t.get_char(m - 1) == c
        invariant
            m <= t@.len(),
            unquoted_end(t@, c) == unquoted_end(t@.take(m as int), c),
        decreases m,
    {
        assert(t@.take(m as int).drop_last() =~= t@.take(m - 1));
        m = m - 1;
    }
    let r = t.substring_char(0, m);
    assert(r@ =~= t@.take(m as int));
    r
}

/// The place of the first such character, or the text's length.
pub open spec fn place_of(s: Seq<char>, c: char) -> int
    decreases s.len(),
{
    if s.len() == 0 || s[0] == c {
        0
    } else {
        1 + place_of(s.skip(1), c)
    }
}

proof fn place_of_facts(s: Seq<char>, c: char)
    ensures
        0 <= place_of(s, c) <= s.len(),
    decreases s.len(),
{
    if s.len() > 0 && s[0] != c {
        place_of_facts(s.skip(1), c);
    }
}

fn find_char(s: &str, c: char) -> (r: usize)
    ensures
        r == place_of(s@, c),
        r <= s@.len(),
{
    let n: usize = s.unicode_len();
    let mut i: usize = 0;
    assert(s@.skip(0) =~= s@);
    while i < n && s.get_char(i) != c
        invariant
            n == s@.len(),
            i <= n,
            place_of(s@, c) == i + place_of(s@.skip(i as int), c),
        decreases n - i,
    {
        assert(s@.skip(i as int).skip(1) =~= s@.skip(i + 1));
        i = i + 1;
    }
    i
}

/// The name and the value that a line sets: what is before the first `=` and
/// what is behind it, without white space around them and without quotes round
/// the value. Comments, empty lines and lines without `=` set nothing.
pub open spec fn setting_of(line: Seq<char>) -> Option<(Seq<char>, Seq<char>)> {
    let t = trimmed(line);
    let k = place_of(t, '=');
    if t.len() == 0 || t[0] == '#' || k >= t.len() {
        None
    } else {
        Some((trimmed(t.take(k)), unquoted(unquoted(trimmed(t.skip(k + 1)), '"'), '\'')))
    }
}

fn read_setting(line: &str) -> (r: Option<(String, String)>)
    ensures
        match r {
            Some((k, v)) => setting_of(line@) == Some((k@, v@)),
            None => setting_of(line@) is None,
        },
{
    let t = trim(line);
    let n: usize = t.unicode_len();
    if n == 0 || t.get_char(0) == '#' {
        return None;
    }
    let k = find_char(t, '=');
    if k >= n {
        return None;
    }
    let name = t.substring_char(0, k);
    let value = t.substring_char(k + 1, n);
    assert(name@ =~= t@.take(k as int));
    assert(value@ =~= t@.skip(k + 1));
    let v = unquote(unquote(trim(value), '"'), '\'');
    Some((trim(name).to_owned(), v.to_owned()))
}

/// What the lines of a file set, in order.
pub open spec fn settings_of(contents: Seq<char>) -> Seq<(Seq<char>, Seq<char>)>
    decreases contents.len(),
{
    let k = place_of(contents, '\n');
    let first = match setting_of(contents.take(k)) {
        Some(s) => seq![s],
        None => Seq::empty(),
    };
    if k >= contents.len() || k < 0 {
        first
    } else {
        first + settings_of(contents.skip(k + 1))
    }
}

pub open spec fn settings_view(s: Seq<(String, String)>) -> Seq<(Seq<char>, Seq<char>)> {
    s.map_values(|e: (String, String)| (e.0@, e.1@))
}

/// Read a `.env` file: the names and values that it sets, in order.
pub fn read_dotenv(contents: &str) -> (r: Vec<(String, String)>)
    ensures
        settings_view(r@) == settings_of(contents@),
{
    let n: usize = contents.unicode_len();
    let mut out: Vec<(String, String)> = Vec::new();
    let mut start: usize = 0;
    let mut done = false;
    assert(contents@.skip(0) =~= contents@);
    assert(settings_view(out@) + settings_of(contents@) =~= settings_of(contents@));
    while !done
        invariant
            n == contents@.len(),
            start <= n,
            !done ==> settings_of(contents@) == settings_view(out@) + settings_of(contents@.skip(start as int)),
            done ==> settings_of(contents@) == settings_view(out@),
        decreases n - start, (if done { 0int } else { 1int }),
    {
        let rest = contents.substring_char(start, n);
        assert(rest@ =~= contents@.skip(start as int));
        let k = find_char(rest, '\n');
        let line = rest.substring_char(0, k);
        assert(line@ =~= rest@.take(k as int));
        let ghost so_far = settings_view(out@);
        if let Some(s) = read_setting(line) {
            out.push(s);
            assert(settings_view(out@) =~= so_far.push((s.0@, s.1@)));
        }
        proof {
            let first = match setting_of(rest@.take(k as int)) {
                Some(s) => seq![s],
                None => Seq::empty(),
            };
            assert(settings_view(out@) =~= so_far + first);
            if k < rest@.len() {
                assert(rest@.skip(k + 1) =~= contents@.skip(start + k + 1));
                assert(so_far + (first + settings_of(rest@.skip(k + 1))) =~= (so_far + first) + settings_of(
                    rest@.skip(k + 1),
                ));
            }
        }
        if k >= rest.unicode_len() {
            done = true;
        } else {
            start = start + k + 1;
        }
    }
    out
}

} // verus!
