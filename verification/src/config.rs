//! The settings of the market maker.

use crate::env_file::settings_view;
use crate::text::{number_within, parse_i64, parse_u32, parse_u64, same_text};
use vstd::prelude::*;
use vstd::string::*;

verus! {

#[derive(Debug, Clone)]
pub struct Config {
    pub api_key_id: String,
    pub private_key_pem: String,
    pub rest_base_url: String,
    pub ws_url: String,
    pub series_ticker: String,
    /// Minimum profit in cents per YES+NO pair.
    pub min_pair_profit_cents: i64,
    pub max_inventory: i64,
    pub hard_inventory_cap: i64,
    pub daily_loss_cap_cents: i64,
    pub rate_limit_writes_per_sec: u32,
    /// How many contracts of inventory before skew kicks in (per 1 cent of adjustment).
    pub inventory_skew_threshold: i64,
    pub quote_refresh_interval_ms: u64,
    pub rest_timeout_ms: u64,
    pub market_check_interval_ms: u64,
    pub market_rotate_before_close_secs: i64,
}

/// The value of the first variable called `name`, where there is one.
pub open spec fn variable(vars: Seq<(Seq<char>, Seq<char>)>, name: Seq<char>) -> Option<Seq<char>>
    decreases vars.len(),
{
    if vars.len() == 0 {
        None
    } else if vars[0].0 == name {
        Some(vars[0].1)
    } else {
        variable(vars.skip(1), name)
    }
}

/// The text that the variable `name` sets, or else `default`.
pub open spec fn text_setting(vars: Seq<(Seq<char>, Seq<char>)>, name: Seq<char>, default: Seq<char>) -> Seq<char> {
    match variable(vars, name) {
        Some(value) => value,
        None => default,
    }
}

/// The number between `low` and `high` that the variable `name` writes, or else `default`.
pub open spec fn number_setting(
    vars: Seq<(Seq<char>, Seq<char>)>,
    name: Seq<char>,
    signed: bool,
    low: int,
    high: int,
    default: int,
) -> int {
    match variable(vars, name) {
        Some(value) => match number_within(value, signed, low, high) {
            Some(n) => n,
            None => default,
        },
        None => default,
    }
}

/// The `i64` that the variable `name` writes, or else `default`.
pub open spec fn i64_setting(vars: Seq<(Seq<char>, Seq<char>)>, name: Seq<char>, default: int) -> int {
    number_setting(vars, name, true, i64::MIN as int, i64::MAX as int, default)
}

/// The value of the first variable called `name`, where there is one.
pub fn lookup<'a>(vars: &'a Vec<(String, String)>, name: &str) -> (r: Option<&'a String>)
    ensures
        (match r {
            Some(value) => Some(value@),
            None => None,
        }) == variable(settings_view(vars@), name@),
{
    let mut i: usize = 0;
    assert(settings_view(vars@).skip(0) =~= settings_view(vars@));
    while i < vars.len()
        invariant
            i <= vars.len(),
            variable(settings_view(vars@), name@) == variable(settings_view(vars@).skip(i as int), name@),
        decreases vars.len() - i,
    {
        let ghost rest = settings_view(vars@).skip(i as int);
        assert(rest[0] == (vars@[i as int].0@, vars@[i as int].1@));
        assert(rest.skip(1) =~= settings_view(vars@).skip(i + 1));
        if same_text(vars[i].0.as_str(), name) {
            return Some(&vars[i].1);
        }
        i = i + 1;
    }
    None
}

fn text_or(vars: &Vec<(String, String)>, name: &str, default: String) -> (r: String)
    ensures
        r@ == text_setting(settings_view(vars@), name@, default@),
{
    match lookup(vars, name) {
        Some(value) => value.clone(),
        None => default,
    }
}

fn i64_or(vars: &Vec<(String, String)>, name: &str, default: i64) -> (r: i64)
    ensures
        r == i64_setting(settings_view(vars@), name@, default as int),
{
    match lookup(vars, name) {
        Some(value) => match parse_i64(value.as_str()) {
            Some(n) => n,
            None => default,
        },
        None => default,
    }
}

fn u64_or(vars: &Vec<(String, String)>, name: &str, default: u64) -> (r: u64)
    ensures
        r == number_setting(settings_view(vars@), name@, false, 0, u64::MAX as int, default as int),
{
    match lookup(vars, name) {
        Some(value) => match parse_u64(value.as_str()) {
            Some(n) => n,
            None => default,
        },
        None => default,
    }
}

fn u32_or(vars: &Vec<(String, String)>, name: &str, default: u32) -> (r: u32)
    ensures
        r == number_setting(settings_view(vars@), name@, false, 0, u32::MAX as int, default as int),
{
    match lookup(vars, name) {
        Some(value) => match parse_u32(value.as_str()) {
            Some(n) => n,
            None => default,
        },
        None => default,
    }
}

impl Default for Config {
    fn default() -> (r: Self)
        ensures
            r.read_from(Seq::empty()),
            r.api_key_id@ == Seq::<char>::empty(),
            r.private_key_pem@ == Seq::<char>::empty(),
    {
        Self {
            api_key_id: String::new(),
            private_key_pem: String::new(),
            rest_base_url: "https://api.elections.kalshi.com/trade-api/v2".to_owned(),
            ws_url: "wss://api.elections.kalshi.com/trade-api/ws/v2".to_owned(),
            series_ticker: "KXBTC15M".to_owned(),
            min_pair_profit_cents: 1,
            max_inventory: 5,
            hard_inventory_cap: 10,
            daily_loss_cap_cents: 500,
            rate_limit_writes_per_sec: 28,
            inventory_skew_threshold: 2,
            quote_refresh_interval_ms: 5,
            rest_timeout_ms: 2000,
            market_check_interval_ms: 30000,
            market_rotate_before_close_secs: 90,
        }
    }
}

impl Config {
    /// Whether every setting is the one that `vars` makes, or its default where `vars` makes none
    /// or one that cannot be read. The key is no setting of this kind.
    pub open spec fn read_from(&self, vars: Seq<(Seq<char>, Seq<char>)>) -> bool {
        &&& self.rest_base_url@ == text_setting(vars, "REST_BASE_URL"@, "https://api.elections.kalshi.com/trade-api/v2"@)
        &&& self.ws_url@ == text_setting(vars, "WS_URL"@, "wss://api.elections.kalshi.com/trade-api/ws/v2"@)
        &&& self.series_ticker@ == text_setting(vars, "SERIES_TICKER"@, "KXBTC15M"@)
        &&& self.min_pair_profit_cents == i64_setting(vars, "MIN_PAIR_PROFIT"@, 1)
        &&& self.max_inventory == i64_setting(vars, "MAX_INVENTORY"@, 5)
        &&& self.hard_inventory_cap == i64_setting(vars, "HARD_INVENTORY_CAP"@, 10)
        &&& self.daily_loss_cap_cents == i64_setting(vars, "DAILY_LOSS_CAP"@, 500)
        &&& self.rate_limit_writes_per_sec == number_setting(vars, "RATE_LIMIT_WPS"@, false, 0, u32::MAX as int, 28)
        &&& self.inventory_skew_threshold == i64_setting(vars, "INVENTORY_SKEW_THRESHOLD"@, 2)
        &&& self.quote_refresh_interval_ms == number_setting(vars, "QUOTE_REFRESH_MS"@, false, 0, u64::MAX as int, 5)
        &&& self.rest_timeout_ms == number_setting(vars, "REST_TIMEOUT_MS"@, false, 0, u64::MAX as int, 2000)
        &&& self.market_check_interval_ms == 30000
        &&& self.market_rotate_before_close_secs == i64_setting(vars, "ROTATE_BEFORE_CLOSE_SECS"@, 90)
    }

    /// The settings that the environment `vars` makes; what it leaves open, or writes in a form
    /// that cannot be read, keeps its default.
    pub fn from_env(vars: &Vec<(String, String)>) -> (c: Self)
        ensures
            c.read_from(settings_view(vars@)),
            c.api_key_id@ == Seq::<char>::empty(),
            c.private_key_pem@ == Seq::<char>::empty(),
    {
        let c = Self::default();
        Self {
            api_key_id: c.api_key_id,
            private_key_pem: c.private_key_pem,
            rest_base_url: text_or(vars, "REST_BASE_URL", c.rest_base_url),
            ws_url: text_or(vars, "WS_URL", c.ws_url),
            series_ticker: text_or(vars, "SERIES_TICKER", c.series_ticker),
            min_pair_profit_cents: i64_or(vars, "MIN_PAIR_PROFIT", c.min_pair_profit_cents),
            max_inventory: i64_or(vars, "MAX_INVENTORY", c.max_inventory),
            hard_inventory_cap: i64_or(vars, "HARD_INVENTORY_CAP", c.hard_inventory_cap),
            daily_loss_cap_cents: i64_or(vars, "DAILY_LOSS_CAP", c.daily_loss_cap_cents),
            rate_limit_writes_per_sec: u32_or(vars, "RATE_LIMIT_WPS", c.rate_limit_writes_per_sec),
            inventory_skew_threshold: i64_or(vars, "INVENTORY_SKEW_THRESHOLD", c.inventory_skew_threshold),
            quote_refresh_interval_ms: u64_or(vars, "QUOTE_REFRESH_MS", c.quote_refresh_interval_ms),
            rest_timeout_ms: u64_or(vars, "REST_TIMEOUT_MS", c.rest_timeout_ms),
            market_check_interval_ms: c.market_check_interval_ms,
            market_rotate_before_close_secs: i64_or(
                vars,
                "ROTATE_BEFORE_CLOSE_SECS",
                c.market_rotate_before_close_secs,
            ),
        }
    }
}

/// A variable that has to be set and is not.
#[derive(Debug, Clone, Copy, PartialEq, Eq, Structural)]
pub enum MissingVariable {
    KeyId,
    PrivateKeyPath,
}

/// The settings with the API key's id in place, and the path of the file that holds the private
/// key. The id is asked for first.
pub fn load_config_from_env(vars: &Vec<(String, String)>) -> (r: Result<(Config, String), MissingVariable>)
    ensures
        (r == Err::<(Config, String), _>(MissingVariable::KeyId)) <==> variable(
            settings_view(vars@),
            "KALSHI_KEY_ID"@,
        ) is None,
        (r == Err::<(Config, String), _>(MissingVariable::PrivateKeyPath)) <==> variable(
            settings_view(vars@),
            "KALSHI_KEY_ID"@,
        ) is Some && variable(settings_view(vars@), "KALSHI_PRIVATE_KEY_PATH"@) is None,
        r matches Ok((config, key_path)) ==> {
            &&& config.read_from(settings_view(vars@))
            &&& variable(settings_view(vars@), "KALSHI_KEY_ID"@) == Some(config.api_key_id@)
            &&& config.private_key_pem@ == Seq::<char>::empty()
            &&& variable(settings_view(vars@), "KALSHI_PRIVATE_KEY_PATH"@) == Some(key_path@)
        },
{
    let mut config: Config = Config::from_env(vars);
    match lookup(vars, "KALSHI_KEY_ID") {
        Some(key_id) => {
            config.api_key_id = key_id.clone();
        },
        None => {
            return Err(MissingVariable::KeyId);
        },
    }
    match lookup(vars, "KALSHI_PRIVATE_KEY_PATH") {
        Some(key_path) => Ok((config, key_path.clone())),
        None => Err(MissingVariable::PrivateKeyPath),
    }
}

proof fn lemma_variable_of_both(a: Seq<(Seq<char>, Seq<char>)>, b: Seq<(Seq<char>, Seq<char>)>, name: Seq<char>)
    ensures
        variable(a + b, name) == (match variable(a, name) {
            Some(value) => Some(value),
            None => variable(b, name),
        }),
    decreases a.len(),
{
    if a.len() == 0 {
        assert(a + b =~= b);
    } else {
        assert((a + b).skip(1) =~= a.skip(1) + b);
        lemma_variable_of_both(a.skip(1), b, name);
    }
}

proof fn lemma_variable_is_set(vars: Seq<(Seq<char>, Seq<char>)>, i: int)
    requires
        0 <= i < vars.len(),
    ensures
        variable(vars, vars[i].0) is Some,
    decreases vars.len(),
{
    if i > 0 && vars[0].0 != vars[i].0 {
        lemma_variable_is_set(vars.skip(1), i - 1);
    }
}

/// The settings of a file that are still to be made in the environment `vars`: each whose name
/// is not set there nor by an earlier line. With them in the environment, every variable is as
/// the environment sets it, or else as the first line of the file that names it does.
pub fn unset_settings(vars: &Vec<(String, String)>, file: &Vec<(String, String)>) -> (r: Vec<(String, String)>)
    ensures
        forall|name: Seq<char>| #[trigger]
            variable(settings_view(vars@) + settings_view(r@), name) == (match variable(settings_view(vars@), name) {
                Some(value) => Some(value),
                None => variable(settings_view(file@), name),
            }),
        forall|i: int| 0 <= i < r@.len() ==> variable(settings_view(vars@), (#[trigger] r@[i]).0@) is None,
        forall|i: int, j: int| 0 <= i < j < r@.len() ==> (#[trigger] r@[i]).0@ != (#[trigger] r@[j]).0@,
{
    let ghost present = settings_view(vars@);
    let ghost lines = settings_view(file@);
    let mut made: Vec<(String, String)> = Vec::new();
    let mut i: usize = 0;
    assert(lines.take(0) =~= Seq::empty());
    assert(settings_view(made@) =~= Seq::empty());
    while i < file.len()
        invariant
            i <= file@.len(),
            present == settings_view(vars@),
            lines == settings_view(file@),
            forall|name: Seq<char>| #[trigger]
                variable(settings_view(made@), name) == (if variable(present, name) is None {
                    variable(lines.take(i as int), name)
                } else {
                    None
                }),
            forall|k: int| 0 <= k < made@.len() ==> variable(present, (#[trigger] made@[k]).0@) is None,
            forall|k: int, l: int| 0 <= k < l < made@.len() ==> (#[trigger] made@[k]).0@ != (#[trigger] made@[l]).0@,
        decreases file.len() - i,
    {
        let name: &str = file[i].0.as_str();
        let ghost line = (file@[i as int].0@, file@[i as int].1@);
        let ghost before = settings_view(made@);
        assert(lines.take(i + 1) =~= lines.take(i as int) + seq![line]);
        assert forall|n: Seq<char>| #[trigger] variable(seq![line], n) == (if n == line.0 { Some(line.1) } else { None }) by {
            assert(seq![line].skip(1) =~= Seq::empty());
            assert(variable(Seq::empty(), n) is None);
        }
        assert forall|n: Seq<char>| #[trigger] variable(lines.take(i + 1), n) == (match variable(lines.take(i as int), n) {
            Some(value) => Some(value),
            None => variable(seq![line], n),
        }) by {
            lemma_variable_of_both(lines.take(i as int), seq![line], n);
        }
        if lookup(vars, name).is_none() && lookup(&made, name).is_none() {
            made.push((file[i].0.clone(), file[i].1.clone()));
            proof {
                assert(settings_view(made@) =~= before + seq![line]);
                assert forall|n: Seq<char>| #[trigger] variable(settings_view(made@), n) == (match variable(before, n) {
                    Some(value) => Some(value),
                    None => variable(seq![line], n),
                }) by {
                    lemma_variable_of_both(before, seq![line], n);
                }
                assert forall|k: int| 0 <= k < made@.len() - 1 implies (#[trigger] made@[k]).0@ != line.0 by {
                    assert(before[k] == (made@[k].0@, made@[k].1@));
                    lemma_variable_is_set(before, k);
                }
            }
        }
        i = i + 1;
    }
    proof {
        assert(lines.take(i as int) =~= lines);
        assert forall|name: Seq<char>| #[trigger] variable(present + settings_view(made@), name) == (match variable(present, name) {
            Some(value) => Some(value),
            None => variable(lines, name),
        }) by {
            lemma_variable_of_both(present, settings_view(made@), name);
        }
    }
    made
}

} // verus!
