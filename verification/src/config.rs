//! Configuration: defaults, value normalisation, environment overrides and
//! the final clean-up applied after the configuration layers are merged.

use vstd::prelude::*;
use crate::constants::{DEFAULT_LIMIT, DEFAULT_MAX_RESPONSE_BYTES, MAX_FILE_SIZE};
use crate::paths::{path_join, path_join_v};
use crate::text::{ascii_lower, ascii_lower_v, chars_of, concat, eq_v, slice_of, str_eq, string_of, trim, trim_v};
use crate::types::{FreshnessPolicy, RankingExplainLevel, SemanticMode};

verus! {

#[derive(Debug, Clone)]
pub struct Config {
    pub index: IndexConfig,
    pub storage: StorageConfig,
    pub search: SearchConfig,
    pub logging: LoggingConfig,
    pub debug: DebugConfig,
}

#[derive(Debug, Clone)]
pub struct IndexConfig {
    pub max_file_size: u64,
    pub default_limit: usize,
    pub languages: Vec<String>,
}

#[derive(Debug, Clone)]
pub struct StorageConfig {
    pub data_dir: String,
    pub busy_timeout_ms: u32,
    pub cache_size: i32,
}

#[derive(Debug, Clone)]
pub struct SearchConfig {
    pub default_ref: String,
    pub freshness_policy: String,
    pub ranking_explain_level: String,
    pub max_response_bytes: usize,
    pub semantic: SemanticConfig,
}

#[derive(Debug, Clone)]
pub struct DebugConfig {
    pub ranking_reasons: bool,
}

#[derive(Debug, Clone)]
pub struct LoggingConfig {
    pub level: String,
}

/// Semantic retrieval settings: the mode and the selected tuning profile.
#[derive(Debug, Clone)]
pub struct SemanticConfig {
    pub semantic_mode: String,
    pub profile: String,
}

// ---------------------------------------------------------------------------
// Defaults
// ---------------------------------------------------------------------------

fn default_max_file_size() -> (r: u64)
    ensures
        r == MAX_FILE_SIZE,
{
    MAX_FILE_SIZE
}

fn default_limit() -> (r: usize)
    ensures
        r == DEFAULT_LIMIT,
{
    DEFAULT_LIMIT
}

pub open spec fn default_languages_spec() -> Seq<Seq<char>> {
    seq!["rust"@, "typescript"@, "python"@, "go"@]
}

fn default_languages() -> (r: Vec<String>)
    ensures
        r@.map_values(|s: String| s@) == default_languages_spec(),
{
    let mut v: Vec<String> = Vec::new();
    v.push(owned("rust"));
    v.push(owned("typescript"));
    v.push(owned("python"));
    v.push(owned("go"));
    assert(v@.map_values(|s: String| s@) =~= default_languages_spec());
    v
}

fn owned(s: &str) -> (r: String)
    ensures
        r@ == s@,
{
    string_of(&chars_of(s))
}

fn default_data_dir() -> (r: String)
    ensures
        r@ == "~/.codecompass"@,
{
    owned("~/.codecompass")
}

fn default_busy_timeout() -> (r: u32)
    ensures
        r == 5000,
{
    5000
}

fn default_cache_size() -> (r: i32)
    ensures
        r == -64000,
{
    -64000
}

fn default_ref() -> (r: String)
    ensures
        r@ == "main"@,
{
    owned("main")
}

fn default_freshness_policy() -> (r: String)
    ensures
        r@ == "balanced"@,
{
    owned("balanced")
}

fn default_ranking_explain_level() -> (r: String)
    ensures
        r@ == "off"@,
{
    owned("off")
}

fn default_max_response_bytes() -> (r: usize)
    ensures
        r == DEFAULT_MAX_RESPONSE_BYTES,
{
    DEFAULT_MAX_RESPONSE_BYTES
}

fn default_semantic_mode() -> (r: String)
    ensures
        r@ == "off"@,
{
    owned("off")
}

fn default_semantic_profile() -> (r: String)
    ensures
        r@ == "default"@,
{
    owned("default")
}

fn default_log_level() -> (r: String)
    ensures
        r@ == "info"@,
{
    owned("info")
}

impl Default for IndexConfig {
    fn default() -> (r: Self)
        ensures
            r.max_file_size == MAX_FILE_SIZE,
            r.default_limit == DEFAULT_LIMIT,
            r.languages@.map_values(|s: String| s@) == default_languages_spec(),
    {
        IndexConfig {
            max_file_size: default_max_file_size(),
            default_limit: default_limit(),
            languages: default_languages(),
        }
    }
}

impl Default for StorageConfig {
    fn default() -> (r: Self)
        ensures
            r.data_dir@ == "~/.codecompass"@,
            r.busy_timeout_ms == 5000,
            r.cache_size == -64000,
    {
        StorageConfig {
            data_dir: default_data_dir(),
            busy_timeout_ms: default_busy_timeout(),
            cache_size: default_cache_size(),
        }
    }
}

impl Default for SemanticConfig {
    fn default() -> (r: Self)
        ensures
            r.semantic_mode@ == "off"@,
            r.profile@ == "default"@,
    {
        SemanticConfig { semantic_mode: default_semantic_mode(), profile: default_semantic_profile() }
    }
}

impl Default for SearchConfig {
    fn default() -> (r: Self)
        ensures
            r.default_ref@ == "main"@,
            r.freshness_policy@ == "balanced"@,
            r.ranking_explain_level@ == "off"@,
            r.max_response_bytes == DEFAULT_MAX_RESPONSE_BYTES,
            r.semantic.semantic_mode@ == "off"@,
            r.semantic.profile@ == "default"@,
    {
        SearchConfig {
            default_ref: default_ref(),
            freshness_policy: default_freshness_policy(),
            ranking_explain_level: default_ranking_explain_level(),
            max_response_bytes: default_max_response_bytes(),
            semantic: SemanticConfig::default(),
        }
    }
}

impl Default for LoggingConfig {
    fn default() -> (r: Self)
        ensures
            r.level@ == "info"@,
    {
        LoggingConfig { level: default_log_level() }
    }
}

impl Default for DebugConfig {
    fn default() -> (r: Self)
        ensures
            !r.ranking_reasons,
    {
        DebugConfig { ranking_reasons: false }
    }
}

impl Default for Config {
    fn default() -> (r: Self)
        ensures
            r.search.default_ref@ == "main"@,
            r.search.freshness_policy@ == "balanced"@,
            r.search.ranking_explain_level@ == "off"@,
            r.search.max_response_bytes == DEFAULT_MAX_RESPONSE_BYTES,
            r.storage.data_dir@ == "~/.codecompass"@,
            r.logging.level@ == "info"@,
            !r.debug.ranking_reasons,
    {
        Config {
            index: IndexConfig::default(),
            storage: StorageConfig::default(),
            search: SearchConfig::default(),
            logging: LoggingConfig::default(),
            debug: DebugConfig::default(),
        }
    }
}

// ---------------------------------------------------------------------------
// Enumerated settings
// ---------------------------------------------------------------------------

/// A setting value as it is matched: trimmed and ASCII-lower-cased.
pub open spec fn setting_key(raw: Seq<char>) -> Seq<char> {
    ascii_lower(trim(raw))
}

fn setting_key_v(raw: &str) -> (r: Vec<char>)
    ensures
        r@ == setting_key(raw@),
{
    let t = trim_v(&chars_of(raw));
    ascii_lower_v(&t)
}

pub open spec fn parse_freshness_policy_spec(raw: Seq<char>) -> Option<FreshnessPolicy> {
    let k = setting_key(raw);
    if k == "strict"@ {
        Some(FreshnessPolicy::Strict)
    } else if k == "balanced"@ {
        Some(FreshnessPolicy::Balanced)
    } else if k == "best_effort"@ || k == "besteffort"@ {
        Some(FreshnessPolicy::BestEffort)
    } else {
        None
    }
}

pub open spec fn freshness_policy_name(p: FreshnessPolicy) -> Seq<char> {
    match p {
        FreshnessPolicy::Strict => "strict"@,
        FreshnessPolicy::Balanced => "balanced"@,
        FreshnessPolicy::BestEffort => "best_effort"@,
    }
}

/// The canonical name of the policy `raw` denotes, `balanced` when it
/// denotes none.
pub open spec fn normalize_freshness_policy_spec(raw: Seq<char>) -> Seq<char> {
    match parse_freshness_policy_spec(raw) {
        Some(p) => freshness_policy_name(p),
        None => "balanced"@,
    }
}

pub fn parse_freshness_policy(raw: &str) -> (r: Option<FreshnessPolicy>)
    ensures
        r == parse_freshness_policy_spec(raw@),
{
    let k = setting_key_v(raw);
    if eq_v(&k, &chars_of("strict")) {
        Some(FreshnessPolicy::Strict)
    } else if eq_v(&k, &chars_of("balanced")) {
        Some(FreshnessPolicy::Balanced)
    } else if eq_v(&k, &chars_of("best_effort")) || eq_v(&k, &chars_of("besteffort")) {
        Some(FreshnessPolicy::BestEffort)
    } else {
        None
    }
}

pub fn freshness_policy_to_str(policy: FreshnessPolicy) -> (r: &'static str)
    ensures
        r@ == freshness_policy_name(policy),
{
    match policy {
        FreshnessPolicy::Strict => "strict",
        FreshnessPolicy::Balanced => "balanced",
        FreshnessPolicy::BestEffort => "best_effort",
    }
}

pub fn normalize_freshness_policy(raw: &str) -> (r: String)
    ensures
        r@ == normalize_freshness_policy_spec(raw@),
{
    let policy = match parse_freshness_policy(raw) {
        Some(p) => p,
        None => FreshnessPolicy::Balanced,
    };
    owned(freshness_policy_to_str(policy))
}

pub open spec fn parse_ranking_explain_level_spec(raw: Seq<char>) -> Option<RankingExplainLevel> {
    let k = setting_key(raw);
    if k == "off"@ {
        Some(RankingExplainLevel::Off)
    } else if k == "basic"@ {
        Some(RankingExplainLevel::Basic)
    } else if k == "full"@ {
        Some(RankingExplainLevel::Full)
    } else {
        None
    }
}

pub open spec fn ranking_explain_level_name(l: RankingExplainLevel) -> Seq<char> {
    match l {
        RankingExplainLevel::Off => "off"@,
        RankingExplainLevel::Basic => "basic"@,
        RankingExplainLevel::Full => "full"@,
    }
}

pub open spec fn normalize_ranking_explain_level_spec(raw: Seq<char>) -> Seq<char> {
    match parse_ranking_explain_level_spec(raw) {
        Some(l) => ranking_explain_level_name(l),
        None => "off"@,
    }
}

pub fn parse_ranking_explain_level(raw: &str) -> (r: Option<RankingExplainLevel>)
    ensures
        r == parse_ranking_explain_level_spec(raw@),
{
    let k = setting_key_v(raw);
    if eq_v(&k, &chars_of("off")) {
        Some(RankingExplainLevel::Off)
    } else if eq_v(&k, &chars_of("basic")) {
        Some(RankingExplainLevel::Basic)
    } else if eq_v(&k, &chars_of("full")) {
        Some(RankingExplainLevel::Full)
    } else {
        None
    }
}

pub fn ranking_explain_level_to_str(level: RankingExplainLevel) -> (r: &'static str)
    ensures
        r@ == ranking_explain_level_name(level),
{
    match level {
        RankingExplainLevel::Off => "off",
        RankingExplainLevel::Basic => "basic",
        RankingExplainLevel::Full => "full",
    }
}

pub fn normalize_ranking_explain_level(raw: &str) -> (r: String)
    ensures
        r@ == normalize_ranking_explain_level_spec(raw@),
{
    let level = match parse_ranking_explain_level(raw) {
        Some(l) => l,
        None => RankingExplainLevel::Off,
    };
    owned(ranking_explain_level_to_str(level))
}

/// `off`, `shadow` (lexical retrieval with rerank only) and `on`/`enabled`
/// (hybrid retrieval).
pub open spec fn parse_semantic_mode_spec(raw: Seq<char>) -> Option<SemanticMode> {
    let k = setting_key(raw);
    if k == "off"@ {
        Some(SemanticMode::Off)
    } else if k == "shadow"@ {
        Some(SemanticMode::RerankOnly)
    } else if k == "on"@ || k == "enabled"@ {
        Some(SemanticMode::Hybrid)
    } else {
        None
    }
}

pub open spec fn semantic_mode_name(m: SemanticMode) -> Seq<char> {
    match m {
        SemanticMode::Off => "off"@,
        SemanticMode::RerankOnly => "shadow"@,
        SemanticMode::Hybrid => "on"@,
    }
}

pub open spec fn normalize_semantic_mode_spec(raw: Seq<char>) -> Seq<char> {
    match parse_semantic_mode_spec(raw) {
        Some(m) => semantic_mode_name(m),
        None => "off"@,
    }
}

pub fn parse_semantic_mode(raw: &str) -> (r: Option<SemanticMode>)
    ensures
        r == parse_semantic_mode_spec(raw@),
{
    let k = setting_key_v(raw);
    if eq_v(&k, &chars_of("off")) {
        Some(SemanticMode::Off)
    } else if eq_v(&k, &chars_of("shadow")) {
        Some(SemanticMode::RerankOnly)
    } else if eq_v(&k, &chars_of("on")) || eq_v(&k, &chars_of("enabled")) {
        Some(SemanticMode::Hybrid)
    } else {
        None
    }
}

pub fn semantic_mode_to_str(mode: SemanticMode) -> (r: &'static str)
    ensures
        r@ == semantic_mode_name(mode),
{
    match mode {
        SemanticMode::Off => "off",
        SemanticMode::RerankOnly => "shadow",
        SemanticMode::Hybrid => "on",
    }
}

pub fn normalize_semantic_mode(raw: &str) -> (r: String)
    ensures
        r@ == normalize_semantic_mode_spec(raw@),
{
    let mode = match parse_semantic_mode(raw) {
        Some(m) => m,
        None => SemanticMode::Off,
    };
    owned(semantic_mode_to_str(mode))
}

impl SearchConfig {
    pub fn freshness_policy_typed(&self) -> (r: FreshnessPolicy)
        ensures
            r == match parse_freshness_policy_spec(self.freshness_policy@) {
                Some(p) => p,
                None => FreshnessPolicy::Balanced,
            },
    {
        match parse_freshness_policy(self.freshness_policy.as_str()) {
            Some(p) => p,
            None => FreshnessPolicy::Balanced,
        }
    }

    pub fn ranking_explain_level_typed(&self) -> (r: RankingExplainLevel)
        ensures
            r == match parse_ranking_explain_level_spec(self.ranking_explain_level@) {
                Some(l) => l,
                None => RankingExplainLevel::Off,
            },
    {
        match parse_ranking_explain_level(self.ranking_explain_level.as_str()) {
            Some(l) => l,
            None => RankingExplainLevel::Off,
        }
    }

    pub fn semantic_mode_typed(&self) -> (r: SemanticMode)
        ensures
            r == match parse_semantic_mode_spec(self.semantic.semantic_mode@) {
                Some(m) => m,
                None => SemanticMode::Off,
            },
    {
        match parse_semantic_mode(self.semantic.semantic_mode.as_str()) {
            Some(m) => m,
            None => SemanticMode::Off,
        }
    }
}

impl Config {
    /// Resolve the data directory for a project: `<data_dir>/data/<project_id>`.
    pub fn project_data_dir(&self, project_id: &str) -> (r: String)
        ensures
            r@ == path_join(path_join(self.storage.data_dir@, "data"@), project_id@),
    {
        let base = path_join_v(&chars_of(self.storage.data_dir.as_str()), &chars_of("data"));
        string_of(&path_join_v(&base, &chars_of(project_id)))
    }
}

// ---------------------------------------------------------------------------
// Integer settings (`str::parse`)
// ---------------------------------------------------------------------------

pub open spec fn is_digit(c: char) -> bool {
    '0' <= c && c <= '9'
}

pub open spec fn all_digits(s: Seq<char>) -> bool {
    forall|i: int| 0 <= i < s.len() ==> is_digit(#[trigger] s[i])
}

/// Value of a run of decimal digits.
pub open spec fn digits_value(s: Seq<char>) -> nat
    decreases s.len(),
{
    if s.len() == 0 {
        0
    } else {
        digits_value(s.drop_last()) * 10 + ((s.last() as u32) - 48) as nat
    }
}

/// `str::parse` of an unsigned integer before the range check: an optional
/// `+` and at least one digit, nothing else.
pub open spec fn parse_nat_text(s: Seq<char>) -> Option<nat> {
    let body = if s.len() > 0 && s[0] == '+' {
        s.drop_first()
    } else {
        s
    };
    if body.len() > 0 && all_digits(body) {
        Some(digits_value(body))
    } else {
        None
    }
}

/// `str::parse` of a signed integer before the range check: an optional `+`
/// or `-` and at least one digit, nothing else.
pub open spec fn parse_int_text(s: Seq<char>) -> Option<int> {
    if s.len() > 0 && s[0] == '-' {
        let body = s.drop_first();
        if body.len() > 0 && all_digits(body) {
            Some(-(digits_value(body) as int))
        } else {
            None
        }
    } else {
        match parse_nat_text(s) {
            Some(v) => Some(v as int),
            None => None,
        }
    }
}

/// The value an unsigned integer type with maximum `max` parses from `s`.
pub open spec fn parse_unsigned_spec(s: Seq<char>, max: nat) -> Option<nat> {
    match parse_nat_text(s) {
        Some(v) => if v <= max {
            Some(v)
        } else {
            None
        },
        None => None,
    }
}

/// The value a signed integer type with range `min..=max` parses from `s`.
pub open spec fn parse_signed_spec(s: Seq<char>, min: int, max: int) -> Option<int> {
    match parse_int_text(s) {
        Some(v) => if min <= v <= max {
            Some(v)
        } else {
            None
        },
        None => None,
    }
}

proof fn lemma_digits_value_prefix(s: Seq<char>, k: int)
    requires
        0 <= k <= s.len(),
        all_digits(s),
    ensures
        digits_value(s.take(k)) <= digits_value(s),
    decreases s.len() - k,
{
    if k < s.len() {
        lemma_digits_value_prefix(s, k + 1);
        assert(s.take(k + 1).drop_last() =~= s.take(k));
        assert(is_digit(s[k]));
    } else {
        assert(s.take(k) =~= s);
    }
}

/// Value of the digits `s[start..]`, or `None` when they are not all digits,
/// there are none, or the value exceeds `max`.
fn digits_up_to(s: &Vec<char>, start: usize, max: u64) -> (r: Option<u64>)
    requires
        start <= s.len(),
    ensures
        ({
            let body = s@.skip(start as int);
            match r {
                Some(v) => body.len() > 0 && all_digits(body) && v == digits_value(body) && v <= max,
                None => !(body.len() > 0 && all_digits(body) && digits_value(body) <= max),
            }
        }),
{
    let ghost body = s@.skip(start as int);
    if start == s.len() {
        return None;
    }
    let mut i: usize = start;
    let mut val: u64 = 0;
    while i < s.len()
        invariant
            start <= i <= s.len(),
            body == s@.skip(start as int),
            all_digits(s@.subrange(start as int, i as int)),
            val == digits_value(s@.subrange(start as int, i as int)),
            val <= max,
        decreases s.len() - i,
    {
        let c = s[i];
        assert(s@.subrange(start as int, i + 1).drop_last() =~= s@.subrange(start as int, i as int));
        if !('0' <= c && c <= '9') {
            assert(body[i - start] == c);
            return None;
        }
        let d: u64 = ((c as u32) - 48) as u64;
        if d > max || val > (max - d) / 10 {
            proof {
                assert(all_digits(s@.subrange(start as int, i + 1)));
                assert(digits_value(s@.subrange(start as int, i + 1)) == val * 10 + d);
                if d <= max {
                    assert(val * 10 + d > max) by (nonlinear_arith)
                        requires
                            val > (max - d) / 10,
                            d <= max,
                    ;
                }
                if all_digits(body) {
                    assert(body.take(i + 1 - start) =~= s@.subrange(start as int, i + 1));
                    lemma_digits_value_prefix(body, i + 1 - start);
                }
            }
            return None;
        }
        proof {
            assert(val * 10 + d <= max) by (nonlinear_arith)
                requires
                    val <= (max - d) / 10,
                    d <= max,
            ;
        }
        val = val * 10 + d;
        i = i + 1;
    }
    assert(s@.subrange(start as int, s.len() as int) =~= body);
    Some(val)
}

/// `str::parse` into an unsigned integer type whose maximum is `max`.
pub fn parse_unsigned(s: &str, max: u64) -> (r: Option<u64>)
    ensures
        match r {
            Some(v) => parse_unsigned_spec(s@, max as nat) == Some(v as nat),
            None => parse_unsigned_spec(s@, max as nat) is None,
        },
{
    let cs = chars_of(s);
    let start: usize = if cs.len() > 0 && cs[0] == '+' {
        1
    } else {
        0
    };
    assert(start == 1 ==> cs@.skip(1) =~= cs@.drop_first());
    assert(start == 0 ==> cs@.skip(0) =~= cs@);
    digits_up_to(&cs, start, max)
}

/// `str::parse` into a signed integer type with range `-neg_max..=pos_max`.
pub fn parse_signed(s: &str, neg_max: u64, pos_max: u64) -> (r: Option<i128>)
    ensures
        match r {
            Some(v) => parse_signed_spec(s@, -(neg_max as int), pos_max as int) == Some(v as int),
            None => parse_signed_spec(s@, -(neg_max as int), pos_max as int) is None,
        },
{
    let cs = chars_of(s);
    if cs.len() > 0 && cs[0] == '-' {
        assert(cs@.skip(1) =~= cs@.drop_first());
        match digits_up_to(&cs, 1, neg_max) {
            Some(v) => Some(-(v as i128)),
            None => None,
        }
    } else {
        let start: usize = if cs.len() > 0 && cs[0] == '+' {
            1
        } else {
            0
        };
        assert(start == 1 ==> cs@.skip(1) =~= cs@.drop_first());
        assert(start == 0 ==> cs@.skip(0) =~= cs@);
        match digits_up_to(&cs, start, pos_max) {
            Some(v) => Some(v as i128),
            None => None,
        }
    }
}

// ---------------------------------------------------------------------------
// Environment overrides and final clean-up
// ---------------------------------------------------------------------------

/// Values of the `CODECOMPASS_<SECTION>_<KEY>` environment variables, `None`
/// where a variable is unset.
#[derive(Debug, Clone, Default)]
pub struct EnvOverrides {
    pub storage_data_dir: Option<String>,
    pub storage_busy_timeout_ms: Option<String>,
    pub storage_cache_size: Option<String>,
    pub index_max_file_size: Option<String>,
    pub index_default_limit: Option<String>,
    pub search_default_ref: Option<String>,
    pub logging_level: Option<String>,
    pub search_freshness_policy: Option<String>,
    pub search_ranking_explain_level: Option<String>,
    pub query_ranking_explain_level: Option<String>,
    pub search_max_response_bytes: Option<String>,
    pub search_semantic_mode: Option<String>,
    pub query_semantic_mode: Option<String>,
    pub search_semantic_profile: Option<String>,
    pub debug_ranking_reasons: Option<String>,
}

/// A text override: the variable's value when it is set.
pub open spec fn text_override(old: Seq<char>, v: Option<String>) -> Seq<char> {
    match v {
        Some(x) => x@,
        None => old,
    }
}

/// A text override with a legacy fallback variable.
pub open spec fn text_override2(old: Seq<char>, v: Option<String>, legacy: Option<String>) -> Seq<
    char,
> {
    match v {
        Some(x) => x@,
        None => text_override(old, legacy),
    }
}

/// A numeric override: the variable's value when it is set and parses.
pub open spec fn num_override(old: int, v: Option<String>, parsed: Option<int>) -> int {
    match v {
        Some(_) => match parsed {
            Some(n) => n,
            None => old,
        },
        None => old,
    }
}

pub open spec fn unsigned_of(v: Option<String>, max: nat) -> Option<int> {
    match v {
        Some(x) => match parse_unsigned_spec(x@, max) {
            Some(n) => Some(n as int),
            None => None,
        },
        None => None,
    }
}

fn set_text(target: &mut String, v: &Option<String>)
    ensures
        final(target)@ == text_override(old(target)@, *v),
{
    match v {
        Some(x) => {
            *target = x.clone();
        },
        None => {},
    }
}

fn unsigned_override(v: &Option<String>, max: u64) -> (r: Option<u64>)
    ensures
        match r {
            Some(n) => unsigned_of(*v, max as nat) == Some(n as int),
            None => unsigned_of(*v, max as nat) is None,
        },
{
    match v {
        Some(x) => parse_unsigned(x.as_str(), max),
        None => None,
    }
}

/// Apply environment variable overrides to config fields.
/// Convention: `CODECOMPASS_<SECTION>_<KEY>` in UPPER_SNAKE_CASE.
pub fn apply_env_overrides(config: &mut Config, env: &EnvOverrides)
    ensures
        final(config).storage.data_dir@ == text_override(
            old(config).storage.data_dir@,
            env.storage_data_dir,
        ),
        final(config).storage.busy_timeout_ms as int == num_override(
            old(config).storage.busy_timeout_ms as int,
            env.storage_busy_timeout_ms,
            unsigned_of(env.storage_busy_timeout_ms, u32::MAX as nat),
        ),
        final(config).storage.cache_size as int == num_override(
            old(config).storage.cache_size as int,
            env.storage_cache_size,
            match env.storage_cache_size {
                Some(x) => parse_signed_spec(x@, i32::MIN as int, i32::MAX as int),
                None => None,
            },
        ),
        final(config).index.max_file_size as int == num_override(
            old(config).index.max_file_size as int,
            env.index_max_file_size,
            unsigned_of(env.index_max_file_size, u64::MAX as nat),
        ),
        final(config).index.default_limit as int == num_override(
            old(config).index.default_limit as int,
            env.index_default_limit,
            unsigned_of(env.index_default_limit, usize::MAX as nat),
        ),
        final(config).index.languages == old(config).index.languages,
        final(config).search.default_ref@ == text_override(
            old(config).search.default_ref@,
            env.search_default_ref,
        ),
        final(config).logging.level@ == text_override(old(config).logging.level@, env.logging_level),
        final(config).search.freshness_policy@ == text_override(
            old(config).search.freshness_policy@,
            env.search_freshness_policy,
        ),
        final(config).search.ranking_explain_level@ == text_override2(
            old(config).search.ranking_explain_level@,
            env.search_ranking_explain_level,
            env.query_ranking_explain_level,
        ),
        final(config).search.max_response_bytes as int == num_override(
            old(config).search.max_response_bytes as int,
            env.search_max_response_bytes,
            unsigned_of(env.search_max_response_bytes, usize::MAX as nat),
        ),
        final(config).search.semantic.semantic_mode@ == text_override2(
            old(config).search.semantic.semantic_mode@,
            env.search_semantic_mode,
            env.query_semantic_mode,
        ),
        final(config).search.semantic.profile@ == text_override(
            old(config).search.semantic.profile@,
            env.search_semantic_profile,
        ),
        final(config).debug.ranking_reasons == match env.debug_ranking_reasons {
            Some(v) => v@ == "true"@ || v@ == "1"@,
            None => old(config).debug.ranking_reasons,
        },
{
    set_text(&mut config.storage.data_dir, &env.storage_data_dir);
    match unsigned_override(&env.storage_busy_timeout_ms, 0xffff_ffff) {
        Some(n) => {
            config.storage.busy_timeout_ms = n as u32;
        },
        None => {},
    }
    match &env.storage_cache_size {
        Some(x) => match parse_signed(x.as_str(), 0x8000_0000, 0x7fff_ffff) {
            Some(n) => {
                config.storage.cache_size = n as i32;
            },
            None => {},
        },
        None => {},
    }
    match unsigned_override(&env.index_max_file_size, u64::MAX) {
        Some(n) => {
            config.index.max_file_size = n;
        },
        None => {},
    }
    match unsigned_override(&env.index_default_limit, usize::MAX as u64) {
        Some(n) => {
            config.index.default_limit = n as usize;
        },
        None => {},
    }
    set_text(&mut config.search.default_ref, &env.search_default_ref);
    set_text(&mut config.logging.level, &env.logging_level);
    set_text(&mut config.search.freshness_policy, &env.search_freshness_policy);
    match &env.search_ranking_explain_level {
        Some(x) => {
            config.search.ranking_explain_level = x.clone();
        },
        None => set_text(&mut config.search.ranking_explain_level, &env.query_ranking_explain_level),
    }
    match unsigned_override(&env.search_max_response_bytes, usize::MAX as u64) {
        Some(n) => {
            config.search.max_response_bytes = n as usize;
        },
        None => {},
    }
    match &env.search_semantic_mode {
        Some(x) => {
            config.search.semantic.semantic_mode = x.clone();
        },
        None => set_text(&mut config.search.semantic.semantic_mode, &env.query_semantic_mode),
    }
    set_text(&mut config.search.semantic.profile, &env.search_semantic_profile);
    match &env.debug_ranking_reasons {
        Some(v) => {
            config.debug.ranking_reasons = str_eq(v.as_str(), "true") || str_eq(v.as_str(), "1");
        },
        None => {},
    }
}

/// `~` at the start of a path replaced by the home directory, when one is
/// known.
pub open spec fn expand_tilde_spec(path: Seq<char>, home: Option<Seq<char>>) -> Seq<char> {
    match home {
        Some(h) => if path.len() > 0 && path[0] == '~' {
            h + path.drop_first()
        } else {
            path
        },
        None => path,
    }
}

/// Replaces a leading `~` with the home directory.
pub fn expand_tilde(path: &str, home: Option<&str>) -> (r: String)
    ensures
        r@ == expand_tilde_spec(path@, match home {
            Some(h) => Some(h@),
            None => None,
        }),
{
    let p = chars_of(path);
    match home {
        Some(h) => if p.len() > 0 && p[0] == '~' {
            let rest = slice_of(&p, 1, p.len());
            assert(rest@ =~= p@.drop_first());
            string_of(&concat(&chars_of(h), &rest))
        } else {
            string_of(&p)
        },
        None => string_of(&p),
    }
}

impl Config {
    /// The clean-up applied once the configuration layers and environment
    /// overrides are merged: enumerated settings normalised, an empty
    /// profile and a zero response budget reset to their defaults, the
    /// legacy `debug.ranking_reasons` flag promoted to `full` ranking
    /// explanations, and `~` in the data directory expanded.
    pub fn normalized(self, home_dir: Option<&str>) -> (r: Config)
        ensures
            r.search.freshness_policy@ == normalize_freshness_policy_spec(
                self.search.freshness_policy@,
            ),
            r.search.ranking_explain_level@ == (if normalize_ranking_explain_level_spec(
                self.search.ranking_explain_level@,
            ) == "off"@ && self.debug.ranking_reasons {
                "full"@
            } else {
                normalize_ranking_explain_level_spec(self.search.ranking_explain_level@)
            }),
            r.search.semantic.semantic_mode@ == normalize_semantic_mode_spec(
                self.search.semantic.semantic_mode@,
            ),
            r.search.semantic.profile@ == (if trim(self.search.semantic.profile@).len() == 0 {
                "default"@
            } else {
                self.search.semantic.profile@
            }),
            r.search.max_response_bytes == (if self.search.max_response_bytes == 0 {
                DEFAULT_MAX_RESPONSE_BYTES
            } else {
                self.search.max_response_bytes
            }),
            r.storage.data_dir@ == expand_tilde_spec(self.storage.data_dir@, match home_dir {
                Some(h) => Some(h@),
                None => None,
            }),
            r.search.default_ref == self.search.default_ref,
            r.storage.busy_timeout_ms == self.storage.busy_timeout_ms,
            r.storage.cache_size == self.storage.cache_size,
            r.index.max_file_size == self.index.max_file_size,
            r.index.default_limit == self.index.default_limit,
            r.index.languages == self.index.languages,
            r.logging.level == self.logging.level,
            r.debug.ranking_reasons == self.debug.ranking_reasons,
    {
        let mut config = self;
        config.search.freshness_policy = normalize_freshness_policy(
            config.search.freshness_policy.as_str(),
        );
        config.search.ranking_explain_level = normalize_ranking_explain_level(
            config.search.ranking_explain_level.as_str(),
        );
        config.search.semantic.semantic_mode = normalize_semantic_mode(
            config.search.semantic.semantic_mode.as_str(),
        );
        if trim_v(&chars_of(config.search.semantic.profile.as_str())).len() == 0 {
            config.search.semantic.profile = default_semantic_profile();
        }
        if config.search.max_response_bytes == 0 {
            config.search.max_response_bytes = default_max_response_bytes();
        }
        if str_eq(config.search.ranking_explain_level.as_str(), "off")
            && config.debug.ranking_reasons {
            config.search.ranking_explain_level = owned("full");
        }
        config.storage.data_dir = expand_tilde(config.storage.data_dir.as_str(), home_dir);
        config
    }
}

// ---------------------------------------------------------------------------
// Laws
// ---------------------------------------------------------------------------

/// A value with no surrounding white space and no upper-case letter is its
/// own key.
proof fn lemma_plain_key(s: Seq<char>)
    requires
        s.len() > 0,
        !crate::text::is_ws(s[0]),
        !crate::text::is_ws(s.last()),
        forall|i: int| 0 <= i < s.len() ==> !('A' <= #[trigger] s[i] && s[i] <= 'Z'),
    ensures
        setting_key(s) == s,
{
    assert(crate::text::trim_start(s) == s);
    assert(crate::text::trim_end(s) == s);
    assert(ascii_lower(s) =~= s);
}

/// Reading back a policy's canonical name gives the policy, so normalising
/// twice is normalising once.
pub proof fn lemma_freshness_policy_roundtrip(p: FreshnessPolicy, raw: Seq<char>)
    ensures
        parse_freshness_policy_spec(freshness_policy_name(p)) == Some(p),
        normalize_freshness_policy_spec(normalize_freshness_policy_spec(raw))
            == normalize_freshness_policy_spec(raw),
{
    reveal_strlit("strict");
    reveal_strlit("balanced");
    reveal_strlit("best_effort");
    reveal_strlit("besteffort");
    lemma_plain_key("strict"@);
    lemma_plain_key("balanced"@);
    lemma_plain_key("best_effort"@);
    assert("balanced"@[0] != "strict"@[0]);
    assert("best_effort"@[0] != "strict"@[0]);
    assert("best_effort"@[1] != "balanced"@[1]);
    let n = normalize_freshness_policy_spec(raw);
    let q = match parse_freshness_policy_spec(raw) {
        Some(q) => q,
        None => FreshnessPolicy::Balanced,
    };
    assert(n == freshness_policy_name(q));
}

/// Reading back a level's canonical name gives the level, so normalising
/// twice is normalising once.
pub proof fn lemma_ranking_explain_level_roundtrip(l: RankingExplainLevel, raw: Seq<char>)
    ensures
        parse_ranking_explain_level_spec(ranking_explain_level_name(l)) == Some(l),
        normalize_ranking_explain_level_spec(normalize_ranking_explain_level_spec(raw))
            == normalize_ranking_explain_level_spec(raw),
{
    reveal_strlit("off");
    reveal_strlit("basic");
    reveal_strlit("full");
    lemma_plain_key("off"@);
    lemma_plain_key("basic"@);
    lemma_plain_key("full"@);
    assert("basic"@[0] != "off"@[0]);
    assert("full"@[0] != "off"@[0]);
    assert("full"@[0] != "basic"@[0]);
    let n = normalize_ranking_explain_level_spec(raw);
    let q = match parse_ranking_explain_level_spec(raw) {
        Some(q) => q,
        None => RankingExplainLevel::Off,
    };
    assert(n == ranking_explain_level_name(q));
}

/// Reading back a mode's canonical name gives the mode, so normalising twice
/// is normalising once.
pub proof fn lemma_semantic_mode_roundtrip(m: SemanticMode, raw: Seq<char>)
    ensures
        parse_semantic_mode_spec(semantic_mode_name(m)) == Some(m),
        normalize_semantic_mode_spec(normalize_semantic_mode_spec(raw))
            == normalize_semantic_mode_spec(raw),
{
    reveal_strlit("off");
    reveal_strlit("shadow");
    reveal_strlit("on");
    reveal_strlit("enabled");
    lemma_plain_key("off"@);
    lemma_plain_key("shadow"@);
    lemma_plain_key("on"@);
    assert("shadow"@[0] != "off"@[0]);
    assert("on"@[1] != "off"@[1]);
    assert("on"@[0] != "shadow"@[0]);
    let n = normalize_semantic_mode_spec(raw);
    let q = match parse_semantic_mode_spec(raw) {
        Some(q) => q,
        None => SemanticMode::Off,
    };
    assert(n == semantic_mode_name(q));
}

} // verus!
