//! Provider configuration and limit vocabulary.
//!
//! Every enum here is stored in the database by a short name; `as_db_str`
//! gives that name and `from_db_str` reads it back, falling back to a default
//! variant for names it does not know.
//!
//! Fractional quantities (money, seconds, thresholds) are held as whole
//! numbers of millionths of their unit, so that every comparison the limit
//! engine makes is exact.

use vstd::prelude::*;
use crate::text::str_eq;

verus! {

/// Millionths per whole unit: a cap of `3 * UNIT` means "3 dollars" for a
/// money limit, "3 tokens" for a token limit, "3 seconds" for a time limit.
pub const UNIT: u64 = 1_000_000;

/// Wire dialect a client speaks or a provider expects.
#[derive(Clone, Copy, Debug, PartialEq, Eq, Structural)]
pub enum ProviderFormat {
    OpenAI,
    Anthropic,
    Google,
    Responses,
}

/// How a provider expects its API key to be presented.
#[derive(Clone, Copy, Debug, PartialEq, Eq, Structural)]
pub enum AuthScheme {
    Bearer,
    XApiKey,
    ApiKey,
    XGoogApiKey,
}

/// What a limit counts.
#[derive(Clone, Copy, Debug, PartialEq, Eq, Structural)]
pub enum LimitMetric {
    Money,
    Tokens,
    Requests,
    TimeSec,
    RequestsPerMinute,
    TokensPerMinute,
    InputTokens,
    OutputTokens,
    CostPerRequest,
    ConcurrentRequests,
}

/// The window over which a limit's usage is summed.
#[derive(Clone, Copy, Debug, PartialEq, Eq, Structural)]
pub enum LimitPeriod {
    Once,
    Hourly,
    Daily,
    Weekly,
    Monthly,
    CustomSec(u64),
}

/// Which requests a limit applies to.
#[derive(Clone, Copy, Debug, PartialEq, Eq, Structural)]
pub enum LimitScope {
    Global,
    Provider,
    Project,
    Model,
}

/// What happens when a limit is exceeded.
#[derive(Clone, Copy, Debug, PartialEq, Eq, Structural)]
pub enum LimitAction {
    Warn,
    Block,
    Pause,
}

/// The window over which a project's budget is summed.
#[derive(Clone, Copy, Debug, PartialEq, Eq, Structural)]
pub enum BudgetPeriod {
    Daily,
    Weekly,
    Monthly,
}

// ---------------------------------------------------------------------------
// Database names
// ---------------------------------------------------------------------------

pub open spec fn format_db_name(f: ProviderFormat) -> Seq<char> {
    match f {
        ProviderFormat::OpenAI => "openai"@,
        ProviderFormat::Anthropic => "anthropic"@,
        ProviderFormat::Google => "google"@,
        ProviderFormat::Responses => "responses"@,
    }
}

pub open spec fn format_from_db_name(s: Seq<char>) -> ProviderFormat {
    if s == "anthropic"@ {
        ProviderFormat::Anthropic
    } else if s == "google"@ {
        ProviderFormat::Google
    } else if s == "responses"@ {
        ProviderFormat::Responses
    } else {
        ProviderFormat::OpenAI
    }
}

pub open spec fn auth_db_name(a: AuthScheme) -> Seq<char> {
    match a {
        AuthScheme::Bearer => "bearer"@,
        AuthScheme::XApiKey => "x_api_key"@,
        AuthScheme::ApiKey => "api_key"@,
        AuthScheme::XGoogApiKey => "x_goog_api_key"@,
    }
}

pub open spec fn auth_from_db_name(s: Seq<char>) -> AuthScheme {
    if s == "x_api_key"@ {
        AuthScheme::XApiKey
    } else if s == "api_key"@ {
        AuthScheme::ApiKey
    } else if s == "x_goog_api_key"@ {
        AuthScheme::XGoogApiKey
    } else {
        AuthScheme::Bearer
    }
}

pub open spec fn metric_db_name(m: LimitMetric) -> Seq<char> {
    match m {
        LimitMetric::Money => "money"@,
        LimitMetric::Tokens => "tokens"@,
        LimitMetric::Requests => "requests"@,
        LimitMetric::TimeSec => "time_sec"@,
        LimitMetric::RequestsPerMinute => "requests_per_minute"@,
        LimitMetric::TokensPerMinute => "tokens_per_minute"@,
        LimitMetric::InputTokens => "input_tokens"@,
        LimitMetric::OutputTokens => "output_tokens"@,
        LimitMetric::CostPerRequest => "cost_per_request"@,
        LimitMetric::ConcurrentRequests => "concurrent_requests"@,
    }
}

pub open spec fn metric_from_db_name(s: Seq<char>) -> LimitMetric {
    if s == "tokens"@ {
        LimitMetric::Tokens
    } else if s == "requests"@ {
        LimitMetric::Requests
    } else if s == "time_sec"@ {
        LimitMetric::TimeSec
    } else if s == "requests_per_minute"@ {
        LimitMetric::RequestsPerMinute
    } else if s == "tokens_per_minute"@ {
        LimitMetric::TokensPerMinute
    } else if s == "input_tokens"@ {
        LimitMetric::InputTokens
    } else if s == "output_tokens"@ {
        LimitMetric::OutputTokens
    } else if s == "cost_per_request"@ {
        LimitMetric::CostPerRequest
    } else if s == "concurrent_requests"@ {
        LimitMetric::ConcurrentRequests
    } else {
        LimitMetric::Money
    }
}

pub open spec fn period_db_name(p: LimitPeriod) -> Seq<char> {
    match p {
        LimitPeriod::Once => "once"@,
        LimitPeriod::Hourly => "hourly"@,
        LimitPeriod::Daily => "daily"@,
        LimitPeriod::Weekly => "weekly"@,
        LimitPeriod::Monthly => "monthly"@,
        LimitPeriod::CustomSec(_) => "custom_sec"@,
    }
}

pub open spec fn period_from_db_name(s: Seq<char>) -> LimitPeriod {
    if s == "once"@ {
        LimitPeriod::Once
    } else if s == "hourly"@ {
        LimitPeriod::Hourly
    } else if s == "weekly"@ {
        LimitPeriod::Weekly
    } else if s == "monthly"@ {
        LimitPeriod::Monthly
    } else if s == "custom_sec"@ {
        LimitPeriod::CustomSec(0)
    } else {
        LimitPeriod::Daily
    }
}

/// Length of a rolling period in seconds (a month counts as 30 days);
/// `None` for all-time.
pub open spec fn period_seconds(p: LimitPeriod) -> Option<u64> {
    match p {
        LimitPeriod::Once => None,
        LimitPeriod::Hourly => Some(3600),
        LimitPeriod::Daily => Some(86_400),
        LimitPeriod::Weekly => Some(604_800),
        LimitPeriod::Monthly => Some(2_592_000),
        LimitPeriod::CustomSec(s) => Some(s),
    }
}

pub open spec fn scope_db_name(s: LimitScope) -> Seq<char> {
    match s {
        LimitScope::Global => "global"@,
        LimitScope::Provider => "provider"@,
        LimitScope::Project => "project"@,
        LimitScope::Model => "model"@,
    }
}

pub open spec fn scope_from_db_name(s: Seq<char>) -> LimitScope {
    if s == "provider"@ {
        LimitScope::Provider
    } else if s == "project"@ {
        LimitScope::Project
    } else if s == "model"@ {
        LimitScope::Model
    } else {
        LimitScope::Global
    }
}

pub open spec fn action_db_name(a: LimitAction) -> Seq<char> {
    match a {
        LimitAction::Warn => "warn"@,
        LimitAction::Block => "block"@,
        LimitAction::Pause => "pause"@,
    }
}

pub open spec fn action_from_db_name(s: Seq<char>) -> LimitAction {
    if s == "block"@ {
        LimitAction::Block
    } else if s == "pause"@ {
        LimitAction::Pause
    } else {
        LimitAction::Warn
    }
}

impl ProviderFormat {
    pub fn as_db_str(self) -> (r: &'static str)
        ensures
            r@ == format_db_name(self),
    {
        match self {
            ProviderFormat::OpenAI => "openai",
            ProviderFormat::Anthropic => "anthropic",
            ProviderFormat::Google => "google",
            ProviderFormat::Responses => "responses",
        }
    }

    pub fn from_db_str(s: &str) -> (r: Self)
        ensures
            r == format_from_db_name(s@),
    {
        if str_eq(s, "anthropic") {
            ProviderFormat::Anthropic
        } else if str_eq(s, "google") {
            ProviderFormat::Google
        } else if str_eq(s, "responses") {
            ProviderFormat::Responses
        } else {
            ProviderFormat::OpenAI
        }
    }
}

impl AuthScheme {
    pub fn as_db_str(self) -> (r: &'static str)
        ensures
            r@ == auth_db_name(self),
    {
        match self {
            AuthScheme::Bearer => "bearer",
            AuthScheme::XApiKey => "x_api_key",
            AuthScheme::ApiKey => "api_key",
            AuthScheme::XGoogApiKey => "x_goog_api_key",
        }
    }

    pub fn from_db_str(s: &str) -> (r: Self)
        ensures
            r == auth_from_db_name(s@),
    {
        if str_eq(s, "x_api_key") {
            AuthScheme::XApiKey
        } else if str_eq(s, "api_key") {
            AuthScheme::ApiKey
        } else if str_eq(s, "x_goog_api_key") {
            AuthScheme::XGoogApiKey
        } else {
            AuthScheme::Bearer
        }
    }
}

impl LimitMetric {
    pub fn as_db_str(self) -> (r: &'static str)
        ensures
            r@ == metric_db_name(self),
    {
        match self {
            LimitMetric::Money => "money",
            LimitMetric::Tokens => "tokens",
            LimitMetric::Requests => "requests",
            LimitMetric::TimeSec => "time_sec",
            LimitMetric::RequestsPerMinute => "requests_per_minute",
            LimitMetric::TokensPerMinute => "tokens_per_minute",
            LimitMetric::InputTokens => "input_tokens",
            LimitMetric::OutputTokens => "output_tokens",
            LimitMetric::CostPerRequest => "cost_per_request",
            LimitMetric::ConcurrentRequests => "concurrent_requests",
        }
    }

    pub fn from_db_str(s: &str) -> (r: Self)
        ensures
            r == metric_from_db_name(s@),
    {
        if str_eq(s, "tokens") {
            LimitMetric::Tokens
        } else if str_eq(s, "requests") {
            LimitMetric::Requests
        } else if str_eq(s, "time_sec") {
            LimitMetric::TimeSec
        } else if str_eq(s, "requests_per_minute") {
            LimitMetric::RequestsPerMinute
        } else if str_eq(s, "tokens_per_minute") {
            LimitMetric::TokensPerMinute
        } else if str_eq(s, "input_tokens") {
            LimitMetric::InputTokens
        } else if str_eq(s, "output_tokens") {
            LimitMetric::OutputTokens
        } else if str_eq(s, "cost_per_request") {
            LimitMetric::CostPerRequest
        } else if str_eq(s, "concurrent_requests") {
            LimitMetric::ConcurrentRequests
        } else {
            LimitMetric::Money
        }
    }
}

impl LimitPeriod {
    pub fn as_db_str(self) -> (r: &'static str)
        ensures
            r@ == period_db_name(self),
    {
        match self {
            LimitPeriod::Once => "once",
            LimitPeriod::Hourly => "hourly",
            LimitPeriod::Daily => "daily",
            LimitPeriod::Weekly => "weekly",
            LimitPeriod::Monthly => "monthly",
            LimitPeriod::CustomSec(_) => "custom_sec",
        }
    }

    pub fn from_db_str(s: &str) -> (r: Self)
        ensures
            r == period_from_db_name(s@),
    {
        if str_eq(s, "once") {
            LimitPeriod::Once
        } else if str_eq(s, "hourly") {
            LimitPeriod::Hourly
        } else if str_eq(s, "weekly") {
            LimitPeriod::Weekly
        } else if str_eq(s, "monthly") {
            LimitPeriod::Monthly
        } else if str_eq(s, "custom_sec") {
            LimitPeriod::CustomSec(0)
        } else {
            LimitPeriod::Daily
        }
    }

    pub fn seconds(self) -> (r: Option<u64>)
        ensures
            r == period_seconds(self),
    {
        match self {
            LimitPeriod::Once => None,
            LimitPeriod::Hourly => Some(3600),
            LimitPeriod::Daily => Some(86_400),
            LimitPeriod::Weekly => Some(604_800),
            LimitPeriod::Monthly => Some(2_592_000),
            LimitPeriod::CustomSec(s) => Some(s),
        }
    }
}

impl LimitScope {
    pub fn as_db_str(self) -> (r: &'static str)
        ensures
            r@ == scope_db_name(self),
    {
        match self {
            LimitScope::Global => "global",
            LimitScope::Provider => "provider",
            LimitScope::Project => "project",
            LimitScope::Model => "model",
        }
    }

    pub fn from_db_str(s: &str) -> (r: Self)
        ensures
            r == scope_from_db_name(s@),
    {
        if str_eq(s, "provider") {
            LimitScope::Provider
        } else if str_eq(s, "project") {
            LimitScope::Project
        } else if str_eq(s, "model") {
            LimitScope::Model
        } else {
            LimitScope::Global
        }
    }
}

impl LimitAction {
    pub fn as_db_str(self) -> (r: &'static str)
        ensures
            r@ == action_db_name(self),
    {
        match self {
            LimitAction::Warn => "warn",
            LimitAction::Block => "block",
            LimitAction::Pause => "pause",
        }
    }

    pub fn from_db_str(s: &str) -> (r: Self)
        ensures
            r == action_from_db_name(s@),
    {
        if str_eq(s, "block") {
            LimitAction::Block
        } else if str_eq(s, "pause") {
            LimitAction::Pause
        } else {
            LimitAction::Warn
        }
    }
}

// ---------------------------------------------------------------------------
// Round trips through the database names
// ---------------------------------------------------------------------------

/// Reading back the name a provider format is stored under gives that format.
pub proof fn lemma_format_db_round_trip(f: ProviderFormat)
    ensures
        format_from_db_name(format_db_name(f)) == f,
{
    reveal_strlit("openai");
    assert("openai"@.len() == 6 && "openai"@[0] == 'o');
    reveal_strlit("anthropic");
    assert("anthropic"@.len() == 9 && "anthropic"@[0] == 'a');
    reveal_strlit("google");
    assert("google"@.len() == 6 && "google"@[0] == 'g');
    reveal_strlit("responses");
    assert("responses"@.len() == 9 && "responses"@[0] == 'r');
}

/// Reading back the name an auth scheme is stored under gives that scheme.
pub proof fn lemma_auth_db_round_trip(a: AuthScheme)
    ensures
        auth_from_db_name(auth_db_name(a)) == a,
{
    reveal_strlit("bearer");
    assert("bearer"@.len() == 6 && "bearer"@[0] == 'b');
    reveal_strlit("x_api_key");
    assert("x_api_key"@.len() == 9 && "x_api_key"@[0] == 'x');
    reveal_strlit("api_key");
    assert("api_key"@.len() == 7 && "api_key"@[0] == 'a');
    reveal_strlit("x_goog_api_key");
    assert("x_goog_api_key"@.len() == 14 && "x_goog_api_key"@[0] == 'x');
}

/// Reading back the name a metric is stored under gives that metric.
pub proof fn lemma_metric_db_round_trip(m: LimitMetric)
    ensures
        metric_from_db_name(metric_db_name(m)) == m,
{
    reveal_strlit("money");
    assert("money"@.len() == 5 && "money"@[0] == 'm');
    reveal_strlit("tokens");
    assert("tokens"@.len() == 6 && "tokens"@[0] == 't');
    reveal_strlit("requests");
    assert("requests"@.len() == 8 && "requests"@[0] == 'r');
    reveal_strlit("time_sec");
    assert("time_sec"@.len() == 8 && "time_sec"@[0] == 't');
    reveal_strlit("requests_per_minute");
    assert("requests_per_minute"@.len() == 19 && "requests_per_minute"@[0] == 'r');
    reveal_strlit("tokens_per_minute");
    assert("tokens_per_minute"@.len() == 17 && "tokens_per_minute"@[0] == 't');
    reveal_strlit("input_tokens");
    assert("input_tokens"@.len() == 12 && "input_tokens"@[0] == 'i');
    reveal_strlit("output_tokens");
    assert("output_tokens"@.len() == 13 && "output_tokens"@[0] == 'o');
    reveal_strlit("cost_per_request");
    assert("cost_per_request"@.len() == 16 && "cost_per_request"@[0] == 'c');
    reveal_strlit("concurrent_requests");
    assert("concurrent_requests"@.len() == 19 && "concurrent_requests"@[0] == 'c');
}

/// Reading back the name a period is stored under gives that period, except
/// that a custom period comes back with zero seconds: its length is stored in
/// a column of its own.
pub proof fn lemma_period_db_round_trip(p: LimitPeriod)
    ensures
        period_from_db_name(period_db_name(p)) == (match p {
            LimitPeriod::CustomSec(_) => LimitPeriod::CustomSec(0),
            _ => p,
        }),
{
    reveal_strlit("once");
    assert("once"@.len() == 4 && "once"@[0] == 'o');
    reveal_strlit("hourly");
    assert("hourly"@.len() == 6 && "hourly"@[0] == 'h');
    reveal_strlit("daily");
    assert("daily"@.len() == 5 && "daily"@[0] == 'd');
    reveal_strlit("weekly");
    assert("weekly"@.len() == 6 && "weekly"@[0] == 'w');
    reveal_strlit("monthly");
    assert("monthly"@.len() == 7 && "monthly"@[0] == 'm');
    reveal_strlit("custom_sec");
    assert("custom_sec"@.len() == 10 && "custom_sec"@[0] == 'c');
}

/// Reading back the name a scope is stored under gives that scope.
pub proof fn lemma_scope_db_round_trip(s: LimitScope)
    ensures
        scope_from_db_name(scope_db_name(s)) == s,
{
    reveal_strlit("global");
    assert("global"@.len() == 6 && "global"@[0] == 'g');
    reveal_strlit("provider");
    assert("provider"@.len() == 8 && "provider"@[0] == 'p');
    reveal_strlit("project");
    assert("project"@.len() == 7 && "project"@[0] == 'p');
    reveal_strlit("model");
    assert("model"@.len() == 5 && "model"@[0] == 'm');
}

/// Reading back the name an action is stored under gives that action.
pub proof fn lemma_action_db_round_trip(a: LimitAction)
    ensures
        action_from_db_name(action_db_name(a)) == a,
{
    reveal_strlit("warn");
    assert("warn"@.len() == 4 && "warn"@[0] == 'w');
    reveal_strlit("block");
    assert("block"@.len() == 5 && "block"@[0] == 'b');
    reveal_strlit("pause");
    assert("pause"@.len() == 5 && "pause"@[0] == 'p');
}

// ---------------------------------------------------------------------------
// Configuration records
// ---------------------------------------------------------------------------

/// The characters of an optional string.
pub open spec fn opt_chars(o: Option<String>) -> Option<Seq<char>> {
    match o {
        Some(s) => Some(s@),
        None => None,
    }
}

/// A copy of a string with the same characters.
pub fn copy_string(s: &String) -> (r: String)
    ensures
        r@ == s@,
{
    s.clone()
}

/// A copy of an optional string with the same characters.
pub fn copy_opt_string(o: &Option<String>) -> (r: Option<String>)
    ensures
        opt_chars(r) == opt_chars(*o),
{
    match o {
        Some(s) => Some(s.clone()),
        None => None,
    }
}

/// Mapping between the model name the user sends locally and the model name
/// the remote provider expects.
/// Costs are optional overrides in millionths of a dollar per thousand tokens.
pub struct ModelMapping {
    pub local: String,
    pub remote: String,
    pub input_cost_per_1k: Option<u64>,
    pub output_cost_per_1k: Option<u64>,
    pub cached_input_cost_per_1k: Option<u64>,
}

/// Everything a model mapping holds, by value.
pub type MappingView = (Seq<char>, Seq<char>, Option<u64>, Option<u64>, Option<u64>);

impl ModelMapping {
    pub open spec fn deep(&self) -> MappingView {
        (self.local@, self.remote@, self.input_cost_per_1k, self.output_cost_per_1k, self.cached_input_cost_per_1k)
    }

    pub fn duplicate(&self) -> (r: Self)
        ensures
            r.deep() == self.deep(),
    {
        ModelMapping {
            local: self.local.clone(),
            remote: self.remote.clone(),
            input_cost_per_1k: self.input_cost_per_1k,
            output_cost_per_1k: self.output_cost_per_1k,
            cached_input_cost_per_1k: self.cached_input_cost_per_1k,
        }
    }
}

/// The values of each mapping of a mapping list.
pub open spec fn mappings_deep(v: Seq<ModelMapping>) -> Seq<MappingView> {
    v.map_values(|m: ModelMapping| m.deep())
}

/// The characters of each name/value pair of a header list.
pub open spec fn headers_deep(v: Seq<(String, String)>) -> Seq<(Seq<char>, Seq<char>)> {
    v.map_values(|h: (String, String)| (h.0@, h.1@))
}

/// A configured LLM provider. Its API key is never held here.
pub struct Provider {
    pub id: i64,
    pub name: String,
    pub base_url: String,
    pub format: ProviderFormat,
    pub auth: AuthScheme,
    pub models: Vec<ModelMapping>,
    pub is_default: bool,
    pub fallback_provider_id: Option<i64>,
    pub extra_headers: Vec<(String, String)>,
}

/// Everything a provider record holds, by value.
pub struct ProviderView {
    pub id: i64,
    pub name: Seq<char>,
    pub base_url: Seq<char>,
    pub format: ProviderFormat,
    pub auth: AuthScheme,
    pub models: Seq<MappingView>,
    pub is_default: bool,
    pub fallback_provider_id: Option<i64>,
    pub extra_headers: Seq<(Seq<char>, Seq<char>)>,
}

fn copy_mappings(v: &Vec<ModelMapping>) -> (r: Vec<ModelMapping>)
    ensures
        mappings_deep(r@) == mappings_deep(v@),
{
    let mut r: Vec<ModelMapping> = Vec::new();
    let mut i: usize = 0;
    while i < v.len()
        invariant
            i <= v.len(),
            r@.len() == i,
            forall|j: int| 0 <= j < i ==> (#[trigger] r@[j]).deep() == v@[j].deep(),
        decreases v.len() - i,
    {
        r.push(v[i].duplicate());
        i = i + 1;
    }
    assert(mappings_deep(r@) =~= mappings_deep(v@));
    r
}

fn copy_headers(v: &Vec<(String, String)>) -> (r: Vec<(String, String)>)
    ensures
        headers_deep(r@) == headers_deep(v@),
{
    let mut r: Vec<(String, String)> = Vec::new();
    let mut i: usize = 0;
    while i < v.len()
        invariant
            i <= v.len(),
            r@.len() == i,
            forall|j: int| 0 <= j < i ==> (#[trigger] r@[j]).0@ == v@[j].0@ && r@[j].1@ == v@[j].1@,
        decreases v.len() - i,
    {
        let h = &v[i];
        r.push((h.0.clone(), h.1.clone()));
        i = i + 1;
    }
    assert(headers_deep(r@) =~= headers_deep(v@));
    r
}

impl Provider {
    pub open spec fn deep(&self) -> ProviderView {
        ProviderView {
            id: self.id,
            name: self.name@,
            base_url: self.base_url@,
            format: self.format,
            auth: self.auth,
            models: mappings_deep(self.models@),
            is_default: self.is_default,
            fallback_provider_id: self.fallback_provider_id,
            extra_headers: headers_deep(self.extra_headers@),
        }
    }

    /// A copy holding the same values.
    pub fn duplicate(&self) -> (r: Self)
        ensures
            r.deep() == self.deep(),
    {
        Provider {
            id: self.id,
            name: self.name.clone(),
            base_url: self.base_url.clone(),
            format: self.format,
            auth: self.auth,
            models: copy_mappings(&self.models),
            is_default: self.is_default,
            fallback_provider_id: self.fallback_provider_id,
            extra_headers: copy_headers(&self.extra_headers),
        }
    }
}

/// A project workspace. `label_key` is the throwaway value the user sets as
/// the API key in their coding agent; requests carrying it are tagged `name`.
pub struct Project {
    pub id: i64,
    pub name: String,
    pub label_key: String,
    /// Budget in millionths of a dollar; zero means no budget.
    pub budget: u64,
    pub budget_period: BudgetPeriod,
    pub budget_action: LimitAction,
}

/// Input for creating a project.
pub struct ProjectInput {
    pub name: String,
    pub label_key: String,
}

/// A usage limit. `cap` is in millionths of the metric's unit and
/// `warning_threshold` is a fraction of the cap in millionths
/// (`800_000` warns at 80 %).
pub struct Limit {
    pub id: i64,
    pub name: String,
    pub metric: LimitMetric,
    pub period: LimitPeriod,
    pub cap: u64,
    pub warning_threshold: u64,
    pub scope: LimitScope,
    pub scope_id: Option<i64>,
    pub action: LimitAction,
    pub enabled: bool,
    pub active_hours_start: Option<String>,
    pub active_hours_end: Option<String>,
    /// Bit 0 = Monday .. bit 6 = Sunday; `0b1111111` means every day.
    pub active_days: u8,
    pub model_pattern: Option<String>,
}

/// Input for creating or updating a limit; `cap` and `warning_threshold`
/// are in millionths, as in [`Limit`].
pub struct LimitInput {
    pub name: String,
    pub metric: LimitMetric,
    pub period: LimitPeriod,
    pub cap: u64,
    pub warning_threshold: u64,
    pub scope: LimitScope,
    pub scope_id: Option<i64>,
    pub action: LimitAction,
    pub enabled: bool,
    pub active_hours_start: Option<String>,
    pub active_hours_end: Option<String>,
    pub active_days: u8,
}

/// The limit that replaces the legacy daily budget setting: none when limits
/// already exist or the budget (in millionths of a dollar) is not positive;
/// else a global daily money limit of that cap that warns at 80 %.
pub fn legacy_budget_limit(existing_limits: u64, budget: u64) -> (r: Option<LimitInput>)
    ensures
        match r {
            None => existing_limits > 0 || budget == 0,
            Some(l) => {
                &&& existing_limits == 0 && budget > 0
                &&& l.name@ == "Daily budget"@
                &&& l.metric == LimitMetric::Money
                &&& l.period == LimitPeriod::Daily
                &&& l.cap == budget
                &&& l.warning_threshold == 800_000
                &&& l.scope == LimitScope::Global
                &&& l.scope_id is None
                &&& l.action == LimitAction::Warn
                &&& l.enabled
                &&& l.active_hours_start is None
                &&& l.active_hours_end is None
                &&& l.active_days == 0b1111111
            },
        },
{
    if existing_limits > 0 || budget == 0 {
        return None;
    }
    Some(LimitInput {
        name: "Daily budget".to_owned(),
        metric: LimitMetric::Money,
        period: LimitPeriod::Daily,
        cap: budget,
        warning_threshold: 800_000,
        scope: LimitScope::Global,
        scope_id: None,
        action: LimitAction::Warn,
        enabled: true,
        active_hours_start: None,
        active_hours_end: None,
        active_days: 0b1111111,
    })
}

/// A limit that counts the combined usage of everything in its scope.
pub struct LimitGroup {
    pub id: i64,
    pub name: String,
    pub metric: LimitMetric,
    pub period: LimitPeriod,
    pub cap: u64,
    pub warning_threshold: u64,
    pub scope: LimitScope,
    pub scope_id: Option<i64>,
    pub action: LimitAction,
    pub enabled: bool,
    pub active_hours_start: Option<String>,
    pub active_hours_end: Option<String>,
    pub active_days: u8,
    pub model_pattern: Option<String>,
    pub member_limit_ids: Vec<i64>,
}

/// The part of a limit or a limit group that the limit engine reads.
pub struct RuleView {
    pub id: i64,
    pub metric: LimitMetric,
    pub cap: u64,
    pub warning_threshold: u64,
    pub scope: LimitScope,
    pub scope_id: Option<i64>,
    pub action: LimitAction,
    pub enabled: bool,
    pub active_hours_start: Option<Seq<char>>,
    pub active_hours_end: Option<Seq<char>>,
    pub active_days: u8,
    pub model_pattern: Option<Seq<char>>,
}

impl Limit {
    pub open spec fn rule(&self) -> RuleView {
        RuleView {
            id: self.id,
            metric: self.metric,
            cap: self.cap,
            warning_threshold: self.warning_threshold,
            scope: self.scope,
            scope_id: self.scope_id,
            action: self.action,
            enabled: self.enabled,
            active_hours_start: opt_chars(self.active_hours_start),
            active_hours_end: opt_chars(self.active_hours_end),
            active_days: self.active_days,
            model_pattern: opt_chars(self.model_pattern),
        }
    }

    pub open spec fn same(&self, o: &Limit) -> bool {
        &&& self.rule() == o.rule()
        &&& self.name@ == o.name@
        &&& self.period == o.period
    }

    /// A copy holding the same values.
    pub fn duplicate(&self) -> (r: Self)
        ensures
            r.same(self),
    {
        Limit {
            id: self.id,
            name: self.name.clone(),
            metric: self.metric,
            period: self.period,
            cap: self.cap,
            warning_threshold: self.warning_threshold,
            scope: self.scope,
            scope_id: self.scope_id,
            action: self.action,
            enabled: self.enabled,
            active_hours_start: copy_opt_string(&self.active_hours_start),
            active_hours_end: copy_opt_string(&self.active_hours_end),
            active_days: self.active_days,
            model_pattern: copy_opt_string(&self.model_pattern),
        }
    }
}

impl LimitGroup {
    pub open spec fn rule(&self) -> RuleView {
        RuleView {
            id: self.id,
            metric: self.metric,
            cap: self.cap,
            warning_threshold: self.warning_threshold,
            scope: self.scope,
            scope_id: self.scope_id,
            action: self.action,
            enabled: self.enabled,
            active_hours_start: opt_chars(self.active_hours_start),
            active_hours_end: opt_chars(self.active_hours_end),
            active_days: self.active_days,
            model_pattern: opt_chars(self.model_pattern),
        }
    }

    pub open spec fn same(&self, o: &LimitGroup) -> bool {
        &&& self.rule() == o.rule()
        &&& self.name@ == o.name@
        &&& self.period == o.period
        &&& self.member_limit_ids@ == o.member_limit_ids@
    }

    /// A copy holding the same values.
    pub fn duplicate(&self) -> (r: Self)
        ensures
            r.same(self),
    {
        let ids = self.member_limit_ids.clone();
        assert(ids@ =~= self.member_limit_ids@);
        LimitGroup {
            id: self.id,
            name: self.name.clone(),
            metric: self.metric,
            period: self.period,
            cap: self.cap,
            warning_threshold: self.warning_threshold,
            scope: self.scope,
            scope_id: self.scope_id,
            action: self.action,
            enabled: self.enabled,
            active_hours_start: copy_opt_string(&self.active_hours_start),
            active_hours_end: copy_opt_string(&self.active_hours_end),
            active_days: self.active_days,
            model_pattern: copy_opt_string(&self.model_pattern),
            member_limit_ids: ids,
        }
    }
}

} // verus!
