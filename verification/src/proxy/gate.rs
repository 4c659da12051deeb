//! What the proxy decides about a request before it forwards it: whether to
//! refuse it (paused, unknown project, spent budget), which model and body
//! it carries, the upstream path, and the pricing of its model.

use vstd::prelude::*;
use crate::config::{
    LimitAction, ModelMapping, Provider,
};
use crate::cost::PricingProfile;
use crate::json::{
    Json, JsonView, get_str, member_views,
};
use crate::proxy::server::{
    HeaderEntry, client_key_spec, error_body, error_body_spec, extract_client_key, headers_view, models_list,
    models_list_spec, kept_params, strip_key_param,
};
use crate::text::{
    decimal_string, join_seq, split_seq, string_push_str, u128_to_decimal,
};

verus! {

/// The message of a request refused while the proxy is paused.
pub open spec fn paused_refusal() -> Seq<char> {
    "Token Guard proxy is paused"@
}

/// The message of a request without a known project key.
pub open spec fn unknown_project_refusal() -> Seq<char> {
    "invalid or missing project key \u{2014} create a project in Token Guard and set its label key as your API key"@
}

/// A millionths figure rounded to cents, ties to even.
pub open spec fn round_cents(micro: int) -> int {
    let q = micro / 10_000;
    let rem = micro % 10_000;
    if rem * 2 > 10_000 {
        q + 1
    } else if rem * 2 < 10_000 {
        q
    } else if q % 2 == 0 {
        q
    } else {
        q + 1
    }
}

/// An amount of money in millionths of a dollar with two decimals.
pub open spec fn money_text(micro: u64) -> Seq<char> {
    let c = round_cents(micro as int);
    let cents = c % 100;
    decimal_string((c / 100) as nat) + "."@ + if cents < 10 {
        "0"@ + decimal_string(cents as nat)
    } else {
        decimal_string(cents as nat)
    }
}

/// The notification a spent project budget leads to.
#[derive(Clone, Copy, Debug, PartialEq, Eq, Structural)]
pub enum BudgetNotice {
    Blocked,
    Paused,
    Warning,
}

/// The outcome of screening a request, before its body is looked at.
pub struct Admission {
    /// `Some((status, message))` refuses the request.
    pub refusal: Option<(u16, String)>,
    /// The budget notification to show, with the spend and the budget.
    pub notice: Option<(BudgetNotice, u64, u64)>,
    /// Whether the proxy pauses.
    pub pause: bool,
    /// Whether to record that the project's budget warning was shown.
    pub mark_budget_notified: bool,
}

/// The refusal a gate decision carries, by value.
pub open spec fn refusal_view(r: Option<(u16, String)>) -> Option<(u16, Seq<char>)> {
    match r {
        Some((s, m)) => Some((s, m@)),
        None => None,
    }
}

fn money_text_exec(micro: u64) -> (r: String)
    ensures
        r@ == money_text(micro),
{
    let q = micro / 10_000;
    let rem = micro % 10_000;
    let c = if rem * 2 > 10_000 {
        q + 1
    } else if rem * 2 < 10_000 {
        q
    } else if q % 2 == 0 {
        q
    } else {
        q + 1
    };
    let cents = c % 100;
    let mut s = u128_to_decimal((c / 100) as u128);
    string_push_str(&mut s, ".");
    if cents < 10 {
        string_push_str(&mut s, "0");
    }
    let d = u128_to_decimal(cents as u128);
    string_push_str(&mut s, d.as_str());
    s
}

/// Decide on a request before its body is read. `paused` is the proxy's
/// flag, `project_known` whether the client's key names a project, and
/// `budget` that project's budget status (`check_project_budget`: spend,
/// budget, action, whether to notify). A paused proxy answers 503, an
/// unknown project 401; a spent budget blocks (429), pauses the proxy
/// (503), or only warns.
pub fn screen_request(paused: bool, project_known: bool, budget: Option<(u64, u64, LimitAction, bool)>) -> (r: Admission)
    ensures
        paused ==> refusal_view(r.refusal) == Some((503u16, paused_refusal())) && r.notice is None && !r.pause
            && !r.mark_budget_notified,
        !paused && !project_known ==> refusal_view(r.refusal) == Some((401u16, unknown_project_refusal()))
            && r.notice is None && !r.pause && !r.mark_budget_notified,
        !paused && project_known ==> match budget {
            None => r.refusal is None && r.notice is None && !r.pause && !r.mark_budget_notified,
            Some((used, cap, action, notify)) => match action {
                LimitAction::Block => refusal_view(r.refusal) == Some((
                    429u16,
                    "project budget exceeded: "@ + money_text(used) + " / "@ + money_text(cap),
                )) && r.notice == Some((BudgetNotice::Blocked, used, cap)) && !r.pause && !r.mark_budget_notified,
                LimitAction::Pause => refusal_view(r.refusal) == Some((503u16, "project budget exceeded \u{2014} proxy paused"@))
                    && r.notice == Some((BudgetNotice::Paused, used, cap)) && r.pause && !r.mark_budget_notified,
                LimitAction::Warn => r.refusal is None && r.notice == (if notify {
                    Some((BudgetNotice::Warning, used, cap))
                } else {
                    None
                }) && !r.pause && r.mark_budget_notified == notify,
            },
        },
{
    if paused {
        return Admission {
            refusal: Some((503, "Token Guard proxy is paused".to_owned())),
            notice: None,
            pause: false,
            mark_budget_notified: false,
        };
    }
    if !project_known {
        return Admission {
            refusal: Some((
                401,
                "invalid or missing project key \u{2014} create a project in Token Guard and set its label key as your API key".to_owned(),
            )),
            notice: None,
            pause: false,
            mark_budget_notified: false,
        };
    }
    match budget {
        None => Admission { refusal: None, notice: None, pause: false, mark_budget_notified: false },
        Some((used, cap, action, notify)) => match action {
            LimitAction::Block => {
                let mut m = "project budget exceeded: ".to_owned();
                string_push_str(&mut m, money_text_exec(used).as_str());
                string_push_str(&mut m, " / ");
                string_push_str(&mut m, money_text_exec(cap).as_str());
                Admission {
                    refusal: Some((429, m)),
                    notice: Some((BudgetNotice::Blocked, used, cap)),
                    pause: false,
                    mark_budget_notified: false,
                }
            },
            LimitAction::Pause => Admission {
                refusal: Some((503, "project budget exceeded \u{2014} proxy paused".to_owned())),
                notice: Some((BudgetNotice::Paused, used, cap)),
                pause: true,
                mark_budget_notified: false,
            },
            LimitAction::Warn => Admission {
                refusal: None,
                notice: if notify {
                    Some((BudgetNotice::Warning, used, cap))
                } else {
                    None
                },
                pause: false,
                mark_budget_notified: notify,
            },
        },
    }
}

/// The path sent upstream: the request path with its query string, minus
/// the client's `key` parameter, when anything of the query is left.
pub open spec fn upstream_path_spec(path: Seq<char>, query: Option<Seq<char>>) -> Seq<char> {
    match query {
        Some(q) => {
            let s = join_seq(kept_params(split_seq(q, '&')), "&"@);
            if s.len() > 0 {
                path + "?"@ + s
            } else {
                path
            }
        },
        None => path,
    }
}

/// The upstream path of a request, with the client key stripped from its
/// query string.
pub fn upstream_path(path: &str, query: Option<&str>) -> (r: String)
    ensures
        r@ == upstream_path_spec(path@, crate::json::opt_text(query)),
{
    match query {
        Some(q) => {
            let s = strip_key_param(q);
            if s.as_str().is_empty() {
                path.to_owned()
            } else {
                let mut p = path.to_owned();
                string_push_str(&mut p, "?");
                string_push_str(&mut p, s.as_str());
                p
            }
        },
        None => path.to_owned(),
    }
}

/// The model a request asks for and the body it carries: with a model from
/// the path (Gemini), the body or else an empty object; otherwise the body,
/// which must be JSON (`parsed`), and its `model` member (empty without
/// one). None when a body that must be JSON is not.
pub open spec fn request_model_spec(model_from_path: Option<Seq<char>>, parsed: Option<JsonView>) -> Option<(Seq<char>, JsonView)> {
    match model_from_path {
        Some(m) => Some((m, match parsed {
            Some(b) => b,
            None => JsonView::Object(Seq::empty()),
        })),
        None => match parsed {
            Some(b) => Some((
                match get_str(b, "model"@) {
                    Some(x) => x,
                    None => Seq::empty(),
                },
                b,
            )),
            None => None,
        },
    }
}

/// The model and body of a request, from the model its path names (if any)
/// and its body as read as JSON (none when it is not JSON).
pub fn request_model(model_from_path: Option<String>, parsed: Option<Json>) -> (r: Option<(String, Json)>)
    ensures
        match r {
            Some((m, b)) => request_model_spec(crate::proxy::stream::opt_chars(model_from_path), crate::json::opt_owned(parsed))
                == Some((m@, b.view())),
            None => request_model_spec(crate::proxy::stream::opt_chars(model_from_path), crate::json::opt_owned(parsed)) is None,
        },
{
    match model_from_path {
        Some(m) => {
            let body = match parsed {
                Some(b) => b,
                None => {
                    let e: Vec<(String, Json)> = Vec::new();
                    assert(member_views(e@) =~= Seq::empty());
                    Json::object(e)
                },
            };
            Some((m, body))
        },
        None => match parsed {
            Some(b) => {
                let model = match b.get_str("model") {
                    Some(x) => x.to_owned(),
                    None => {
                        let e = String::new();
                        assert(e@ =~= Seq::<char>::empty());
                        e
                    },
                };
                Some((model, b))
            },
            None => None,
        },
    }
}

/// The message of a request whose model no provider serves.
pub open spec fn no_provider_message_spec(model: Seq<char>) -> Seq<char> {
    "no provider configured for model '"@ + model + "' on this endpoint \u{2014} add one in Settings"@
}

/// Refusal message for a model no provider serves (404).
pub fn no_provider_message(model: &str) -> (r: String)
    ensures
        r@ == no_provider_message_spec(model@),
{
    let mut m = "no provider configured for model '".to_owned();
    string_push_str(&mut m, model);
    string_push_str(&mut m, "' on this endpoint \u{2014} add one in Settings");
    m
}

/// Refusal message for a provider without a stored API key (500).
pub fn missing_key_message(provider: &str) -> (r: String)
    ensures
        r@ == "no API key stored for provider '"@ + provider@ + "' \u{2014} add it in Settings"@,
{
    let mut m = "no API key stored for provider '".to_owned();
    string_push_str(&mut m, provider);
    string_push_str(&mut m, "' \u{2014} add it in Settings");
    m
}

/// A price in millionths of a dollar per 1K tokens as nano-dollars per 1K
/// tokens, saturating.
pub open spec fn micro_to_nano(p: Option<u64>) -> Option<u64> {
    match p {
        Some(x) => Some(if x * 1000 > u64::MAX { u64::MAX } else { (x * 1000) as u64 }),
        None => None,
    }
}

fn micro_to_nano_exec(p: Option<u64>) -> (r: Option<u64>)
    ensures
        r == micro_to_nano(p),
{
    match p {
        Some(x) => Some(match x.checked_mul(1000) {
            Some(y) => y,
            None => u64::MAX,
        }),
        None => None,
    }
}

/// The pricing a provider's mapping of `local` sets: its input, output and
/// cached-input prices; nothing when the provider does not map `local`.
pub open spec fn pricing_profile_spec(p: Provider, local: Seq<char>) -> PricingProfile {
    match crate::text::first_index(p.models@, |m: ModelMapping| m.local@ == local) {
        Some(k) => PricingProfile {
            input_per_1k: micro_to_nano(p.models@[k].input_cost_per_1k),
            output_per_1k: micro_to_nano(p.models@[k].output_cost_per_1k),
            cached_input_per_1k: micro_to_nano(p.models@[k].cached_input_cost_per_1k),
            ..crate::cost::no_profile()
        },
        None => crate::cost::no_profile(),
    }
}

/// The pricing override for a model on a provider, from the provider's
/// mapping of it.
pub fn pricing_profile(provider: &Provider, local_name: &str) -> (r: PricingProfile)
    ensures
        r == pricing_profile_spec(*provider, local_name@),
{
    let ghost f = |m: ModelMapping| m.local@ == local_name@;
    let mut k: usize = 0;
    assert(provider.models@.subrange(0, 0) =~= Seq::<ModelMapping>::empty());
    while k < provider.models.len()
        invariant
            k <= provider.models@.len(),
            f == |m: ModelMapping| m.local@ == local_name@,
            crate::text::first_index(provider.models@.subrange(0, k as int), f) == None::<int>,
        decreases provider.models.len() - k,
    {
        proof {
            crate::text::lemma_first_index_push(provider.models@, f, k as int);
        }
        let m = &provider.models[k];
        if crate::text::str_eq(m.local.as_str(), local_name) {
            proof {
                crate::text::lemma_first_index_prefix(provider.models@, f, k as int + 1);
            }
            return PricingProfile {
                input_per_1k: micro_to_nano_exec(m.input_cost_per_1k),
                output_per_1k: micro_to_nano_exec(m.output_cost_per_1k),
                cached_input_per_1k: micro_to_nano_exec(m.cached_input_cost_per_1k),
                context_tiers: None,
                time_tiers: None,
                batch_discount: None,
                reasoning_per_1k: None,
                request_fee: None,
            };
        }
        k = k + 1;
    }
    assert(provider.models@.subrange(0, provider.models@.len() as int) =~= provider.models@);
    PricingProfile::default()
}

/// The answer to a request for the model list: 401 with the missing-key
/// error unless the client's key (from its headers or query) is a known
/// project's label key; else 200 with every provider's local models.
pub fn models_reply(
    headers: &[HeaderEntry],
    query: Option<&str>,
    projects: &[crate::config::Project],
    providers: &[Provider],
) -> (r: (u16, Json))
    ensures
        match client_key_spec(headers_view(headers@), crate::json::opt_text(query)) {
            Some(k) if crate::state::project_for_key_spec(projects@, k) is Some => r.0 == 200
                && r.1.view() == models_list_spec(providers@),
            _ => r.0 == 401 && r.1.view() == error_body_spec(unknown_project_refusal()),
        },
{
    let known = match extract_client_key(headers, query) {
        Some(k) => crate::state::project_for_key(projects, k.as_str()).is_some(),
        None => false,
    };
    if known {
        (200, models_list(providers))
    } else {
        (401, error_body("invalid or missing project key \u{2014} create a project in Token Guard and set its label key as your API key"))
    }
}

} // verus!
