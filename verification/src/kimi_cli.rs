//! Starting the program: the limits the options override, and the model and provider it
//! runs with.
use vstd::prelude::*;

use crate::config::{first_unknown_provider, Config, LLMModel, LLMProvider, LoopControl, ModelCapability, ProviderType};
use crate::text::str_eq;

verus! {

/// Overrides the loop limits with those the options give.
pub fn apply_loop_overrides(
    loop_control: &mut LoopControl,
    max_steps_per_turn: Option<i64>,
    max_retries_per_step: Option<i64>,
    max_ralph_iterations: Option<i64>,
)
    ensures
        final(loop_control).max_steps_per_turn == match max_steps_per_turn {
            Some(n) => n,
            None => old(loop_control).max_steps_per_turn,
        },
        final(loop_control).max_retries_per_step == match max_retries_per_step {
            Some(n) => n,
            None => old(loop_control).max_retries_per_step,
        },
        final(loop_control).max_ralph_iterations == match max_ralph_iterations {
            Some(n) => n,
            None => old(loop_control).max_ralph_iterations,
        },
        final(loop_control).reserved_context_size == old(loop_control).reserved_context_size,
{
    match max_steps_per_turn {
        Some(n) => {
            loop_control.max_steps_per_turn = n;
        },
        None => {},
    }
    match max_retries_per_step {
        Some(n) => {
            loop_control.max_retries_per_step = n;
        },
        None => {},
    }
    match max_ralph_iterations {
        Some(n) => {
            loop_control.max_ralph_iterations = n;
        },
        None => {},
    }
}

/// The view of a list of pairs of strings.
pub open spec fn pairs_of(v: Option<Vec<(String, String)>>) -> Option<Seq<(Seq<char>, Seq<char>)>> {
    match v {
        Some(p) => Some(p@.map_values(|x: (String, String)| (x.0@, x.1@))),
        None => None,
    }
}

/// The view of a model: provider, name, window and capabilities.
pub open spec fn model_view(m: LLMModel) -> (Seq<char>, Seq<char>, i64, Option<Seq<ModelCapability>>) {
    (
        m.provider@,
        m.model@,
        m.max_context_size,
        match m.capabilities {
            Some(c) => Some(c@),
            None => None,
        },
    )
}

/// The view of a provider: its kind, endpoint, key, environment and headers.
pub open spec fn provider_view(p: LLMProvider) -> (
    ProviderType,
    Seq<char>,
    Seq<char>,
    Option<Seq<(Seq<char>, Seq<char>)>>,
    Option<Seq<(Seq<char>, Seq<char>)>>,
) {
    (p.provider_type, p.base_url@, p.api_key@, pairs_of(p.env), pairs_of(p.custom_headers))
}

fn copy_pairs(v: &Option<Vec<(String, String)>>) -> (r: Option<Vec<(String, String)>>)
    ensures
        pairs_of(r) == pairs_of(*v),
{
    match v {
        None => None,
        Some(p) => {
            let mut out: Vec<(String, String)> = Vec::new();
            let mut i: usize = 0;
            while i < p.len()
                invariant
                    i <= p@.len(),
                    out@.map_values(|x: (String, String)| (x.0@, x.1@)) == p@.map_values(|x: (String, String)| (x.0@, x.1@)).take(
                        i as int,
                    ),
                decreases p@.len() - i,
            {
                let ghost o0 = out@;
                out.push((p[i].0.clone(), p[i].1.clone()));
                assert(out@.map_values(|x: (String, String)| (x.0@, x.1@)) =~= o0.map_values(|x: (String, String)| (x.0@, x.1@)).push(
                    (p@[i as int].0@, p@[i as int].1@),
                ));
                assert(p@.map_values(|x: (String, String)| (x.0@, x.1@)).take(i + 1) =~= p@.map_values(
                    |x: (String, String)| (x.0@, x.1@),
                ).take(i as int).push((p@[i as int].0@, p@[i as int].1@)));
                i = i + 1;
            }
            assert(p@.map_values(|x: (String, String)| (x.0@, x.1@)).take(p@.len() as int) =~= p@.map_values(
                |x: (String, String)| (x.0@, x.1@),
            ));
            Some(out)
        },
    }
}

pub fn copy_model(m: &LLMModel) -> (r: LLMModel)
    ensures
        model_view(r) == model_view(*m),
{
    LLMModel {
        provider: m.provider.clone(),
        model: m.model.clone(),
        max_context_size: m.max_context_size,
        capabilities: match &m.capabilities {
            Some(c) => Some(c.clone()),
            None => None,
        },
    }
}

pub fn copy_provider(p: &LLMProvider) -> (r: LLMProvider)
    ensures
        provider_view(r) == provider_view(*p),
{
    LLMProvider {
        provider_type: p.provider_type,
        base_url: p.base_url.clone(),
        api_key: p.api_key.clone(),
        env: copy_pairs(&p.env),
        custom_headers: copy_pairs(&p.custom_headers),
    }
}

/// The index of the first entry with a name.
pub open spec fn key_index<V>(entries: Seq<(String, V)>, k: Seq<char>, i: int) -> Option<int>
    decreases entries.len() - i,
{
    if i < 0 || i >= entries.len() {
        None
    } else if entries[i].0@ == k {
        Some(i)
    } else {
        key_index(entries, k, i + 1)
    }
}

fn find_index<V>(entries: &Vec<(String, V)>, k: &str) -> (r: Option<usize>)
    ensures
        match r {
            Some(i) => key_index(entries@, k@, 0) == Some(i as int) && i < entries@.len(),
            None => key_index(entries@, k@, 0) is None,
        },
{
    let mut i: usize = 0;
    while i < entries.len()
        invariant
            i <= entries@.len(),
            key_index(entries@, k@, 0) == key_index(entries@, k@, i as int),
        decreases entries@.len() - i,
    {
        if str_eq(entries[i].0.as_str(), k) {
            return Some(i);
        }
        i = i + 1;
    }
    None
}

/// The name of the model the options and the configuration select: the one named if it is
/// configured, else the default when it is set and configured.
pub open spec fn chosen_model(c: Config, model_name: Option<Seq<char>>) -> Option<int> {
    let named = match model_name {
        Some(n) => key_index(c.models@, n, 0),
        None => None,
    };
    match named {
        Some(i) => Some(i),
        None => if model_name is None && c.default_model@.len() > 0 {
            key_index(c.models@, c.default_model@, 0)
        } else {
            None
        },
    }
}

/// The model and provider the program runs with: those the options and the configuration
/// select, or an unnamed Kimi model with a window of 100000 tokens and no endpoint when none
/// is selected. Every configured model's provider must be configured.
pub fn select_model(config: &Config, model_name: &Option<String>) -> (r: (LLMModel, LLMProvider))
    requires
        first_unknown_provider(*config, 0) is None,
    ensures
        match chosen_model(*config, match model_name {
            Some(n) => Some(n@),
            None => None,
        }) {
            Some(i) => {
                let m = config.models@[i].1;
                &&& model_view(r.0) == model_view(m)
                &&& match key_index(config.providers@, m.provider@, 0) {
                    Some(j) => provider_view(r.1) == provider_view(config.providers@[j].1),
                    None => false,
                }
            },
            None => {
                &&& model_view(r.0) == (Seq::<char>::empty(), Seq::<char>::empty(), 100000i64, None::<Seq<ModelCapability>>)
                &&& provider_view(r.1) == (
                    ProviderType::Kimi,
                    Seq::<char>::empty(),
                    Seq::<char>::empty(),
                    None::<Seq<(Seq<char>, Seq<char>)>>,
                    None::<Seq<(Seq<char>, Seq<char>)>>,
                )
            },
        },
{
    let named = match model_name {
        Some(n) => find_index(&config.models, n.as_str()),
        None => None,
    };
    let chosen = match named {
        Some(i) => Some(i),
        None => {
            if model_name.is_none() && !config.default_model.as_str().is_empty() {
                find_index(&config.models, config.default_model.as_str())
            } else {
                None
            }
        },
    };
    match chosen {
        Some(i) => {
            let m = &config.models[i].1;
            proof {
                lemma_provider_known(*config, i as int);
            }
            match find_index(&config.providers, m.provider.as_str()) {
                Some(j) => (copy_model(m), copy_provider(&config.providers[j].1)),
                None => {
                    proof {
                        assert(false);
                    }
                    (copy_model(m), empty_provider())
                },
            }
        },
        None => {
            let m = LLMModel { provider: String::new(), model: String::new(), max_context_size: 100000, capabilities: None };
            let p = empty_provider();
            (m, p)
        },
    }
}

fn empty_provider() -> (r: LLMProvider)
    ensures
        provider_view(r) == (
            ProviderType::Kimi,
            Seq::<char>::empty(),
            Seq::<char>::empty(),
            None::<Seq<(Seq<char>, Seq<char>)>>,
            None::<Seq<(Seq<char>, Seq<char>)>>,
        ),
{
    LLMProvider { provider_type: ProviderType::Kimi, base_url: String::new(), api_key: String::new(), env: None, custom_headers: None }
}

proof fn lemma_provider_known(c: Config, i: int)
    requires
        first_unknown_provider(c, 0) is None,
        0 <= i < c.models@.len(),
    ensures
        key_index(c.providers@, c.models@[i].1.provider@, 0) is Some,
{
    lemma_no_unknown_from(c, 0, i);
    let k = c.models@[i].1.provider@;
    let j = choose|j: int| 0 <= j < c.providers@.len() && #[trigger] c.providers@[j].0@ == k;
    lemma_key_index_some(c.providers@, k, 0, j);
}

proof fn lemma_no_unknown_from(c: Config, start: int, i: int)
    requires
        0 <= start <= i < c.models@.len(),
        first_unknown_provider(c, start) is None,
    ensures
        crate::config::has_key(c.providers@, c.models@[i].1.provider@),
    decreases i - start,
{
    if start < i {
        lemma_no_unknown_from(c, start + 1, i);
    }
}

proof fn lemma_key_index_some<V>(entries: Seq<(String, V)>, k: Seq<char>, i: int, j: int)
    requires
        0 <= i <= j < entries.len(),
        entries[j].0@ == k,
    ensures
        key_index(entries, k, i) is Some,
    decreases j - i,
{
    if entries[i].0@ != k {
        lemma_key_index_some(entries, k, i + 1, j);
    }
}

/// The thinking mode the program runs with: the options', else the configuration's default.
pub fn thinking_mode(thinking: Option<bool>, config: &Config) -> (r: bool)
    ensures
        r == match thinking {
            Some(t) => t,
            None => config.default_thinking,
        },
{
    match thinking {
        Some(t) => t,
        None => config.default_thinking,
    }
}

} // verus!
