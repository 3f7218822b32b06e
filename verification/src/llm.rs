//! Choosing a model's capabilities and thinking mode, reading its settings from the
//! environment, and the scripts of the scripted echo provider.
use vstd::prelude::*;

use crate::config::{LLMModel, LLMProvider, ModelCapability, ProviderType};
use crate::flow::mermaid::find_seq;
use crate::text::{all_ascii, ascii_lower_seq, owned, push_str, str_chars, string_from_chars, to_lowercase, trim, trim_chars, unicode_lowercase};

verus! {

/// Why a model could not be set up.
pub enum LLMError {
    ChatProvider(String),
    ScriptedEcho(String),
    EnvVar(String),
}

/// The text of a model error.
pub open spec fn llm_error_text(e: LLMError) -> Seq<char> {
    match e {
        LLMError::ChatProvider(m) => "chat provider error: "@ + m@,
        LLMError::ScriptedEcho(m) => "scripted echo error: "@ + m@,
        LLMError::EnvVar(m) => m@,
    }
}

impl LLMError {
    /// The text of the error.
    pub fn to_message(&self) -> (r: String)
        ensures
            r@ == llm_error_text(*self),
    {
        match self {
            LLMError::ChatProvider(m) => {
                let mut s = owned("chat provider error: ");
                push_str(&mut s, m.as_str());
                s
            },
            LLMError::ScriptedEcho(m) => {
                let mut s = owned("scripted echo error: ");
                push_str(&mut s, m.as_str());
                s
            },
            LLMError::EnvVar(m) => m.clone(),
        }
    }
}

/// Whether `pat` occurs in `s`.
pub open spec fn contains_spec(s: Seq<char>, pat: Seq<char>) -> bool {
    find_seq(s, pat, 0) is Some
}

fn contains_str(s: &[char], pat: &str) -> (r: bool)
    ensures
        r == contains_spec(s@, pat@),
{
    let p = str_chars(pat);
    if p.len() == 0 {
        proof {
            assert(crate::text::occurs_at(s@, 0, p@)) by {
                assert(s@.subrange(0, 0) =~= p@);
            }
        }
        return true;
    }
    crate::flow::mermaid::find_seq_at(s, p.as_slice(), 0).is_some()
}

/// Whether a model's name marks it as a thinking model: it contains `thinking` or `reason`
/// once lower-cased.
pub open spec fn thinking_name(model: Seq<char>) -> bool {
    contains_spec(unicode_lowercase(model), "thinking"@) || contains_spec(unicode_lowercase(model), "reason"@)
}

/// Whether a model's name is one of the coding models, which see images and video and can think.
pub open spec fn coding_name(model: Seq<char>) -> bool {
    model == "kimi-for-coding"@ || model == "kimi-code"@
}

/// The capabilities a model has: those configured, plus thinking (always on) for thinking
/// models, or thinking, images and video for the coding models.
pub open spec fn has_capability(model: LLMModel, c: ModelCapability) -> bool {
    (match model.capabilities {
        Some(v) => v@.contains(c),
        None => false,
    }) || (thinking_name(model.model@) && (c == ModelCapability::Thinking || c == ModelCapability::AlwaysThinking))
        || (!thinking_name(model.model@) && coding_name(model.model@) && (c == ModelCapability::Thinking || c
        == ModelCapability::ImageIn || c == ModelCapability::VideoIn))
}

fn configured(model: &LLMModel, c: ModelCapability) -> (r: bool)
    ensures
        r == match model.capabilities {
            Some(v) => v@.contains(c),
            None => false,
        },
{
    match &model.capabilities {
        Some(v) => has_cap(v, c),
        None => false,
    }
}

/// The capabilities of a model, each once, in the order image, video, thinking, always
/// thinking.
pub fn derive_model_capabilities(model: &LLMModel) -> (r: Vec<ModelCapability>)
    ensures
        forall|c: ModelCapability| #[trigger] r@.contains(c) <==> has_capability(*model, c),
        r@.no_duplicates(),
        all_ascii(model.model@) ==> thinking_name(model.model@) == (contains_spec(ascii_lower_seq(model.model@), "thinking"@)
            || contains_spec(ascii_lower_seq(model.model@), "reason"@)),
{
    let lower = to_lowercase(model.model.as_str());
    let lc = str_chars(lower.as_str());
    let thinking = contains_str(lc.as_slice(), "thinking") || contains_str(lc.as_slice(), "reason");
    let coding = crate::text::str_eq(model.model.as_str(), "kimi-for-coding") || crate::text::str_eq(
        model.model.as_str(),
        "kimi-code",
    );
    let all = [ModelCapability::ImageIn, ModelCapability::VideoIn, ModelCapability::Thinking, ModelCapability::AlwaysThinking];
    let mut out: Vec<ModelCapability> = Vec::new();
    let mut i: usize = 0;
    while i < 4
        invariant
            i <= 4,
            all@ == seq![ModelCapability::ImageIn, ModelCapability::VideoIn, ModelCapability::Thinking, ModelCapability::AlwaysThinking],
            thinking == thinking_name(model.model@),
            coding == coding_name(model.model@),
            forall|c: ModelCapability| #[trigger] out@.contains(c) <==> (has_capability(*model, c) && exists|k: int| 0 <= k < i && all@[k] == c),
            out@.no_duplicates(),
            forall|k: int| 0 <= k < out@.len() ==> exists|j: int| 0 <= j < i && all@[j] == #[trigger] out@[k],
        decreases 4 - i,
    {
        let c = all[i];
        let has = configured(model, c) || (thinking && (c == ModelCapability::Thinking || c == ModelCapability::AlwaysThinking)) || (!thinking
            && coding && (c == ModelCapability::Thinking || c == ModelCapability::ImageIn || c == ModelCapability::VideoIn));
        let ghost o = out@;
        if has {
            proof {
                assert(!o.contains(c)) by {
                    if o.contains(c) {
                        let k = choose|k: int| 0 <= k < o.len() && o[k] == c;
                        let j = choose|j: int| 0 <= j < i && all@[j] == #[trigger] o[k];
                    }
                }
            }
            out.push(c);
            proof {
                assert forall|k: int| 0 <= k < out@.len() implies exists|j: int| 0 <= j < i + 1 && all@[j] == #[trigger] out@[k] by {
                    if k < o.len() {
                        assert(out@[k] == o[k]);
                        let j = choose|j: int| 0 <= j < i && all@[j] == #[trigger] o[k];
                    } else {
                        assert(all@[i as int] == out@[k]);
                    }
                }
            }
        }
        proof {
            assert forall|d: ModelCapability| #[trigger] out@.contains(d) <==> (has_capability(*model, d) && exists|k: int| 0 <= k < i + 1 && all@[k] == d) by {
                if out@.contains(d) && !o.contains(d) {
                    let k = choose|k: int| 0 <= k < out@.len() && out@[k] == d;
                    assert(k == o.len());
                }
                if has_capability(*model, d) && all@[i as int] == d {
                    assert(out@[out@.len() - 1] == d);
                }
                if o.contains(d) {
                    let k = choose|k: int| 0 <= k < o.len() && o[k] == d;
                    assert(out@[k] == d);
                }
            }
        }
        i = i + 1;
    }
    proof {
        assert forall|c: ModelCapability| #[trigger] out@.contains(c) <==> has_capability(*model, c) by {
            let k: int = match c {
                ModelCapability::ImageIn => 0,
                ModelCapability::VideoIn => 1,
                ModelCapability::Thinking => 2,
                ModelCapability::AlwaysThinking => 3,
            };
            assert(all@[k] == c);
        }
    }
    out
}

/// The thinking setting a model gets.
#[derive(Clone, Copy, Debug, PartialEq, Eq, Structural)]
pub enum ThinkingChoice {
    /// Think hard.
    High,
    /// Do not think.
    Off,
    /// Leave the provider as it is.
    Unchanged,
}

/// Thinking is on for a model that always thinks, or when asked and the model can think; off
/// when asked off; otherwise the provider is left as it is.
pub open spec fn thinking_choice_spec(caps: Seq<ModelCapability>, thinking: Option<bool>) -> ThinkingChoice {
    if caps.contains(ModelCapability::AlwaysThinking) || (thinking == Some(true) && caps.contains(ModelCapability::Thinking)) {
        ThinkingChoice::High
    } else if thinking == Some(false) {
        ThinkingChoice::Off
    } else {
        ThinkingChoice::Unchanged
    }
}

fn has_cap(caps: &Vec<ModelCapability>, c: ModelCapability) -> (r: bool)
    ensures
        r == caps@.contains(c),
{
    let mut i: usize = 0;
    while i < caps.len()
        invariant
            i <= caps@.len(),
            forall|k: int| 0 <= k < i ==> caps@[k] != c,
        decreases caps@.len() - i,
    {
        if caps[i] == c {
            assert(caps@[i as int] == c);
            return true;
        }
        i = i + 1;
    }
    false
}

/// The thinking setting for a model's capabilities and the user's choice.
pub fn thinking_choice(caps: &Vec<ModelCapability>, thinking: Option<bool>) -> (r: ThinkingChoice)
    ensures
        r == thinking_choice_spec(caps@, thinking),
{
    if has_cap(caps, ModelCapability::AlwaysThinking) || (thinking == Some(true) && has_cap(caps, ModelCapability::Thinking)) {
        ThinkingChoice::High
    } else if thinking == Some(false) {
        ThinkingChoice::Off
    } else {
        ThinkingChoice::Unchanged
    }
}

/// A model that always thinks is set to think whatever the user asked.
pub proof fn lemma_always_thinking_wins(caps: Seq<ModelCapability>, thinking: Option<bool>)
    requires
        caps.contains(ModelCapability::AlwaysThinking),
    ensures
        thinking_choice_spec(caps, thinking) == ThinkingChoice::High,
{
}

/// Whether a provider can be set up at all: the echo providers always; the others need a base
/// URL and a model name.
pub open spec fn provider_usable(provider: LLMProvider, model: LLMModel) -> bool {
    provider.provider_type == ProviderType::Echo || provider.provider_type == ProviderType::ScriptedEcho
        || (provider.base_url@.len() > 0 && model.model@.len() > 0)
}

/// Whether a provider can be set up at all.
pub fn is_provider_usable(provider: &LLMProvider, model: &LLMModel) -> (r: bool)
    ensures
        r == provider_usable(*provider, *model),
{
    provider.provider_type == ProviderType::Echo || provider.provider_type == ProviderType::ScriptedEcho || (
    !provider.base_url.as_str().is_empty() && !model.model.as_str().is_empty())
}

/// Whether the scripted echo provider traces: `1`, `true`, `yes` or `on`, once trimmed and
/// lower-cased.
pub open spec fn trace_flag(value: Seq<char>) -> bool {
    let v = unicode_lowercase(trim(value));
    v == "1"@ || v == "true"@ || v == "yes"@ || v == "on"@
}

/// Whether the scripted echo provider traces, by its environment variable.
pub fn trace_enabled(value: &str) -> (r: bool)
    ensures
        r == trace_flag(value@),
{
    let t = crate::text::trim_str(value);
    let v = to_lowercase(t.as_str());
    crate::text::str_eq(v.as_str(), "1") || crate::text::str_eq(v.as_str(), "true") || crate::text::str_eq(
        v.as_str(),
        "yes",
    ) || crate::text::str_eq(v.as_str(), "on")
}

/// The text of a scripts file from index `i` on, split at `\n---\n`, each chunk trimmed, the
/// empty ones dropped; `cur` is the chunk read so far.
pub open spec fn scripts_from(s: Seq<char>, i: int, cur: Seq<char>) -> Seq<Seq<char>>
    decreases s.len() - i,
{
    if i < 0 || i >= s.len() {
        if trim(cur).len() > 0 {
            seq![trim(cur)]
        } else {
            Seq::empty()
        }
    } else if crate::text::occurs_at(s, i, seq!['\n', '-', '-', '-', '\n']) {
        (if trim(cur).len() > 0 {
            seq![trim(cur)]
        } else {
            Seq::empty()
        }) + scripts_from(s, i + 5, Seq::empty())
    } else {
        scripts_from(s, i + 1, cur.push(s[i]))
    }
}

/// The scripts of a text file: the chunks between `\n---\n` lines, trimmed, the empty ones
/// dropped; an error when none is left.
pub fn split_scripts(text: &str) -> (r: Result<Vec<String>, LLMError>)
    ensures
        match r {
            Ok(v) => crate::utils::slashcmd::strings_view(v@) == scripts_from(text@, 0, Seq::empty()) && v@.len() > 0,
            Err(e) => scripts_from(text@, 0, Seq::empty()).len() == 0 && llm_error_text(e)
                == "scripted echo error: "@ + "Scripted echo file must be a JSON array of strings or a text file split by '\\n---\\n'."@,
        },
{
    let s = str_chars(text);
    let sep = str_chars("\n---\n");
    proof {
        reveal_strlit("\n---\n");
    }
    assert(sep@ =~= seq!['\n', '-', '-', '-', '\n']);
    let mut out: Vec<String> = Vec::new();
    let mut cur: Vec<char> = Vec::new();
    let mut i: usize = 0;
    while i < s.len()
        invariant
            i <= s@.len(),
            sep@ == seq!['\n', '-', '-', '-', '\n'],
            scripts_from(s@, 0, Seq::empty()) == crate::utils::slashcmd::strings_view(out@) + scripts_from(s@, i as int, cur@),
        decreases s@.len() - i,
    {
        if crate::text::matches_at(s.as_slice(), i, sep.as_slice()) {
            let t = trim_chars(cur.as_slice());
            let ghost o = out@;
            if t.len() > 0 {
                out.push(string_from_chars(t.as_slice()));
                assert(crate::utils::slashcmd::strings_view(out@) =~= crate::utils::slashcmd::strings_view(o).push(t@));
            }
            proof {
                assert(crate::utils::slashcmd::strings_view(out@) + scripts_from(s@, i + 5, Seq::empty()) =~= crate::utils::slashcmd::strings_view(o) + ((if t@.len() > 0 {
                    seq![t@]
                } else {
                    Seq::empty()
                }) + scripts_from(s@, i + 5, Seq::empty())));
            }
            cur = Vec::new();
            i = i + 5;
        } else {
            cur.push(s[i]);
            i = i + 1;
        }
    }
    let t = trim_chars(cur.as_slice());
    let ghost o = out@;
    if t.len() > 0 {
        out.push(string_from_chars(t.as_slice()));
        assert(crate::utils::slashcmd::strings_view(out@) =~= crate::utils::slashcmd::strings_view(o).push(t@));
    } else {
        assert(crate::utils::slashcmd::strings_view(out@) + Seq::<Seq<char>>::empty() =~= crate::utils::slashcmd::strings_view(out@));
    }
    if out.len() == 0 {
        return Err(LLMError::ScriptedEcho(owned("Scripted echo file must be a JSON array of strings or a text file split by '\\n---\\n'.")));
    }
    Ok(out)
}

/// The value of decimal digits.
pub open spec fn digits_value(ds: Seq<char>) -> int
    decreases ds.len(),
{
    if ds.len() == 0 {
        0
    } else {
        digits_value(ds.drop_last()) * 10 + (ds.last() as u32 - '0' as u32)
    }
}

/// Whether every character is an ASCII digit.
pub open spec fn all_digits(ds: Seq<char>) -> bool {
    forall|i: int| 0 <= i < ds.len() ==> '0' <= #[trigger] ds[i] <= '9'
}

/// `str::parse::<i64>`: an optional `+` or `-`, then at least one digit, within range.
pub open spec fn parse_i64_spec(s: Seq<char>) -> Option<i64> {
    let neg = s.len() > 0 && s[0] == '-';
    let ds = if s.len() > 0 && (s[0] == '-' || s[0] == '+') {
        s.drop_first()
    } else {
        s
    };
    let v = if neg {
        -digits_value(ds)
    } else {
        digits_value(ds)
    };
    if ds.len() > 0 && all_digits(ds) && i64::MIN <= v <= i64::MAX {
        Some(v as i64)
    } else {
        None
    }
}

pub(crate) proof fn lemma_digits_nonneg(ds: Seq<char>)
    requires
        all_digits(ds),
    ensures
        digits_value(ds) >= 0,
    decreases ds.len(),
{
    if ds.len() > 0 {
        assert(all_digits(ds.drop_last())) by {
            assert forall|i: int| 0 <= i < ds.drop_last().len() implies '0' <= #[trigger] ds.drop_last()[i] <= '9' by {
                assert(ds.drop_last()[i] == ds[i]);
            }
        }
        lemma_digits_nonneg(ds.drop_last());
    }
}

/// Parses a whole number the way `str::parse::<i64>` does.
pub fn parse_i64(s: &str) -> (r: Option<i64>)
    ensures
        r == parse_i64_spec(s@),
{
    let c = str_chars(s);
    let neg = c.len() > 0 && c[0] == '-';
    let start: usize = if c.len() > 0 && (c[0] == '-' || c[0] == '+') {
        1
    } else {
        0
    };
    let ghost ds = if c@.len() > 0 && (c@[0] == '-' || c@[0] == '+') {
        c@.drop_first()
    } else {
        c@
    };
    assert(ds =~= c@.skip(start as int));
    if start >= c.len() {
        return None;
    }
    let mut acc: i128 = 0;
    let mut i = start;
    while i < c.len()
        invariant
            start <= i <= c@.len(),
            c@ == s@,
            start == 0 || start == 1,
            ds == (if c@.len() > 0 && (c@[0] == '-' || c@[0] == '+') {
                c@.drop_first()
            } else {
                c@
            }),
            ds == c@.skip(start as int),
            all_digits(ds.take(i - start)),
            acc == digits_value(ds.take(i - start)),
            0 <= acc <= 0x8000_0000_0000_0000,
        decreases c@.len() - i,
    {
        let ch = c[i];
        if !('0' <= ch && ch <= '9') {
            assert(ds[i - start] == ch);
            return None;
        }
        let d = (ch as u32 - '0' as u32) as i128;
        proof {
            assert(ds.take(i + 1 - start).drop_last() =~= ds.take(i - start));
            assert(ds.take(i + 1 - start).last() == ch);
        }
        if acc > (0x8000_0000_0000_0000 - d) / 10 {
            proof {
                assert(all_digits(ds.take(i + 1 - start))) by {
                    assert forall|k: int| 0 <= k < ds.take(i + 1 - start).len() implies '0' <= #[trigger] ds.take(i + 1 - start)[k] <= '9' by {
                        if k < i - start {
                            assert(ds.take(i + 1 - start)[k] == ds.take(i - start)[k]);
                        }
                    }
                }
                assert(digits_value(ds.take(i + 1 - start)) > 0x8000_0000_0000_0000) by (nonlinear_arith)
                    requires
                        digits_value(ds.take(i + 1 - start)) == acc * 10 + d,
                        acc > (0x8000_0000_0000_0000 - d) / 10,
                        0 <= d <= 9,
                ;
                lemma_digits_grow(ds, (i + 1 - start) as int);
            }
            return None;
        }
        acc = acc * 10 + d;
        i = i + 1;
        proof {
            assert forall|k: int| 0 <= k < ds.take(i - start).len() implies '0' <= #[trigger] ds.take(i - start)[k] <= '9' by {
                if k < i - 1 - start {
                    assert(ds.take(i - start)[k] == ds.take(i - 1 - start)[k]);
                }
            }
        }
    }
    assert(ds.take(c@.len() - start) =~= ds);
    if neg {
        Some((-acc) as i64)
    } else if acc > 0x7fff_ffff_ffff_ffff {
        None
    } else {
        Some(acc as i64)
    }
}

pub(crate) proof fn lemma_digits_grow(ds: Seq<char>, n: int)
    requires
        0 <= n <= ds.len(),
        all_digits(ds.take(n)),
    ensures
        all_digits(ds) ==> digits_value(ds) >= digits_value(ds.take(n)),
    decreases ds.len() - n,
{
    if n < ds.len() && all_digits(ds) {
        assert(all_digits(ds.take(n + 1))) by {
            assert forall|k: int| 0 <= k < ds.take(n + 1).len() implies '0' <= #[trigger] ds.take(n + 1)[k] <= '9' by {
                assert(ds.take(n + 1)[k] == ds[k]);
            }
        }
        lemma_digits_grow(ds, n + 1);
        assert(ds.take(n + 1).drop_last() =~= ds.take(n));
        lemma_digits_nonneg(ds.take(n));
    }
    if n == ds.len() {
        assert(ds.take(n) =~= ds);
    }
}

/// The message for a value that is not a whole number.
pub open spec fn int_env_error(value: Seq<char>) -> Seq<char> {
    "invalid literal for int() with base 10: '"@ + value + "'"@
}

/// A whole number from an environment variable, or the error for one that is not.
pub fn parse_env_i64(value: &str) -> (r: Result<i64, LLMError>)
    ensures
        match parse_i64_spec(value@) {
            Some(v) => r == Ok::<i64, LLMError>(v),
            None => r is Err && llm_error_text(r->Err_0) == int_env_error(value@) && r->Err_0 is EnvVar,
        },
{
    match parse_i64(value) {
        Some(v) => Ok(v),
        None => {
            let mut m = owned("invalid literal for int() with base 10: '");
            push_str(&mut m, value);
            push_str(&mut m, "'");
            Err(LLMError::EnvVar(m))
        },
    }
}

/// Whether a comma-separated list names a capability: some item, trimmed and lower-cased, is its
/// name.
pub open spec fn lists_capability(caps: Seq<char>, c: ModelCapability) -> bool {
    let items = crate::text::split_char(caps, ',');
    exists|i: int| 0 <= i < items.len() && unicode_lowercase(trim(#[trigger] items[i])) == crate::soul::capability_name_spec(c)
}

fn names_capability(items: &Vec<Vec<char>>, c: ModelCapability) -> (r: bool)
    ensures
        r == exists|i: int| 0 <= i < items@.len() && unicode_lowercase(trim(#[trigger] crate::text::vv(items@)[i])) == crate::soul::capability_name_spec(c),
{
    let name = crate::soul::model_capability_name(&c);
    let mut i: usize = 0;
    while i < items.len()
        invariant
            i <= items@.len(),
            name@ == crate::soul::capability_name_spec(c),
            forall|k: int| 0 <= k < i ==> unicode_lowercase(trim(#[trigger] crate::text::vv(items@)[k])) != crate::soul::capability_name_spec(c),
        decreases items@.len() - i,
    {
        let t = trim_chars(items[i].as_slice());
        let ts = string_from_chars(t.as_slice());
        let lo = to_lowercase(ts.as_str());
        assert(crate::text::vv(items@)[i as int] == items@[i as int]@);
        if crate::text::str_eq(lo.as_str(), name.as_str()) {
            return true;
        }
        i = i + 1;
    }
    false
}

/// The capabilities a comma-separated list names, each once, in the order image, video,
/// thinking, always thinking; unknown names are ignored.
pub fn parse_capabilities(caps: &str) -> (r: Vec<ModelCapability>)
    ensures
        forall|c: ModelCapability| #[trigger] r@.contains(c) <==> lists_capability(caps@, c),
        r@.no_duplicates(),
{
    let items = crate::text::split_chars(str_chars(caps).as_slice(), ',');
    let b1 = names_capability(&items, ModelCapability::ImageIn);
    let b2 = names_capability(&items, ModelCapability::VideoIn);
    let b3 = names_capability(&items, ModelCapability::Thinking);
    let b4 = names_capability(&items, ModelCapability::AlwaysThinking);
    let mut out: Vec<ModelCapability> = Vec::new();
    if b1 {
        out.push(ModelCapability::ImageIn);
    }
    if b2 {
        out.push(ModelCapability::VideoIn);
    }
    if b3 {
        out.push(ModelCapability::Thinking);
    }
    if b4 {
        out.push(ModelCapability::AlwaysThinking);
    }
    proof {
        let s1: Seq<ModelCapability> = if b1 { seq![ModelCapability::ImageIn] } else { Seq::empty() };
        let s2: Seq<ModelCapability> = if b2 { seq![ModelCapability::VideoIn] } else { Seq::empty() };
        let s3: Seq<ModelCapability> = if b3 { seq![ModelCapability::Thinking] } else { Seq::empty() };
        let s4: Seq<ModelCapability> = if b4 { seq![ModelCapability::AlwaysThinking] } else { Seq::empty() };
        assert(out@ =~= s1 + s2 + s3 + s4);
        assert forall|c: ModelCapability| #[trigger] out@.contains(c) <==> lists_capability(caps@, c) by {
            if out@.contains(c) {
                let k = choose|k: int| 0 <= k < out@.len() && out@[k] == c;
                assert((s1 + s2 + s3 + s4)[k] == c);
            }
            match c {
                ModelCapability::ImageIn => {
                    if b1 {
                        assert(out@[0] == c);
                    }
                },
                ModelCapability::VideoIn => {
                    if b2 {
                        assert(out@[s1.len() as int] == c);
                    }
                },
                ModelCapability::Thinking => {
                    if b3 {
                        assert(out@[(s1.len() + s2.len()) as int] == c);
                    }
                },
                ModelCapability::AlwaysThinking => {
                    if b4 {
                        assert(out@[(s1.len() + s2.len() + s3.len()) as int] == c);
                    }
                },
            }
        }
    }
    out
}

/// The values of the environment variables that override a provider's and model's settings.
pub struct EnvValues {
    pub kimi_base_url: Option<String>,
    pub kimi_api_key: Option<String>,
    pub kimi_model_name: Option<String>,
    pub kimi_model_max_context_size: Option<String>,
    pub kimi_model_capabilities: Option<String>,
    pub openai_base_url: Option<String>,
    pub openai_api_key: Option<String>,
}

/// A variable that is set and not empty.
pub open spec fn set_value(o: Option<String>) -> bool {
    o matches Some(v) && v@.len() > 0
}

/// The view of a list of name and value pairs.
pub open spec fn pairs_view(v: Seq<(String, String)>) -> Seq<(Seq<char>, Seq<char>)> {
    v.map_values(|p: (String, String)| (p.0@, p.1@))
}

fn push_pair(v: &mut Vec<(String, String)>, k: &str, val: &str)
    ensures
        pairs_view(final(v)@) == pairs_view(old(v)@).push((k@, val@)),
{
    let ghost v0 = v@;
    v.push((owned(k), owned(val)));
    assert(pairs_view(v@) =~= pairs_view(v0).push((k@, val@)));
}

/// The Kimi settings the environment gives, in the order they are applied, each with the value
/// reported (the key hidden).
pub open spec fn kimi_applied(env: EnvValues) -> Seq<(Seq<char>, Seq<char>)> {
    (if set_value(env.kimi_base_url) { seq![("KIMI_BASE_URL"@, env.kimi_base_url->Some_0@)] } else { Seq::empty() })
        + (if set_value(env.kimi_api_key) { seq![("KIMI_API_KEY"@, "******"@)] } else { Seq::empty() })
        + (if set_value(env.kimi_model_name) { seq![("KIMI_MODEL_NAME"@, env.kimi_model_name->Some_0@)] } else { Seq::empty() })
        + (if set_value(env.kimi_model_max_context_size) { seq![("KIMI_MODEL_MAX_CONTEXT_SIZE"@, env.kimi_model_max_context_size->Some_0@)] } else { Seq::empty() })
        + (if set_value(env.kimi_model_capabilities) { seq![("KIMI_MODEL_CAPABILITIES"@, env.kimi_model_capabilities->Some_0@)] } else { Seq::empty() })
}

/// Overrides a provider's and a model's settings from the environment: for Kimi its base URL,
/// key, model name, context size and capabilities; for OpenAI its base URL and key. Empty
/// values are ignored. Returns what was applied (Kimi only); a context size that is not a whole
/// number is an error, after the settings before it were applied.
pub fn augment_provider_with_env_vars(provider: &mut LLMProvider, model: &mut LLMModel, env: &EnvValues) -> (r: Result<
    Vec<(String, String)>,
    LLMError,
>)
    ensures
        final(provider).provider_type == old(provider).provider_type,
        final(provider).env == old(provider).env,
        final(provider).custom_headers == old(provider).custom_headers,
        final(provider).base_url@ == if old(provider).provider_type == ProviderType::Kimi && set_value(env.kimi_base_url) {
            env.kimi_base_url->Some_0@
        } else if (old(provider).provider_type == ProviderType::OpenaiLegacy || old(provider).provider_type == ProviderType::OpenaiResponses)
            && set_value(env.openai_base_url) {
            env.openai_base_url->Some_0@
        } else {
            old(provider).base_url@
        },
        final(provider).api_key@ == if old(provider).provider_type == ProviderType::Kimi && set_value(env.kimi_api_key) {
            env.kimi_api_key->Some_0@
        } else if (old(provider).provider_type == ProviderType::OpenaiLegacy || old(provider).provider_type == ProviderType::OpenaiResponses)
            && set_value(env.openai_api_key) {
            env.openai_api_key->Some_0@
        } else {
            old(provider).api_key@
        },
        final(model).model@ == if old(provider).provider_type == ProviderType::Kimi && set_value(env.kimi_model_name) {
            env.kimi_model_name->Some_0@
        } else {
            old(model).model@
        },
        final(model).provider@ == old(model).provider@,
        ({
            let kimi = old(provider).provider_type == ProviderType::Kimi;
            let bad_size = kimi && set_value(env.kimi_model_max_context_size) && parse_i64_spec(env.kimi_model_max_context_size->Some_0@) is None;
            if bad_size {
                &&& r is Err
                &&& r->Err_0 is EnvVar
                &&& llm_error_text(r->Err_0) == int_env_error(env.kimi_model_max_context_size->Some_0@)
                &&& final(model).max_context_size == old(model).max_context_size
            } else {
                &&& r is Ok
                &&& pairs_view(r->Ok_0@) == if kimi { kimi_applied(*env) } else { Seq::empty() }
                &&& final(model).max_context_size == if kimi && set_value(env.kimi_model_max_context_size) {
                    parse_i64_spec(env.kimi_model_max_context_size->Some_0@)->Some_0
                } else {
                    old(model).max_context_size
                }
                &&& (kimi && set_value(env.kimi_model_capabilities)) ==> (final(model).capabilities matches Some(cs) && forall|c: ModelCapability| #[trigger] cs@.contains(c) <==> lists_capability(env.kimi_model_capabilities->Some_0@, c))
                &&& !(kimi && set_value(env.kimi_model_capabilities)) ==> final(model).capabilities == old(model).capabilities
            }
        }),
{
    let mut applied: Vec<(String, String)> = Vec::new();
    match provider.provider_type {
        ProviderType::Kimi => {
            let ghost a0 = pairs_view(applied@);
            if let Some(v) = &env.kimi_base_url {
                if !v.as_str().is_empty() {
                    provider.base_url = v.clone();
                    push_pair(&mut applied, "KIMI_BASE_URL", v.as_str());
                }
            }
            if let Some(v) = &env.kimi_api_key {
                if !v.as_str().is_empty() {
                    provider.api_key = v.clone();
                    push_pair(&mut applied, "KIMI_API_KEY", "******");
                }
            }
            if let Some(v) = &env.kimi_model_name {
                if !v.as_str().is_empty() {
                    model.model = v.clone();
                    push_pair(&mut applied, "KIMI_MODEL_NAME", v.as_str());
                }
            }
            if let Some(v) = &env.kimi_model_max_context_size {
                if !v.as_str().is_empty() {
                    let value = match parse_env_i64(v.as_str()) {
                        Ok(x) => x,
                        Err(e) => {
                            return Err(e);
                        },
                    };
                    model.max_context_size = value;
                    push_pair(&mut applied, "KIMI_MODEL_MAX_CONTEXT_SIZE", v.as_str());
                }
            }
            if let Some(v) = &env.kimi_model_capabilities {
                if !v.as_str().is_empty() {
                    model.capabilities = Some(parse_capabilities(v.as_str()));
                    push_pair(&mut applied, "KIMI_MODEL_CAPABILITIES", v.as_str());
                }
            }
            proof {
                assert(pairs_view(applied@) =~= kimi_applied(*env));
            }
        },
        ProviderType::OpenaiLegacy | ProviderType::OpenaiResponses => {
            if let Some(v) = &env.openai_base_url {
                if !v.as_str().is_empty() {
                    provider.base_url = v.clone();
                }
            }
            if let Some(v) = &env.openai_api_key {
                if !v.as_str().is_empty() {
                    provider.api_key = v.clone();
                }
            }
            assert(pairs_view(applied@) =~= Seq::empty());
        },
        _ => {
            assert(pairs_view(applied@) =~= Seq::empty());
        },
    }
    Ok(applied)
}

/// Whether the program has a chat provider of this kind: Kimi, and the two echo providers.
pub open spec fn supported_provider(t: ProviderType) -> bool {
    t == ProviderType::Kimi || t == ProviderType::Echo || t == ProviderType::ScriptedEcho
}

/// What a chat model is set up with: its capabilities, its thinking setting, its window, and
/// copies of the model's and the provider's settings.
pub struct LlmPlan {
    pub capabilities: Vec<ModelCapability>,
    pub thinking: ThinkingChoice,
    pub max_context_size: i64,
    pub model_config: LLMModel,
    pub provider_config: LLMProvider,
}

/// Decides how a model is set up before its provider is built: none when the provider cannot
/// be used (no endpoint or model name) or is of a kind the program has no provider for;
/// otherwise the model's capabilities, the thinking setting they and the request give, and its
/// context window.
pub fn plan_llm(provider: &LLMProvider, model: &LLMModel, thinking: Option<bool>) -> (r: Option<LlmPlan>)
    ensures
        !(provider_usable(*provider, *model) && supported_provider(provider.provider_type)) ==> r is None,
        provider_usable(*provider, *model) && supported_provider(provider.provider_type) ==> (r matches Some(p) && {
            &&& forall|c: ModelCapability| #[trigger] p.capabilities@.contains(c) <==> has_capability(*model, c)
            &&& p.capabilities@.no_duplicates()
            &&& p.thinking == thinking_choice_spec(p.capabilities@, thinking)
            &&& p.max_context_size == model.max_context_size
            &&& crate::kimi_cli::model_view(p.model_config) == crate::kimi_cli::model_view(*model)
            &&& crate::kimi_cli::provider_view(p.provider_config) == crate::kimi_cli::provider_view(*provider)
        }),
{
    if !is_provider_usable(provider, model) {
        return None;
    }
    let t = provider.provider_type;
    if !(t == ProviderType::Kimi || t == ProviderType::Echo || t == ProviderType::ScriptedEcho) {
        return None;
    }
    let capabilities = derive_model_capabilities(model);
    let choice = thinking_choice(&capabilities, thinking);
    Some(LlmPlan {
        capabilities,
        thinking: choice,
        max_context_size: model.max_context_size,
        model_config: crate::kimi_cli::copy_model(model),
        provider_config: crate::kimi_cli::copy_provider(provider),
    })
}

} // verus!
