//! Model discovery: request metadata and the normalization of the model
//! configurations the server returns.

use vstd::prelude::*;
use indexmap::IndexMap;
use crate::constants::{DEVIN_EXTENSION_VERSION, DEVIN_IDE_VERSION};
use crate::index_map::{lemma_slot_index, slot_entries, slot_map_get, slot_map_insert, slot_map_new};
use crate::order::{chars_less, lemma_seq_less_total, lemma_seq_less_transitive, seq_less};
use crate::proto::{ClientModelConfig, Metadata};
use crate::text::{chars_of, string_from_chars, trim, trim_chars};
use crate::types::{DevinInput, DevinModel};

verus! {

pub const DEFAULT_CONTEXT_WINDOW: i32 = 200000;
pub const DEFAULT_MAX_TOKENS: i32 = 64000;

/// What `str::to_lowercase` makes of `s` (Unicode lowercase mapping).
pub uninterp spec fn lowercase(s: Seq<char>) -> Seq<char>;

/// `str::to_lowercase`; its result is named by `lowercase`.
#[verifier::external_body]
fn to_lowercase(s: &str) -> (r: String)
    ensures
        r@ == lowercase(s@),
{
    s.to_lowercase()
}

/// The request metadata: fixed client identity plus the API key and JWT.
pub fn metadata(api_key: &str, user_jwt: &str) -> (r: Metadata)
    ensures
        r.api_key@ == api_key@,
        r.user_jwt@ == user_jwt@,
        r.ide_name@ == "windsurf"@,
        r.ide_version@ == DEVIN_IDE_VERSION@,
        r.extension_name@ == "windsurf"@,
        r.extension_version@ == DEVIN_EXTENSION_VERSION@,
        r.locale@ == "en"@,
{
    Metadata {
        api_key: String::from_str(api_key),
        user_jwt: String::from_str(user_jwt),
        ide_name: String::from_str("windsurf"),
        ide_version: String::from_str(DEVIN_IDE_VERSION),
        extension_name: String::from_str("windsurf"),
        extension_version: String::from_str(DEVIN_EXTENSION_VERSION),
        locale: String::from_str("en"),
    }
}

/// ASCII letters, digits and `_`.
pub open spec fn is_word_char(c: char) -> bool {
    ('0' <= c && c <= '9') || ('a' <= c && c <= 'z') || ('A' <= c && c <= 'Z') || c == '_'
}

pub fn is_ascii_word(character: char) -> (r: bool)
    ensures
        r == is_word_char(character),
{
    ('0' <= character && character <= '9') || ('a' <= character && character <= 'z') || ('A' <= character
        && character <= 'Z') || character == '_'
}

/// `phrase` occurs in `value` at position `p`.
pub open spec fn occurs_at(value: Seq<char>, phrase: Seq<char>, p: int) -> bool {
    0 <= p && p + phrase.len() <= value.len() && value.subrange(p, p + phrase.len()) == phrase
}

/// No word character touches the `len` characters at `p`.
pub open spec fn bounded_at(value: Seq<char>, len: int, p: int) -> bool {
    &&& (p == 0 || !is_word_char(value[p - 1]))
    &&& (p + len == value.len() || !is_word_char(value[p + len]))
}

/// Scans `value` from `p` for the matches of `phrase` that `match_indices`
/// yields (left to right, not overlapping), and holds when one of them is
/// bounded by non-word characters.
pub open spec fn phrase_scan(value: Seq<char>, phrase: Seq<char>, p: int) -> bool
    decreases value.len() + 1 - p,
{
    if p > value.len() || p < 0 {
        false
    } else if occurs_at(value, phrase, p) {
        bounded_at(value, phrase.len() as int, p) || phrase_scan(
            value,
            phrase,
            p + if phrase.len() == 0 {
                1
            } else {
                phrase.len() as int
            },
        )
    } else {
        phrase_scan(value, phrase, p + 1)
    }
}

fn occurs_at_exec(value: &Vec<char>, phrase: &Vec<char>, p: usize) -> (r: bool)
    requires
        p <= value@.len(),
    ensures
        r == occurs_at(value@, phrase@, p as int),
{
    if phrase.len() > value.len() - p {
        return false;
    }
    let mut i: usize = 0;
    let n = value.len();
    while i < phrase.len()
        invariant
            n == value@.len(),
            p + phrase@.len() <= value@.len(),
            i <= phrase@.len(),
            forall|j: int| 0 <= j < i ==> value@[p + j] == phrase@[j],
        decreases phrase@.len() - i,
    {
        if value[p + i] != phrase[i] {
            assert(value@.subrange(p as int, p + phrase@.len())[i as int] != phrase@[i as int]);
            return false;
        }
        i = i + 1;
    }
    assert(value@.subrange(p as int, p + phrase@.len()) =~= phrase@);
    true
}

/// Whether `phrase` occurs in `value` with no ASCII word character right
/// before or right after it, among the matches `match_indices` yields.
pub fn contains_ascii_word_phrase(value: &str, phrase: &str) -> (r: bool)
    ensures
        r == phrase_scan(value@, phrase@, 0),
{
    let v = chars_of(value);
    let ph = chars_of(phrase);
    let n = v.len();
    let mut p: usize = 0;
    while p < n
        invariant
            n == v@.len(),
            v@ == value@,
            ph@ == phrase@,
            p <= n,
            phrase_scan(value@, phrase@, 0) == phrase_scan(value@, phrase@, p as int),
        decreases n - p,
    {
        if occurs_at_exec(&v, &ph, p) {
            let before_ok = p == 0 || !is_ascii_word(v[p - 1]);
            let after_ok = p + ph.len() == n || !is_ascii_word(v[p + ph.len()]);
            if before_ok && after_ok {
                return true;
            }
            p = if ph.len() == 0 {
                p + 1
            } else {
                p + ph.len()
            };
        } else {
            p = p + 1;
        }
    }
    proof {
        assert(phrase_scan(value@, phrase@, n + 1) == false);
        if ph@.len() == 0 {
            assert(value@.subrange(n as int, n as int) =~= phrase@);
        }
    }
    ph.len() == 0 && (n == 0 || !is_ascii_word(v[n - 1]))
}

/// `term` occurs somewhere in `value` (`str::contains`).
pub open spec fn contains_seq(value: Seq<char>, term: Seq<char>) -> bool {
    exists|p: int| occurs_at(value, term, p)
}

fn contains_chars(value: &Vec<char>, term: &str) -> (r: bool)
    ensures
        r == contains_seq(value@, term@),
{
    let t = chars_of(term);
    if t.len() == 0 {
        assert(value@.subrange(0, 0) =~= term@);
        assert(occurs_at(value@, term@, 0));
        return true;
    }
    let n = value.len();
    let mut p: usize = 0;
    while p < n
        invariant
            n == value@.len(),
            t@ == term@,
            t@.len() > 0,
            p <= n,
            forall|q: int| 0 <= q < p ==> !occurs_at(value@, term@, q),
        decreases n - p,
    {
        if occurs_at_exec(value, &t, p) {
            return true;
        }
        p = p + 1;
    }
    assert forall|q: int| !occurs_at(value@, term@, q) by {
        if 0 <= q && q < p {
        }
    }
    false
}

/// The configuration declares thinking support among its model features.
pub open spec fn declares_thinking(c: ClientModelConfig) -> bool {
    match c.model_info {
        Some(info) => match info.model_features {
            Some(f) => f.supports_thinking,
            None => false,
        },
        None => false,
    }
}

/// The lowercased label names a reasoning effort or thinking mode.
pub open spec fn label_suggests_thinking(label: Seq<char>) -> bool {
    ||| contains_seq(label, "think"@)
    ||| contains_seq(label, "thinking"@)
    ||| contains_seq(label, "minimal"@)
    ||| contains_seq(label, "high"@)
    ||| contains_seq(label, "medium"@)
    ||| contains_seq(label, "low"@)
    ||| contains_seq(label, "xhigh"@)
    ||| contains_seq(label, "max"@)
    ||| contains_seq(label, "reasoning"@)
}

/// A model reasons unless its lowercased label says "no thinking" as a
/// bounded phrase; otherwise when its features or its label say so.
pub open spec fn supports_thinking_spec(c: ClientModelConfig) -> bool {
    let label = lowercase(c.label@);
    if phrase_scan(label, "no thinking"@, 0) {
        false
    } else {
        declares_thinking(c) || label_suggests_thinking(label)
    }
}

pub fn supports_thinking(config: &ClientModelConfig) -> (r: bool)
    ensures
        r == supports_thinking_spec(*config),
{
    let label = to_lowercase(config.label.as_str());
    if contains_ascii_word_phrase(label.as_str(), "no thinking") {
        return false;
    }
    let declared = match &config.model_info {
        Some(info) => match &info.model_features {
            Some(f) => f.supports_thinking,
            None => false,
        },
        None => false,
    };
    let l = chars_of(label.as_str());
    declared || contains_chars(&l, "think") || contains_chars(&l, "thinking") || contains_chars(&l, "minimal")
        || contains_chars(&l, "high") || contains_chars(&l, "medium") || contains_chars(&l, "low")
        || contains_chars(&l, "xhigh") || contains_chars(&l, "max") || contains_chars(&l, "reasoning")
}

/// A configuration that yields a model: enabled, with a non-blank id.
pub open spec fn eligible(c: ClientModelConfig) -> bool {
    !c.disabled && trim(c.model_uid@).len() > 0
}

/// The id of the model a configuration yields.
pub open spec fn model_id(c: ClientModelConfig) -> Seq<char> {
    trim(c.model_uid@)
}

/// `m` is the model that configuration `c` yields for `base_url`.
pub open spec fn model_matches(m: DevinModel, c: ClientModelConfig, base_url: Seq<char>) -> bool {
    let label = trim(c.label@);
    &&& m.id@ == model_id(c)
    &&& m.name@ == (if label.len() == 0 {
        model_id(c)
    } else {
        label
    })
    &&& m.provider@ == "devin"@
    &&& m.base_url@ == base_url
    &&& m.input@ == (if c.supports_images {
        seq![DevinInput::Text, DevinInput::Image]
    } else {
        seq![DevinInput::Text]
    })
    &&& m.supports_tools
    &&& m.reasoning == supports_thinking_spec(c)
    &&& m.context_window == (if c.max_tokens > 0 {
        c.max_tokens
    } else {
        DEFAULT_CONTEXT_WINDOW
    })
    &&& m.max_tokens == (if c.max_tokens > 0 && c.max_tokens < DEFAULT_MAX_TOKENS {
        c.max_tokens
    } else {
        DEFAULT_MAX_TOKENS
    })
}

/// Configuration `j` is the last of the first `n` that yields a model with
/// id `id`.
pub open spec fn last_with_id(configs: Seq<ClientModelConfig>, n: int, id: Seq<char>, j: int) -> bool {
    &&& 0 <= j < n <= configs.len()
    &&& eligible(configs[j])
    &&& model_id(configs[j]) == id
    &&& forall|q: int| j < q < n ==> !(eligible(configs[q]) && model_id(configs[q]) == id)
}

/// `m` is the model of the last of the first `n` configurations with its id.
pub open spec fn model_from_last(configs: Seq<ClientModelConfig>, n: int, base_url: Seq<char>, m: DevinModel) -> bool {
    exists|j: int| last_with_id(configs, n, m.id@, j) && model_matches(m, configs[j], base_url)
}

fn model_from_config(config: &ClientModelConfig, id: &Vec<char>, base_url: &str) -> (m: DevinModel)
    requires
        id@ == model_id(*config),
    ensures
        model_matches(m, *config, base_url@),
{
    let label = trim_chars(&chars_of(config.label.as_str()));
    let name = if label.len() == 0 {
        string_from_chars(id)
    } else {
        string_from_chars(&label)
    };
    let mut input: Vec<DevinInput> = Vec::new();
    input.push(DevinInput::Text);
    if config.supports_images {
        input.push(DevinInput::Image);
    }
    proof {
        if config.supports_images {
            assert(input@ =~= seq![DevinInput::Text, DevinInput::Image]);
        } else {
            assert(input@ =~= seq![DevinInput::Text]);
        }
    }
    DevinModel {
        id: string_from_chars(id),
        name,
        provider: "devin",
        base_url: String::from_str(base_url),
        input,
        supports_tools: true,
        reasoning: supports_thinking(config),
        context_window: if config.max_tokens > 0 {
            config.max_tokens
        } else {
            DEFAULT_CONTEXT_WINDOW
        },
        max_tokens: if config.max_tokens > 0 && config.max_tokens < DEFAULT_MAX_TOKENS {
            config.max_tokens
        } else {
            DEFAULT_MAX_TOKENS
        },
    }
}

proof fn lemma_model_from_last_extends(
    configs: Seq<ClientModelConfig>,
    n: int,
    base_url: Seq<char>,
    m: DevinModel,
)
    requires
        0 <= n < configs.len(),
        model_from_last(configs, n, base_url, m),
        !(eligible(configs[n]) && model_id(configs[n]) == m.id@),
    ensures
        model_from_last(configs, n + 1, base_url, m),
{
    let j = choose|j: int| last_with_id(configs, n, m.id@, j) && model_matches(m, configs[j], base_url);
    assert(last_with_id(configs, n + 1, m.id@, j));
}

/// The ids of a model list are distinct.
pub open spec fn model_ids_distinct(ms: Seq<DevinModel>) -> bool {
    forall|i: int, j: int| 0 <= i < j < ms.len() ==> ms[i].id@ != ms[j].id@
}

/// Every model comes from the last configuration with its id.
pub open spec fn all_from_last(configs: Seq<ClientModelConfig>, n: int, base_url: Seq<char>, ms: Seq<DevinModel>) -> bool {
    forall|k: int| 0 <= k < ms.len() ==> model_from_last(configs, n, base_url, #[trigger] ms[k])
}

/// Some model has the id of configuration `j`.
pub open spec fn has_model_for(configs: Seq<ClientModelConfig>, ms: Seq<DevinModel>, j: int) -> bool {
    exists|k: int| 0 <= k < ms.len() && ms[k].id@ == model_id(configs[j])
}

/// Every eligible configuration among the first `n` has a model.
pub open spec fn covers(configs: Seq<ClientModelConfig>, n: int, ms: Seq<DevinModel>) -> bool {
    forall|j: int| 0 <= j < n && eligible(#[trigger] configs[j]) ==> has_model_for(configs, ms, j)
}

/// The id index of a model list: each id with its position.
pub open spec fn id_positions(ms: Seq<DevinModel>) -> Seq<(Seq<char>, usize)> {
    Seq::new(ms.len(), |k: int| (ms[k].id@, k as usize))
}

/// The state of the model collection after the first `n` configurations.
pub open spec fn collected(configs: Seq<ClientModelConfig>, n: int, base_url: Seq<char>, ms: Seq<DevinModel>) -> bool {
    &&& model_ids_distinct(ms)
    &&& all_from_last(configs, n, base_url, ms)
    &&& covers(configs, n, ms)
}

/// Keeps the enabled models with a non-blank id, one per id (the last
/// configuration with that id wins), ordered by id.
pub fn normalize_models(configs: &Vec<ClientModelConfig>, base_url: &str) -> (r: Vec<DevinModel>)
    ensures
        forall|i: int, j: int| 0 <= i < j < r@.len() ==> seq_less(r@[i].id@, r@[j].id@),
        forall|k: int| 0 <= k < r@.len() ==> model_from_last(configs@, configs@.len() as int, base_url@, #[trigger] r@[k]),
        forall|j: int| 0 <= j < configs@.len() && eligible(#[trigger] configs@[j]) ==> exists|k: int|
            0 <= k < r@.len() && r@[k].id@ == model_id(configs@[j]),
{
    let models = collect_models(configs, base_url);
    let r = sort_models(models, Ghost(configs@), Ghost(base_url@));
    assert forall|j: int| 0 <= j < configs@.len() && eligible(#[trigger] configs@[j]) implies exists|k: int|
        0 <= k < r@.len() && r@[k].id@ == model_id(configs@[j]) by {
        assert(has_model_for(configs@, r@, j));
    }
    r
}

proof fn lemma_collect_skip(configs: Seq<ClientModelConfig>, i: int, base_url: Seq<char>, ms: Seq<DevinModel>)
    requires
        0 <= i < configs.len(),
        collected(configs, i, base_url, ms),
        !eligible(configs[i]),
    ensures
        collected(configs, i + 1, base_url, ms),
{
    assert forall|q: int| 0 <= q < ms.len() implies model_from_last(configs, i + 1, base_url, #[trigger] ms[q]) by {
        lemma_model_from_last_extends(configs, i, base_url, ms[q]);
    }
}

proof fn lemma_collect_replace(
    configs: Seq<ClientModelConfig>,
    i: int,
    base_url: Seq<char>,
    ms: Seq<DevinModel>,
    k: int,
    m: DevinModel,
)
    requires
        0 <= i < configs.len(),
        collected(configs, i, base_url, ms),
        eligible(configs[i]),
        0 <= k < ms.len(),
        ms[k].id@ == model_id(configs[i]),
        model_matches(m, configs[i], base_url),
    ensures
        collected(configs, i + 1, base_url, ms.update(k, m)),
        id_positions(ms.update(k, m)) == id_positions(ms),
{
    let ns = ms.update(k, m);
    assert(last_with_id(configs, i + 1, m.id@, i));
    assert forall|q: int| 0 <= q < ns.len() implies model_from_last(configs, i + 1, base_url, #[trigger] ns[q]) by {
        if q != k {
            assert(ms[q].id@ != ms[k].id@);
            lemma_model_from_last_extends(configs, i, base_url, ms[q]);
        }
    }
    assert forall|j: int| 0 <= j < i + 1 && eligible(#[trigger] configs[j]) implies has_model_for(configs, ns, j) by {
        if j < i {
            let q = choose|q: int| 0 <= q < ms.len() && ms[q].id@ == model_id(configs[j]);
            assert(ns[q].id@ == ms[q].id@);
        } else {
            assert(ns[k].id@ == model_id(configs[j]));
        }
    }
    assert(id_positions(ns) =~= id_positions(ms));
}

proof fn lemma_collect_push(configs: Seq<ClientModelConfig>, i: int, base_url: Seq<char>, ms: Seq<DevinModel>, m: DevinModel)
    requires
        0 <= i < configs.len(),
        collected(configs, i, base_url, ms),
        eligible(configs[i]),
        forall|q: int| 0 <= q < ms.len() ==> ms[q].id@ != model_id(configs[i]),
        model_matches(m, configs[i], base_url),
    ensures
        collected(configs, i + 1, base_url, ms.push(m)),
        id_positions(ms.push(m)) == id_positions(ms).push((m.id@, ms.len() as usize)),
{
    let ns = ms.push(m);
    assert(last_with_id(configs, i + 1, m.id@, i));
    assert forall|q: int| 0 <= q < ns.len() implies model_from_last(configs, i + 1, base_url, #[trigger] ns[q]) by {
        if q < ms.len() {
            assert(ns[q] == ms[q]);
            lemma_model_from_last_extends(configs, i, base_url, ms[q]);
        }
    }
    assert forall|j: int| 0 <= j < i + 1 && eligible(#[trigger] configs[j]) implies has_model_for(configs, ns, j) by {
        if j < i {
            let q = choose|q: int| 0 <= q < ms.len() && ms[q].id@ == model_id(configs[j]);
            assert(ns[q] == ms[q]);
        } else {
            assert(ns[ms.len() as int].id@ == model_id(configs[j]));
        }
    }
    assert(id_positions(ns) =~= id_positions(ms).push((m.id@, ms.len() as usize)));
}

fn collect_models(configs: &Vec<ClientModelConfig>, base_url: &str) -> (r: Vec<DevinModel>)
    ensures
        collected(configs@, configs@.len() as int, base_url@, r@),
{
    let mut slots: IndexMap<String, usize> = slot_map_new();
    let mut models: Vec<DevinModel> = Vec::new();
    let mut i: usize = 0;
    assert(id_positions(models@) =~= Seq::<(Seq<char>, usize)>::empty());
    while i < configs.len()
        invariant
            i <= configs@.len(),
            slot_entries(slots) == id_positions(models@),
            collected(configs@, i as int, base_url@, models@),
        decreases configs@.len() - i,
    {
        let config = &configs[i];
        let id = trim_chars(&chars_of(config.model_uid.as_str()));
        let ghost old_models = models@;
        if !config.disabled && id.len() > 0 {
            let model = model_from_config(config, &id, base_url);
            let key = string_from_chars(&id);
            let found = slot_map_get(&slots, key.as_str());
            proof {
                lemma_slot_index(id_positions(old_models), id@);
            }
            let count = models.len();
            match found {
                Some(k) => {
                    proof {
                        let p = crate::index_map::slot_index(id_positions(old_models), id@)->0;
                        assert(id_positions(old_models)[p].1 == p as usize);
                        assert(p < count);
                    }
                    models.set(k, model);
                    proof {
                        lemma_collect_replace(configs@, i as int, base_url@, old_models, k as int, models@[k as int]);
                    }
                },
                None => {
                    slot_map_insert(&mut slots, key, count);
                    models.push(model);
                    proof {
                        assert forall|q: int| 0 <= q < old_models.len() implies old_models[q].id@ != model_id(
                            configs@[i as int],
                        ) by {
                            assert(id_positions(old_models)[q].0 == old_models[q].id@);
                        }
                        lemma_collect_push(configs@, i as int, base_url@, old_models, models@.last());
                        assert(models@ =~= old_models.push(models@.last()));
                    }
                },
            }
        } else {
            proof {
                lemma_collect_skip(configs@, i as int, base_url@, models@);
            }
        }
        i = i + 1;
    }
    models
}

/// The state of the sort: `sorted` ascending by id, `remaining` still to
/// place, the ids of both distinct, and together covering every eligible
/// configuration.
pub open spec fn sorting(
    configs: Seq<ClientModelConfig>,
    base_url: Seq<char>,
    sorted: Seq<DevinModel>,
    remaining: Seq<DevinModel>,
) -> bool {
    let n = configs.len() as int;
    &&& model_ids_distinct(remaining)
    &&& forall|a: int, b: int| 0 <= a < sorted.len() && 0 <= b < remaining.len() ==> sorted[a].id@ != remaining[b].id@
    &&& forall|a: int, b: int| 0 <= a < b < sorted.len() ==> seq_less(sorted[a].id@, sorted[b].id@)
    &&& all_from_last(configs, n, base_url, remaining)
    &&& all_from_last(configs, n, base_url, sorted)
    &&& forall|j: int| 0 <= j < n && eligible(#[trigger] configs[j]) ==> has_model_for(configs, remaining, j)
        || has_model_for(configs, sorted, j)
}

proof fn lemma_sort_order(sorted: Seq<DevinModel>, remaining: Seq<DevinModel>, p: int)
    requires
        remaining.len() > 0,
        0 <= p <= sorted.len(),
        forall|a: int, b: int| 0 <= a < sorted.len() && 0 <= b < remaining.len() ==> sorted[a].id@ != remaining[b].id@,
        forall|a: int, b: int| 0 <= a < b < sorted.len() ==> seq_less(sorted[a].id@, sorted[b].id@),
        forall|q: int| 0 <= q < p ==> !seq_less(remaining.last().id@, #[trigger] sorted[q].id@),
        p < sorted.len() ==> seq_less(remaining.last().id@, sorted[p].id@),
    ensures
        ({
            let s = sorted.insert(p, remaining.last());
            forall|a: int, b: int| 0 <= a < b < s.len() ==> seq_less(s[a].id@, s[b].id@)
        }),
{
    let m = remaining.last();
    let last = remaining.len() - 1;
    let s = sorted.insert(p, m);
    assert forall|q: int| 0 <= q < p implies seq_less(#[trigger] sorted[q].id@, m.id@) by {
        assert(sorted[q].id@ != remaining[last].id@);
        lemma_seq_less_total(sorted[q].id@, m.id@);
    }
    assert forall|a: int, b: int| 0 <= a < b < s.len() implies seq_less(s[a].id@, s[b].id@) by {
        if b < p {
            assert(s[a] == sorted[a] && s[b] == sorted[b]);
        } else if b == p {
            assert(s[a] == sorted[a]);
        } else if a == p {
            assert(s[b] == sorted[b - 1]);
            if b - 1 > p {
                lemma_seq_less_transitive(m.id@, sorted[p].id@, sorted[b - 1].id@);
            }
        } else if a < p {
            assert(s[a] == sorted[a] && s[b] == sorted[b - 1]);
        } else {
            assert(s[a] == sorted[a - 1] && s[b] == sorted[b - 1]);
        }
    }
}

proof fn lemma_sort_disjoint(sorted: Seq<DevinModel>, remaining: Seq<DevinModel>, p: int)
    requires
        remaining.len() > 0,
        0 <= p <= sorted.len(),
        model_ids_distinct(remaining),
        forall|a: int, b: int| 0 <= a < sorted.len() && 0 <= b < remaining.len() ==> sorted[a].id@ != remaining[b].id@,
    ensures
        ({
            let s = sorted.insert(p, remaining.last());
            let r = remaining.drop_last();
            &&& model_ids_distinct(r)
            &&& forall|a: int, b: int| 0 <= a < s.len() && 0 <= b < r.len() ==> s[a].id@ != r[b].id@
        }),
{
    let s = sorted.insert(p, remaining.last());
    let r = remaining.drop_last();
    assert forall|a: int, b: int| 0 <= a < s.len() && 0 <= b < r.len() implies s[a].id@ != r[b].id@ by {
        assert(r[b] == remaining[b]);
        if a < p {
            assert(s[a] == sorted[a]);
        } else if a > p {
            assert(s[a] == sorted[a - 1]);
        }
    }
}

proof fn lemma_sort_sources(
    configs: Seq<ClientModelConfig>,
    base_url: Seq<char>,
    sorted: Seq<DevinModel>,
    remaining: Seq<DevinModel>,
    p: int,
)
    requires
        remaining.len() > 0,
        0 <= p <= sorted.len(),
        all_from_last(configs, configs.len() as int, base_url, remaining),
        all_from_last(configs, configs.len() as int, base_url, sorted),
    ensures
        all_from_last(configs, configs.len() as int, base_url, sorted.insert(p, remaining.last())),
        all_from_last(configs, configs.len() as int, base_url, remaining.drop_last()),
{
    let n = configs.len() as int;
    let s = sorted.insert(p, remaining.last());
    let r = remaining.drop_last();
    assert forall|k: int| 0 <= k < s.len() implies model_from_last(configs, n, base_url, #[trigger] s[k]) by {
        if k < p {
            assert(s[k] == sorted[k]);
        } else if k > p {
            assert(s[k] == sorted[k - 1]);
        } else {
            assert(s[k] == remaining[remaining.len() - 1]);
        }
    }
    assert forall|k: int| 0 <= k < r.len() implies model_from_last(configs, n, base_url, #[trigger] r[k]) by {
        assert(r[k] == remaining[k]);
    }
}

proof fn lemma_sort_cover(configs: Seq<ClientModelConfig>, sorted: Seq<DevinModel>, remaining: Seq<DevinModel>, p: int)
    requires
        remaining.len() > 0,
        0 <= p <= sorted.len(),
        forall|j: int| 0 <= j < configs.len() && eligible(#[trigger] configs[j]) ==> has_model_for(configs, remaining, j)
            || has_model_for(configs, sorted, j),
    ensures
        ({
            let s = sorted.insert(p, remaining.last());
            let r = remaining.drop_last();
            forall|j: int| 0 <= j < configs.len() && eligible(#[trigger] configs[j]) ==> has_model_for(configs, r, j)
                || has_model_for(configs, s, j)
        }),
{
    let m = remaining.last();
    let last = remaining.len() - 1;
    let s = sorted.insert(p, m);
    let r = remaining.drop_last();
    assert forall|j: int| 0 <= j < configs.len() && eligible(#[trigger] configs[j]) implies has_model_for(configs, r, j)
        || has_model_for(configs, s, j) by {
        if has_model_for(configs, remaining, j) {
            let k = choose|k: int| 0 <= k < remaining.len() && remaining[k].id@ == model_id(configs[j]);
            if k == last {
                assert(s[p] == m);
            } else {
                assert(r[k] == remaining[k]);
            }
        } else {
            let k = choose|k: int| 0 <= k < sorted.len() && sorted[k].id@ == model_id(configs[j]);
            if k < p {
                assert(s[k] == sorted[k]);
            } else {
                assert(s[k + 1] == sorted[k]);
            }
        }
    }
}

proof fn lemma_sort_step(
    configs: Seq<ClientModelConfig>,
    base_url: Seq<char>,
    sorted: Seq<DevinModel>,
    remaining: Seq<DevinModel>,
    p: int,
)
    requires
        sorting(configs, base_url, sorted, remaining),
        remaining.len() > 0,
        0 <= p <= sorted.len(),
        forall|q: int| 0 <= q < p ==> !seq_less(remaining.last().id@, #[trigger] sorted[q].id@),
        p < sorted.len() ==> seq_less(remaining.last().id@, sorted[p].id@),
    ensures
        sorting(configs, base_url, sorted.insert(p, remaining.last()), remaining.drop_last()),
{
    lemma_sort_order(sorted, remaining, p);
    lemma_sort_disjoint(sorted, remaining, p);
    lemma_sort_sources(configs, base_url, sorted, remaining, p);
    lemma_sort_cover(configs, sorted, remaining, p);
}

fn sort_models(models: Vec<DevinModel>, Ghost(configs): Ghost<Seq<ClientModelConfig>>, Ghost(base_url): Ghost<Seq<char>>) -> (r: Vec<DevinModel>)
    requires
        collected(configs, configs.len() as int, base_url, models@),
    ensures
        forall|i: int, j: int| 0 <= i < j < r@.len() ==> seq_less(r@[i].id@, r@[j].id@),
        all_from_last(configs, configs.len() as int, base_url, r@),
        covers(configs, configs.len() as int, r@),
{
    let mut remaining = models;
    let mut sorted: Vec<DevinModel> = Vec::new();
    assert(sorting(configs, base_url, sorted@, remaining@));
    while remaining.len() > 0
        invariant
            sorting(configs, base_url, sorted@, remaining@),
        decreases remaining@.len(),
    {
        let ghost old_remaining = remaining@;
        let ghost old_sorted = sorted@;
        let m = remaining.pop().unwrap();
        assert(remaining@ == old_remaining.drop_last());
        let m_id = chars_of(m.id.as_str());
        let mut p: usize = 0;
        while p < sorted.len() && !chars_less(&m_id, &chars_of(sorted[p].id.as_str()))
            invariant
                sorted@ == old_sorted,
                m_id@ == m.id@,
                p <= sorted@.len(),
                forall|q: int| 0 <= q < p ==> !seq_less(m.id@, #[trigger] sorted@[q].id@),
            decreases sorted@.len() - p,
        {
            p = p + 1;
        }
        proof {
            lemma_sort_step(configs, base_url, old_sorted, old_remaining, p as int);
        }
        sorted.insert(p, m);
    }
    assert(remaining@.len() == 0);
    assert forall|j: int| 0 <= j < configs.len() && eligible(#[trigger] configs[j]) implies has_model_for(
        configs,
        sorted@,
        j,
    ) by {
        if has_model_for(configs, remaining@, j) {
        }
    }
    sorted
}

/// A listed model advertises images exactly when its configuration
/// supports them: text and image for such a configuration, text alone
/// otherwise. It always takes tools, is provided by "devin", carries the
/// trimmed uid as its id and the trimmed label (or the id, for a blank
/// label) as its name, and its output limit is positive, at most 64000 and
/// within its context window.
pub proof fn model_follows_its_configuration(m: DevinModel, c: ClientModelConfig, base_url: Seq<char>)
    requires
        model_matches(m, c, base_url),
    ensures
        m.input@.contains(DevinInput::Image) <==> c.supports_images,
        m.input@.contains(DevinInput::Text),
        !c.supports_images ==> m.input@ == seq![DevinInput::Text],
        m.supports_tools,
        m.provider@ == "devin"@,
        m.base_url@ == base_url,
        m.id@ == trim(c.model_uid@),
        trim(c.label@).len() > 0 ==> m.name@ == trim(c.label@),
        trim(c.label@).len() == 0 ==> m.name@ == trim(c.model_uid@),
        0 < m.max_tokens <= 64000,
        m.max_tokens <= m.context_window,
        c.max_tokens > 0 ==> m.context_window == c.max_tokens,
        c.max_tokens <= 0 ==> m.context_window == 200000,
{
    if c.supports_images {
        assert(m.input@[1] == DevinInput::Image);
    } else {
        assert forall|i: int| 0 <= i < m.input@.len() implies m.input@[i] != DevinInput::Image by {}
    }
    assert(m.input@[0] == DevinInput::Text);
}

/// Every model of a normalized list accepts images exactly when the last
/// configuration with its id supports them.
pub proof fn listed_models_accept_images_as_configured(configs: Seq<ClientModelConfig>, base_url: Seq<char>, m: DevinModel)
    requires
        model_from_last(configs, configs.len() as int, base_url, m),
    ensures
        exists|j: int|
            last_with_id(configs, configs.len() as int, m.id@, j) && (m.input@.contains(DevinInput::Image)
                <==> #[trigger] configs[j].supports_images),
{
    let j = choose|j: int| last_with_id(configs, configs.len() as int, m.id@, j) && model_matches(m, configs[j], base_url);
    model_follows_its_configuration(m, configs[j], base_url);
}

/// A model reasons when its lowercased label names a thinking mode or a
/// reasoning effort (think, thinking, minimal, high, medium, low, xhigh,
/// max, reasoning) anywhere, or its features declare thinking, unless the
/// label says "no thinking" as a bounded phrase, which always wins.
pub proof fn reasoning_detection(c: ClientModelConfig, term: Seq<char>, p: int)
    ensures
        ({
            let label = lowercase(c.label@);
            ||| term == "think"@
            ||| term == "thinking"@
            ||| term == "minimal"@
            ||| term == "high"@
            ||| term == "medium"@
            ||| term == "low"@
            ||| term == "xhigh"@
            ||| term == "max"@
            ||| term == "reasoning"@
        }) && 0 <= p && p + term.len() <= lowercase(c.label@).len() && lowercase(c.label@).subrange(p, p + term.len())
            == term && !phrase_scan(lowercase(c.label@), "no thinking"@, 0) ==> supports_thinking_spec(c),
        (match c.model_info {
            Some(info) => match info.model_features {
                Some(f) => f.supports_thinking,
                None => false,
            },
            None => false,
        }) && !phrase_scan(lowercase(c.label@), "no thinking"@, 0) ==> supports_thinking_spec(c),
        phrase_scan(lowercase(c.label@), "no thinking"@, 0) ==> !supports_thinking_spec(c),
{
    let label = lowercase(c.label@);
    if 0 <= p && p + term.len() <= label.len() && label.subrange(p, p + term.len()) == term {
        assert(occurs_at(label, term, p));
    }
}

} // verus!
