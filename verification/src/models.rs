//! The models that the configured providers offer, and which of them a request means.

use vstd::prelude::*;
use vstd::string::*;

use crate::event_translator;
use crate::json;
use crate::json::{as_array_in, as_str_in, get_in, none, or_null, push_json, Json, JsonView, NumberView};
use crate::sort;
use crate::sort::{order_by_texts, reorder};
use crate::text;
use crate::text::{cat3, contains_char, split_once_char, str_eq, str_or, trim};

verus! {

/// The text without the white space around it, or nothing where it is empty.
pub fn normalize_optional_string(value: Option<String>) -> (r: Option<String>)
    ensures
        text::opt_string(r) == text::trimmed_some(text::opt_string(value)),
{
    match value {
        Some(raw) => {
            let s: &str = trim(raw.as_str());
            if s.is_empty() {
                None
            } else {
                Some(s.to_owned())
            }
        },
        None => None,
    }
}

// ---------------------------------------------------------------------------
// Which model a request means
// ---------------------------------------------------------------------------

/// The identifier of a provider or a model.
pub open spec fn own_id(j: JsonView) -> Seq<char> {
    text::trim_of(text::text_or(j.get_str("id"@), ""@))
}

fn read_own_id<'a>(j: &'a Json) -> (r: &'a str)
    ensures
        r@ == own_id(j@),
{
    trim(str_or(j.get_str("id"), ""))
}

/// Whether an entry of a provider's models is the model that is asked for: by the name under which
/// it is listed or by its own.
pub open spec fn is_model(entry: (Seq<char>, JsonView), requested: Seq<char>) -> bool {
    entry.0 == requested || own_id(entry.1) == requested
}

/// Whether a model is among the listed ones.
pub open spec fn holds_model(models: Seq<(Seq<char>, JsonView)>, requested: Seq<char>) -> bool {
    exists|i: int| 0 <= i < models.len() && is_model(#[trigger] models[i], requested)
}

/// Whether a provider lists a model.
pub open spec fn lists_model(provider: JsonView, requested: Seq<char>) -> bool {
    holds_model(entries_of(provider.get("models"@)), requested)
}

fn find_model(models: &Vec<(String, Json)>, requested: &str) -> (r: bool)
    ensures
        r == holds_model(json::json_entries(models@), requested@),
{
    let mut i: usize = 0;
    let ghost all = json::json_entries(models@);
    while i < models.len()
        invariant
            i <= models@.len(),
            all == json::json_entries(models@),
            forall|k: int| 0 <= k < i ==> !is_model(#[trigger] all[k], requested@),
        decreases models@.len() - i,
    {
        if str_eq(models[i].0.as_str(), requested) || str_eq(read_own_id(&models[i].1), requested) {
            assert(is_model(all[i as int], requested@));
            return true;
        }
        i = i + 1;
    }
    false
}

fn has_model(provider: &Json, requested: &str) -> (r: bool)
    ensures
        r == lists_model(provider@, requested@),
{
    match provider.get("models") {
        Some(Json::Object(models)) => find_model(models, requested),
        _ => false,
    }
}

/// The providers of a configuration.
pub open spec fn providers_of(config: JsonView) -> Seq<JsonView> {
    event_translator::items_of(config.get("providers"@))
}

/// Whether the named provider of a configuration lists a model.
pub open spec fn config_has_model(config: JsonView, provider_id: Seq<char>, model_id: Seq<char>) -> bool {
    let p = text::trim_of(provider_id);
    let m = text::trim_of(model_id);
    let all = providers_of(config);
    p.len() > 0 && m.len() > 0 && exists|i: int|
        0 <= i < all.len() && own_id(#[trigger] all[i]) == p && lists_model(all[i], m)
}

/// Whether the named provider of a configuration lists a model.
pub fn provider_has_model(config_providers: &Json, provider_id: &str, model_id: &str) -> (r: bool)
    ensures
        r == config_has_model(config_providers@, provider_id@, model_id@),
{
    let p: &str = trim(provider_id);
    let m: &str = trim(model_id);
    if p.is_empty() || m.is_empty() {
        return false;
    }
    let found = as_array_in(config_providers.get("providers"));
    match found {
        Some(providers) => {
            let mut i: usize = 0;
            let ghost all = json::json_views(providers@);
            while i < providers.len()
                invariant
                    i <= providers@.len(),
                    all == json::json_views(providers@),
                    all == providers_of(config_providers@),
                    p@ == text::trim_of(provider_id@),
                    m@ == text::trim_of(model_id@),
                    p@.len() > 0,
                    m@.len() > 0,
                    forall|k: int| 0 <= k < i ==> !(own_id(#[trigger] all[k]) == p@ && lists_model(all[k], m@)),
                decreases providers@.len() - i,
            {
                let provider = &providers[i];
                if str_eq(read_own_id(provider), p) && has_model(provider, m) {
                    assert(own_id(all[i as int]) == p@ && lists_model(all[i as int], m@));
                    return true;
                }
                i = i + 1;
            }
            false
        },
        None => false,
    }
}

/// The providers that list a model, by identifier.
pub open spec fn matching_providers(providers: Seq<JsonView>, requested: Seq<char>) -> Seq<Seq<char>>
    decreases providers.len(),
{
    if providers.len() == 0 {
        Seq::empty()
    } else {
        let before = matching_providers(providers.drop_last(), requested);
        let last = providers.last();
        if own_id(last).len() > 0 && lists_model(last, requested) {
            before.push(own_id(last))
        } else {
            before
        }
    }
}

/// A model with its provider.
pub open spec fn model_object(provider_id: Seq<char>, model_id: Seq<char>) -> JsonView {
    json::obj().and("providerID"@, JsonView::Text(provider_id)).and("modelID"@, JsonView::Text(model_id))
}

/// A model with its provider.
pub fn build_model_object(provider_id: &str, model_id: &str) -> (r: Json)
    ensures
        r@ == model_object(provider_id@, model_id@),
{
    Json::obj().and("providerID", Json::text(provider_id)).and("modelID", Json::text(model_id))
}

/// The model that a name without a provider means: it is known only where one provider lists it.
pub open spec fn unqualified_model(config: JsonView, requested: Seq<char>) -> Option<JsonView> {
    let matches = matching_providers(providers_of(config), requested);
    if matches.len() == 1 {
        Some(model_object(matches[0], requested))
    } else {
        None
    }
}

fn collect_matching(providers: &Vec<Json>, requested: &str) -> (r: Vec<String>)
    ensures
        text::texts(r@) == matching_providers(json::json_views(providers@), requested@),
{
    let mut out: Vec<String> = Vec::new();
    let mut i: usize = 0;
    let ghost all = json::json_views(providers@);
    assert(text::texts(out@) =~= matching_providers(all.take(0), requested@));
    while i < providers.len()
        invariant
            i <= providers@.len(),
            all == json::json_views(providers@),
            text::texts(out@) == matching_providers(all.take(i as int), requested@),
        decreases providers@.len() - i,
    {
        proof {
            assert(all.take(i + 1).drop_last() =~= all.take(i as int));
            assert(all.take(i + 1).last() == all[i as int]);
        }
        let provider = &providers[i];
        let id: &str = read_own_id(provider);
        if !id.is_empty() && has_model(provider, requested) {
            let ghost before = text::texts(out@);
            out.push(id.to_owned());
            assert(text::texts(out@) =~= before.push(id@));
        }
        i = i + 1;
    }
    assert(all.take(all.len() as int) =~= all);
    out
}

/// The model that a name without a provider means.
pub fn find_unqualified_model(config_providers: &Json, requested: &str) -> (r: Option<Json>)
    ensures
        json::opt_json_owned(r) == unqualified_model(config_providers@, requested@),
{
    match as_array_in(config_providers.get("providers")) {
        Some(providers) => {
            let matches: Vec<String> = collect_matching(providers, requested);
            assert(text::texts(matches@).len() == matches@.len());
            if matches.len() == 1 {
                assert(text::texts(matches@)[0] == matches@[0]@);
                Some(build_model_object(matches[0].as_str(), requested))
            } else {
                None
            }
        },
        None => None,
    }
}

/// The provider and the model in a name of the form `provider/model`, where neither is empty.
pub open spec fn qualified_parts(requested: Seq<char>) -> Option<(Seq<char>, Seq<char>)> {
    match text::split_char_of(requested, '/') {
        Some((a, b)) => if text::trim_of(a).len() > 0 && text::trim_of(b).len() > 0 {
            Some((text::trim_of(a), text::trim_of(b)))
        } else {
            None
        },
        None => None,
    }
}

/// The provider and the model in a name of the form `provider/model`, where neither is empty.
pub fn split_qualified<'a>(requested: &'a str) -> (r: Option<(&'a str, &'a str)>)
    ensures
        text::pair_view(r) == qualified_parts(requested@),
{
    match split_once_char(requested, '/') {
        Some((a, b)) => {
            let a: &'a str = trim(a);
            let b: &'a str = trim(b);
            if !a.is_empty() && !b.is_empty() {
                Some((a, b))
            } else {
                None
            }
        },
        None => None,
    }
}

/// The model that a request means, where the configured providers offer it.
pub open spec fn offered_model(config: JsonView, requested_model: Seq<char>) -> Option<JsonView> {
    let requested = text::trim_of(requested_model);
    if requested.len() == 0 {
        None
    } else if text::split_char_of(requested, '/') is Some {
        match qualified_parts(requested) {
            Some((p, m)) => if config_has_model(config, p, m) {
                Some(model_object(p, m))
            } else {
                None
            },
            None => None,
        }
    } else {
        unqualified_model(config, requested)
    }
}

/// The model that a request means, where the configured providers offer it.
pub fn resolve_model_override_from_providers(config_providers: &Json, requested_model: &str) -> (r: Option<Json>)
    ensures
        json::opt_json_owned(r) == offered_model(config_providers@, requested_model@),
{
    let requested: &str = trim(requested_model);
    if requested.is_empty() {
        return None;
    }
    if split_once_char(requested, '/').is_some() {
        match split_qualified(requested) {
            Some((p, m)) => if provider_has_model(config_providers, p, m) {
                Some(build_model_object(p, m))
            } else {
                None
            },
            None => None,
        }
    } else {
        find_unqualified_model(config_providers, requested)
    }
}

/// What is known of a requested model.
pub enum ModelStep {
    /// It is settled: this model, or none.
    Settled(Option<Json>),
    /// The providers have to be asked for.
    AskProviders,
}

/// What is known of a requested model, as a mathematical value.
pub enum ModelStepView {
    Settled(Option<JsonView>),
    AskProviders,
}

impl View for ModelStep {
    type V = ModelStepView;

    open spec fn view(&self) -> ModelStepView {
        match self {
            ModelStep::Settled(m) => ModelStepView::Settled(json::opt_json_owned(*m)),
            ModelStep::AskProviders => ModelStepView::AskProviders,
        }
    }
}

/// The model as its name has it, where that tells a provider.
pub open spec fn named_model(requested: Seq<char>) -> Option<JsonView> {
    match qualified_parts(requested) {
        Some((p, m)) => Some(model_object(p, m)),
        None => None,
    }
}

/// What is known of the model for a prompt from the providers that are remembered: a name with a
/// provider is not looked up again, and is taken as it stands where nothing is remembered.
pub open spec fn prompt_model_step(cache: Option<JsonView>, requested_model: Seq<char>) -> ModelStepView {
    let requested = text::trim_of(requested_model);
    let qualified = text::char_from(requested, '/', 0) is Some;
    let offered = match cache {
        Some(config) => offered_model(config, requested),
        None => None,
    };
    if requested.len() == 0 {
        ModelStepView::Settled(None)
    } else if offered is Some {
        ModelStepView::Settled(offered)
    } else if !qualified {
        ModelStepView::AskProviders
    } else if cache is Some {
        ModelStepView::Settled(None)
    } else {
        ModelStepView::Settled(named_model(requested))
    }
}

/// What is known of the model for a prompt from the providers that are remembered.
pub fn begin_prompt_model(cache: Option<&Json>, requested_model: &str) -> (r: ModelStep)
    ensures
        r@ == prompt_model_step(json::opt_json(cache), requested_model@),
{
    let requested: &str = trim(requested_model);
    if requested.is_empty() {
        return ModelStep::Settled(None);
    }
    if let Some(config) = cache {
        let offered = resolve_model_override_from_providers(config, requested);
        if offered.is_some() {
            return ModelStep::Settled(offered);
        }
    }
    if !contains_char(requested, '/') {
        return ModelStep::AskProviders;
    }
    if cache.is_some() {
        return ModelStep::Settled(None);
    }
    match split_qualified(requested) {
        Some((p, m)) => ModelStep::Settled(Some(build_model_object(p, m))),
        None => ModelStep::Settled(None),
    }
}

/// The model for a prompt, after the providers were asked for.
pub open spec fn prompt_model_found(fresh: Option<JsonView>, requested_model: Seq<char>) -> Option<JsonView> {
    match fresh {
        Some(config) => offered_model(config, text::trim_of(requested_model)),
        None => None,
    }
}

/// The model for a prompt, after the providers were asked for.
pub fn finish_prompt_model(fresh: Option<&Json>, requested_model: &str) -> (r: Option<Json>)
    ensures
        json::opt_json_owned(r) == prompt_model_found(json::opt_json(fresh), requested_model@),
{
    match fresh {
        Some(config) => resolve_model_override_from_providers(config, trim(requested_model)),
        None => None,
    }
}

/// What is known of the model for a background prompt: a name with a provider is taken as it
/// stands, and any other is looked up in the providers that were kept, where there are some.
pub open spec fn background_model_step(
    kept: Option<JsonView>,
    requested_model: Option<Seq<char>>,
) -> ModelStepView {
    match text::trimmed_some(requested_model) {
        Some(requested) => match named_model(requested) {
            Some(m) => ModelStepView::Settled(Some(m)),
            None => match kept {
                Some(config) => ModelStepView::Settled(unqualified_model(config, requested)),
                None => ModelStepView::AskProviders,
            },
        },
        None => ModelStepView::Settled(None),
    }
}

/// What is known of the model for a background prompt, given the providers that were kept.
pub fn begin_background_model(kept: Option<&Json>, requested_model: Option<&str>) -> (r: ModelStep)
    ensures
        r@ == background_model_step(json::opt_json(kept), text::opt_text(requested_model)),
{
    match text::trim_some(requested_model) {
        Some(requested) => match split_qualified(requested) {
            Some((p, m)) => ModelStep::Settled(Some(build_model_object(p, m))),
            None => match kept {
                Some(config) => ModelStep::Settled(find_unqualified_model(config, requested)),
                None => ModelStep::AskProviders,
            },
        },
        None => ModelStep::Settled(None),
    }
}

/// The model for a background prompt, after the providers were asked for.
pub open spec fn background_model_found(providers: Option<JsonView>, requested_model: Seq<char>) -> Option<JsonView> {
    match providers {
        Some(config) => unqualified_model(config, text::trim_of(requested_model)),
        None => None,
    }
}

/// The model for a background prompt, after the providers were asked for.
pub fn finish_background_model(providers: Option<&Json>, requested_model: &str) -> (r: Option<Json>)
    ensures
        json::opt_json_owned(r) == background_model_found(json::opt_json(providers), requested_model@),
{
    match providers {
        Some(config) => find_unqualified_model(config, trim(requested_model)),
        None => None,
    }
}

/// The providers whose models are listed: those that were asked for, or else those that were kept,
/// or none.
pub open spec fn used_providers(fresh: Option<JsonView>, kept: Option<JsonView>) -> JsonView {
    match json::either_of(fresh, kept) {
        Some(providers) => providers,
        None => json::obj(),
    }
}

/// The providers whose models are listed: those that were asked for, or else those that were kept,
/// or none.
pub fn providers_to_use(fresh: Option<Json>, kept: Option<Json>) -> (r: Json)
    ensures
        r@ == used_providers(json::opt_json_owned(fresh), json::opt_json_owned(kept)),
{
    match fresh {
        Some(providers) => providers,
        None => match kept {
            Some(providers) => providers,
            None => Json::obj(),
        },
    }
}

/// A model that was resolved from the providers is one that they offer.
pub proof fn law_offered_model_is_listed(config: JsonView, requested_model: Seq<char>)
    ensures
        offered_model(config, requested_model) matches Some(m) ==> exists|i: int, id: Seq<char>|
            #![trigger model_object(own_id(providers_of(config)[i]), id)]
            {
                &&& 0 <= i < providers_of(config).len()
                &&& lists_model(providers_of(config)[i], id)
                &&& m == model_object(own_id(providers_of(config)[i]), id)
            },
{
    let requested = text::trim_of(requested_model);
    let all = providers_of(config);
    if offered_model(config, requested_model) is Some {
        if text::split_char_of(requested, '/') is Some {
            let (p, m) = qualified_parts(requested)->0;
            let (a, b) = text::split_char_of(requested, '/')->0;
            lemma_trim_twice(a);
            lemma_trim_twice(b);
            let i = choose|i: int|
                0 <= i < all.len() && own_id(#[trigger] all[i]) == text::trim_of(p) && lists_model(
                    all[i],
                    text::trim_of(m),
                );
            assert(model_object(own_id(all[i]), m) == model_object(p, m));
        } else {
            let matches = matching_providers(all, requested);
            lemma_match_is_listed(all, requested, 0);
            let i = choose|i: int|
                0 <= i < all.len() && own_id(#[trigger] all[i]) == matches[0] && lists_model(all[i], requested);
            assert(model_object(own_id(all[i]), requested) == model_object(matches[0], requested));
        }
    }
}

proof fn lemma_match_is_listed(providers: Seq<JsonView>, requested: Seq<char>, k: int)
    requires
        0 <= k < matching_providers(providers, requested).len(),
    ensures
        exists|i: int|
            0 <= i < providers.len() && own_id(#[trigger] providers[i]) == matching_providers(providers, requested)[k]
                && lists_model(providers[i], requested),
    decreases providers.len(),
{
    if providers.len() > 0 {
        let init = providers.drop_last();
        let before = matching_providers(init, requested);
        if k < before.len() {
            lemma_match_is_listed(init, requested, k);
            let i = choose|i: int|
                0 <= i < init.len() && own_id(#[trigger] init[i]) == before[k] && lists_model(init[i], requested);
            assert(providers[i] == init[i]);
        } else {
            assert(providers[providers.len() - 1] == providers.last());
        }
    }
}

proof fn lemma_trim_start(s: Seq<char>)
    ensures
        text::trim_start_of(s).len() > 0 ==> !text::white_space(text::trim_start_of(s)[0]),
    decreases s.len(),
{
    if s.len() > 0 && text::white_space(s[0]) {
        lemma_trim_start(s.drop_first());
    }
}

proof fn lemma_trim_end(s: Seq<char>)
    ensures
        text::trim_end_of(s).len() <= s.len(),
        text::trim_end_of(s) == s.take(text::trim_end_of(s).len() as int),
        text::trim_end_of(s).len() > 0 ==> !text::white_space(text::trim_end_of(s).last()),
    decreases s.len(),
{
    if s.len() > 0 && text::white_space(s.last()) {
        lemma_trim_end(s.drop_last());
        let t = text::trim_end_of(s);
        assert(s.drop_last().take(t.len() as int) =~= s.take(t.len() as int));
    } else {
        assert(s.take(s.len() as int) =~= s);
    }
}

/// A text that was freed of the white space around it stays as it is when that is done again.
pub proof fn lemma_trim_twice(s: Seq<char>)
    ensures
        text::trim_of(text::trim_of(s)) == text::trim_of(s),
{
    let a = text::trim_start_of(s);
    let t = text::trim_of(s);
    lemma_trim_start(s);
    lemma_trim_end(a);
    if t.len() > 0 {
        assert(t[0] == a[0]);
        assert(text::trim_start_of(t) == t);
        assert(text::trim_end_of(t) == t);
    }
}

// ---------------------------------------------------------------------------
// Lists of models
// ---------------------------------------------------------------------------

/// The name under which a model can be chosen: the one under which it is listed, or else its own.
pub open spec fn selectable_id(key: Seq<char>, model: JsonView) -> Seq<char> {
    if text::trim_of(key).len() == 0 {
        own_id(model)
    } else {
        text::trim_of(key)
    }
}

/// The efforts of reasoning among which a model lets one choose.
pub open spec fn effort_rows(variants: Seq<(Seq<char>, JsonView)>) -> Seq<JsonView> {
    Seq::new(
        variants.len(),
        |i: int|
            json::obj().and("reasoningEffort"@, JsonView::Text(variants[i].0)).and(
                "description"@,
                JsonView::Text(""@),
            ),
    )
}

/// The entries of an object, or none where it is no object.
pub open spec fn entries_of(o: Option<JsonView>) -> Seq<(Seq<char>, JsonView)> {
    match o {
        Some(JsonView::Object(entries)) => entries,
        _ => Seq::empty(),
    }
}

/// The effort of reasoning that is chosen at first.
pub open spec fn default_effort(variants: Seq<(Seq<char>, JsonView)>) -> JsonView {
    if json::entry_from(variants, "medium"@, 0) is Some {
        JsonView::Text("medium"@)
    } else if json::entry_from(variants, "high"@, 0) is Some {
        JsonView::Text("high"@)
    } else {
        JsonView::Null
    }
}

/// The row of a model in the list; nothing where it has no name.
pub open spec fn model_row(
    provider_id: Seq<char>,
    default_id: Seq<char>,
    key: Seq<char>,
    model: JsonView,
) -> Option<JsonView> {
    let id = selectable_id(key, model);
    let variants = entries_of(model.get("variants"@));
    if id.len() == 0 {
        None
    } else {
        Some(
            json::obj().and("id"@, JsonView::Text(provider_id + "/"@ + id)).and("model"@, JsonView::Text(id)).and(
                "provider"@,
                JsonView::Text(provider_id),
            ).and(
                "displayName"@,
                JsonView::Text(text::trim_of(text::text_or(model.get_str("name"@), id))),
            ).and("description"@, JsonView::Text(""@)).and(
                "supportedReasoningEfforts"@,
                JsonView::Array(effort_rows(variants)),
            ).and("defaultReasoningEffort"@, default_effort(variants)).and(
                "isDefault"@,
                JsonView::Bool(id == default_id || own_id(model) == default_id),
            ),
        )
    }
}

fn build_effort_rows(variants: &Vec<(String, Json)>) -> (r: Vec<Json>)
    ensures
        json::json_views(r@) == effort_rows(json::json_entries(variants@)),
{
    let mut out: Vec<Json> = Vec::new();
    let mut i: usize = 0;
    let ghost rows = effort_rows(json::json_entries(variants@));
    while i < variants.len()
        invariant
            i <= variants@.len(),
            out@.len() == i,
            rows == effort_rows(json::json_entries(variants@)),
            forall|k: int| 0 <= k < i ==> (#[trigger] out@[k])@ == rows[k],
        decreases variants@.len() - i,
    {
        out.push(
            Json::obj().and("reasoningEffort", Json::text(variants[i].0.as_str())).and(
                "description",
                Json::text(""),
            ),
        );
        i = i + 1;
    }
    assert(json::json_views(out@) =~= rows);
    out
}

fn build_model_row(provider_id: &str, default_id: &str, key: &str, model: &Json) -> (r: Option<Json>)
    ensures
        json::opt_json_owned(r) == model_row(provider_id@, default_id@, key@, model@),
{
    let listed: &str = trim(key);
    let own: &str = read_own_id(model);
    let id: &str = if listed.is_empty() {
        own
    } else {
        listed
    };
    if id.is_empty() {
        return None;
    }
    let found = model.get("variants");
    let efforts: Vec<Json> = match found {
        Some(Json::Object(variants)) => build_effort_rows(variants),
        _ => none(),
    };
    assert(json::json_views(efforts@) =~= effort_rows(entries_of(model@.get("variants"@))));
    let effort: Json = match found {
        Some(Json::Object(variants)) => if get_in(found, "medium").is_some() {
            Json::text("medium")
        } else if get_in(found, "high").is_some() {
            Json::text("high")
        } else {
            Json::Null
        },
        _ => Json::Null,
    };
    let is_default: bool = str_eq(id, default_id) || str_eq(own, default_id);
    Some(
        Json::obj().and("id", Json::text(cat3(provider_id, "/", id).as_str())).and("model", Json::text(id)).and(
            "provider",
            Json::text(provider_id),
        ).and("displayName", Json::text(trim(str_or(model.get_str("name"), id)))).and(
            "description",
            Json::text(""),
        ).and("supportedReasoningEfforts", Json::array(efforts)).and("defaultReasoningEffort", effort).and(
            "isDefault",
            Json::Bool(is_default),
        ),
    )
}

/// The rows with those of the first models of a provider behind them.
pub open spec fn rows_with_models(
    rows: Seq<JsonView>,
    provider_id: Seq<char>,
    default_id: Seq<char>,
    models: Seq<(Seq<char>, JsonView)>,
) -> Seq<JsonView>
    decreases models.len(),
{
    if models.len() == 0 {
        rows
    } else {
        let before = rows_with_models(rows, provider_id, default_id, models.drop_last());
        match model_row(provider_id, default_id, models.last().0, models.last().1) {
            Some(row) => before.push(row),
            None => before,
        }
    }
}

/// The rows with those of one provider behind them.
pub open spec fn rows_with_provider(rows: Seq<JsonView>, defaults: Option<JsonView>, provider: JsonView) -> Seq<
    JsonView,
> {
    let id = text::text_or(provider.get_str("id"@), ""@);
    let default_id = text::text_or(json::as_str_of(json::get_of(defaults, id)), ""@);
    rows_with_models(rows, id, default_id, entries_of(provider.get("models"@)))
}

/// The rows of a list of providers.
pub open spec fn provider_rows(defaults: Option<JsonView>, providers: Seq<JsonView>) -> Seq<JsonView>
    decreases providers.len(),
{
    if providers.len() == 0 {
        Seq::empty()
    } else {
        rows_with_provider(provider_rows(defaults, providers.drop_last()), defaults, providers.last())
    }
}

/// The rows of the models of a configuration.
pub open spec fn model_rows(config: JsonView) -> Seq<JsonView> {
    provider_rows(config.get("default"@), providers_of(config))
}

fn add_model_rows(rows: &mut Vec<Json>, provider_id: &str, default_id: &str, models: &Vec<(String, Json)>)
    ensures
        json::json_views(final(rows)@) == rows_with_models(
            json::json_views(old(rows)@),
            provider_id@,
            default_id@,
            json::json_entries(models@),
        ),
{
    let mut i: usize = 0;
    let ghost all = json::json_entries(models@);
    let ghost start = json::json_views(rows@);
    while i < models.len()
        invariant
            i <= models@.len(),
            all == json::json_entries(models@),
            json::json_views(rows@) == rows_with_models(start, provider_id@, default_id@, all.take(i as int)),
        decreases models@.len() - i,
    {
        proof {
            assert(all.take(i + 1).drop_last() =~= all.take(i as int));
            assert(all.take(i + 1).last() == all[i as int]);
        }
        if let Some(row) = build_model_row(provider_id, default_id, models[i].0.as_str(), &models[i].1) {
            push_json(rows, row);
        }
        i = i + 1;
    }
    assert(all.take(all.len() as int) =~= all);
}

/// The rows of the models of a configuration.
pub fn build_model_rows(config: &Json) -> (r: Vec<Json>)
    ensures
        json::json_views(r@) == model_rows(config@),
{
    let defaults = config.get("default");
    let mut rows: Vec<Json> = none();
    if let Some(providers) = as_array_in(config.get("providers")) {
        let mut i: usize = 0;
        let ghost all = json::json_views(providers@);
        while i < providers.len()
            invariant
                i <= providers@.len(),
                all == json::json_views(providers@),
                json::json_views(rows@) == provider_rows(json::opt_json(defaults), all.take(i as int)),
            decreases providers@.len() - i,
        {
            proof {
                assert(all.take(i + 1).drop_last() =~= all.take(i as int));
                assert(all.take(i + 1).last() == all[i as int]);
            }
            let provider = &providers[i];
            let id: &str = str_or(provider.get_str("id"), "");
            let default_id: &str = str_or(as_str_in(get_in(defaults, id)), "");
            if let Some(Json::Object(models)) = provider.get("models") {
                add_model_rows(&mut rows, id, default_id, models);
            }
            i = i + 1;
        }
        assert(all.take(all.len() as int) =~= all);
    }
    rows
}

proof fn lemma_first_slash(provider_id: Seq<char>, rest: Seq<char>, from: int)
    requires
        0 <= from <= provider_id.len(),
        text::char_from(provider_id, '/', from) is None,
    ensures
        text::char_from(provider_id + "/"@ + rest, '/', from) == Some(provider_id.len() as int),
    decreases provider_id.len() - from,
{
    reveal_strlit("/");
    let s = provider_id + "/"@ + rest;
    if from < provider_id.len() {
        assert(s[from] == provider_id[from]);
        lemma_first_slash(provider_id, rest, from + 1);
    } else {
        assert(s[from] == '/');
    }
}

/// A model of the list can be chosen by its identifier there, unless white space stands around
/// its name or that of its provider, or the latter holds a slash.
pub proof fn law_listed_model_can_be_chosen(config: JsonView, i: int, j: int)
    requires
        0 <= i < providers_of(config).len(),
        0 <= j < entries_of(providers_of(config)[i].get("models"@)).len(),
        ({
            let provider_id = text::text_or(providers_of(config)[i].get_str("id"@), ""@);
            let key = entries_of(providers_of(config)[i].get("models"@))[j].0;
            &&& provider_id.len() > 0
            &&& key.len() > 0
            &&& text::trim_of(provider_id) == provider_id
            &&& text::trim_of(key) == key
            &&& text::char_from(provider_id, '/', 0) is None
        }),
    ensures
        ({
            let provider_id = text::text_or(providers_of(config)[i].get_str("id"@), ""@);
            let (key, model) = entries_of(providers_of(config)[i].get("models"@))[j];
            &&& selectable_id(key, model) == key
            &&& offered_model(config, provider_id + "/"@ + key) == Some(model_object(provider_id, key))
        }),
{
    reveal_strlit("/");
    let provider = providers_of(config)[i];
    let provider_id = text::text_or(provider.get_str("id"@), ""@);
    let models = entries_of(provider.get("models"@));
    let key = models[j].0;
    let id = provider_id + "/"@ + key;
    lemma_trim_start(provider_id);
    lemma_trim_end(text::trim_start_of(provider_id));
    lemma_trim_end(text::trim_start_of(key));
    assert(!text::white_space(provider_id[0]) && !text::white_space(key.last()));
    assert(id[0] == provider_id[0] && id.last() == key.last());
    assert(text::trim_of(id) == id);
    lemma_first_slash(provider_id, key, 0);
    assert(id.take(provider_id.len() as int) =~= provider_id);
    assert(id.skip(provider_id.len() as int + 1) =~= key);
    assert(is_model(models[j], key));
    assert(own_id(providers_of(config)[i]) == provider_id && lists_model(providers_of(config)[i], key));
}

/// The answer to a request for the models.
pub open spec fn model_list_response(config: JsonView) -> JsonView {
    json::obj().and("result"@, json::obj().and("data"@, JsonView::Array(model_rows(config))))
}

/// The answer to a request for the models.
pub fn model_list_response_from_providers(providers: &Json) -> (r: Json)
    ensures
        r@ == model_list_response(providers@),
{
    Json::obj().and("result", Json::obj().and("data", Json::array(build_model_rows(providers))))
}

/// What is known of a listed model.
pub open spec fn model_note(key: Seq<char>, model: JsonView) -> JsonView {
    json::obj().and("key"@, JsonView::Text(key)).and(
        "nestedId"@,
        JsonView::Text(text::text_or(model.get_str("id"@), ""@)),
    ).and("name"@, json::or_null_of(model.get("name"@))).and(
        "status"@,
        json::or_null_of(model.get("status"@)),
    ).and("providerID"@, json::or_null_of(model.get("providerID"@)))
}

/// What is known of the listed models.
pub open spec fn model_notes(models: Seq<(Seq<char>, JsonView)>) -> Seq<JsonView> {
    Seq::new(models.len(), |i: int| model_note(models[i].0, models[i].1))
}

/// The names of entries, as keys to sort by.
pub open spec fn entry_keys(entries: Seq<(Seq<char>, JsonView)>) -> Seq<Option<Seq<char>>> {
    Seq::new(entries.len(), |i: int| Some(entries[i].0))
}

/// The names of entries, as keys to sort by.
pub fn collect_entry_keys(entries: &Vec<(String, Json)>) -> (r: Vec<Option<String>>)
    ensures
        sort::opt_strings(r@) == entry_keys(json::json_entries(entries@)),
        r@.len() == entries@.len(),
{
    let mut out: Vec<Option<String>> = Vec::new();
    let mut i: usize = 0;
    while i < entries.len()
        invariant
            i <= entries@.len(),
            out@.len() == i,
            forall|k: int| 0 <= k < i ==> text::opt_string(#[trigger] out@[k]) == Some(entries@[k].0@),
        decreases entries@.len() - i,
    {
        out.push(Some(entries[i].0.clone()));
        i = i + 1;
    }
    assert(sort::opt_strings(out@) =~= entry_keys(json::json_entries(entries@)));
    out
}

/// What is known of the listed models, by name.
pub open spec fn sorted_model_notes(models: Seq<(Seq<char>, JsonView)>) -> Seq<JsonView> {
    sort::reordered(
        model_notes(models),
        sort::sorted_order(models.len(), sort::text_less(entry_keys(models))),
    )
}

fn build_sorted_model_notes(models: &Vec<(String, Json)>) -> (r: Vec<Json>)
    ensures
        json::json_views(r@) == sorted_model_notes(json::json_entries(models@)),
        r@.len() == models@.len(),
{
    let mut notes: Vec<Json> = Vec::new();
    let mut i: usize = 0;
    let ghost all = json::json_entries(models@);
    while i < models.len()
        invariant
            i <= models@.len(),
            notes@.len() == i,
            all == json::json_entries(models@),
            forall|k: int| 0 <= k < i ==> (#[trigger] notes@[k])@ == model_note(all[k].0, all[k].1),
        decreases models@.len() - i,
    {
        let model = &models[i].1;
        notes.push(
            Json::obj().and("key", Json::text(models[i].0.as_str())).and(
                "nestedId",
                Json::text(str_or(model.get_str("id"), "")),
            ).and("name", or_null(model.get("name"))).and("status", or_null(model.get("status"))).and(
                "providerID",
                or_null(model.get("providerID")),
            ),
        );
        assert(notes@[i as int]@ == model_note(all[i as int].0, all[i as int].1));
        i = i + 1;
    }
    assert(json::json_views(notes@) =~= model_notes(all));
    let order: Vec<usize> = order_by_texts(&collect_entry_keys(models));
    let r = reorder(&notes, &order);
    assert(json::json_views(r@).len() == r@.len());
    r
}

/// What is known of a provider.
pub open spec fn provider_note(defaults: Option<JsonView>, provider: JsonView) -> JsonView {
    let id = text::text_or(provider.get_str("id"@), ""@);
    let models = entries_of(provider.get("models"@));
    json::obj().and("id"@, JsonView::Text(id)).and("name"@, json::or_null_of(provider.get("name"@))).and(
        "defaultFromConfig"@,
        json::or_null_of(json::get_of(defaults, id)),
    ).and("modelCount"@, JsonView::Number(NumberView::Unsigned(models.len() as u64))).and(
        "models"@,
        JsonView::Array(sorted_model_notes(models)),
    )
}

/// What is known of the providers.
pub open spec fn provider_notes(defaults: Option<JsonView>, providers: Seq<JsonView>) -> Seq<JsonView> {
    Seq::new(providers.len(), |i: int| provider_note(defaults, providers[i]))
}

fn build_provider_notes(defaults: Option<&Json>, providers: &Vec<Json>) -> (r: Vec<Json>)
    ensures
        json::json_views(r@) == provider_notes(json::opt_json(defaults), json::json_views(providers@)),
{
    let mut out: Vec<Json> = Vec::new();
    let mut i: usize = 0;
    let ghost all = json::json_views(providers@);
    let ghost d = json::opt_json(defaults);
    while i < providers.len()
        invariant
            i <= providers@.len(),
            out@.len() == i,
            all == json::json_views(providers@),
            d == json::opt_json(defaults),
            forall|k: int| 0 <= k < i ==> (#[trigger] out@[k])@ == provider_note(d, all[k]),
        decreases providers@.len() - i,
    {
        let provider = &providers[i];
        let id: &str = str_or(provider.get_str("id"), "");
        let models: Vec<Json> = match provider.get("models") {
            Some(Json::Object(models)) => build_sorted_model_notes(models),
            _ => none(),
        };
        proof {
            let entries = entries_of(provider@.get("models"@));
            assert(json::json_views(models@) =~= sorted_model_notes(entries));
            assert(json::json_views(models@).len() == models@.len());
            assert(models@.len() == entries.len());
        }
        let count: u64 = models.len() as u64;
        out.push(
            Json::obj().and("id", Json::text(id)).and("name", or_null(provider.get("name"))).and(
                "defaultFromConfig",
                or_null(get_in(defaults, id)),
            ).and("modelCount", Json::number(count)).and("models", Json::array(models)),
        );
        assert(out@[i as int]@ == provider_note(d, all[i as int]));
        i = i + 1;
    }
    assert(json::json_views(out@) =~= provider_notes(d, all));
    out
}

/// Everything that is known of the models, for the search for faults.
pub open spec fn model_list_debug(config: JsonView) -> JsonView {
    let providers = providers_of(config);
    let rows = model_rows(config);
    json::obj().and("source"@, JsonView::Text("/config/providers"@)).and(
        "providerCount"@,
        JsonView::Number(NumberView::Unsigned(providers.len() as u64)),
    ).and("providers"@, JsonView::Array(provider_notes(config.get("default"@), providers))).and(
        "transformedCount"@,
        JsonView::Number(NumberView::Unsigned(rows.len() as u64)),
    ).and("transformed"@, JsonView::Array(rows))
}

/// Everything that is known of the models, for the search for faults.
pub fn model_list_debug_from_providers(providers: &Json) -> (r: Json)
    ensures
        r@ == model_list_debug(providers@),
{
    let notes: Vec<Json> = match as_array_in(providers.get("providers")) {
        Some(list) => build_provider_notes(providers.get("default"), list),
        None => none(),
    };
    proof {
        assert(json::json_views(notes@) =~= provider_notes(
            providers@.get("default"@),
            providers_of(providers@),
        ));
        assert(json::json_views(notes@).len() == notes@.len());
    }
    let rows: Vec<Json> = build_model_rows(providers);
    assert(json::json_views(rows@).len() == rows@.len());
    let note_count: u64 = notes.len() as u64;
    let row_count: u64 = rows.len() as u64;
    Json::obj().and("source", Json::text("/config/providers")).and("providerCount", Json::number(note_count)).and(
        "providers",
        Json::array(notes),
    ).and("transformedCount", Json::number(row_count)).and("transformed", Json::array(rows))
}

} // verus!
