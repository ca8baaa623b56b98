//! Which model a request means, and how models are listed.

use vstd::prelude::*;

use crate::json;
use crate::json::{JsonView, NumberView};
use crate::models;
use crate::models::ModelStepView;
use crate::reading;
use crate::sort;
use crate::text;

verus! {

proof fn lemma_model_names()
    ensures
        ""@.len() == 0,
        "/"@.len() == 1,
        "data"@.len() == 4,
        "data"@[0] == 'd',
        "default"@.len() == 7,
        "default"@[0] == 'd',
        "defaultFromConfig"@.len() == 17,
        "defaultReasoningEffort"@.len() == 22,
        "description"@.len() == 11,
        "description"@[0] == 'd',
        "description"@[1] == 'e',
        "displayName"@.len() == 11,
        "displayName"@[0] == 'd',
        "displayName"@[1] == 'i',
        "high"@.len() == 4,
        "high"@[0] == 'h',
        "id"@.len() == 2,
        "isDefault"@.len() == 9,
        "isDefault"@[0] == 'i',
        "key"@.len() == 3,
        "medium"@.len() == 6,
        "medium"@[0] == 'm',
        "medium"@[1] == 'e',
        "model"@.len() == 5,
        "modelCount"@.len() == 10,
        "modelCount"@[0] == 'm',
        "modelID"@.len() == 7,
        "modelID"@[0] == 'm',
        "models"@.len() == 6,
        "models"@[0] == 'm',
        "models"@[1] == 'o',
        "name"@.len() == 4,
        "name"@[0] == 'n',
        "nestedId"@.len() == 8,
        "nestedId"@[0] == 'n',
        "provider"@.len() == 8,
        "provider"@[0] == 'p',
        "providerCount"@.len() == 13,
        "providerID"@.len() == 10,
        "providerID"@[0] == 'p',
        "providers"@.len() == 9,
        "providers"@[0] == 'p',
        "reasoningEffort"@.len() == 15,
        "result"@.len() == 6,
        "result"@[0] == 'r',
        "source"@.len() == 6,
        "source"@[0] == 's',
        "source"@[1] == 'o',
        "status"@.len() == 6,
        "status"@[0] == 's',
        "status"@[1] == 't',
        "supportedReasoningEfforts"@.len() == 25,
        "transformed"@.len() == 11,
        "transformed"@[0] == 't',
        "transformedCount"@.len() == 16,
        "variants"@.len() == 8,
        "variants"@[0] == 'v',
{
    reveal_strlit("");
    reveal_strlit("/");
    reveal_strlit("data");
    reveal_strlit("default");
    reveal_strlit("defaultFromConfig");
    reveal_strlit("defaultReasoningEffort");
    reveal_strlit("description");
    reveal_strlit("displayName");
    reveal_strlit("high");
    reveal_strlit("id");
    reveal_strlit("isDefault");
    reveal_strlit("key");
    reveal_strlit("medium");
    reveal_strlit("model");
    reveal_strlit("modelCount");
    reveal_strlit("modelID");
    reveal_strlit("models");
    reveal_strlit("name");
    reveal_strlit("nestedId");
    reveal_strlit("provider");
    reveal_strlit("providerCount");
    reveal_strlit("providerID");
    reveal_strlit("providers");
    reveal_strlit("reasoningEffort");
    reveal_strlit("result");
    reveal_strlit("source");
    reveal_strlit("status");
    reveal_strlit("supportedReasoningEfforts");
    reveal_strlit("transformed");
    reveal_strlit("transformedCount");
    reveal_strlit("variants");
}

/// The name of a provider or a model: its identifier without the white space around it.
pub open spec fn called(j: JsonView) -> Seq<char> {
    text::trim_of(reading::string_at(j, "id"@))
}

/// The models that a provider lists, with the names under which it lists them.
pub open spec fn listed(provider: JsonView) -> Seq<(Seq<char>, JsonView)> {
    match provider.get("models"@) {
        Some(JsonView::Object(entries)) => entries,
        _ => Seq::empty(),
    }
}

/// The configured providers.
pub open spec fn configured(config: JsonView) -> Seq<JsonView> {
    match config.get("providers"@) {
        Some(JsonView::Array(all)) => all,
        _ => Seq::empty(),
    }
}

/// Whether a provider lists a model at a place, by the name there or by the model's own.
pub open spec fn lists_at(provider: JsonView, j: int, name: Seq<char>) -> bool {
    0 <= j < listed(provider).len() && (listed(provider)[j].0 == name || called(listed(provider)[j].1) == name)
}

/// Whether a value tells a model and its provider.
pub open spec fn tells_model(m: JsonView, provider_id: Seq<char>, model_id: Seq<char>) -> bool {
    m.get("providerID"@) == reading::found(provider_id) && m.get("modelID"@) == reading::found(model_id)
}

proof fn lemma_called(j: JsonView)
    ensures
        models::own_id(j) == called(j),
{
    lemma_model_names();
    assert(""@ =~= Seq::<char>::empty());
}

// ---------------------------------------------------------------------------
// Which model a request means
// ---------------------------------------------------------------------------

/// A provider lists a model that stands at some place of its list, and no other.
pub proof fn law_provider_lists_what_stands_there(provider: JsonView, name: Seq<char>, j: int)
    ensures
        lists_at(provider, j, name) ==> models::lists_model(provider, name),
        models::lists_model(provider, name) ==> exists|k: int| #[trigger] lists_at(provider, k, name),
{
    let all = listed(provider);
    if lists_at(provider, j, name) {
        lemma_called(all[j].1);
        assert(models::is_model(all[j], name));
    }
    if models::lists_model(provider, name) {
        let k = choose|k: int| 0 <= k < all.len() && models::is_model(#[trigger] all[k], name);
        lemma_called(all[k].1);
        assert(lists_at(provider, k, name));
    }
}

/// A configuration has a model of a provider where a provider of that name lists it; white space
/// around the names does not count, and an empty name names nothing.
pub proof fn law_configuration_has_listed_models(
    config: JsonView,
    provider_id: Seq<char>,
    model_id: Seq<char>,
    i: int,
    j: int,
)
    ensures
        ({
            let p = text::trim_of(provider_id);
            let m = text::trim_of(model_id);
            &&& p.len() == 0 || m.len() == 0 ==> !models::config_has_model(config, provider_id, model_id)
            &&& p.len() > 0 && m.len() > 0 && 0 <= i < configured(config).len() && called(configured(config)[i]) == p
                && lists_at(configured(config)[i], j, m) ==> models::config_has_model(config, provider_id, model_id)
            &&& models::config_has_model(config, provider_id, model_id) ==> exists|k: int, l: int|
                0 <= k < configured(config).len() && called(#[trigger] configured(config)[k]) == p
                    && #[trigger] lists_at(configured(config)[k], l, m)
        }),
{
    let p = text::trim_of(provider_id);
    let m = text::trim_of(model_id);
    let all = configured(config);
    assert(models::providers_of(config) =~= all);
    if 0 <= i < all.len() {
        lemma_called(all[i]);
        law_provider_lists_what_stands_there(all[i], m, j);
    }
    if models::config_has_model(config, provider_id, model_id) {
        let k = choose|k: int|
            0 <= k < all.len() && models::own_id(#[trigger] all[k]) == p && models::lists_model(all[k], m);
        lemma_called(all[k]);
        law_provider_lists_what_stands_there(all[k], m, 0);
        let l = choose|l: int| #[trigger] lists_at(all[k], l, m);
        assert(called(configured(config)[k]) == p && lists_at(configured(config)[k], l, m));
    }
}

/// The providers that list a model are told one by one, in their order.
pub proof fn law_providers_match_one_by_one(a: Seq<JsonView>, b: Seq<JsonView>, name: Seq<char>)
    ensures
        models::matching_providers(a + b, name)
            == models::matching_providers(a, name) + models::matching_providers(b, name),
        models::matching_providers(Seq::empty(), name).len() == 0,
    decreases b.len(),
{
    if b.len() == 0 {
        assert(a + b =~= a);
        assert(models::matching_providers(a, name) + models::matching_providers(b, name)
            =~= models::matching_providers(a, name));
    } else {
        let init = b.drop_last();
        law_providers_match_one_by_one(a, init, name);
        assert((a + b).drop_last() =~= a + init);
        assert((a + b).last() == b.last());
        assert(models::matching_providers(a + b, name)
            =~= models::matching_providers(a, name)
            + models::matching_providers(b, name));
    }
}

/// A provider is told where it has a name and lists the model.
pub proof fn law_matching_provider(provider: JsonView, name: Seq<char>, j: int)
    ensures
        ({
            let told = models::matching_providers(seq![provider], name);
            &&& called(provider).len() > 0 && lists_at(provider, j, name) ==> told == seq![called(provider)]
            &&& told.len() > 0 ==> called(provider).len() > 0 && exists|k: int| #[trigger] lists_at(provider, k, name)
        }),
{
    lemma_called(provider);
    law_provider_lists_what_stands_there(provider, name, j);
    reveal_with_fuel(models::matching_providers, 2);
    assert(seq![provider].drop_last() =~= Seq::<JsonView>::empty());
}

proof fn lemma_no_match(providers: Seq<JsonView>, name: Seq<char>)
    requires
        forall|k: int|
            0 <= k < providers.len() ==> !(called(#[trigger] providers[k]).len() > 0 && models::lists_model(
                providers[k],
                name,
            )),
    ensures
        models::matching_providers(providers, name).len() == 0,
    decreases providers.len(),
{
    if providers.len() > 0 {
        lemma_called(providers.last());
        assert(providers[providers.len() - 1] == providers.last());
        assert forall|k: int| 0 <= k < providers.drop_last().len() implies !(called(
            #[trigger] providers.drop_last()[k],
        ).len() > 0 && models::lists_model(providers.drop_last()[k], name)) by {
            assert(providers.drop_last()[k] == providers[k]);
        }
        lemma_no_match(providers.drop_last(), name);
    }
}

proof fn lemma_match_kept(providers: Seq<JsonView>, name: Seq<char>, i: int)
    requires
        0 <= i < providers.len(),
        called(providers[i]).len() > 0,
        models::lists_model(providers[i], name),
    ensures
        models::matching_providers(providers, name) == models::matching_providers(providers.take(i), name) + seq![
            called(providers[i]),
        ] + models::matching_providers(providers.skip(i + 1), name),
{
    let one = seq![providers[i]];
    lemma_called(providers[i]);
    reveal_with_fuel(models::matching_providers, 2);
    assert(one.drop_last() =~= Seq::<JsonView>::empty());
    assert(models::matching_providers(one, name) =~= seq![called(providers[i])]);
    law_providers_match_one_by_one(providers.take(i), one, name);
    law_providers_match_one_by_one(providers.take(i) + one, providers.skip(i + 1), name);
    assert(providers =~= providers.take(i) + one + providers.skip(i + 1));
}

/// A name without a provider means a model where one provider alone lists it, and none where none
/// or more than one do.
pub proof fn law_bare_name_means_the_only_model(config: JsonView, name: Seq<char>, i: int, k: int)
    ensures
        ({
            let all = configured(config);
            let found = models::unqualified_model(config, name);
            &&& (forall|l: int|
                0 <= l < all.len() ==> !(called(#[trigger] all[l]).len() > 0 && models::lists_model(all[l], name)))
                ==> found is None
            &&& 0 <= i < k < all.len() && called(all[i]).len() > 0 && models::lists_model(all[i], name) && called(
                all[k],
            ).len() > 0 && models::lists_model(all[k], name) ==> found is None
            &&& 0 <= i < all.len() && called(all[i]).len() > 0 && models::lists_model(all[i], name) && (forall|l: int|
                0 <= l < all.len() && l != i ==> !(called(#[trigger] all[l]).len() > 0 && models::lists_model(
                    all[l],
                    name,
                ))) ==> found is Some && tells_model(found->0, called(all[i]), name)
        }),
{
    broadcast use reading::group_reading;
    lemma_model_names();
    let all = configured(config);
    assert(models::providers_of(config) =~= all);
    if forall|l: int| 0 <= l < all.len() ==> !(called(#[trigger] all[l]).len() > 0 && models::lists_model(all[l], name)) {
        lemma_no_match(all, name);
    }
    if 0 <= i < all.len() && called(all[i]).len() > 0 && models::lists_model(all[i], name) {
        lemma_match_kept(all, name, i);
        if i < k < all.len() && called(all[k]).len() > 0 && models::lists_model(all[k], name) {
            assert(all.skip(i + 1)[k - i - 1] == all[k]);
            lemma_match_kept(all.skip(i + 1), name, k - i - 1);
        }
        if forall|l: int|
            0 <= l < all.len() && l != i ==> !(called(#[trigger] all[l]).len() > 0 && models::lists_model(all[l], name)) {
            assert forall|l: int| 0 <= l < all.take(i).len() implies !(called(#[trigger] all.take(i)[l]).len() > 0
                && models::lists_model(all.take(i)[l], name)) by {
                assert(all.take(i)[l] == all[l]);
            }
            assert forall|l: int| 0 <= l < all.skip(i + 1).len() implies !(called(#[trigger] all.skip(i + 1)[l]).len()
                > 0 && models::lists_model(all.skip(i + 1)[l], name)) by {
                assert(all.skip(i + 1)[l] == all[l + i + 1]);
            }
            lemma_no_match(all.take(i), name);
            lemma_no_match(all.skip(i + 1), name);
            assert(models::matching_providers(all, name) =~= seq![called(all[i])]);
        }
    }
}

proof fn lemma_no_slash(s: Seq<char>, from: int)
    requires
        0 <= from <= s.len(),
        !s.contains('/'),
    ensures
        text::char_from(s, '/', from) is None,
    decreases s.len() - from,
{
    if from < s.len() {
        assert(s.contains(s[from]));
        lemma_no_slash(s, from + 1);
    }
}

proof fn lemma_slash_at(provider_id: Seq<char>, rest: Seq<char>, from: int)
    requires
        0 <= from <= provider_id.len(),
        !provider_id.contains('/'),
    ensures
        text::char_from(provider_id + "/"@ + rest, '/', from) == Some(provider_id.len() as int),
    decreases provider_id.len() - from,
{
    reveal_strlit("/");
    let s = provider_id + "/"@ + rest;
    if from < provider_id.len() {
        assert(provider_id.contains(provider_id[from]));
        assert(s[from] == provider_id[from]);
        lemma_slash_at(provider_id, rest, from + 1);
    } else {
        assert(s[from] == '/');
    }
}

/// A name of the form `provider/model` names the provider before its first slash and the model
/// behind it, without the white space around them, where neither is empty; a name without a slash
/// names no provider.
pub proof fn law_name_tells_provider_and_model(provider_id: Seq<char>, model_id: Seq<char>)
    requires
        !provider_id.contains('/'),
    ensures
        ({
            let p = text::trim_of(provider_id);
            let m = text::trim_of(model_id);
            let named = models::named_model(provider_id + "/"@ + model_id);
            &&& models::named_model(provider_id) is None
            &&& p.len() == 0 || m.len() == 0 ==> named is None
            &&& p.len() > 0 && m.len() > 0 ==> named is Some && tells_model(named->0, p, m)
        }),
{
    broadcast use reading::group_reading;
    lemma_model_names();
    reveal_strlit("/");
    let s = provider_id + "/"@ + model_id;
    lemma_no_slash(provider_id, 0);
    lemma_slash_at(provider_id, model_id, 0);
    assert(s.take(provider_id.len() as int) =~= provider_id);
    assert(s.skip(provider_id.len() as int + 1) =~= model_id);
}

/// A request for nothing means no model; one that tells a provider means that provider's model
/// where it is offered; one that tells none means the only model of that name.
pub proof fn law_request_means_an_offered_model(config: JsonView, requested: Seq<char>, p: Seq<char>, m: Seq<char>)
    ensures
        ({
            let name = text::trim_of(requested);
            let offered = models::offered_model(config, requested);
            &&& name.len() == 0 ==> offered is None
            &&& name.len() > 0 && !name.contains('/') ==> offered == models::unqualified_model(config, name)
            &&& !p.contains('/') && name == p + "/"@ + m ==> {
                &&& offered is Some <==> models::config_has_model(config, p, m)
                &&& offered is Some ==> tells_model(offered->0, text::trim_of(p), text::trim_of(m))
            }
        }),
{
    broadcast use reading::group_reading;
    lemma_model_names();
    reveal_strlit("/");
    let name = text::trim_of(requested);
    if !name.contains('/') {
        lemma_no_slash(name, 0);
    }
    if !p.contains('/') && name == p + "/"@ + m {
        lemma_slash_at(p, m, 0);
        assert(name.take(p.len() as int) =~= p);
        assert(name.skip(p.len() as int + 1) =~= m);
        models::lemma_trim_twice(p);
        models::lemma_trim_twice(m);
    }
}

/// The model for a prompt is settled by what is remembered where that offers it. Where it does
/// not, a bare name is looked up again, a name with a provider is not, and where nothing is
/// remembered a name with a provider is taken as it stands.
pub proof fn law_prompt_model_is_settled_or_asked_for(cache: Option<JsonView>, requested: Seq<char>)
    ensures
        ({
            let name = text::trim_of(requested);
            let step = models::prompt_model_step(cache, requested);
            &&& name.len() == 0 ==> step == ModelStepView::Settled(None)
            &&& step is AskProviders ==> name.len() > 0 && !name.contains('/')
            &&& name.len() > 0 && name.contains('/') ==> step is Settled
            &&& cache matches Some(config) ==> {
                let offered = models::offered_model(config, requested);
                &&& offered is Some ==> step == ModelStepView::Settled(offered)
                &&& offered is None && name.len() > 0 && !name.contains('/') ==> step is AskProviders
                &&& offered is None && name.contains('/') ==> step == ModelStepView::Settled(None)
            }
            &&& cache is None && name.len() > 0 && !name.contains('/') ==> step is AskProviders
            &&& cache is None && name.contains('/') ==> step == ModelStepView::Settled(models::named_model(name))
        }),
{
    let name = text::trim_of(requested);
    models::lemma_trim_twice(requested);
    if !name.contains('/') {
        lemma_no_slash(name, 0);
    } else {
        let at = choose|at: int| 0 <= at < name.len() && name[at] == '/';
        lemma_slash_found(name, at, 0);
        assert(name.len() > 0);
    }
}

proof fn lemma_slash_found(s: Seq<char>, at: int, from: int)
    requires
        0 <= from <= at < s.len(),
        s[at] == '/',
    ensures
        text::char_from(s, '/', from) is Some,
    decreases at - from,
{
    if from < at {
        lemma_slash_found(s, at, from + 1);
    }
}

/// After the providers were asked for, the model for a prompt is the one that they offer, and none
/// where they could not be had; the same holds of the bare name of a background prompt.
pub proof fn law_asked_providers_settle_the_model(config: JsonView, requested: Seq<char>)
    ensures
        models::prompt_model_found(None, requested) is None,
        models::prompt_model_found(Some(config), requested) == models::offered_model(config, requested),
        models::background_model_found(None, requested) is None,
        models::background_model_found(Some(config), requested) == models::unqualified_model(
            config,
            text::trim_of(requested),
        ),
{
    models::lemma_trim_twice(requested);
}

/// The model for a background prompt is the one that is named, where the name tells a provider;
/// any other name is looked up in the providers that were kept, or else they are asked for; where
/// none is named, there is none.
pub proof fn law_background_model_is_settled_or_asked_for(kept: Option<JsonView>, requested: Option<Seq<char>>)
    ensures
        ({
            let step = models::background_model_step(kept, requested);
            &&& requested is None ==> step == ModelStepView::Settled(None)
            &&& requested matches Some(raw) ==> {
                let name = text::trim_of(raw);
                let named = models::named_model(name);
                &&& name.len() == 0 ==> step == ModelStepView::Settled(None)
                &&& name.len() > 0 && named is Some ==> step == ModelStepView::Settled(named)
                &&& name.len() > 0 && named is None && kept is None ==> step is AskProviders
                &&& name.len() > 0 && named is None ==> (kept matches Some(config) ==> step == ModelStepView::Settled(
                    models::unqualified_model(config, name),
                ))
            }
        }),
{
}

/// The providers that were asked for are used before those that were kept, and nothing is offered
/// where there are neither.
pub proof fn law_fresh_providers_are_used_first(fresh: Option<JsonView>, kept: Option<JsonView>)
    ensures
        fresh matches Some(f) ==> models::used_providers(fresh, kept) == f,
        fresh is None ==> (kept matches Some(k) ==> models::used_providers(fresh, kept) == k),
        fresh is None && kept is None ==> configured(models::used_providers(fresh, kept)).len() == 0,
{
    broadcast use reading::group_reading;
}

// ---------------------------------------------------------------------------
// Lists of models
// ---------------------------------------------------------------------------

/// The row of a model shows the name under which the provider lists it, or else its own, behind
/// the provider's; a model without a name has no row.
pub proof fn law_row_shows_its_model(provider_id: Seq<char>, default_id: Seq<char>, key: Seq<char>, model: JsonView)
    ensures
        ({
            let shown = models::model_row(provider_id, default_id, key, model);
            let id = if text::trim_of(key).len() > 0 {
                text::trim_of(key)
            } else {
                called(model)
            };
            &&& shown is Some <==> id.len() > 0
            &&& shown matches Some(row) ==> {
                &&& row.get("id"@) == reading::found(provider_id + "/"@ + id)
                &&& row.get("model"@) == reading::found(id)
                &&& row.get("provider"@) == reading::found(provider_id)
                &&& row.get("displayName"@) == reading::found(
                    text::trim_of(
                        match model.get("name"@) {
                            Some(JsonView::Text(name)) => name,
                            _ => id,
                        },
                    ),
                )
                &&& row.get("description"@) == reading::found(Seq::empty())
                &&& row.get("isDefault"@) == Some(JsonView::Bool(id == default_id || called(model) == default_id))
            }
        }),
{
    broadcast use reading::group_reading;
    lemma_model_names();
    lemma_called(model);
    assert(""@ =~= Seq::<char>::empty());
}

/// The row of a model shows the efforts that it can be asked for, in their order; a medium one is
/// chosen at first, or else a high one.
pub proof fn law_row_shows_the_efforts(
    provider_id: Seq<char>,
    default_id: Seq<char>,
    key: Seq<char>,
    model: JsonView,
    i: int,
)
    ensures
        models::model_row(provider_id, default_id, key, model) matches Some(row) ==> {
            let variants = match model.get("variants"@) {
                Some(JsonView::Object(entries)) => entries,
                _ => Seq::empty(),
            };
            let medium = reading::within(model.get("variants"@), "medium"@);
            let high = reading::within(model.get("variants"@), "high"@);
            &&& row.get("supportedReasoningEfforts"@) matches Some(JsonView::Array(efforts)) && efforts.len()
                == variants.len() && (0 <= i < efforts.len() ==> efforts[i].get("reasoningEffort"@) == reading::found(
                variants[i].0,
            ) && efforts[i].get("description"@) == reading::found(Seq::empty()))
            &&& medium is Some ==> row.get("defaultReasoningEffort"@) == reading::found("medium"@)
            &&& medium is None && high is Some ==> row.get("defaultReasoningEffort"@) == reading::found("high"@)
            &&& medium is None && high is None ==> row.get("defaultReasoningEffort"@) == Some(JsonView::Null)
        },
{
    broadcast use reading::group_reading;
    lemma_model_names();
    assert(""@ =~= Seq::<char>::empty());
    if let Some(JsonView::Object(entries)) = model.get("variants"@) {
        json::lemma_entry_from(entries, "medium"@, 0);
        json::lemma_entry_from(entries, "high"@, 0);
    }
}

proof fn lemma_rows_behind(
    rows: Seq<JsonView>,
    provider_id: Seq<char>,
    default_id: Seq<char>,
    entries: Seq<(Seq<char>, JsonView)>,
)
    ensures
        models::rows_with_models(rows, provider_id, default_id, entries) == rows + models::rows_with_models(
            Seq::empty(),
            provider_id,
            default_id,
            entries,
        ),
    decreases entries.len(),
{
    if entries.len() > 0 {
        lemma_rows_behind(rows, provider_id, default_id, entries.drop_last());
    }
    assert(models::rows_with_models(rows, provider_id, default_id, entries) =~= rows + models::rows_with_models(
        Seq::empty(),
        provider_id,
        default_id,
        entries,
    ));
}

/// The rows of a provider's models stand one behind the other, in the order of its list.
pub proof fn law_models_keep_their_order(
    provider_id: Seq<char>,
    default_id: Seq<char>,
    a: Seq<(Seq<char>, JsonView)>,
    b: Seq<(Seq<char>, JsonView)>,
)
    ensures
        models::rows_with_models(Seq::empty(), provider_id, default_id, a + b) == models::rows_with_models(
            Seq::empty(),
            provider_id,
            default_id,
            a,
        ) + models::rows_with_models(Seq::empty(), provider_id, default_id, b),
    decreases b.len(),
{
    if b.len() == 0 {
        assert(a + b =~= a);
    } else {
        law_models_keep_their_order(provider_id, default_id, a, b.drop_last());
        assert((a + b).drop_last() =~= a + b.drop_last());
        assert((a + b).last() == b.last());
    }
    assert(models::rows_with_models(Seq::empty(), provider_id, default_id, a + b) =~= models::rows_with_models(
        Seq::empty(),
        provider_id,
        default_id,
        a,
    ) + models::rows_with_models(Seq::empty(), provider_id, default_id, b));
}

/// The rows of the providers stand one behind the other, in their order.
pub proof fn law_rows_of_providers_keep_their_order(a: Seq<JsonView>, b: Seq<JsonView>, defaults: Option<JsonView>)
    ensures
        models::provider_rows(defaults, a + b)
            == models::provider_rows(defaults, a) + models::provider_rows(defaults, b),
        models::provider_rows(defaults, Seq::empty()).len() == 0,
    decreases b.len(),
{
    if b.len() == 0 {
        assert(a + b =~= a);
        assert(models::provider_rows(defaults, a) + models::provider_rows(defaults, b)
            =~= models::provider_rows(defaults, a));
    } else {
        let init = b.drop_last();
        lemma_provider_behind(models::provider_rows(defaults, a + init), defaults, b.last());
        lemma_provider_behind(models::provider_rows(defaults, init), defaults, b.last());
        law_rows_of_providers_keep_their_order(a, init, defaults);
        assert((a + b).drop_last() =~= a + init);
        assert((a + b).last() == b.last());
        assert(models::provider_rows(defaults, a + b)
            =~= models::provider_rows(defaults, a)
            + models::provider_rows(defaults, b));
    }
}

proof fn lemma_provider_behind(rows: Seq<JsonView>, defaults: Option<JsonView>, provider: JsonView)
    ensures
        models::rows_with_provider(rows, defaults, provider) == rows + models::rows_with_provider(
            Seq::empty(),
            defaults,
            provider,
        ),
{
    let id = text::text_or(provider.get_str("id"@), ""@);
    let default_id = text::text_or(json::as_str_of(json::get_of(defaults, id)), ""@);
    lemma_rows_behind(rows, id, default_id, models::entries_of(provider.get("models"@)));
}

/// A model of a provider has the row with that provider's identifier, and is the default where it
/// is the one that the defaults tell for that provider.
pub proof fn law_model_of_a_provider_has_its_row(config: JsonView, provider: JsonView, key: Seq<char>, model: JsonView)
    requires
        configured(config) == seq![provider],
        listed(provider) == seq![(key, model)],
    ensures
        ({
            let id = reading::string_at(provider, "id"@);
            let default_id = match reading::within(config.get("default"@), id) {
                Some(JsonView::Text(d)) => d,
                _ => Seq::empty(),
            };
            models::model_rows(config) == (match models::model_row(id, default_id, key, model) {
                Some(row) => seq![row],
                None => Seq::<JsonView>::empty(),
            })
        }),
{
    lemma_model_names();
    assert(""@ =~= Seq::<char>::empty());
    reveal_with_fuel(models::provider_rows, 2);
    reveal_with_fuel(models::rows_with_models, 2);
    assert(seq![provider].drop_last() =~= Seq::<JsonView>::empty());
    assert(seq![(key, model)].drop_last() =~= Seq::<(Seq<char>, JsonView)>::empty());
    let id = reading::string_at(provider, "id"@);
    let default_id = match reading::within(config.get("default"@), id) {
        Some(JsonView::Text(d)) => d,
        _ => Seq::empty(),
    };
    if let Some(row) = models::model_row(id, default_id, key, model) {
        assert(Seq::<JsonView>::empty().push(row) =~= seq![row]);
    }
}

/// The rows of a configuration are those of its providers, with its defaults.
pub proof fn law_rows_are_those_of_the_providers(config: JsonView)
    ensures
        models::model_rows(config) == models::provider_rows(config.get("default"@), configured(config)),
        reading::within(models::model_list_response(config).get("result"@), "data"@) == Some(
            JsonView::Array(models::model_rows(config)),
        ),
{
    broadcast use reading::group_reading;
    lemma_model_names();
    assert(models::providers_of(config) =~= configured(config));
}

// ---------------------------------------------------------------------------
// What is known of the models
// ---------------------------------------------------------------------------

/// What stands under a name, or nothing.
pub open spec fn or_nothing(o: Option<JsonView>) -> Option<JsonView> {
    match o {
        Some(v) => Some(v),
        None => Some(JsonView::Null),
    }
}

/// A note tells of a model what it holds, and the name under which it is listed.
pub proof fn law_note_tells_its_model(key: Seq<char>, model: JsonView)
    ensures
        ({
            let note = models::model_note(key, model);
            &&& note.get("key"@) == reading::found(key)
            &&& note.get("nestedId"@) == reading::found(reading::string_at(model, "id"@))
            &&& note.get("name"@) == or_nothing(model.get("name"@))
            &&& note.get("status"@) == or_nothing(model.get("status"@))
            &&& note.get("providerID"@) == or_nothing(model.get("providerID"@))
        }),
{
    broadcast use reading::group_reading;
    lemma_model_names();
    assert(""@ =~= Seq::<char>::empty());
}

/// There is a note of each listed model, and they stand in the order of the names.
pub proof fn law_notes_stand_by_name(entries: Seq<(Seq<char>, JsonView)>, i: int, k: int)
    ensures
        ({
            let notes = models::sorted_model_notes(entries);
            &&& notes.len() == entries.len()
            &&& 0 <= i < entries.len() ==> exists|l: int|
                0 <= l < notes.len() && #[trigger] notes[l] == models::model_note(entries[i].0, entries[i].1)
            &&& 0 <= i < k < notes.len() ==> (notes[i].get("key"@) matches Some(JsonView::Text(x)) && notes[k].get(
                "key"@,
            ) matches Some(JsonView::Text(y)) && text::text_le(x, y))
        }),
{
    broadcast use reading::group_reading;
    lemma_model_names();
    let keys = models::entry_keys(entries);
    let order = sort::sorted_order(entries.len(), sort::text_less(keys));
    let notes = models::sorted_model_notes(entries);
    sort::law_sorting_permutes(entries.len(), sort::text_less(keys));
    sort::law_texts_are_an_order(keys);
    sort::law_sorting_sorts_and_is_stable(entries.len(), sort::text_less(keys));
    if 0 <= i < entries.len() {
        sort::lemma_permutation_reaches(order, entries.len(), i);
        let l = choose|l: int| 0 <= l < entries.len() && #[trigger] order[l] == i;
        assert(notes[l] == models::model_note(entries[i].0, entries[i].1));
    }
    if 0 <= i < k < notes.len() {
        let less = sort::text_less(keys);
        assert(!less(order[k], order[i]));
        text::lemma_text_le_total(keys[order[i]]->0, keys[order[k]]->0);
    }
}

/// What is known of a provider tells its identifier, its name, its default, and its models.
pub proof fn law_provider_note_tells_the_provider(config: JsonView, i: int)
    requires
        0 <= i < configured(config).len(),
    ensures
        ({
            let provider = configured(config)[i];
            let id = reading::string_at(provider, "id"@);
            models::model_list_debug(config).get("providers"@) matches Some(JsonView::Array(notes)) && {
                &&& notes.len() == configured(config).len()
                &&& notes[i].get("id"@) == reading::found(id)
                &&& notes[i].get("name"@) == or_nothing(provider.get("name"@))
                &&& notes[i].get("defaultFromConfig"@) == or_nothing(reading::within(config.get("default"@), id))
                &&& notes[i].get("modelCount"@) == Some(
                    JsonView::Number(NumberView::Unsigned(listed(provider).len() as u64)),
                )
                &&& notes[i].get("models"@) == Some(JsonView::Array(models::sorted_model_notes(listed(provider))))
            }
        }),
{
    broadcast use reading::group_reading;
    lemma_model_names();
    assert(""@ =~= Seq::<char>::empty());
    assert(models::providers_of(config) =~= configured(config));
}

/// What is known of the models is counted, and shows the rows of the list.
pub proof fn law_debug_shows_the_rows(config: JsonView)
    ensures
        ({
            let shown = models::model_list_debug(config);
            &&& shown.get("source"@) == reading::found("/config/providers"@)
            &&& shown.get("transformed"@) == Some(JsonView::Array(models::model_rows(config)))
            &&& shown.get("providerCount"@) == Some(
                JsonView::Number(NumberView::Unsigned(configured(config).len() as u64)),
            )
            &&& shown.get("transformedCount"@) == Some(
                JsonView::Number(NumberView::Unsigned(models::model_rows(config).len() as u64)),
            )
        }),
{
    broadcast use reading::group_reading;
    lemma_model_names();
    assert(models::providers_of(config) =~= configured(config));
}

} // verus!
