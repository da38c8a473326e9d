//! What a transaction comes to, part by part: the headers that expressions
//! see, the inputs that are bound to them, the configurations that are active,
//! and the entries that these leave in the queue.

use pdk::authentication::AuthenticationData;
use pdk::script::{Evaluator, Script, ScriptParser};
use vstd::prelude::*;
use crate::attributes::{
    header_value, kept, snapshot, status_model, str_model, text_model, visible_map, Header,
    OwnedAttributes,
};
use crate::config::{setting, LoggingConfigurations0Config};
use crate::json::{json_of, json_text};
use crate::laws::records::one_if;
use crate::laws::{last_of_name, lemma_pseudo_names, lemma_visible_map};
use crate::otel::{level_of, EntryModel};
use crate::policy::{
    active_in, activity, admitted, bindings, config_need, configs, emission, emission_models,
    emission_returns, emissions, is_run, line, message_outcome, moment, outcome, passes, phase_need,
    phase_need_returns, phase_returns, recorded_status, trace, Bindings, Emission, EmissionModel,
    Moment, PhaseRun, RequestContext,
};
use crate::script::{
    attributes_bound, attributes_return, authentication_bound, authentication_returns, body_model,
    cheap_inputs_bound, cheap_inputs_return, compilation, compilation_returns, evaluation,
    evaluation_returns, evaluator_of, evaluator_ready, evaluator_value, payload_bound,
    payload_need, payload_returns, policy_inputs, rendered, ScriptInput, ScriptValue,
};
use crate::text::{decimal, lower};

verus! {

/// Whether `part` is made of the items of `whole` at the given places, in
/// order.
pub open spec fn picked<A>(part: Seq<A>, whole: Seq<A>, places: Seq<int>) -> bool {
    &&& places.len() == part.len()
    &&& forall|k: int|
        0 <= k < part.len() ==> 0 <= #[trigger] places[k] < whole.len() && part[k]
            == whole[places[k]]
    &&& forall|k: int, l: int| 0 <= k < l < places.len() ==> places[k] < places[l]
}

proof fn lemma_filter_picks<A>(whole: Seq<A>, keep: spec_fn(A) -> bool) -> (places: Seq<int>)
    ensures
        picked(whole.filter(keep), whole, places),
        forall|j: int|
            0 <= j < whole.len() ==> (#[trigger] places.contains(j) <==> keep(whole[j])),
    decreases whole.len(),
{
    reveal(Seq::filter);
    if whole.len() == 0 {
        assert(whole.filter(keep) =~= whole);
        Seq::empty()
    } else {
        let init = whole.drop_last();
        let n = whole.len() - 1;
        let before = lemma_filter_picks(init, keep);
        let places = if keep(whole.last()) {
            before.push(n)
        } else {
            before
        };
        assert forall|k: int| 0 <= k < before.len() implies init[before[k]] == whole[before[k]]
            && before[k] < n by {}
        assert forall|j: int| 0 <= j < whole.len() implies (#[trigger] places.contains(j)
            <==> keep(whole[j])) by {
            if j < n {
                assert(before.contains(j) <==> keep(init[j]));
                if before.contains(j) {
                    let k = choose|k: int| 0 <= k < before.len() && before[k] == j;
                    assert(places[k] == j);
                }
                if places.contains(j) {
                    let k = choose|k: int| 0 <= k < places.len() && places[k] == j;
                    assert(k < before.len());
                    assert(before[k] == j);
                }
            } else {
                if keep(whole.last()) {
                    assert(places[before.len() as int] == n);
                }
                if places.contains(n) && !keep(whole.last()) {
                    let k = choose|k: int| 0 <= k < before.len() && before[k] == n;
                    assert(before[k] < n);
                }
            }
        }
        assert(picked(whole.filter(keep), whole, places));
        places
    }
}

// ---- headers ----

/// Whether two characters are the same but for the case of an ASCII letter.
pub open spec fn same_letter(a: char, b: char) -> bool {
    ||| a == b
    ||| 'A' <= a <= 'Z' && b as int == a as int + 32
    ||| 'A' <= b <= 'Z' && a as int == b as int + 32
}

/// Whether two texts are the same but for the case of ASCII letters.
pub open spec fn same_name(a: Seq<char>, b: Seq<char>) -> bool {
    &&& a.len() == b.len()
    &&& forall|i: int| 0 <= i < a.len() ==> same_letter(#[trigger] a[i], b[i])
}

proof fn lemma_same_name(a: Seq<char>, b: Seq<char>)
    ensures
        lower(a) == lower(b) <==> same_name(a, b),
{
    if lower(a) == lower(b) {
        assert(lower(a).len() == a.len() && lower(b).len() == b.len());
        assert forall|i: int| 0 <= i < a.len() implies same_letter(#[trigger] a[i], b[i]) by {
            assert(lower(a)[i] == lower(b)[i]);
        }
    }
    if same_name(a, b) {
        assert forall|i: int| 0 <= i < a.len() implies lower(a)[i] == lower(b)[i] by {
            assert(same_letter(a[i], b[i]));
        }
        assert(lower(a) =~= lower(b));
    }
}

/// What attributes are taken to hold are their headers, each with its name and
/// its value; an absent text is none, and a status is its number.
pub proof fn law_attributes_say_their_headers(
    attrs: OwnedAttributes,
    text: Option<String>,
    str_text: Option<&str>,
    status: Option<u32>,
)
    ensures
        attrs@.len() == attrs.headers@.len(),
        forall|i: int|
            #![trigger attrs@[i]]
            0 <= i < attrs@.len() ==> attrs@[i].0 == attrs.headers@[i].0@ && attrs@[i].1
                == attrs.headers@[i].1@,
        text is None <==> text_model(text) is None,
        text matches Some(t) ==> text_model(text) == Some(t@),
        str_text is None <==> str_model(str_text) is None,
        str_text matches Some(t) ==> str_model(str_text) == Some(t@),
        status is None <==> status_model(status) is None,
        status matches Some(s) ==> status_model(status) == Some(s as nat),
{
}

/// A lookup gives the value of the first header whose name is the key but for
/// the case of letters, and nothing where there is none.
pub proof fn law_lookup_gives_the_first(headers: Seq<Header>, key: Seq<char>)
    ensures
        forall|i: int|
            #![trigger headers[i]]
            0 <= i < headers.len() && same_name(headers[i].0, key) && (forall|j: int|
                0 <= j < i ==> !same_name((#[trigger] headers[j]).0, key)) ==> header_value(
                headers,
                key,
            ) == Some(headers[i].1),
        (forall|j: int| 0 <= j < headers.len() ==> !same_name((#[trigger] headers[j]).0, key))
            ==> header_value(headers, key) is None,
    decreases headers.len(),
{
    if headers.len() > 0 {
        let rest = headers.drop_first();
        law_lookup_gives_the_first(rest, key);
        lemma_same_name(headers[0].0, key);
        assert forall|i: int|
            #![trigger headers[i]]
            0 <= i < headers.len() && same_name(headers[i].0, key) && (forall|j: int|
                0 <= j < i ==> !same_name((#[trigger] headers[j]).0, key)) implies header_value(
            headers,
            key,
        ) == Some(headers[i].1) by {
            if i > 0 {
                assert(!same_name(headers[0].0, key));
                assert(rest[i - 1] == headers[i]);
                assert forall|j: int| 0 <= j < i - 1 implies !same_name(
                    (#[trigger] rest[j]).0,
                    key,
                ) by {
                    assert(rest[j] == headers[j + 1]);
                }
            }
        }
        if forall|j: int| 0 <= j < headers.len() ==> !same_name((#[trigger] headers[j]).0, key) {
            assert(!same_name(headers[0].0, key));
            assert forall|j: int| 0 <= j < rest.len() implies !same_name(
                (#[trigger] rest[j]).0,
                key,
            ) by {
                assert(rest[j] == headers[j + 1]);
            }
        }
    }
}

/// Whether a pseudo-header that is given takes the place of a header.
pub open spec fn replaced(
    name: Seq<char>,
    method: Option<Seq<char>>,
    path: Option<Seq<char>>,
    status: Option<nat>,
) -> bool {
    ||| method is Some && same_name(name, ":method"@)
    ||| path is Some && same_name(name, ":path"@)
    ||| status is Some && same_name(name, ":status"@)
}

/// A snapshot holds all headers in order, but for those that a pseudo-header
/// takes the place of; behind them stand the pseudo-headers that are given,
/// each once, with the values that are given.
pub proof fn law_snapshot_place_by_place(
    headers: Seq<Header>,
    method: Option<Seq<char>>,
    path: Option<Seq<char>>,
    status: Option<nat>,
)
    ensures
        ({
            let s = snapshot(headers, method, path, status);
            let m = one_if(method is Some);
            let p = one_if(path is Some);
            let n = s.len() - m - p - one_if(status is Some);
            &&& n >= 0
            &&& exists|places: Seq<int>|
                {
                    &&& #[trigger] picked(s.take(n), headers, places)
                    &&& forall|j: int|
                        0 <= j < headers.len() ==> (#[trigger] places.contains(j) <==> !replaced(
                            headers[j].0,
                            method,
                            path,
                            status,
                        ))
                }
            &&& method matches Some(value) ==> s[n] == (":method"@, value)
            &&& path matches Some(value) ==> s[n + m] == (":path"@, value)
            &&& status matches Some(value) ==> s[n + m + p] == (":status"@, decimal(value))
        }),
{
    let keep = |h: Header| kept(h.0, method is Some, path is Some, status is Some);
    let s = snapshot(headers, method, path, status);
    let rest = headers.filter(keep);
    let n = rest.len() as int;
    let places = lemma_filter_picks(headers, keep);
    lemma_pseudo_names();
    assert forall|j: int| 0 <= j < headers.len() implies (#[trigger] places.contains(j)
        <==> !replaced(headers[j].0, method, path, status)) by {
        lemma_same_name(headers[j].0, ":method"@);
        lemma_same_name(headers[j].0, ":path"@);
        lemma_same_name(headers[j].0, ":status"@);
        assert(places.contains(j) <==> keep(headers[j]));
    }
    assert(s.take(n) =~= rest);
    assert(picked(s.take(n), headers, places));
}

/// The map of headers has exactly the names that do not start with a colon,
/// each with the value of its last occurrence.
pub proof fn law_map_hides_names_with_a_colon(given: Seq<(String, String)>, name: String)
    ensures
        visible_map(given).contains_key(name) <==> !(name@.len() > 0 && name@[0] == ':') && exists|
            i: int,
        |
            0 <= i < given.len() && (#[trigger] given[i]).0 == name,
        forall|i: int|
            !(name@.len() > 0 && name@[0] == ':') && #[trigger] last_of_name(given, name, i)
                ==> visible_map(given)[name] == given[i].1,
{
    lemma_visible_map(given, name);
    if exists|i: int| 0 <= i < given.len() && (#[trigger] given[i]).0 == name {
        let i = choose|i: int| 0 <= i < given.len() && (#[trigger] given[i]).0 == name;
        lemma_last_occurrence(given, name, i);
    }
}

/// A name that occurs has a last occurrence.
proof fn lemma_last_occurrence(headers: Seq<(String, String)>, name: String, i: int)
    requires
        0 <= i < headers.len(),
        headers[i].0 == name,
    ensures
        exists|k: int| #[trigger] last_of_name(headers, name, k),
    decreases headers.len() - i,
{
    if !last_of_name(headers, name, i) {
        let j = choose|j: int| i < j < headers.len() && (#[trigger] headers[j]).0 == name;
        lemma_last_occurrence(headers, name, j);
    }
}

// ---- expressions ----

/// An expression may refer to every input there is, and each is declared once.
pub proof fn law_every_input_is_declared(input: ScriptInput)
    ensures
        policy_inputs().contains(input),
        policy_inputs().no_duplicates(),
        policy_inputs().len() == 5,
{
    let all = policy_inputs();
    assert(all[0] == ScriptInput::Attributes);
    assert(all[1] == ScriptInput::Authentication);
    assert(all[2] == ScriptInput::JsonPayload);
    assert(all[3] == ScriptInput::XmlPayload);
    assert(all[4] == ScriptInput::TextPayload);
}

/// A value comes out of an evaluation only this way: the headers are bound, all
/// of them; then the authentication, where the evaluation is not ready; then
/// the body, whole, where it still is not and there is one. An evaluation that
/// never is ready has no value.
pub proof fn law_evaluation_binds_every_input_it_needs(
    script: &Script,
    headers: Seq<Header>,
    auth: Option<AuthenticationData>,
    body: Option<&[u8]>,
    value: Option<ScriptValue>,
)
    requires
        evaluation(script, headers, auth, body_model(body), value),
    ensures
        exists|a: Evaluator<'_>, b: Evaluator<'_>, c: Evaluator<'_>|
            {
                &&& #[trigger] attributes_bound(evaluator_of(script), headers, a)
                &&& evaluator_ready(a) ==> b == a
                &&& !evaluator_ready(a) ==> authentication_bound(a, auth, b)
                &&& #[trigger] evaluator_ready(b) ==> c == b
                &&& body is None ==> c == b
                &&& !evaluator_ready(b) ==> (body matches Some(bytes) ==> payload_bound(
                    b,
                    bytes@,
                    c,
                ))
                &&& value == #[trigger] evaluator_value(c)
                &&& !evaluator_ready(c) ==> value is None
            },
{
    let whole = body_model(body);
    let (b, c) = choose|b: Evaluator<'_>, c: Evaluator<'_>|
        {
            &&& #[trigger] cheap_inputs_bound(script, headers, auth, b)
            &&& match whole {
                Some(bytes) if !evaluator_ready(b) => payload_bound(b, bytes, c),
                _ => c == b,
            }
            &&& value == #[trigger] evaluator_value(c)
            &&& !evaluator_ready(c) ==> value is None
        };
    let a = choose|a: Evaluator<'_>|
        {
            &&& #[trigger] attributes_bound(evaluator_of(script), headers, a)
            &&& if evaluator_ready(a) {
                b == a
            } else {
                authentication_bound(a, auth, b)
            }
        };
    assert(evaluator_ready(b) || !evaluator_ready(b));
    assert(attributes_bound(evaluator_of(script), headers, a) && value == evaluator_value(c));
}

/// A script is found to need the payload exactly where its evaluation is not
/// ready once the headers are bound and, unless it was ready by then, the
/// authentication.
pub proof fn law_payload_is_needed_where_not_ready(
    script: &Script,
    headers: Seq<Header>,
    auth: Option<AuthenticationData>,
    needed: bool,
)
    requires
        payload_need(script, headers, auth, needed),
    ensures
        exists|a: Evaluator<'_>, b: Evaluator<'_>|
            {
                &&& #[trigger] attributes_bound(evaluator_of(script), headers, a)
                &&& evaluator_ready(a) ==> b == a
                &&& !evaluator_ready(a) ==> authentication_bound(a, auth, b)
                &&& needed == !(#[trigger] evaluator_ready(b))
            },
{
    let b = choose|b: Evaluator<'_>|
        {
            &&& #[trigger] cheap_inputs_bound(script, headers, auth, b)
            &&& needed == !evaluator_ready(b)
        };
    let a = choose|a: Evaluator<'_>|
        {
            &&& #[trigger] attributes_bound(evaluator_of(script), headers, a)
            &&& if evaluator_ready(a) {
                b == a
            } else {
                authentication_bound(a, auth, b)
            }
        };
    assert(attributes_bound(evaluator_of(script), headers, a) && needed == !evaluator_ready(b));
}

/// Where the engine does not panic, nothing more is asked of an expression, a
/// configuration or a phase before it is evaluated.
pub proof fn law_only_a_panic_is_ruled_out(
    parser: ScriptParser<'_>,
    script: &Script,
    active: Seq<LoggingConfigurations0Config>,
    on: Bindings,
)
    requires
        exists|outcome: Option<Script>| compilation(parser, outcome),
        forall|e: Evaluator<'_>, h: Seq<Header>|
            #![trigger attributes_return(e, h)]
            exists|f: Evaluator<'_>| attributes_bound(e, h, f),
        forall|e: Evaluator<'_>, a: Option<AuthenticationData>|
            #![trigger authentication_returns(e, a)]
            exists|f: Evaluator<'_>| authentication_bound(e, a, f),
        forall|e: Evaluator<'_>, b: Seq<u8>|
            #![trigger payload_returns(e, b)]
            exists|f: Evaluator<'_>| payload_bound(e, b, f),
    ensures
        compilation_returns(parser),
        cheap_inputs_return(script, on.headers, on.auth),
        evaluation_returns(script, on.headers, on.auth, on.body),
        phase_returns(active, on),
        phase_need_returns(active, on.headers, on.auth),
        forall|i: int| 0 <= i < active.len() ==> emission_returns(#[trigger] active[i], on),
{
}

/// What a value renders to: a text is as it is, null is nothing, a truth value
/// is its word, and everything else is its JSON.
pub proof fn law_values_render_as_they_are(value: ScriptValue)
    ensures
        value matches ScriptValue::Text(text) ==> rendered(value) == text@,
        value is Null ==> rendered(value).len() == 0,
        value matches ScriptValue::Bool(b) ==> rendered(value) == if b {
            "true"@
        } else {
            "false"@
        },
        value matches ScriptValue::Json(json) ==> rendered(value) == json_text(json_of(json)),
{
}

// ---- which configurations, and whether the body ----

/// In the response phase exactly those configurations are active that do not
/// switch it off, in the request phase exactly those that switch it on; what a
/// configuration says of the other phase plays no part. Their order is kept.
pub proof fn law_active_by_their_own_flag(all: Seq<LoggingConfigurations0Config>)
    ensures
        exists|places: Seq<int>|
            {
                &&& #[trigger] picked(active_in(all, true), all, places)
                &&& forall|j: int|
                    0 <= j < all.len() ==> (#[trigger] places.contains(j)
                        <==> all[j].after_calling_api != Some(false))
            },
        exists|places: Seq<int>|
            {
                &&& #[trigger] picked(active_in(all, false), all, places)
                &&& forall|j: int|
                    0 <= j < all.len() ==> (#[trigger] places.contains(j)
                        <==> all[j].before_calling_api == Some(true))
            },
{
    let after = lemma_filter_picks(all, activity(true));
    assert(picked(active_in(all, true), all, after));
    assert forall|j: int| 0 <= j < all.len() implies (#[trigger] after.contains(j)
        <==> all[j].after_calling_api != Some(false)) by {
        assert(activity(true)(all[j]) <==> all[j].after_calling_api != Some(false));
    }
    let before = lemma_filter_picks(all, activity(false));
    assert(picked(active_in(all, false), all, before));
    assert forall|j: int| 0 <= j < all.len() implies (#[trigger] before.contains(j)
        <==> all[j].before_calling_api == Some(true)) by {
        assert(activity(false)(all[j]) <==> all[j].before_calling_api == Some(true));
    }
}

/// The configurations that are referred to are those, one by one.
pub proof fn law_references_stand_for_configurations(active: Seq<&LoggingConfigurations0Config>)
    ensures
        configs(active).len() == active.len(),
        forall|i: int|
            0 <= i < active.len() ==> #[trigger] configs(active)[i] == *active[i],
{
}

/// A phase is found not to need the body only where every message and every
/// conditional of an active configuration can be found not to need it, and is
/// found to need it only where one of them can be found to.
pub proof fn law_body_is_read_for_any_that_needs_it(
    active: Seq<&LoggingConfigurations0Config>,
    headers: Seq<Header>,
    auth: Option<AuthenticationData>,
    needed: bool,
)
    requires
        phase_need(configs(active), headers, auth, needed),
    ensures
        !needed ==> forall|i: int|
            #![trigger active[i]]
            0 <= i < active.len() ==> payload_need(&active[i].message, headers, auth, false) && (
            active[i].conditional matches Some(script) ==> payload_need(
                &script,
                headers,
                auth,
                false,
            )),
        needed ==> exists|i: int|
            #![trigger active[i]]
            0 <= i < active.len() && (payload_need(&active[i].message, headers, auth, true) || (
            active[i].conditional matches Some(script) && payload_need(
                &script,
                headers,
                auth,
                true,
            ))),
        (exists|i: int|
            #![trigger active[i]]
            0 <= i < active.len() && (!payload_need(&active[i].message, headers, auth, false) || (
            active[i].conditional matches Some(script) && !payload_need(
                &script,
                headers,
                auth,
                false,
            )))) ==> needed,
{
    let all = configs(active);
    assert forall|i: int| 0 <= i < active.len() implies #[trigger] all[i] == *active[i] by {}
    if needed {
        let i = choose|i: int|
            0 <= i < all.len() && #[trigger] config_need(all[i], headers, auth, true);
        assert(all[i] == *active[i]);
    } else {
        assert forall|i: int|
            #![trigger active[i]]
            0 <= i < active.len() implies payload_need(&active[i].message, headers, auth, false)
            && (active[i].conditional matches Some(script) ==> payload_need(
            &script,
            headers,
            auth,
            false,
        )) by {
            assert(config_need(all[i], headers, auth, false));
            assert(all[i] == *active[i]);
        }
    }
}

/// A run says what phase it is of and what transaction: its configurations,
/// its phase, its status, its method and path, and the time.
pub proof fn law_run_is_of_its_phase(
    run: PhaseRun<'_>,
    active: Seq<LoggingConfigurations0Config>,
    phase: Seq<char>,
    status: Option<u32>,
    method: Seq<char>,
    path: Seq<char>,
    now_unix_nano: u128,
)
    requires
        is_run(run, active, phase, status, method, path, now_unix_nano),
    ensures
        run.active@.len() == active.len(),
        forall|i: int| 0 <= i < active.len() ==> *(#[trigger] run.active@[i]) == active[i],
        run.phase@ == phase,
        run.status == status,
        run.ctx.method@ == method,
        run.ctx.path@ == path,
        run.now_unix_nano == now_unix_nano,
        recorded_status(run.status) == (match status {
            Some(s) => s,
            None => 0,
        }),
{
    let all = configs(run.active@);
    assert forall|i: int| 0 <= i < active.len() implies *(#[trigger] run.active@[i])
        == active[i] by {
        assert(all[i] == *run.active@[i]);
    }
}

// ---- lines and entries ----

/// A setting is the text that is configured, else its default; a category that
/// is not configured is empty, and a level that is not is `INFO`.
pub proof fn law_settings_stand_as_configured(
    cfg: LoggingConfigurations0Config,
    configured: Option<String>,
    default: Seq<char>,
)
    ensures
        configured matches Some(text) ==> setting(configured, default) == text@,
        configured is None ==> setting(configured, default) == default,
        cfg.level matches Some(level) ==> cfg.level_text() == level@,
        cfg.level is None ==> cfg.level_text() == "INFO"@,
        cfg.category matches Some(category) ==> cfg.category_text() == category@,
        cfg.category is None ==> cfg.category_text().len() == 0,
{
}

/// A line without a category is its text; with one, the category stands in
/// brackets before it, and a space between.
pub proof fn law_line_is_category_and_text(category: Seq<char>, text: Seq<char>)
    ensures
        category.len() == 0 ==> line(category, text) == text,
        category.len() > 0 ==> {
            let l = line(category, text);
            let n = category.len() as int;
            &&& l.len() == n + 3 + text.len()
            &&& l[0] == '['
            &&& l.subrange(1, n + 1) == category
            &&& l[n + 1] == ']'
            &&& l[n + 2] == ' '
            &&& l.subrange(n + 3, l.len() as int) == text
        },
{
    reveal_strlit("[");
    reveal_strlit("] ");
    let l = line(category, text);
    let n = category.len() as int;
    if n > 0 {
        assert(l.subrange(1, n + 1) =~= category);
        assert(l.subrange(n + 3, l.len() as int) =~= text);
    }
}

/// What an entry says that a configuration left, in this phase and transaction
/// and at this time, with this rendered text.
pub open spec fn entry_says(
    entry: EntryModel,
    cfg: LoggingConfigurations0Config,
    text: Seq<char>,
    phase: Seq<char>,
    status: u32,
    ctx: RequestContext,
    now_unix_nano: u128,
) -> bool {
    &&& entry.time_unix_nano == now_unix_nano
    &&& entry.phase == phase
    &&& entry.http_status_code == status
    &&& entry.http_method == ctx.method@
    &&& entry.http_path == ctx.path@
    &&& entry.configuration_name == cfg.configuration_name@
    &&& match cfg.level {
        Some(level) => entry.level == level@,
        None => entry.level == "INFO"@,
    }
    &&& match cfg.category {
        Some(category) => {
            &&& entry.category == category@
            &&& category@.len() == 0 ==> entry.body == text
            &&& category@.len() > 0 ==> entry.body == "["@ + category@ + "] "@ + text
        },
        None => entry.category.len() == 0 && entry.body == text,
    }
}

/// A message that has a value leaves one entry, the last of the queue, which
/// holds what was passed in and what is configured; what waited before it
/// stays, but for the oldest of 10,000. Its line is logged locally too unless
/// that is switched off. A message without a value leaves the queue alone.
pub proof fn law_message_leaves_its_entry(
    cfg: LoggingConfigurations0Config,
    message: Option<ScriptValue>,
    phase: Seq<char>,
    status: u32,
    ctx: RequestContext,
    now_unix_nano: u128,
    before: Seq<EntryModel>,
)
    requires
        before.len() <= 10_000,
    ensures
        ({
            let (result, after) = message_outcome(
                cfg,
                message,
                moment(phase, status, ctx, now_unix_nano),
                before,
            );
            match message {
                None => result == EmissionModel::Failed(cfg.configuration_name@) && after == before,
                Some(value) => {
                    let entry = after[after.len() - 1];
                    &&& result matches EmissionModel::Emitted(local, dropped)
                    &&& dropped <==> before.len() == 10_000
                    &&& after.len() > 0
                    &&& entry_says(entry, cfg, rendered(value), phase, status, ctx, now_unix_nano)
                    &&& before.len() < 10_000 ==> after.drop_last() == before
                    &&& before.len() == 10_000 ==> after.drop_last() == before.drop_first()
                    &&& local is Some <==> cfg.also_log_to_message_logs != Some(false)
                    &&& local matches Some(logged) ==> logged.0 == level_of(entry.level)
                        && logged.1 == entry.body
                },
            }
        }),
{
    if let Some(value) = message {
        let after = message_outcome(
            cfg,
            message,
            moment(phase, status, ctx, now_unix_nano),
            before,
        ).1;
        if before.len() < 10_000 {
            assert(after.drop_last() =~= before);
        } else {
            assert(after.drop_last() =~= before.drop_first());
        }
    }
}

/// A body that may be absent: all its bytes.
pub open spec fn whole(body: Option<&[u8]>) -> Option<Seq<u8>> {
    match body {
        Some(bytes) => Some(bytes@),
        None => None,
    }
}

/// What became of a configuration tells how it came to that. Suppressed, it
/// has a conditional that evaluated to something other than true. Failed, its
/// message has no value; emitted, it has one, and its entry is the last of the
/// queue. Only an emission changes the queue. Everything is evaluated on all
/// the headers, the authentication and the whole body.
pub proof fn law_emission_tells_its_cause(
    cfg: LoggingConfigurations0Config,
    attrs: OwnedAttributes,
    auth: Option<AuthenticationData>,
    body: Option<&[u8]>,
    phase: Seq<char>,
    status: u32,
    ctx: RequestContext,
    now_unix_nano: u128,
    before: Seq<EntryModel>,
    after: Seq<EntryModel>,
    result: EmissionModel,
)
    requires
        before.len() <= 10_000,
        emission(
            cfg,
            bindings(attrs, auth, body),
            moment(phase, status, ctx, now_unix_nano),
            before,
            after,
            result,
        ),
    ensures
        ({
            let bytes = whole(body);
            &&& !(result is Emitted) ==> after == before
            &&& result is Suppressed ==> (cfg.conditional matches Some(script) && exists|
                condition: Option<ScriptValue>,
            |
                condition != Some(ScriptValue::Bool(true)) && #[trigger] evaluation(
                    &script,
                    attrs@,
                    auth,
                    bytes,
                    condition,
                ))
            &&& !(result is Suppressed) ==> (cfg.conditional matches Some(script) ==> evaluation(
                &script,
                attrs@,
                auth,
                bytes,
                Some(ScriptValue::Bool(true)),
            ))
            &&& result matches EmissionModel::Failed(name) ==> name == cfg.configuration_name@
                && evaluation(&cfg.message, attrs@, auth, bytes, None)
            &&& result matches EmissionModel::Emitted(local, dropped) ==> {
                &&& dropped <==> before.len() == 10_000
                &&& after.len() > 0
                &&& before.len() < 10_000 ==> after.drop_last() == before
                &&& before.len() == 10_000 ==> after.drop_last() == before.drop_first()
                &&& exists|value: ScriptValue|
                    {
                        &&& evaluation(&cfg.message, attrs@, auth, bytes, Some(value))
                        &&& entry_says(
                            after[after.len() - 1],
                            cfg,
                            #[trigger] rendered(value),
                            phase,
                            status,
                            ctx,
                            now_unix_nano,
                        )
                    }
                &&& local is Some <==> cfg.also_log_to_message_logs != Some(false)
                &&& local matches Some(logged) ==> logged.0 == level_of(
                    after[after.len() - 1].level,
                ) && logged.1 == after[after.len() - 1].body
            }
        }),
{
    let on = bindings(attrs, auth, body);
    let m = moment(phase, status, ctx, now_unix_nano);
    let (condition, message) = choose|
        condition: Option<ScriptValue>,
        message: Option<ScriptValue>,
    |
        {
            &&& cfg.conditional matches Some(script) ==> evaluation(
                &script,
                on.headers,
                on.auth,
                on.body,
                condition,
            )
            &&& admitted(cfg, condition) ==> evaluation(
                &cfg.message,
                on.headers,
                on.auth,
                on.body,
                message,
            )
            &&& (result, after) == #[trigger] outcome(cfg, condition, message, m, before)
        };
    law_message_leaves_its_entry(cfg, message, phase, status, ctx, now_unix_nano, before);
    assert(on.headers == attrs@ && on.auth == auth && on.body == whole(body));
    if result is Suppressed {
        assert(evaluation(&cfg.conditional->0, attrs@, auth, whole(body), condition));
    }
    if result is Emitted {
        let value = message->0;
        assert(entry_says(
            after[after.len() - 1],
            cfg,
            rendered(value),
            phase,
            status,
            ctx,
            now_unix_nano,
        ));
    }
}

/// A conditional lets a line pass where it evaluated to true, and nowhere else.
pub proof fn law_condition_passes_on_true(condition: Option<ScriptValue>)
    ensures
        passes(condition) <==> condition == Some(ScriptValue::Bool(true)),
{
}

/// A phase evaluates every active configuration, in order and once: the queue
/// that one leaves is the queue that the next one finds, and there is one
/// result for each.
pub proof fn law_phase_evaluates_every_configuration(
    active: Seq<&LoggingConfigurations0Config>,
    on: Bindings,
    moment: Moment,
    before: Seq<EntryModel>,
    after: Seq<EntryModel>,
    results: Seq<Emission>,
)
    requires
        emissions(configs(active), on, moment, before, after, emission_models(results)),
    ensures
        results.len() == active.len(),
        exists|states: Seq<Seq<EntryModel>>|
            {
                &&& states.len() == active.len() + 1
                &&& #[trigger] states[0] == before
                &&& states[active.len() as int] == after
                &&& forall|i: int|
                    #![trigger active[i]]
                    0 <= i < active.len() ==> emission(
                        *active[i],
                        on,
                        moment,
                        states[i],
                        states[i + 1],
                        results[i]@,
                    )
            },
{
    let all = configs(active);
    let models = emission_models(results);
    let states = choose|states: Seq<Seq<EntryModel>>|
        {
            &&& #[trigger] trace(all, on, moment, states, models)
            &&& states[0] == before
            &&& states.last() == after
        };
    assert forall|i: int|
        #![trigger active[i]]
        0 <= i < active.len() implies emission(
        *active[i],
        on,
        moment,
        states[i],
        states[i + 1],
        results[i]@,
    ) by {
        assert(all[i] == *active[i]);
        assert(models[i] == results[i]@);
    }
    assert(states[0] == before);
}

/// What an emission is taken to say is what it holds.
pub proof fn law_emissions_say_what_they_hold(result: Emission)
    ensures
        result is Suppressed <==> result@ is Suppressed,
        result matches Emission::Failed { configuration_name } ==> result@
            == EmissionModel::Failed(configuration_name@),
        result matches Emission::Emitted { local, dropped_oldest } ==> (result@ matches
            EmissionModel::Emitted(said, dropped) && dropped == dropped_oldest && (local is None
            <==> said is None) && (local matches Some(logged) ==> said == Some(
            (logged.level, logged.text@),
        ))),
{
}

} // verus!
