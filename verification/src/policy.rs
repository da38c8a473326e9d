//! The request and response phases: which configurations are active, what
//! each of them renders, and the entries that reach the export queue.

use pdk::authentication::AuthenticationData;
use vstd::prelude::*;
use vstd::string::*;
use crate::attributes::{
    header_model, snapshot, status_model, visible_map, Header, OwnedAttributes,
};
use crate::config::{text_or, Config, LoggingConfigurations0Config};
use crate::otel::{level_of, parse_level, EntryModel, Level, LogEntry};
use crate::queue::{enqueue, enqueued, LogQueue, MAX_BUFFERED_RECORDS};
use crate::script::{
    body_model, cheap_inputs_return, evaluate, evaluation, evaluation_returns, needs_payload,
    payload_need, rendered, value_to_string, ScriptValue,
};

verus! {

/// Request method and path carried to the response phase, whose headers lack
/// them.
#[derive(Clone, Debug)]
pub struct RequestContext {
    pub method: String,
    pub path: String,
}

/// The transaction that a line is rendered in, and when.
pub struct Moment {
    pub phase: Seq<char>,
    pub status: nat,
    pub method: Seq<char>,
    pub path: Seq<char>,
    pub now_unix_nano: nat,
}

/// What the expressions of a configuration are evaluated on.
pub struct Bindings {
    pub headers: Seq<Header>,
    pub auth: Option<AuthenticationData>,
    pub body: Option<Seq<u8>>,
}

/// A line for the message logs of the API instance.
#[derive(Debug)]
pub struct LocalLine {
    pub level: Level,
    pub text: String,
}

/// What became of one configuration in one phase.
#[derive(Debug)]
pub enum Emission {
    /// Its conditional did not evaluate to true.
    Suppressed,
    /// Its message did not evaluate.
    Failed { configuration_name: String },
    /// Its line was queued for export, and is to be logged locally if `local`
    /// holds it. The oldest entry was dropped if the queue was full.
    Emitted { local: Option<LocalLine>, dropped_oldest: bool },
}

/// What an `Emission` says, each text as a sequence of characters.
pub enum EmissionModel {
    Suppressed,
    Failed(Seq<char>),
    Emitted(Option<(Level, Seq<char>)>, bool),
}

impl View for Emission {
    type V = EmissionModel;

    open spec fn view(&self) -> EmissionModel {
        match self {
            Emission::Suppressed => EmissionModel::Suppressed,
            Emission::Failed { configuration_name } => EmissionModel::Failed(configuration_name@),
            Emission::Emitted { local, dropped_oldest } => EmissionModel::Emitted(
                match local {
                    Some(line) => Some((line.level, line.text@)),
                    None => None,
                },
                *dropped_oldest,
            ),
        }
    }
}

/// What each of several emissions says.
pub open spec fn emission_models(emissions: Seq<Emission>) -> Seq<EmissionModel> {
    emissions.map_values(|e: Emission| e@)
}

/// Configurations that are referred to.
pub open spec fn configs(active: Seq<&LoggingConfigurations0Config>) -> Seq<
    LoggingConfigurations0Config,
> {
    active.map_values(|c: &LoggingConfigurations0Config| *c)
}

/// Whether the outcome of a conditional lets a line pass: only true does.
pub open spec fn passes(outcome: Option<ScriptValue>) -> bool {
    outcome matches Some(ScriptValue::Bool(true))
}

/// A rendered text as it is logged: behind its category in brackets, if it
/// has one.
pub open spec fn line(category: Seq<char>, text: Seq<char>) -> Seq<char> {
    if category.len() == 0 {
        text
    } else {
        "["@ + category + "] "@ + text
    }
}

/// The entry of a rendered text.
pub open spec fn entry_for(
    cfg: LoggingConfigurations0Config,
    text: Seq<char>,
    moment: Moment,
) -> EntryModel {
    EntryModel {
        time_unix_nano: moment.now_unix_nano,
        body: line(cfg.category_text(), text),
        level: cfg.level_text(),
        configuration_name: cfg.configuration_name@,
        category: cfg.category_text(),
        phase: moment.phase,
        http_method: moment.method,
        http_path: moment.path,
        http_status_code: moment.status,
    }
}

/// What becomes of a message, given what it evaluated to, and the queue after
/// that.
pub open spec fn message_outcome(
    cfg: LoggingConfigurations0Config,
    message: Option<ScriptValue>,
    moment: Moment,
    queue: Seq<EntryModel>,
) -> (EmissionModel, Seq<EntryModel>) {
    match message {
        None => (EmissionModel::Failed(cfg.configuration_name@), queue),
        Some(value) => {
            let entry = entry_for(cfg, rendered(value), moment);
            let local = if cfg.logs_locally() {
                Some((level_of(entry.level), entry.body))
            } else {
                None
            };
            (
                EmissionModel::Emitted(local, queue.len() >= MAX_BUFFERED_RECORDS),
                enqueued(queue, entry),
            )
        },
    }
}

/// Whether the conditional of a configuration, given what it evaluated to,
/// lets the message through; without one, it passes.
pub open spec fn admitted(cfg: LoggingConfigurations0Config, condition: Option<ScriptValue>) -> bool {
    cfg.conditional is None || passes(condition)
}

/// What becomes of a configuration, given what its expressions evaluated to,
/// and the queue after that.
pub open spec fn outcome(
    cfg: LoggingConfigurations0Config,
    condition: Option<ScriptValue>,
    message: Option<ScriptValue>,
    moment: Moment,
    queue: Seq<EntryModel>,
) -> (EmissionModel, Seq<EntryModel>) {
    if admitted(cfg, condition) {
        message_outcome(cfg, message, moment, queue)
    } else {
        (EmissionModel::Suppressed, queue)
    }
}

/// Whether a configuration can come to this result: its conditional is
/// evaluated if it has one, its message only if that passes, and the result
/// is what follows from the two.
pub open spec fn emission(
    cfg: LoggingConfigurations0Config,
    on: Bindings,
    moment: Moment,
    before: Seq<EntryModel>,
    after: Seq<EntryModel>,
    result: EmissionModel,
) -> bool {
    exists|condition: Option<ScriptValue>, message: Option<ScriptValue>|
        {
            &&& cfg.conditional matches Some(script) ==> evaluation(
                &script,
                on.headers,
                on.auth,
                on.body,
                condition,
            )
            &&& admitted(cfg, condition) ==> evaluation(
                &cfg.message,
                on.headers,
                on.auth,
                on.body,
                message,
            )
            &&& (result, after) == #[trigger] outcome(cfg, condition, message, moment, before)
        }
}

/// Whether the expressions of a configuration evaluate without a panic: its
/// conditional if it has one, and its message wherever that can pass.
pub open spec fn emission_returns(cfg: LoggingConfigurations0Config, on: Bindings) -> bool {
    &&& cfg.conditional matches Some(script) ==> evaluation_returns(
        &script,
        on.headers,
        on.auth,
        on.body,
    )
    &&& forall|condition: Option<ScriptValue>| #[trigger]
        admitted(cfg, condition) && (cfg.conditional matches Some(script) ==> evaluation(
            &script,
            on.headers,
            on.auth,
            on.body,
            condition,
        )) ==> evaluation_returns(&cfg.message, on.headers, on.auth, on.body)
}

/// Whether the expressions of every active configuration evaluate without a
/// panic.
pub open spec fn phase_returns(active: Seq<LoggingConfigurations0Config>, on: Bindings) -> bool {
    forall|i: int| 0 <= i < active.len() ==> emission_returns(#[trigger] active[i], on)
}

/// Whether the active configurations, one after the other, can come to these
/// results and lead the queue through these states.
pub open spec fn trace(
    active: Seq<LoggingConfigurations0Config>,
    on: Bindings,
    moment: Moment,
    states: Seq<Seq<EntryModel>>,
    results: Seq<EmissionModel>,
) -> bool {
    &&& states.len() == active.len() + 1
    &&& results.len() == active.len()
    &&& forall|i: int|
        0 <= i < active.len() ==> emission(
            #[trigger] active[i],
            on,
            moment,
            states[i],
            states[i + 1],
            results[i],
        )
}

/// Whether the active configurations, one after the other, can come to these
/// results.
pub open spec fn emissions(
    active: Seq<LoggingConfigurations0Config>,
    on: Bindings,
    moment: Moment,
    before: Seq<EntryModel>,
    after: Seq<EntryModel>,
    results: Seq<EmissionModel>,
) -> bool {
    exists|states: Seq<Seq<EntryModel>>|
        {
            &&& #[trigger] trace(active, on, moment, states, results)
            &&& states[0] == before
            &&& states.last() == after
        }
}

/// Whether a configuration can be found to need the body, or not to need it.
pub open spec fn config_need(
    cfg: LoggingConfigurations0Config,
    headers: Seq<Header>,
    auth: Option<AuthenticationData>,
    needed: bool,
) -> bool {
    if needed {
        payload_need(&cfg.message, headers, auth, true) || (cfg.conditional matches Some(script)
            && payload_need(&script, headers, auth, true))
    } else {
        payload_need(&cfg.message, headers, auth, false) && (cfg.conditional matches Some(script)
            ==> payload_need(&script, headers, auth, false))
    }
}

/// Whether asking a configuration for its need of the body returns without a
/// panic. Its message is asked first, and its conditional only where the
/// message can be found not to need the body.
pub open spec fn config_need_returns(
    cfg: LoggingConfigurations0Config,
    headers: Seq<Header>,
    auth: Option<AuthenticationData>,
) -> bool {
    &&& cheap_inputs_return(&cfg.message, headers, auth)
    &&& payload_need(&cfg.message, headers, auth, false) ==> (cfg.conditional matches Some(script)
        ==> cheap_inputs_return(&script, headers, auth))
}

/// Whether asking a phase for its need of the body returns without a panic.
/// A configuration is asked only where those before it can be found not to
/// need the body.
pub open spec fn phase_need_returns(
    active: Seq<LoggingConfigurations0Config>,
    headers: Seq<Header>,
    auth: Option<AuthenticationData>,
) -> bool {
    forall|i: int|
        0 <= i < active.len() && phase_need(active.take(i), headers, auth, false)
            ==> config_need_returns(#[trigger] active[i], headers, auth)
}

/// Whether a phase can be found to need the body: as soon as one of its
/// active configurations does.
pub open spec fn phase_need(
    active: Seq<LoggingConfigurations0Config>,
    headers: Seq<Header>,
    auth: Option<AuthenticationData>,
    needed: bool,
) -> bool {
    if needed {
        exists|i: int|
            0 <= i < active.len() && #[trigger] config_need(active[i], headers, auth, true)
    } else {
        forall|i: int|
            0 <= i < active.len() ==> #[trigger] config_need(active[i], headers, auth, false)
    }
}

/// Whether the outcome of a conditional lets a line pass.
pub fn condition_passes(outcome: &Option<ScriptValue>) -> (r: bool)
    ensures
        r == passes(*outcome),
{
    match outcome {
        Some(ScriptValue::Bool(b)) => *b,
        _ => false,
    }
}

/// The line of a rendered text, with its category.
fn compose_line(category: &str, text: String) -> (r: String)
    ensures
        r@ == line(category@, text@),
{
    if category.is_empty() {
        text
    } else {
        let mut composed = String::new();
        composed.append("[");
        composed.append(category);
        composed.append("] ");
        composed.append(text.as_str());
        proof {
            assert(composed@ =~= "["@ + category@ + "] "@ + text@);
        }
        composed
    }
}

/// Queues the line of a message, given what it evaluated to. A message that
/// did not evaluate leaves the queue as it is.
pub fn emit_message(
    queue: &mut LogQueue,
    cfg: &LoggingConfigurations0Config,
    message: Option<ScriptValue>,
    phase: &str,
    status: u32,
    ctx: &RequestContext,
    now_unix_nano: u128,
) -> (r: Emission)
    ensures
        (r@, final(queue)@) == message_outcome(
            *cfg,
            message,
            moment(phase@, status, *ctx, now_unix_nano),
            old(queue)@,
        ),
{
    let text = match message {
        Some(value) => value_to_string(value),
        None => {
            return Emission::Failed { configuration_name: cfg.configuration_name.clone() };
        },
    };
    let level = text_or(&cfg.level, "INFO");
    let category = text_or(&cfg.category, "");
    proof {
        reveal_strlit("");
        assert(category@ =~= cfg.category_text());
    }
    let body = compose_line(category.as_str(), text);
    let local = if cfg.also_log_to_message_logs.unwrap_or(true) {
        Some(LocalLine { level: parse_level(level.as_str()), text: body.clone() })
    } else {
        None
    };
    let entry = LogEntry {
        time_unix_nano: now_unix_nano,
        body,
        level,
        configuration_name: cfg.configuration_name.clone(),
        category,
        phase: phase.to_owned(),
        http_method: ctx.method.clone(),
        http_path: ctx.path.clone(),
        http_status_code: status,
    };
    let dropped_oldest = enqueue(queue, entry);
    Emission::Emitted { local, dropped_oldest }
}

/// The transaction that a line is rendered in.
pub open spec fn moment(
    phase: Seq<char>,
    status: u32,
    ctx: RequestContext,
    now_unix_nano: u128,
) -> Moment {
    Moment {
        phase,
        status: status as nat,
        method: ctx.method@,
        path: ctx.path@,
        now_unix_nano: now_unix_nano as nat,
    }
}

/// What the expressions of a phase are evaluated on.
pub open spec fn bindings(
    attrs: OwnedAttributes,
    auth: Option<AuthenticationData>,
    body: Option<&[u8]>,
) -> Bindings {
    Bindings { headers: attrs@, auth, body: body_model(body) }
}

/// Evaluates one configuration and queues its line. The expression engine must
/// not panic on the expressions that are evaluated.
pub fn emit_entry(
    queue: &mut LogQueue,
    cfg: &LoggingConfigurations0Config,
    attrs: &OwnedAttributes,
    auth: &Option<AuthenticationData>,
    body: Option<&[u8]>,
    phase: &str,
    status: u32,
    ctx: &RequestContext,
    now_unix_nano: u128,
) -> (r: Emission)
    requires
        emission_returns(*cfg, bindings(*attrs, *auth, body)),
    ensures
        emission(
            *cfg,
            bindings(*attrs, *auth, body),
            moment(phase@, status, *ctx, now_unix_nano),
            old(queue)@,
            final(queue)@,
            r@,
        ),
{
    let ghost m = moment(phase@, status, *ctx, now_unix_nano);
    let ghost before = queue@;
    let condition: Option<ScriptValue> = match &cfg.conditional {
        Some(script) => {
            let value = evaluate(script, attrs, auth, body);
            if !condition_passes(&value) {
                proof {
                    assert(outcome(*cfg, value, None, m, before) == (
                        EmissionModel::Suppressed,
                        before,
                    ));
                }
                return Emission::Suppressed;
            }
            value
        },
        None => None,
    };
    proof {
        assert(admitted(*cfg, condition));
    }
    let message = evaluate(&cfg.message, attrs, auth, body);
    let r = emit_message(queue, cfg, message, phase, status, ctx, now_unix_nano);
    proof {
        assert((r@, queue@) == outcome(*cfg, condition, message, m, before));
    }
    r
}

/// Evaluates the active configurations in order. The expression engine must
/// not panic on the expressions that are evaluated.
pub fn run_phase(
    queue: &mut LogQueue,
    active: &[&LoggingConfigurations0Config],
    attrs: &OwnedAttributes,
    auth: &Option<AuthenticationData>,
    body: Option<&[u8]>,
    phase: &str,
    status: u32,
    ctx: &RequestContext,
    now_unix_nano: u128,
) -> (r: Vec<Emission>)
    requires
        phase_returns(configs(active@), bindings(*attrs, *auth, body)),
    ensures
        emissions(
            configs(active@),
            bindings(*attrs, *auth, body),
            moment(phase@, status, *ctx, now_unix_nano),
            old(queue)@,
            final(queue)@,
            emission_models(r@),
        ),
{
    let ghost all = configs(active@);
    let ghost on = bindings(*attrs, *auth, body);
    let ghost m = moment(phase@, status, *ctx, now_unix_nano);
    let ghost before = queue@;
    let ghost mut states: Seq<Seq<EntryModel>> = seq![before];
    let mut result: Vec<Emission> = Vec::new();
    let mut i: usize = 0;
    while i < active.len()
        invariant
            i <= active@.len(),
            result@.len() == i,
            all == configs(active@),
            phase_returns(all, on),
            on == bindings(*attrs, *auth, body),
            m == moment(phase@, status, *ctx, now_unix_nano),
            trace(all.take(i as int), on, m, states, emission_models(result@)),
            states[0] == before,
            states.last() == queue@,
        decreases active@.len() - i,
    {
        let ghost done = emission_models(result@);
        let ghost past = states;
        proof {
            assert(all[i as int] == *active@[i as int]);
        }
        let e = emit_entry(
            queue,
            active[i],
            attrs,
            auth,
            body,
            phase,
            status,
            ctx,
            now_unix_nano,
        );
        result.push(e);
        proof {
            states = states.push(queue@);
            let longer = all.take(i + 1);
            let results = emission_models(result@);
            assert forall|j: int| 0 <= j < longer.len() implies emission(
                #[trigger] longer[j],
                on,
                m,
                states[j],
                states[j + 1],
                results[j],
            ) by {
                if j < i {
                    assert(all.take(i as int)[j] == longer[j]);
                    assert(results[j] == done[j]);
                    assert(states[j] == past[j] && states[j + 1] == past[j + 1]);
                } else {
                    assert(longer[j] == *active@[j]);
                }
            }
        }
        i += 1;
    }
    proof {
        assert(all.take(i as int) =~= all);
    }
    result
}

/// True if any active configuration references `payload`, so the body must be
/// read. The expression engine must not panic on the headers or the
/// authentication.
pub fn phase_needs_body(
    active: &[&LoggingConfigurations0Config],
    attrs: &OwnedAttributes,
    auth: &Option<AuthenticationData>,
) -> (r: bool)
    requires
        phase_need_returns(configs(active@), attrs@, *auth),
    ensures
        phase_need(configs(active@), attrs@, *auth, r),
{
    let ghost all = configs(active@);
    let mut i: usize = 0;
    while i < active.len()
        invariant
            i <= active@.len(),
            all == configs(active@),
            phase_need_returns(all, attrs@, *auth),
            forall|j: int|
                0 <= j < i ==> #[trigger] config_need(all[j], attrs@, *auth, false),
        decreases active@.len() - i,
    {
        let cfg: &LoggingConfigurations0Config = active[i];
        proof {
            assert(all[i as int] == *cfg);
            assert(phase_need(all.take(i as int), attrs@, *auth, false));
        }
        let mut needed = needs_payload(&cfg.message, attrs, auth);
        if !needed {
            if let Some(script) = &cfg.conditional {
                needed = needs_payload(script, attrs, auth);
            }
        }
        proof {
            assert(config_need(all[i as int], attrs@, *auth, needed));
        }
        if needed {
            return true;
        }
        i += 1;
    }
    false
}

/// A phase in which some configuration is active.
#[derive(Debug)]
pub struct PhaseRun<'a> {
    pub active: Vec<&'a LoggingConfigurations0Config>,
    pub phase: &'static str,
    pub status: Option<u32>,
    pub ctx: RequestContext,
    pub now_unix_nano: u128,
}

/// A phase whose headers and authentication are known.
pub struct BoundPhase<'a> {
    pub run: PhaseRun<'a>,
    pub attrs: OwnedAttributes,
    pub auth: Option<AuthenticationData>,
}

/// The status that the records of a phase carry: none is written as zero.
pub open spec fn recorded_status(status: Option<u32>) -> u32 {
    match status {
        Some(s) => s,
        None => 0,
    }
}

/// Which configurations are active in the response phase, or in the request
/// phase.
pub open spec fn activity(response: bool) -> spec_fn(LoggingConfigurations0Config) -> bool {
    |c: LoggingConfigurations0Config|
        if response {
            c.after_api()
        } else {
            c.before_api()
        }
}

/// The configurations that are active in a phase, in order.
pub open spec fn active_in(
    all: Seq<LoggingConfigurations0Config>,
    response: bool,
) -> Seq<LoggingConfigurations0Config> {
    all.filter(activity(response))
}

/// The configurations that are active in the response phase, or in the request
/// phase.
pub fn active_configurations<'a>(config: &'a Config, response: bool) -> (r: Vec<
    &'a LoggingConfigurations0Config,
>)
    ensures
        configs(r@) == active_in(config.logging_configurations@, response),
{
    let ghost all = config.logging_configurations@;
    let ghost wanted = activity(response);
    let mut result: Vec<&'a LoggingConfigurations0Config> = Vec::new();
    let mut i: usize = 0;
    while i < config.logging_configurations.len()
        invariant
            i <= all.len(),
            all == config.logging_configurations@,
            wanted == activity(response),
            configs(result@) == all.take(i as int).filter(wanted),
        decreases all.len() - i,
    {
        let ghost before = result@;
        let cfg: &'a LoggingConfigurations0Config = &config.logging_configurations[i];
        let is_active = if response {
            cfg.after_calling_api.unwrap_or(true)
        } else {
            cfg.before_calling_api.unwrap_or(false)
        };
        if is_active {
            result.push(cfg);
        }
        proof {
            let longer = all.take(i + 1);
            assert(longer.drop_last() =~= all.take(i as int));
            assert(longer.last() == *cfg);
            reveal(Seq::filter);
            if wanted(longer.last()) {
                assert(configs(result@) =~= configs(before).push(longer.last()));
            } else {
                assert(configs(result@) =~= configs(before));
            }
        }
        i += 1;
    }
    proof {
        assert(all.take(i as int) =~= all);
    }
    result
}

/// Whether a run is that of the given phase.
pub open spec fn is_run(
    run: PhaseRun<'_>,
    active: Seq<LoggingConfigurations0Config>,
    phase: Seq<char>,
    status: Option<u32>,
    method: Seq<char>,
    path: Seq<char>,
    now_unix_nano: u128,
) -> bool {
    &&& configs(run.active@) == active
    &&& run.phase@ == phase
    &&& run.status == status
    &&& run.ctx.method@ == method
    &&& run.ctx.path@ == path
    &&& run.now_unix_nano == now_unix_nano
}

/// Begins the request phase: nothing is to be done where no configuration is
/// active in it.
pub fn request_filter<'a>(config: &'a Config, ctx: &RequestContext, now_unix_nano: u128) -> (r:
    Option<PhaseRun<'a>>)
    ensures
        r is None <==> active_in(config.logging_configurations@, false).len() == 0,
        r matches Some(run) ==> is_run(
            run,
            active_in(config.logging_configurations@, false),
            "request"@,
            None,
            ctx.method@,
            ctx.path@,
            now_unix_nano,
        ),
{
    let active = active_configurations(config, false);
    if active.is_empty() {
        return None;
    }
    Some(
        PhaseRun {
            active,
            phase: "request",
            status: None,
            ctx: RequestContext { method: ctx.method.clone(), path: ctx.path.clone() },
            now_unix_nano,
        },
    )
}

/// Begins the response phase: nothing is to be done where no configuration is
/// active in it. Where the request phase handed nothing on, method and path
/// are written as dashes.
pub fn response_filter<'a>(
    config: &'a Config,
    request: Option<RequestContext>,
    status: u32,
    now_unix_nano: u128,
) -> (r: Option<PhaseRun<'a>>)
    ensures
        r is None <==> active_in(config.logging_configurations@, true).len() == 0,
        r matches Some(run) ==> is_run(
            run,
            active_in(config.logging_configurations@, true),
            "response"@,
            Some(status),
            match request {
                Some(ctx) => ctx.method@,
                None => "-"@,
            },
            match request {
                Some(ctx) => ctx.path@,
                None => "-"@,
            },
            now_unix_nano,
        ),
{
    let ctx = match request {
        Some(ctx) => ctx,
        None => RequestContext { method: "-".to_owned(), path: "-".to_owned() },
    };
    let active = active_configurations(config, true);
    if active.is_empty() {
        return None;
    }
    Some(
        PhaseRun { active, phase: "response", status: Some(status), ctx, now_unix_nano },
    )
}

impl<'a> PhaseRun<'a> {
    /// Goes on with the phase, given the live headers and the authentication.
    pub fn bind(
        self,
        headers: Vec<(String, String)>,
        auth: Option<AuthenticationData>,
    ) -> (r: BoundPhase<'a>)
        ensures
            r.run == self,
            r.auth == auth,
            r.attrs@ == snapshot(
                header_model(headers@),
                Some(self.ctx.method@),
                Some(self.ctx.path@),
                status_model(self.status),
            ),
            visible_map(r.attrs.headers@) == visible_map(headers@),
    {
        let attrs = OwnedAttributes::new(
            headers,
            Some(self.ctx.method.as_str()),
            Some(self.ctx.path.as_str()),
            self.status,
        );
        BoundPhase { run: self, attrs, auth }
    }
}

impl<'a> BoundPhase<'a> {
    /// Whether the body is to be read: only if there is one, and some active
    /// configuration needs it. Where there is one, the expression engine must
    /// not panic on the headers or the authentication.
    pub fn wants_body(&self, contains_body: bool) -> (r: bool)
        requires
            contains_body ==> phase_need_returns(
                configs(self.run.active@),
                self.attrs@,
                self.auth,
            ),
        ensures
            !contains_body ==> !r,
            contains_body ==> phase_need(configs(self.run.active@), self.attrs@, self.auth, r),
    {
        contains_body && phase_needs_body(self.run.active.as_slice(), &self.attrs, &self.auth)
    }

    /// Ends the phase, given the body if it was read. The expression engine
    /// must not panic on the expressions that are evaluated.
    pub fn finish(&self, queue: &mut LogQueue, body: Option<&[u8]>) -> (r: Vec<Emission>)
        requires
            phase_returns(
                configs(self.run.active@),
                bindings(self.attrs, self.auth, body),
            ),
        ensures
            emissions(
                configs(self.run.active@),
                bindings(self.attrs, self.auth, body),
                moment(
                    self.run.phase@,
                    recorded_status(self.run.status),
                    self.run.ctx,
                    self.run.now_unix_nano,
                ),
                old(queue)@,
                final(queue)@,
                emission_models(r@),
            ),
    {
        run_phase(
            queue,
            self.run.active.as_slice(),
            &self.attrs,
            &self.auth,
            body,
            self.run.phase,
            self.run.status.unwrap_or(0),
            &self.run.ctx,
            self.run.now_unix_nano,
        )
    }
}

} // verus!
