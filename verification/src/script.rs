//! The expressions of a configuration: their compilation, their lazy
//! evaluation, and the text that a value renders to.
//!
//! The expression engine panics on some expressions, for instance on
//! `substringBeforeLast` with an empty separator and a text that ends in a
//! character of several bytes. What it computes from constants it computes on
//! compilation, the rest as inputs are bound. The functions that call it
//! require that no such panic can come; the caller alone can know that, from
//! the expressions it was configured with.

use pdk::authentication::AuthenticationData;
use pdk::script::{EvaluationError, Evaluator, Expression, Script, ScriptError, ScriptParser};
use vstd::prelude::*;
use crate::attributes::{Header, OwnedAttributes};
use crate::json::{bool_value, json_of, json_text, write_text};

verus! {

/// `pdk::script::Expression`, an expression as it stands in a configuration.
#[verifier::external_type_specification]
#[verifier::external_body]
pub struct ExExpression(pdk::script::Expression);

/// `pdk::script::ScriptParser`, an expression with the inputs declared so far.
#[verifier::external_type_specification]
#[verifier::external_body]
pub struct ExScriptParser<'a>(pdk::script::ScriptParser<'a>);

/// `pdk::script::ScriptError`, why an expression does not compile.
#[verifier::external_type_specification]
#[verifier::external_body]
pub struct ExScriptError(pdk::script::ScriptError);

/// `pdk::script::Script`, a compiled expression.
#[verifier::external_type_specification]
#[verifier::external_body]
pub struct ExScript(pdk::script::Script);

/// `pdk::script::Evaluator`, an evaluation under way.
#[verifier::external_type_specification]
#[verifier::external_body]
pub struct ExEvaluator<'a>(pdk::script::Evaluator<'a>);

/// `pdk::script::EvaluationError`, why an evaluation has no value.
#[verifier::external_type_specification]
#[verifier::external_body]
pub struct ExEvaluationError(pdk::script::EvaluationError);

/// `pdk::authentication::AuthenticationData`, who makes a request.
#[verifier::external_type_specification]
#[verifier::external_body]
pub struct ExAuthenticationData(pdk::authentication::AuthenticationData);

/// A variable that an expression may refer to; the payload is declared once
/// for each format in which it is read.
#[derive(Clone, Copy, Debug, PartialEq, Eq, Structural)]
pub enum ScriptInput {
    Attributes,
    Authentication,
    JsonPayload,
    XmlPayload,
    TextPayload,
}

/// The value of an expression. Numbers, arrays and objects are held as JSON.
#[derive(Debug)]
pub enum ScriptValue {
    Null,
    Bool(bool),
    Text(String),
    Json(serde_json::Value),
}

/// The parser of an expression with the inputs that were declared for it, in
/// order.
pub uninterp spec fn parser_of(expression: &Expression, inputs: Seq<ScriptInput>) -> ScriptParser<
    '_,
>;

/// Whether compiling always returns, and can come to this outcome, no script
/// being an error. It is a relation: what an expression computes from constants
/// is computed here, and may be drawn at random. Where compiling can panic, it
/// holds of no outcome.
pub uninterp spec fn compilation(parser: ScriptParser<'_>, outcome: Option<Script>) -> bool;

/// The evaluation of a script before anything is bound.
pub uninterp spec fn evaluator_of(script: &Script) -> Evaluator<'_>;

/// Whether an evaluation needs nothing more to be bound.
pub uninterp spec fn evaluator_ready(evaluator: Evaluator<'_>) -> bool;

/// Whether binding attributes always returns, and can lead from one evaluation
/// to another. It is a relation: expressions may draw at random. Where the
/// binding can panic, it leads nowhere.
pub uninterp spec fn attributes_bound(
    before: Evaluator<'_>,
    headers: Seq<Header>,
    after: Evaluator<'_>,
) -> bool;

/// Whether binding the authentication always returns, and can lead from one
/// evaluation to another. Where the binding can panic, it leads nowhere.
pub uninterp spec fn authentication_bound(
    before: Evaluator<'_>,
    auth: Option<AuthenticationData>,
    after: Evaluator<'_>,
) -> bool;

/// Whether binding a payload always returns, and can lead from one evaluation
/// to another. Where the binding can panic, it leads nowhere.
pub uninterp spec fn payload_bound(
    before: Evaluator<'_>,
    body: Seq<u8>,
    after: Evaluator<'_>,
) -> bool;

/// Whether compiling an expression returns, be it with an error.
pub open spec fn compilation_returns(parser: ScriptParser<'_>) -> bool {
    exists|outcome: Option<Script>| compilation(parser, outcome)
}

/// Whether binding these attributes returns.
pub open spec fn attributes_return(before: Evaluator<'_>, headers: Seq<Header>) -> bool {
    exists|after: Evaluator<'_>| attributes_bound(before, headers, after)
}

/// Whether binding this authentication returns.
pub open spec fn authentication_returns(
    before: Evaluator<'_>,
    auth: Option<AuthenticationData>,
) -> bool {
    exists|after: Evaluator<'_>| authentication_bound(before, auth, after)
}

/// Whether binding this payload returns.
pub open spec fn payload_returns(before: Evaluator<'_>, body: Seq<u8>) -> bool {
    exists|after: Evaluator<'_>| payload_bound(before, body, after)
}

/// The value that an evaluation has come to, if it has one.
pub uninterp spec fn evaluator_value(evaluator: Evaluator<'_>) -> Option<ScriptValue>;

/// `ScriptingEngine::script`: a parser of the expression with no input
/// declared.
#[verifier::external_body]
fn parser<'a>(expression: &'a Expression) -> (r: ScriptParser<'a>)
    ensures
        r == parser_of(expression, seq![]),
{
    pdk::script::ScriptingEngine::script(expression)
}

/// `ScriptParser::input`: declares one input more and keeps the expression and
/// the inputs declared before.
#[verifier::external_body]
fn declare<'a>(parser: ScriptParser<'a>, input: ScriptInput) -> (r: ScriptParser<'a>)
    ensures
        forall|e: &Expression, inputs: Seq<ScriptInput>|
            parser == #[trigger] parser_of(e, inputs) ==> r == parser_of(e, inputs.push(input)),
{
    parser.input(match input {
        ScriptInput::Attributes => pdk::script::Input::Attributes,
        ScriptInput::Authentication => pdk::script::Input::Authentication,
        ScriptInput::JsonPayload => pdk::script::Input::Payload(pdk::script::Format::Json),
        ScriptInput::XmlPayload => pdk::script::Input::Payload(pdk::script::Format::Xml),
        ScriptInput::TextPayload => pdk::script::Input::Payload(pdk::script::Format::PlainText),
    })
}

/// `ScriptParser::compile`: one of the outcomes that compiling this parser's
/// expression with its inputs can come to. Which of them is left open. It
/// evaluates constants, and the engine can panic on these.
#[verifier::external_body]
fn compile(parser: ScriptParser<'_>) -> (r: Result<Script, ScriptError>)
    requires
        compilation_returns(parser),
    ensures
        compilation(
            parser,
            match r {
                Ok(script) => Some(script),
                Err(_) => None,
            },
        ),
{
    parser.compile()
}

/// `Script::evaluator`: the evaluation of this script, with nothing bound.
#[verifier::external_body]
fn start<'a>(script: &'a Script) -> (r: Evaluator<'a>)
    ensures
        r == evaluator_of(script),
{
    script.evaluator()
}

/// `Evaluator::is_ready`: whether the evaluation needs nothing more.
#[verifier::external_body]
fn is_ready(evaluator: &Evaluator<'_>) -> (r: bool)
    ensures
        r == evaluator_ready(*evaluator),
{
    evaluator.is_ready()
}

/// `Evaluator::bind_attributes`: goes on with the evaluation, given the
/// headers. What it comes to is left open, expressions may draw at random. The
/// engine can panic on the values of headers.
#[verifier::external_body]
fn bind_attributes(evaluator: &mut Evaluator<'_>, attrs: &OwnedAttributes)
    requires
        attributes_return(*old(evaluator), attrs@),
    ensures
        attributes_bound(*old(evaluator), attrs@, *final(evaluator)),
{
    evaluator.bind_attributes(attrs)
}

/// `Evaluator::bind_authentication`: goes on with the evaluation, given who
/// makes the request. What it comes to is left open. The engine can panic on
/// what the authentication holds.
#[verifier::external_body]
fn bind_authentication(evaluator: &mut Evaluator<'_>, auth: &Option<AuthenticationData>)
    requires
        authentication_returns(*old(evaluator), *auth),
    ensures
        authentication_bound(*old(evaluator), *auth, *final(evaluator)),
{
    evaluator.bind_authentication(auth)
}

/// `Evaluator::bind_payload`: goes on with the evaluation, given the body.
/// What it comes to is left open. The engine can panic on what the body holds.
#[verifier::external_body]
fn bind_payload(evaluator: &mut Evaluator<'_>, body: &[u8])
    requires
        payload_returns(*old(evaluator), body@),
    ensures
        payload_bound(*old(evaluator), body@, *final(evaluator)),
{
    evaluator.bind_payload(&body)
}

/// `Evaluator::eval`: the value that the evaluation has come to; an error where
/// it is not ready, or where it has failed.
#[verifier::external_body]
fn finish(evaluator: Evaluator<'_>) -> (r: Result<ScriptValue, EvaluationError>)
    ensures
        r is Ok <==> evaluator_value(evaluator) is Some,
        r is Ok ==> evaluator_value(evaluator) == Some(r->Ok_0),
        !evaluator_ready(evaluator) ==> r is Err,
{
    match evaluator.eval() {
        Ok(pdk::script::Value::Null) => Ok(ScriptValue::Null),
        Ok(pdk::script::Value::Bool(b)) => Ok(ScriptValue::Bool(b)),
        Ok(pdk::script::Value::String(s)) => Ok(ScriptValue::Text(s)),
        Ok(other) => Ok(ScriptValue::Json(serde_json::Value::from(other))),
        Err(e) => Err(e),
    }
}

/// The inputs that the expressions of a configuration may refer to.
pub open spec fn policy_inputs() -> Seq<ScriptInput> {
    seq![
        ScriptInput::Attributes,
        ScriptInput::Authentication,
        ScriptInput::JsonPayload,
        ScriptInput::XmlPayload,
        ScriptInput::TextPayload,
    ]
}

/// Compiles an expression of a configuration. The engine must not panic on its
/// constants.
pub fn compile_script(expression: &Expression) -> (r: Result<Script, ScriptError>)
    requires
        compilation_returns(parser_of(expression, policy_inputs())),
    ensures
        compilation(
            parser_of(expression, policy_inputs()),
            match r {
                Ok(script) => Some(script),
                Err(_) => None,
            },
        ),
{
    let p = parser(expression);
    let p = declare(p, ScriptInput::Attributes);
    let p = declare(p, ScriptInput::Authentication);
    let p = declare(p, ScriptInput::JsonPayload);
    let p = declare(p, ScriptInput::XmlPayload);
    let p = declare(p, ScriptInput::TextPayload);
    proof {
        let none: Seq<ScriptInput> = seq![];
        assert(none.push(ScriptInput::Attributes).push(ScriptInput::Authentication).push(
            ScriptInput::JsonPayload,
        ).push(ScriptInput::XmlPayload).push(ScriptInput::TextPayload) =~= policy_inputs());
    }
    compile(p)
}

/// Compiles an expression that may be absent. The engine must not panic on its
/// constants.
pub fn compile_conditional(expression: &Option<Expression>) -> (r: Result<
    Option<Script>,
    ScriptError,
>)
    requires
        expression matches Some(e) ==> compilation_returns(parser_of(&e, policy_inputs())),
    ensures
        expression is None ==> r == Ok::<Option<Script>, ScriptError>(None),
        expression matches Some(e) ==> (r matches Ok(script) ==> script is Some) && compilation(
            parser_of(&e, policy_inputs()),
            match r {
                Ok(script) => script,
                Err(_) => None,
            },
        ),
{
    match expression {
        None => Ok(None),
        Some(e) => match compile_script(e) {
            Ok(script) => Ok(Some(script)),
            Err(error) => Err(error),
        },
    }
}

/// Whether an evaluation can come to `after` once the attributes are bound
/// and, unless it is ready by then, the authentication.
pub open spec fn cheap_inputs_bound(
    script: &Script,
    headers: Seq<Header>,
    auth: Option<AuthenticationData>,
    after: Evaluator<'_>,
) -> bool {
    exists|e: Evaluator<'_>|
        {
            &&& #[trigger] attributes_bound(evaluator_of(script), headers, e)
            &&& if evaluator_ready(e) {
                after == e
            } else {
                authentication_bound(e, auth, after)
            }
        }
}

/// Whether the attributes can be bound without a panic, and the authentication
/// wherever the evaluation is not ready by then.
pub open spec fn cheap_inputs_return(
    script: &Script,
    headers: Seq<Header>,
    auth: Option<AuthenticationData>,
) -> bool {
    &&& attributes_return(evaluator_of(script), headers)
    &&& forall|e: Evaluator<'_>| #[trigger]
        attributes_bound(evaluator_of(script), headers, e) && !evaluator_ready(e)
            ==> authentication_returns(e, auth)
}

/// Whether evaluating a script returns, whatever it draws: no binding that it
/// makes can panic. The body is bound only where there is one and the
/// evaluation is not ready yet.
pub open spec fn evaluation_returns(
    script: &Script,
    headers: Seq<Header>,
    auth: Option<AuthenticationData>,
    body: Option<Seq<u8>>,
) -> bool {
    &&& cheap_inputs_return(script, headers, auth)
    &&& body matches Some(bytes) ==> forall|e: Evaluator<'_>| #[trigger]
        cheap_inputs_bound(script, headers, auth, e) && !evaluator_ready(e) ==> payload_returns(
            e,
            bytes,
        )
}

/// Whether evaluating a script can come to this outcome: attributes and
/// authentication are bound first, the body only where there is one and the
/// evaluation is not ready yet. An evaluation that is not ready has no value.
pub open spec fn evaluation(
    script: &Script,
    headers: Seq<Header>,
    auth: Option<AuthenticationData>,
    body: Option<Seq<u8>>,
    outcome: Option<ScriptValue>,
) -> bool {
    exists|e: Evaluator<'_>, last: Evaluator<'_>|
        {
            &&& #[trigger] cheap_inputs_bound(script, headers, auth, e)
            &&& match body {
                Some(bytes) if !evaluator_ready(e) => payload_bound(e, bytes, last),
                _ => last == e,
            }
            &&& outcome == #[trigger] evaluator_value(last)
            &&& !evaluator_ready(last) ==> outcome is None
        }
}

/// Whether a script can be found to need the payload, or not to need it, after
/// attributes and authentication are bound.
pub open spec fn payload_need(
    script: &Script,
    headers: Seq<Header>,
    auth: Option<AuthenticationData>,
    needed: bool,
) -> bool {
    exists|e: Evaluator<'_>|
        {
            &&& #[trigger] cheap_inputs_bound(script, headers, auth, e)
            &&& needed == !evaluator_ready(e)
        }
}

/// A body that may be absent, as its bytes.
pub open spec fn body_model(body: Option<&[u8]>) -> Option<Seq<u8>> {
    match body {
        Some(b) => Some(b@),
        None => None,
    }
}

/// Starts an evaluation and binds its inputs in cost order: the attributes,
/// then the authentication if it is still not ready.
fn bind_cheap_inputs<'a>(
    script: &'a Script,
    attrs: &OwnedAttributes,
    auth: &Option<AuthenticationData>,
) -> (r: Evaluator<'a>)
    requires
        cheap_inputs_return(script, attrs@, *auth),
    ensures
        cheap_inputs_bound(script, attrs@, *auth, r),
{
    let mut ev = start(script);
    bind_attributes(&mut ev, attrs);
    let ghost e = ev;
    if !is_ready(&ev) {
        bind_authentication(&mut ev, auth);
    }
    proof {
        assert(attributes_bound(evaluator_of(script), attrs@, e));
    }
    ev
}

/// Evaluates a script, binding inputs in cost order and reading the body only
/// if the expression still isn't ready after attributes and authentication.
/// The engine must not panic on them.
pub fn evaluate(
    script: &Script,
    attrs: &OwnedAttributes,
    auth: &Option<AuthenticationData>,
    body: Option<&[u8]>,
) -> (r: Option<ScriptValue>)
    requires
        evaluation_returns(script, attrs@, *auth, body_model(body)),
    ensures
        evaluation(script, attrs@, *auth, body_model(body), r),
{
    let mut ev = bind_cheap_inputs(script, attrs, auth);
    let ghost e = ev;
    if !is_ready(&ev) {
        if let Some(b) = body {
            bind_payload(&mut ev, b);
        }
    }
    let ghost last = ev;
    let r = match finish(ev) {
        Ok(value) => Some(value),
        Err(_) => None,
    };
    proof {
        assert(cheap_inputs_bound(script, attrs@, *auth, e));
        assert(r == evaluator_value(last));
    }
    r
}

/// True if the script still needs the payload after attributes and
/// authentication are bound. The engine must not panic on these two.
pub fn needs_payload(
    script: &Script,
    attrs: &OwnedAttributes,
    auth: &Option<AuthenticationData>,
) -> (r: bool)
    requires
        cheap_inputs_return(script, attrs@, *auth),
    ensures
        payload_need(script, attrs@, *auth, r),
{
    let ev = bind_cheap_inputs(script, attrs, auth);
    !is_ready(&ev)
}

/// The text that a value renders to: a string as it is, nothing for null, and
/// JSON for every other value.
pub open spec fn rendered(value: ScriptValue) -> Seq<char> {
    match value {
        ScriptValue::Null => Seq::empty(),
        ScriptValue::Bool(b) => if b {
            "true"@
        } else {
            "false"@
        },
        ScriptValue::Text(text) => text@,
        ScriptValue::Json(json) => json_text(json_of(json)),
    }
}

/// Strings pass through; other values are JSON-encoded; null becomes empty.
pub fn value_to_string(value: ScriptValue) -> (r: String)
    ensures
        r@ == rendered(value),
{
    match value {
        ScriptValue::Text(text) => text,
        ScriptValue::Null => String::new(),
        ScriptValue::Bool(b) => {
            let json = bool_value(b);
            write_text(&json)
        },
        ScriptValue::Json(json) => write_text(&json),
    }
}

} // verus!
