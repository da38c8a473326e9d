//! The configuration of the policy, its defaults and what follows from them.

use pdk::hl::Service;
use pdk::script::Script;
use vstd::prelude::*;

verus! {

/// `pdk::hl::Service`, the upstream that exports are sent to.
#[verifier::external_type_specification]
#[verifier::external_body]
pub struct ExService(pdk::hl::Service);

/// The clone of a `pdk::hl::Service`; nothing is claimed of it.
pub assume_specification[ <pdk::hl::Service as Clone>::clone ](s: &pdk::hl::Service) -> (r:
    pdk::hl::Service)
;

/// The clone of a `pdk::script::Script`; nothing is claimed of it.
pub assume_specification[ <pdk::script::Script as Clone>::clone ](s: &pdk::script::Script) -> (r:
    pdk::script::Script)
;

/// The size of an export batch where none is configured.
pub const DEFAULT_BATCH_MAX_SIZE: usize = 512;

/// The milliseconds between exports where none are configured.
pub const DEFAULT_EXPORT_TIMEOUT_MS: u64 = 1000;

/// One logging configuration: what to log, when, and how.
#[derive(Clone, Debug)]
pub struct LoggingConfigurations0Config {
    pub after_calling_api: Option<bool>,
    pub also_log_to_message_logs: Option<bool>,
    pub before_calling_api: Option<bool>,
    pub category: Option<String>,
    pub conditional: Option<Script>,
    pub configuration_name: String,
    pub level: Option<String>,
    pub message: Script,
}

/// The configuration of the policy.
#[derive(Clone, Debug)]
pub struct Config {
    pub batch_max_size: Option<i64>,
    pub export_timeout_ms: Option<i64>,
    pub logging_configurations: Vec<LoggingConfigurations0Config>,
    pub otlp_api_key: String,
    pub otlp_endpoint: Service,
}

/// A flag, or its default where it is not configured.
pub open spec fn flag(configured: Option<bool>, default: bool) -> bool {
    match configured {
        Some(value) => value,
        None => default,
    }
}

/// A text, or its default where it is not configured.
pub open spec fn setting(configured: Option<String>, default: Seq<char>) -> Seq<char> {
    match configured {
        Some(text) => text@,
        None => default,
    }
}

/// Reads a text that may not be configured.
pub(crate) fn text_or(configured: &Option<String>, default: &str) -> (r: String)
    ensures
        r@ == setting(*configured, default@),
{
    match configured {
        Some(text) => text.clone(),
        None => default.to_owned(),
    }
}

impl LoggingConfigurations0Config {
    /// Whether the configuration is evaluated in the request phase; by default
    /// it is not.
    pub open spec fn before_api(&self) -> bool {
        flag(self.before_calling_api, false)
    }

    /// Whether the configuration is evaluated in the response phase; by
    /// default it is.
    pub open spec fn after_api(&self) -> bool {
        flag(self.after_calling_api, true)
    }

    /// Whether its lines are also written to the message logs; by default
    /// they are.
    pub open spec fn logs_locally(&self) -> bool {
        flag(self.also_log_to_message_logs, true)
    }

    /// The text of the level its lines are logged at.
    pub open spec fn level_text(&self) -> Seq<char> {
        setting(self.level, "INFO"@)
    }

    /// The category its lines are marked with; empty for none.
    pub open spec fn category_text(&self) -> Seq<char> {
        setting(self.category, Seq::empty())
    }
}

/// The source of a conditional as it is configured: one that is left empty is
/// none, so that every line passes.
pub fn conditional_source(configured: Option<String>) -> (r: Option<String>)
    ensures
        r is Some <==> configured is Some && configured->0@.len() > 0,
        r is Some ==> r == configured,
{
    match configured {
        Some(source) => if source.as_str().is_empty() {
            None
        } else {
            Some(source)
        },
        None => None,
    }
}

/// A size setting: a positive number as it is configured, or the largest size
/// that the machine has where it is larger, else the default.
pub fn normalize_usize(value: Option<i64>, default: usize) -> (r: usize)
    ensures
        r == (match value {
            Some(v) if v > 0 => if v <= usize::MAX {
                v as int
            } else {
                usize::MAX as int
            },
            _ => default as int,
        }),
{
    match value {
        Some(v) => if v > 0 {
            if v as u64 <= usize::MAX as u64 {
                v as usize
            } else {
                usize::MAX
            }
        } else {
            default
        },
        None => default,
    }
}

/// A duration setting: a positive number as it is configured, else the
/// default.
pub fn normalize_millis(value: Option<i64>, default: u64) -> (r: u64)
    ensures
        r == (match value {
            Some(v) if v > 0 => v as int,
            _ => default as int,
        }),
{
    match value {
        Some(v) => if v > 0 {
            v as u64
        } else {
            default
        },
        None => default,
    }
}

/// The milliseconds between two exports.
pub open spec fn period_ms(config: Config) -> int {
    match config.export_timeout_ms {
        Some(v) if v > 0 => v as int,
        _ => 1000,
    }
}

/// The milliseconds between two exports.
pub fn export_period_ms(config: &Config) -> (r: u64)
    ensures
        r == period_ms(*config),
{
    normalize_millis(config.export_timeout_ms, DEFAULT_EXPORT_TIMEOUT_MS)
}

/// The name that records are exported under: the name of the API instance,
/// or that of the policy where the instance has none.
pub fn service_name(api_name: &Option<String>, policy_name: &str) -> (r: String)
    ensures
        r@ == setting(*api_name, policy_name@),
{
    text_or(api_name, policy_name)
}

} // verus!
