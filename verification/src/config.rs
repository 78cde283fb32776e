//! Analyzer configuration: named defaults, and construction from an optional
//! JSON options payload where anything malformed degrades to the defaults.

use vstd::prelude::*;

verus! {

/// Settings of one analyzer instance, immutable after construction.
#[derive(Clone, Copy, Debug, PartialEq, Eq, Structural)]
pub struct AnalyzerConfig {
    /// Byte-size boundary above which a file is flagged as large.
    pub warning_threshold: usize,
    /// Whether a suggestions section follows the summary when large files exist.
    pub show_suggestions: bool,
    /// Reserved switch, read from the payload but unused by the analysis.
    pub generate_report: bool,
}

/// Default boundary above which a file is flagged as large: one mebibyte.
pub fn default_warning_threshold() -> (r: usize)
    ensures
        r == 1048576,
{
    1024 * 1024
}

/// Suggestions are shown unless switched off.
pub fn default_show_suggestions() -> (r: bool)
    ensures
        r == true,
{
    true
}

/// Report generation is reserved and off by default.
pub fn default_generate_report() -> (r: bool)
    ensures
        r == false,
{
    false
}

/// The configuration that holds when no payload (or no usable payload) is
/// given.
pub open spec fn spec_default_config() -> AnalyzerConfig {
    AnalyzerConfig { warning_threshold: 1048576, show_suggestions: true, generate_report: false }
}

impl Default for AnalyzerConfig {
    fn default() -> (r: Self)
        ensures
            r == spec_default_config(),
    {
        AnalyzerConfig {
            warning_threshold: default_warning_threshold(),
            show_suggestions: default_show_suggestions(),
            generate_report: default_generate_report(),
        }
    }
}

#[verifier::external_type_specification]
#[verifier::external_body]
pub struct ExJsonValue(serde_json::Value);

/// What `serde_json::from_str::<Value>` returns on the given text: the parsed
/// JSON document, or nothing where the text is not well-formed JSON. Parsing
/// depends on the text alone.
pub uninterp spec fn json_value_of(s: Seq<char>) -> Option<serde_json::Value>;

/// What `serde_json::Value::get` returns on the given document and key: the
/// value under that key where the document is an object holding the key, and
/// nothing otherwise.
pub uninterp spec fn json_field(v: serde_json::Value, key: Seq<char>) -> Option<
    serde_json::Value,
>;

/// What `serde_json::Value::as_u64` returns on the given document: the number
/// where the document is a non-negative integer that fits in 64 bits, and
/// nothing otherwise.
pub uninterp spec fn json_as_u64(v: serde_json::Value) -> Option<u64>;

/// What `serde_json::Value::as_bool` returns on the given document: the value
/// where the document is a boolean, and nothing otherwise.
pub uninterp spec fn json_as_bool(v: serde_json::Value) -> Option<bool>;

/// Relies on `serde_json::from_str::<Value>`: a deterministic parse of the
/// text, `Ok` exactly on well-formed JSON.
#[verifier::external_body]
fn parse_json(s: &str) -> (r: Option<serde_json::Value>)
    ensures
        r == json_value_of(s@),
{
    serde_json::from_str(s).ok()
}

/// Relies on `serde_json::Value::get` with a string key: a deterministic
/// lookup that yields the value under the key when `v` is an object holding
/// it, and `None` otherwise.
#[verifier::external_body]
fn json_get<'a>(v: &'a serde_json::Value, key: &str) -> (r: Option<&'a serde_json::Value>)
    ensures
        (match r {
            Some(f) => json_field(*v, key@) == Some(*f),
            None => json_field(*v, key@) is None,
        }),
{
    v.get(key)
}

/// Relies on `serde_json::Value::as_u64`: yields the number exactly when `v`
/// is a non-negative integer representable in 64 bits.
#[verifier::external_body]
fn json_to_u64(v: &serde_json::Value) -> (r: Option<u64>)
    ensures
        r == json_as_u64(*v),
{
    v.as_u64()
}

/// Relies on `serde_json::Value::as_bool`: yields the value exactly when `v`
/// is a boolean.
#[verifier::external_body]
fn json_to_bool(v: &serde_json::Value) -> (r: Option<bool>)
    ensures
        r == json_as_bool(*v),
{
    v.as_bool()
}

/// How one optional numeric field is read from the parsed payload: a missing
/// field takes its fallback, a present field of the wrong type rejects the
/// whole payload.
pub open spec fn spec_u64_field(v: serde_json::Value, key: Seq<char>, fallback: u64) -> Option<
    u64,
> {
    match json_field(v, key) {
        None => Some(fallback),
        Some(f) => json_as_u64(f),
    }
}

/// How one optional boolean field is read from the parsed payload: a missing
/// field takes its fallback, a present field of the wrong type rejects the
/// whole payload.
pub open spec fn spec_bool_field(v: serde_json::Value, key: Seq<char>, fallback: bool) -> Option<
    bool,
> {
    match json_field(v, key) {
        None => Some(fallback),
        Some(f) => json_as_bool(f),
    }
}

/// The configuration read from a parsed payload. Unknown fields are ignored;
/// each known field that is missing takes its default; any known field of the
/// wrong type (or a threshold too large for this machine) rejects the whole
/// payload, which then yields the defaults.
pub open spec fn spec_config_of_value(v: serde_json::Value) -> AnalyzerConfig {
    let t = spec_u64_field(v, "warning_threshold"@, 1048576);
    let s = spec_bool_field(v, "show_suggestions"@, true);
    let g = spec_bool_field(v, "generate_report"@, false);
    if t is Some && t.unwrap() <= usize::MAX as u64 && s is Some && g is Some {
        AnalyzerConfig {
            warning_threshold: t.unwrap() as usize,
            show_suggestions: s.unwrap(),
            generate_report: g.unwrap(),
        }
    } else {
        spec_default_config()
    }
}

/// The configuration a payload text yields: the defaults where the text is
/// not well-formed JSON, and otherwise the fields of the parsed document.
pub open spec fn spec_config_of(s: Seq<char>) -> AnalyzerConfig {
    match json_value_of(s) {
        None => spec_default_config(),
        Some(v) => spec_config_of_value(v),
    }
}

/// Builds the configuration from an optional JSON payload. Construction never
/// fails: a payload that cannot be used degrades silently to the defaults.
pub fn config_from_options(options: &str) -> (c: AnalyzerConfig)
    ensures
        c == spec_config_of(options@),
{
    match parse_json(options) {
        None => AnalyzerConfig::default(),
        Some(v) => {
            let t: Option<u64> = match json_get(&v, "warning_threshold") {
                None => Some(default_warning_threshold() as u64),
                Some(f) => json_to_u64(f),
            };
            let s: Option<bool> = match json_get(&v, "show_suggestions") {
                None => Some(default_show_suggestions()),
                Some(f) => json_to_bool(f),
            };
            let g: Option<bool> = match json_get(&v, "generate_report") {
                None => Some(default_generate_report()),
                Some(f) => json_to_bool(f),
            };
            match (t, s, g) {
                (Some(tv), Some(sv), Some(gv)) => {
                    if tv <= usize::MAX as u64 {
                        AnalyzerConfig {
                            warning_threshold: tv as usize,
                            show_suggestions: sv,
                            generate_report: gv,
                        }
                    } else {
                        AnalyzerConfig::default()
                    }
                },
                _ => AnalyzerConfig::default(),
            }
        },
    }
}

/// A payload that is not well-formed JSON yields exactly the default
/// configuration.
pub proof fn lemma_malformed_options_default(s: Seq<char>)
    requires
        json_value_of(s) is None,
    ensures
        spec_config_of(s) == spec_default_config(),
{
}

/// A payload whose `warning_threshold` field is present but not a usable
/// number rejects the whole payload: the result is exactly the default
/// configuration, whatever the other fields hold.
pub proof fn lemma_ill_typed_threshold_default(s: Seq<char>)
    requires
        json_value_of(s) is Some,
        json_field(json_value_of(s).unwrap(), "warning_threshold"@) is Some,
        json_as_u64(json_field(json_value_of(s).unwrap(), "warning_threshold"@).unwrap())
            is None,
    ensures
        spec_config_of(s) == spec_default_config(),
{
}

} // verus!
