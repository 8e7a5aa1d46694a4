//! What this library takes from `opentelemetry`, `opentelemetry_sdk` and
//! `tracing_subscriber`: the attributes of a service and the filter of its log.
//!
//! The types are opaque. Their contents have names here, and every function
//! that is called is given in terms of those names.
use vstd::prelude::*;

verus! {

/// `opentelemetry::KeyValue`: one attribute.
#[verifier::external_type_specification]
#[verifier::external_body]
pub struct ExKeyValue(opentelemetry::KeyValue);

/// `opentelemetry_sdk::Resource`: the attributes of what produces telemetry.
#[verifier::external_type_specification]
#[verifier::external_body]
pub struct ExResource(opentelemetry_sdk::Resource);

/// `tracing_subscriber::EnvFilter`: a filter for log records.
#[verifier::external_type_specification]
#[verifier::external_body]
pub struct ExEnvFilter(tracing_subscriber::EnvFilter);

/// `tracing_subscriber::filter::ParseError`: why a filter could not be parsed.
#[verifier::external_type_specification]
#[verifier::external_body]
pub struct ExParseError(tracing_subscriber::filter::ParseError);

/// The key and the text of an attribute.
pub uninterp spec fn attribute(pair: opentelemetry::KeyValue) -> (Seq<char>, Seq<char>);

/// The attributes of a resource, by key.
pub uninterp spec fn resource_attributes(resource: opentelemetry_sdk::Resource) -> Map<
    Seq<char>,
    Seq<char>,
>;

/// The rules of a filter, as the filter displays them.
pub uninterp spec fn filter_rules(filter: tracing_subscriber::EnvFilter) -> Seq<char>;

/// The rules that `EnvFilter::try_new` makes of a text, `None` where it rejects
/// the text.
pub uninterp spec fn parsed_rules(directives: Seq<char>) -> Option<Seq<char>>;

/// Whether `c` is a letter or a number of any script.
pub uninterp spec fn alphanumeric(c: char) -> bool;

/// The attributes that `pairs` give; of several with the same key the last.
pub open spec fn collected(pairs: Seq<opentelemetry::KeyValue>) -> Map<Seq<char>, Seq<char>>
    decreases pairs.len(),
{
    if pairs.len() == 0 {
        Map::empty()
    } else {
        collected(pairs.drop_last()).insert(attribute(pairs.last()).0, attribute(pairs.last()).1)
    }
}

/// Calls `KeyValue::new`, which keeps the key and the text as they are.
#[verifier::external_body]
pub(crate) fn key_value(key: String, value: String) -> (pair: opentelemetry::KeyValue)
    ensures
        attribute(pair) == (key@, value@),
{
    opentelemetry::KeyValue::new(key, value)
}

/// Calls `Resource::new`, which inserts the pairs one after the other into a map.
#[verifier::external_body]
pub(crate) fn resource_of(pairs: Vec<opentelemetry::KeyValue>) -> (resource:
    opentelemetry_sdk::Resource)
    ensures
        resource_attributes(resource) == collected(pairs@),
{
    opentelemetry_sdk::Resource::new(pairs)
}

/// `char::is_alphanumeric` tells whether a character is alphabetic or numeric by
/// its Unicode properties, which depend on the character alone.
pub assume_specification[ char::is_alphanumeric ](c: char) -> (r: bool)
    ensures
        r == alphanumeric(c),
;

/// Calls `EnvFilter::try_new`. Whether it accepts the text, and the rules of the
/// filter, depend on the text alone. It panics on a text that is not aligned.
#[verifier::external_body]
pub(crate) fn parse_filter(directives: &str) -> (parsed: Result<
    tracing_subscriber::EnvFilter,
    tracing_subscriber::filter::ParseError,
>)
    requires
        crate::log_filter::aligned(directives@),
    ensures
        match parsed {
            Ok(filter) => parsed_rules(directives@) == Some(filter_rules(filter)),
            Err(_) => parsed_rules(directives@) is None,
        },
{
    tracing_subscriber::EnvFilter::try_new(directives)
}

/// Calls `EnvFilter::new`, which makes of `info` the filter with the one rule
/// `info`.
#[verifier::external_body]
pub(crate) fn level_filter(directives: &str) -> (filter: tracing_subscriber::EnvFilter)
    requires
        directives@ == "info"@,
    ensures
        filter_rules(filter) == directives@,
{
    tracing_subscriber::EnvFilter::new(directives)
}

} // verus!
