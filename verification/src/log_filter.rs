//! The filter for the log, from the value of `RUST_LOG`.
//!
//! `EnvFilter` looks for the parts of a directive in what is left of it once it
//! is trimmed, and takes the offsets it finds there for offsets of the directive
//! itself. Where white space leads the directive the two differ, and an offset
//! that lies inside a character makes it panic. This module tells those values
//! from the others, and makes a filter of the others.
use vstd::prelude::*;
use vstd::string::StrSliceExecFns;
use crate::observability::parse_filter;
use crate::observability::level_filter;
use crate::text::characters;
use crate::text::followed_by;
use crate::text::piece_bounds;
use crate::text::trimmed_bounds;

verus! {

/// The number of bytes of `c` in UTF-8.
pub open spec fn width(c: char) -> nat {
    if (c as u32) < 0x80 {
        1
    } else if (c as u32) < 0x800 {
        2
    } else if (c as u32) < 0x10000 {
        3
    } else {
        4
    }
}

/// The number of bytes of the first `n` characters of `s`.
pub open spec fn offset(s: Seq<char>, n: int) -> nat
    decreases n,
{
    if n <= 0 {
        0
    } else {
        offset(s, n - 1) + width(s[n - 1])
    }
}

/// Whether the offset of the `n`-th character of `inner` is one at which
/// `directive` can be sliced.
pub open spec fn fits(directive: Seq<char>, inner: Seq<char>, n: int) -> bool {
    exists|m: int| 0 <= m <= directive.len() && #[trigger] offset(directive, m) == offset(inner, n)
}

/// The first place at or behind `from` where `s` holds `a` or `b`, its length
/// where there is none.
pub open spec fn find(s: Seq<char>, from: int, a: char, b: char) -> int
    decreases s.len() - from,
{
    if from >= s.len() {
        s.len() as int
    } else if s[from] == a || s[from] == b {
        from
    } else {
        find(s, from + 1, a, b)
    }
}

/// Whether a directive that starts with `c` can be one for a target or a level.
pub open spec fn starts_name(c: char) -> bool {
    c == '-' || c == ':' || c == '_' || crate::observability::alphanumeric(c)
}

/// Whether `directive` can be sliced for the level that is behind its `n`-th
/// character, if that is a `=`.
pub open spec fn fits_level(directive: Seq<char>, inner: Seq<char>, n: int) -> bool {
    n < inner.len() && inner[n] == '=' ==> fits(directive, inner, n + 1)
}

/// `directive` up to the end of its field, which is the character at `field_end`
/// once it is trimmed, and with its span closed behind it.
pub open spec fn up_to_field(directive: Seq<char>, field_end: int) -> Seq<char> {
    let leading = directive.len() - crate::text::trimmed_start(directive).len();
    directive.take(leading + field_end + 1).push(']')
}

/// Whether the field of `directive` that ends at `field_end` is rejected.
pub open spec fn rejected_field(directive: Seq<char>, field_end: int) -> bool {
    crate::observability::parsed_rules(up_to_field(directive, field_end)) is None
}

/// Whether `directive` can be sliced for the span that opens behind its `n`-th
/// character: for the name of the span, for the field in braces if there is one,
/// and, unless the field is rejected, for the level.
pub open spec fn fits_span(directive: Seq<char>, inner: Seq<char>, n: int) -> bool {
    let name_end = find(inner, n + 1, ']', '{');
    name_end < inner.len() ==> {
        &&& fits(directive, inner, n + 1)
        &&& fits(directive, inner, name_end)
        &&& if inner[name_end] == ']' {
            fits_level(directive, inner, name_end + 1)
        } else {
            let field_end = find(inner, name_end + 1, '}', '}');
            field_end < inner.len() ==> {
                &&& fits(directive, inner, name_end + 1)
                &&& fits(directive, inner, field_end)
                &&& field_end + 1 < inner.len() && inner[field_end + 1] == ']' && !rejected_field(
                    directive,
                    field_end,
                ) ==> fits_level(directive, inner, field_end + 2)
            }
        }
    }
}

/// Whether `directive` can be sliced at every offset that is looked for in it.
pub open spec fn aligned_directive(directive: Seq<char>) -> bool {
    let inner = crate::text::trimmed(directive);
    let target_end = find(inner, 0, '=', '[');
    if target_end >= inner.len() {
        true
    } else if target_end == 0 {
        inner[0] == '[' ==> fits_span(directive, inner, 0)
    } else if !starts_name(inner[0]) {
        true
    } else {
        &&& fits(directive, inner, target_end)
        &&& if inner[target_end] == '=' {
            fits_level(directive, inner, target_end)
        } else {
            fits_span(directive, inner, target_end)
        }
    }
}

/// Whether `directive` is not a directive. An empty one is passed over.
pub open spec fn rejected(directive: Seq<char>) -> bool {
    directive.len() > 0 && crate::observability::parsed_rules(directive) is None
}

/// Whether every directive that is looked at can be sliced: all of them, up to
/// the first that is rejected.
pub open spec fn aligned(directives: Seq<char>) -> bool {
    let parts = crate::text::pieces(directives, ',');
    forall|k: int|
        0 <= k < parts.len() ==> aligned_directive(#[trigger] parts[k]) || exists|j: int|
            0 <= j < k && rejected(#[trigger] parts[j])
}

/// Whether a filter can be made of this value of `RUST_LOG`, or of there being
/// none.
pub open spec fn filterable(rust_log: Option<String>) -> bool {
    rust_log matches Some(directives) ==> aligned(directives@)
}

/// The rules by which records are logged, from the value of `RUST_LOG`.
pub open spec fn log_rules(rust_log: Option<String>) -> Seq<char> {
    match rust_log {
        Some(directives) => match crate::observability::parsed_rules(directives@) {
            Some(rules) => rules,
            None => "info"@,
        },
        None => "info"@,
    }
}

/// The number of bytes of `c` in UTF-8.
fn width_of(c: char) -> (r: u128)
    ensures
        r == width(c),
{
    let code: u32 = c as u32;
    if code < 0x80 {
        1
    } else if code < 0x800 {
        2
    } else if code < 0x10000 {
        3
    } else {
        4
    }
}

/// The number of bytes of the first `n` characters of `chars`.
fn offset_of(chars: &Vec<char>, n: usize) -> (r: u128)
    requires
        n <= chars@.len(),
    ensures
        r == offset(chars@, n as int),
{
    let mut bytes: u128 = 0;
    let mut i: usize = 0;
    while i < n
        invariant
            i <= n <= chars@.len(),
            bytes == offset(chars@, i as int),
            bytes <= 4 * i,
        decreases n - i,
    {
        bytes = bytes + width_of(chars[i]);
        i = i + 1;
    }
    bytes
}

/// Tells whether the offset of the `n`-th character of `inner` is one at which
/// `directive` can be sliced.
fn does_fit(directive: &Vec<char>, inner: &Vec<char>, n: usize) -> (r: bool)
    requires
        n <= inner@.len(),
    ensures
        r == fits(directive@, inner@, n as int),
{
    let wanted = offset_of(inner, n);
    let mut bytes: u128 = 0;
    let mut m: usize = 0;
    while m < directive.len() && bytes != wanted
        invariant
            m <= directive@.len(),
            wanted == offset(inner@, n as int),
            bytes == offset(directive@, m as int),
            bytes <= 4 * m,
            forall|k: int| 0 <= k < m ==> #[trigger] offset(directive@, k) != wanted,
        decreases directive@.len() - m,
    {
        bytes = bytes + width_of(directive[m]);
        m = m + 1;
    }
    bytes == wanted
}

/// The first place at or behind `from` where `chars` holds `a` or `b`, its
/// length where there is none.
fn position(chars: &Vec<char>, from: usize, a: char, b: char) -> (r: usize)
    requires
        from <= chars@.len(),
    ensures
        r == find(chars@, from as int, a, b),
        from <= r <= chars@.len(),
        r < chars@.len() ==> chars@[r as int] == a || chars@[r as int] == b,
{
    let mut at: usize = from;
    while at < chars.len() && chars[at] != a && chars[at] != b
        invariant
            from <= at <= chars@.len(),
            find(chars@, from as int, a, b) == find(chars@, at as int, a, b),
        decreases chars@.len() - at,
    {
        at = at + 1;
    }
    at
}

/// Tells whether `directive` can be sliced for the level behind the `n`-th
/// character.
fn does_fit_level(directive: &Vec<char>, inner: &Vec<char>, n: usize) -> (r: bool)
    requires
        n <= inner@.len(),
    ensures
        r == fits_level(directive@, inner@, n as int),
{
    n >= inner.len() || inner[n] != '=' || does_fit(directive, inner, n + 1)
}

/// Tells whether `directive`, which is `text` with `leading` characters of white
/// space in front, can be sliced for the span that opens behind the `n`-th
/// character.
fn does_fit_span(
    text: &str,
    directive: &Vec<char>,
    leading: usize,
    inner: &Vec<char>,
    n: usize,
) -> (r: bool)
    requires
        directive@ == text@,
        !text@.contains(','),
        leading == text@.len() - crate::text::trimmed_start(text@).len(),
        inner@ == crate::text::trimmed(text@),
        n < inner@.len(),
        n == find(inner@, 0, '=', '['),
        inner@[n as int] == '[',
        n > 0 ==> fits(directive@, inner@, n as int),
    ensures
        r == fits_span(directive@, inner@, n as int),
{
    let length = inner.len();
    let name_end = position(inner, n + 1, ']', '{');
    if name_end >= length {
        return true;
    }
    if !does_fit(directive, inner, n + 1) || !does_fit(directive, inner, name_end) {
        return false;
    }
    if inner[name_end] == ']' {
        return does_fit_level(directive, inner, name_end + 1);
    }
    let field_end = position(inner, name_end + 1, '}', '}');
    if field_end >= length {
        return true;
    }
    if !does_fit(directive, inner, name_end + 1) || !does_fit(directive, inner, field_end) {
        return false;
    }
    if field_end == length - 1 || inner[field_end + 1] != ']' {
        return true;
    }
    proof {
        let bounds = crate::text::law_trimmed_is_the_inner_stretch(text@);
        assert(bounds.0 == leading);
        assert(leading + field_end + 1 <= directive.len());
    }
    let field = followed_by(text.substring_char(0, leading + field_end + 1), "]");
    proof {
        reveal_strlit("]");
        assert(field@ =~= up_to_field(text@, field_end as int));
        lemma_up_to_field(text@, n as int);
    }
    parse_filter(field.as_str()).is_err() || does_fit_level(directive, inner, field_end + 2)
}

/// Tells whether `directive` can be sliced at every offset that is looked for in
/// it.
fn is_aligned_directive(directive: &str) -> (r: bool)
    requires
        !directive@.contains(','),
    ensures
        r == aligned_directive(directive@),
{
    let chars = characters(directive);
    let bounds = trimmed_bounds(&chars, 0, chars.len());
    assert(chars@.subrange(0, chars@.len() as int) =~= directive@);
    let leading = bounds.0;
    let inner = characters(directive.substring_char(bounds.0, bounds.1));
    let target_end = position(&inner, 0, '=', '[');
    if target_end >= inner.len() {
        return true;
    }
    if target_end == 0 {
        return inner[0] != '[' || does_fit_span(directive, &chars, leading, &inner, 0);
    }
    let first = inner[0];
    if first != '-' && first != ':' && first != '_' && !first.is_alphanumeric() {
        return true;
    }
    if !does_fit(&chars, &inner, target_end) {
        return false;
    }
    if inner[target_end] == '=' {
        does_fit_level(&chars, &inner, target_end)
    } else {
        does_fit_span(directive, &chars, leading, &inner, target_end)
    }
}

/// Tells whether every directive that is looked at can be sliced.
pub fn is_aligned(directives: &str) -> (r: bool)
    ensures
        r == aligned(directives@),
{
    let chars = characters(directives);
    let bounds = piece_bounds(&chars, ',');
    let ghost parts = crate::text::pieces(directives@, ',');
    let mut i: usize = 0;
    while i < bounds.len()
        invariant
            chars@ == directives@,
            parts == crate::text::pieces(directives@, ','),
            i <= bounds@.len(),
            bounds@.len() == parts.len(),
            forall|j: int|
                0 <= j < bounds@.len() ==> (#[trigger] bounds@[j]).0 <= bounds@[j].1 <= chars@.len()
                    && chars@.subrange(bounds@[j].0 as int, bounds@[j].1 as int) == parts[j],
            forall|j: int| 0 <= j < i ==> aligned_directive(#[trigger] parts[j]),
            forall|j: int| 0 <= j < i ==> !rejected(#[trigger] parts[j]),
        decreases bounds@.len() - i,
    {
        let bound = bounds[i];
        let part = directives.substring_char(bound.0, bound.1);
        assert(part@ == parts[i as int]);
        proof {
            crate::text::law_pieces_are_what_separators_bound(directives@, ',');
        }
        if !is_aligned_directive(part) {
            return false;
        }
        if !part.is_empty() {
            proof {
                lemma_alone(part@);
            }
            if parse_filter(part).is_err() {
                assert(rejected(parts[i as int]));
                assert forall|k: int| 0 <= k < parts.len() implies aligned_directive(
                    #[trigger] parts[k],
                ) || exists|j: int| 0 <= j < k && rejected(#[trigger] parts[j]) by {
                    if k > i {
                        assert(rejected(parts[i as int]));
                    }
                }
                return true;
            }
        }
        i = i + 1;
    }
    true
}

/// The filter with the one rule `info`.
fn info_filter() -> (r: tracing_subscriber::EnvFilter)
    ensures
        crate::observability::filter_rules(r) == "info"@,
{
    level_filter("info")
}

/// The filter that was parsed, or that with the rule `info`.
pub fn filter_or_info(
    parsed: Result<tracing_subscriber::EnvFilter, tracing_subscriber::filter::ParseError>,
) -> (r: tracing_subscriber::EnvFilter)
    ensures
        match parsed {
            Ok(filter) => r == filter,
            Err(_) => crate::observability::filter_rules(r) == "info"@,
        },
{
    match parsed {
        Ok(filter) => filter,
        Err(_) => info_filter(),
    }
}

/// The filter for the log, from the value of `RUST_LOG`: that which the value
/// describes, or `info` where there is no value or it cannot be parsed.
pub fn log_filter(rust_log: &Option<String>) -> (r: tracing_subscriber::EnvFilter)
    requires
        filterable(*rust_log),
    ensures
        crate::observability::filter_rules(r) == log_rules(*rust_log),
{
    match rust_log {
        Some(directives) => filter_or_info(parse_filter(directives.as_str())),
        None => info_filter(),
    }
}

/// Tells whether a filter can be made of this value of `RUST_LOG`, or of there
/// being none.
pub fn is_filterable(rust_log: &Option<String>) -> (r: bool)
    ensures
        r == filterable(*rust_log),
{
    match rust_log {
        Some(directives) => is_aligned(directives.as_str()),
        None => true,
    }
}

/// The filter for the log, as [`log_filter`] makes it, `None` where it cannot be
/// called with this value of `RUST_LOG`.
pub fn checked_log_filter(rust_log: &Option<String>) -> (r: Option<tracing_subscriber::EnvFilter>)
    ensures
        r is Some <==> filterable(*rust_log),
        r matches Some(filter) ==> crate::observability::filter_rules(filter) == log_rules(
            *rust_log,
        ),
{
    if is_filterable(rust_log) {
        Some(log_filter(rust_log))
    } else {
        None
    }
}

/// A filter can be made of every value whose directives have no white space in
/// front of them.
pub proof fn law_directives_without_leading_white_space_are_aligned(directives: Seq<char>)
    requires
        forall|k: int|
            0 <= k < crate::text::pieces(directives, ',').len() ==> {
                let part = #[trigger] crate::text::pieces(directives, ',')[k];
                part.len() == 0 || !crate::text::white_space(part[0])
            },
    ensures
        aligned(directives),
{
    let parts = crate::text::pieces(directives, ',');
    assert forall|k: int| 0 <= k < parts.len() implies aligned_directive(#[trigger] parts[k]) by {
        let part = parts[k];
        let inner = crate::text::trimmed(part);
        let bounds = crate::text::law_trimmed_is_the_inner_stretch(part);
        assert(inner.len() > 0 ==> bounds.0 == 0);
        assert forall|n: int| 0 <= n <= inner.len() && inner.len() > 0 implies fits(
            part,
            inner,
            n,
        ) by {
            lemma_same_offset(part, inner, n);
        }
        lemma_find(inner, 0, '=', '[');
        let target_end = find(inner, 0, '=', '[');
        if target_end < inner.len() {
            lemma_find(inner, target_end + 1, ']', '{');
            let name_end = find(inner, target_end + 1, ']', '{');
            if name_end < inner.len() {
                lemma_find(inner, name_end + 1, '}', '}');
            }
        }
    }
}

/// Whether `directive`, in UTF-8, can be cut behind as many bytes as `prefix` has.
pub open spec fn cuts(directive: Seq<char>, prefix: Seq<char>) -> bool {
    vstd::utf8::is_char_boundary(
        vstd::utf8::encode_utf8(directive),
        vstd::utf8::encode_utf8(prefix).len() as int,
    )
}

/// Whether `directive` is one directive that says `inner`, with the white space
/// `lead` in front of it and `trail` behind it.
pub open spec fn says(
    directive: Seq<char>,
    lead: Seq<char>,
    inner: Seq<char>,
    trail: Seq<char>,
) -> bool {
    &&& directive =~= lead + inner + trail
    &&& !directive.contains(',')
    &&& forall|i: int| 0 <= i < lead.len() ==> crate::text::white_space(#[trigger] lead[i])
    &&& forall|i: int| 0 <= i < trail.len() ==> crate::text::white_space(#[trigger] trail[i])
    &&& inner.len() > 0
    &&& !crate::text::white_space(inner[0])
    &&& !crate::text::white_space(inner.last())
}

/// Whether `target` is not empty and does not start as a target or a level can:
/// a directive is given up at its first character then.
pub open spec fn given_up(target: Seq<char>) -> bool {
    target.len() > 0 && target[0] != '-' && target[0] != ':' && target[0] != '_'
        && !crate::observability::alphanumeric(target[0])
}

/// Whether `s` holds neither `a` nor `b`.
pub open spec fn holds_neither(s: Seq<char>, a: char, b: char) -> bool {
    forall|i: int| 0 <= i < s.len() ==> #[trigger] s[i] != a && s[i] != b
}

/// A filter can be made of every value that is blank or holds one directive that is
/// a bare target or level.
pub proof fn law_bare_directives_can_be_filtered(
    directive: &str,
    lead: Seq<char>,
    inner: Seq<char>,
    trail: Seq<char>,
    r: bool,
)
    requires
        call_ensures(is_aligned, (directive,), r),
        says(directive@, lead, inner, trail) && holds_neither(inner, '=', '[') || forall|i: int|
            0 <= i < directive@.len() ==> crate::text::white_space(#[trigger] directive@[i]),
    ensures
        r,
{
    if says(directive@, lead, inner, trail) && holds_neither(inner, '=', '[') {
        lemma_single(directive@, lead, inner, trail);
        lemma_found(inner, 0, inner.len() as int, '=', '[');
    } else {
        let bounds = crate::text::law_trimmed_is_the_inner_stretch(directive@);
        let left = crate::text::trimmed(directive@);
        if left.len() > 0 {
            assert(left[0] == directive@[bounds.0]);
        }
        assert forall|i: int| 0 <= i < directive@.len() implies directive@[i] != ',' by {
            assert(crate::text::white_space(directive@[i]));
        }
        lemma_alone(directive@);
    }
}

/// A directive that gives a level to a target can be sliced where it can be cut
/// at the end of the target and behind the `=`.
pub proof fn law_alignment_of_a_level(
    directive: &str,
    lead: Seq<char>,
    target: Seq<char>,
    level: Seq<char>,
    trail: Seq<char>,
    r: bool,
)
    requires
        call_ensures(is_aligned, (directive,), r),
        says(directive@, lead, target.push('=') + level, trail),
        holds_neither(target, '=', '['),
    ensures
        r <==> target.len() == 0 || given_up(target) || (cuts(directive@, target) && cuts(
            directive@,
            target.push('='),
        )),
{
    let inner = target.push('=') + level;
    lemma_single(directive@, lead, inner, trail);
    lemma_found(inner, 0, target.len() as int, '=', '[');
    lemma_cuts(directive@, inner, target);
    lemma_cuts(directive@, inner, target.push('='));
}

/// A directive that opens a span and never ends the name of it can be sliced where
/// it can be cut at the end of the target.
pub proof fn law_alignment_of_an_open_span(
    directive: &str,
    lead: Seq<char>,
    target: Seq<char>,
    rest: Seq<char>,
    trail: Seq<char>,
    r: bool,
)
    requires
        call_ensures(is_aligned, (directive,), r),
        says(directive@, lead, target.push('[') + rest, trail),
        holds_neither(target, '=', '['),
        holds_neither(rest, ']', '{'),
    ensures
        r <==> target.len() == 0 || given_up(target) || cuts(directive@, target),
{
    let inner = target.push('[') + rest;
    lemma_single(directive@, lead, inner, trail);
    lemma_found(inner, 0, target.len() as int, '=', '[');
    lemma_found(inner, target.len() as int + 1, inner.len() as int, ']', '{');
    lemma_cuts(directive@, inner, target);
}

/// A directive for a span without fields can be sliced where it can be cut at the
/// end of the target, on both sides of the name of the span and, where a level
/// follows, in front of the level.
pub proof fn law_alignment_of_a_span(
    directive: &str,
    lead: Seq<char>,
    target: Seq<char>,
    name: Seq<char>,
    more: Seq<char>,
    trail: Seq<char>,
    r: bool,
)
    requires
        call_ensures(is_aligned, (directive,), r),
        says(directive@, lead, (target.push('[') + name).push(']') + more, trail),
        holds_neither(target, '=', '['),
        holds_neither(name, ']', '{'),
    ensures
        ({
            let opened = target.push('[');
            let named = opened + name;
            r <==> given_up(target) || {
                &&& target.len() == 0 || cuts(directive@, target)
                &&& cuts(directive@, opened)
                &&& cuts(directive@, named)
                &&& more.len() > 0 && more[0] == '=' ==> cuts(
                    directive@,
                    named.push(']').push('='),
                )
            }
        }),
{
    let opened = target.push('[');
    let named = opened + name;
    let inner = named.push(']') + more;
    lemma_single(directive@, lead, inner, trail);
    lemma_found(inner, 0, target.len() as int, '=', '[');
    lemma_found(inner, target.len() as int + 1, named.len() as int, ']', '{');
    lemma_cuts(directive@, inner, target);
    lemma_cuts(directive@, inner, opened);
    lemma_cuts(directive@, inner, named);
    if more.len() > 0 && more[0] == '=' {
        lemma_cuts(directive@, inner, named.push(']').push('='));
    }
    assert(inner[target.len() as int] == '[');
    assert(inner[named.len() as int] == ']');
    assert(more.len() > 0 ==> inner[named.len() as int + 1] == more[0]);
}

/// A directive for a span with a field that never ends can be sliced where it can
/// be cut at the end of the target and on both sides of the name of the span.
pub proof fn law_alignment_of_an_open_field(
    directive: &str,
    lead: Seq<char>,
    target: Seq<char>,
    name: Seq<char>,
    rest: Seq<char>,
    trail: Seq<char>,
    r: bool,
)
    requires
        call_ensures(is_aligned, (directive,), r),
        says(directive@, lead, (target.push('[') + name).push('{') + rest, trail),
        holds_neither(target, '=', '['),
        holds_neither(name, ']', '{'),
        holds_neither(rest, '}', '}'),
    ensures
        ({
            let opened = target.push('[');
            r <==> given_up(target) || {
                &&& target.len() == 0 || cuts(directive@, target)
                &&& cuts(directive@, opened)
                &&& cuts(directive@, opened + name)
            }
        }),
{
    let opened = target.push('[');
    let named = opened + name;
    let inner = named.push('{') + rest;
    lemma_single(directive@, lead, inner, trail);
    lemma_found(inner, 0, target.len() as int, '=', '[');
    lemma_found(inner, target.len() as int + 1, named.len() as int, ']', '{');
    lemma_found(inner, named.len() as int + 1, inner.len() as int, '}', '}');
    lemma_cuts(directive@, inner, target);
    lemma_cuts(directive@, inner, opened);
    lemma_cuts(directive@, inner, named);
    assert(inner[target.len() as int] == '[');
    assert(inner[named.len() as int] == '{');
}

/// A directive for a span with a field can be sliced where it can be cut at the
/// end of the target, on both sides of the name of the span and of the field and,
/// where a level follows and the field is not rejected, in front of the level.
pub proof fn law_alignment_of_a_field(
    directive: &str,
    lead: Seq<char>,
    target: Seq<char>,
    name: Seq<char>,
    field: Seq<char>,
    more: Seq<char>,
    trail: Seq<char>,
    r: bool,
)
    requires
        call_ensures(is_aligned, (directive,), r),
        says(
            directive@,
            lead,
            ((target.push('[') + name).push('{') + field).push('}') + more,
            trail,
        ),
        holds_neither(target, '=', '['),
        holds_neither(name, ']', '{'),
        holds_neither(field, '}', '}'),
    ensures
        ({
            let opened = target.push('[');
            let named = opened + name;
            let braced = named.push('{');
            let filled = braced + field;
            let closed = filled.push('}').push(']');
            r <==> given_up(target) || {
                &&& target.len() == 0 || cuts(directive@, target)
                &&& cuts(directive@, opened)
                &&& cuts(directive@, named)
                &&& cuts(directive@, braced)
                &&& cuts(directive@, filled)
                &&& more.len() > 1 && more[0] == ']' && more[1] == '='
                    && crate::observability::parsed_rules(lead + closed) is Some ==> cuts(
                    directive@,
                    closed.push('='),
                )
            }
        }),
{
    let opened = target.push('[');
    let named = opened + name;
    let braced = named.push('{');
    let filled = braced + field;
    let closed = filled.push('}').push(']');
    let inner = filled.push('}') + more;
    let field_end = filled.len() as int;
    lemma_single(directive@, lead, inner, trail);
    lemma_found(inner, 0, target.len() as int, '=', '[');
    lemma_found(inner, target.len() as int + 1, named.len() as int, ']', '{');
    lemma_found(inner, named.len() as int + 1, field_end, '}', '}');
    lemma_cuts(directive@, inner, target);
    lemma_cuts(directive@, inner, opened);
    lemma_cuts(directive@, inner, named);
    lemma_cuts(directive@, inner, braced);
    lemma_cuts(directive@, inner, filled);
    if more.len() > 1 && more[0] == ']' && more[1] == '=' {
        lemma_cuts(directive@, inner, closed.push('='));
    }
    assert(inner[target.len() as int] == '[');
    assert(inner[named.len() as int] == '{');
    assert(inner[field_end] == '}');
    assert(more.len() > 0 ==> inner[field_end + 1] == more[0]);
    assert(more.len() > 1 ==> inner[field_end + 2] == more[1]);
    assert(up_to_field(directive@, field_end) =~= lead + closed);
}

/// A list of directives can be sliced where its first can and, unless the first is
/// not empty and rejected, the list of the others can.
pub proof fn law_alignment_of_a_list(
    list: &str,
    first: &str,
    rest: &str,
    all_aligned: bool,
    first_aligned: bool,
    rest_aligned: bool,
)
    requires
        list@ == first@.push(',') + rest@,
        !first@.contains(','),
        call_ensures(is_aligned, (list,), all_aligned),
        call_ensures(is_aligned, (first,), first_aligned),
        call_ensures(is_aligned, (rest,), rest_aligned),
    ensures
        all_aligned <==> first_aligned && (rest_aligned || (first@.len() > 0
            && crate::observability::parsed_rules(first@) is None)),
{
    let parts = crate::text::pieces(list@, ',');
    let others = crate::text::pieces(rest@, ',');
    crate::text::law_the_first_piece_ends_at_the_first_separator(first@, rest@, ',');
    crate::text::lemma_one_piece(first@, ',');
    assert(crate::text::pieces(first@, ',')[0] == first@);
    assert(parts[0] == first@);
    assert(forall|k: int| 0 <= k < others.len() ==> #[trigger] others[k] == parts[k + 1]);
    if all_aligned {
        assert(aligned_directive(parts[0]));
        if !rejected(first@) {
            assert forall|k: int| 0 <= k < others.len() implies aligned_directive(
                #[trigger] others[k],
            ) || exists|j: int| 0 <= j < k && rejected(#[trigger] others[j]) by {
                assert(others[k] == parts[k + 1]);
                if !aligned_directive(parts[k + 1]) {
                    let j = choose|j: int| 0 <= j < k + 1 && rejected(#[trigger] parts[j]);
                    assert(others[j - 1] == parts[j]);
                }
            }
        }
    }
    if first_aligned && (rest_aligned || rejected(first@)) {
        assert forall|k: int| 0 <= k < parts.len() implies aligned_directive(#[trigger] parts[k])
            || exists|j: int| 0 <= j < k && rejected(#[trigger] parts[j]) by {
            if k > 0 && !rejected(first@) {
                assert(others[k - 1] == parts[k]);
                if !aligned_directive(others[k - 1]) {
                    let j = choose|j: int| 0 <= j < k - 1 && rejected(#[trigger] others[j]);
                    assert(others[j] == parts[j + 1]);
                }
            } else if k > 0 {
                assert(rejected(parts[0]));
            }
        }
    }
}

/// A filter can be made where `RUST_LOG` is not set and of every value that is
/// aligned, and of no other.
pub proof fn law_aligned_values_can_be_filtered(
    rust_log: Option<String>,
    text: &str,
    is_filter: bool,
    is_list: bool,
)
    requires
        rust_log matches Some(directives) ==> text@ == directives@,
        call_ensures(is_filterable, (&rust_log,), is_filter),
        call_ensures(is_aligned, (text,), is_list),
    ensures
        rust_log is None ==> is_filter,
        rust_log is Some ==> is_filter == is_list,
{
}

/// The filter is that which `EnvFilter::try_new` makes of the value of `RUST_LOG`,
/// and one with the rule `info` exactly where there is no value or it is rejected.
/// There is none only where none can be made.
pub proof fn law_the_filter_is_what_the_value_says(
    rust_log: Option<String>,
    filterable: bool,
    filter: tracing_subscriber::EnvFilter,
    checked: Option<tracing_subscriber::EnvFilter>,
)
    requires
        call_ensures(is_filterable, (&rust_log,), filterable),
        filterable ==> call_ensures(log_filter, (&rust_log,), filter),
        call_ensures(checked_log_filter, (&rust_log,), checked),
    ensures
        checked is Some <==> filterable,
        ({
            let rules = match rust_log {
                Some(directives) => match crate::observability::parsed_rules(directives@) {
                    Some(rules) => rules,
                    None => "info"@,
                },
                None => "info"@,
            };
            &&& filterable ==> crate::observability::filter_rules(filter) == rules
            &&& checked matches Some(other) ==> crate::observability::filter_rules(other) == rules
        }),
{
}

/// A filter that was parsed is used as it is, and one with the rule `info` in place
/// of one that was not.
pub proof fn law_a_parsed_filter_is_used(
    parsed: Result<tracing_subscriber::EnvFilter, tracing_subscriber::filter::ParseError>,
    r: tracing_subscriber::EnvFilter,
)
    requires
        call_ensures(filter_or_info, (parsed,), r),
    ensures
        parsed matches Ok(filter) ==> r == filter,
        parsed is Err ==> crate::observability::filter_rules(r) == "info"@,
{
}

/// A single directive is looked at trimmed, by itself, and without the white space
/// in front of it.
proof fn lemma_single(directive: Seq<char>, lead: Seq<char>, inner: Seq<char>, trail: Seq<char>)
    requires
        says(directive, lead, inner, trail),
    ensures
        crate::text::trimmed(directive) == inner,
        directive.len() - crate::text::trimmed_start(directive).len() == lead.len(),
        aligned(directive) <==> aligned_directive(directive),
{
    let bounds = crate::text::law_trimmed_is_the_inner_stretch(directive);
    let end = lead.len() + inner.len();
    assert(directive[lead.len() as int] == inner[0]);
    assert(directive[end - 1] == inner.last());
    assert(bounds.0 <= lead.len());
    assert(bounds.1 >= end);
    assert(crate::text::trimmed(directive)[0] == directive[bounds.0]);
    assert(bounds.0 < lead.len() ==> directive[bounds.0] == lead[bounds.0]);
    assert(crate::text::trimmed(directive).last() == directive[bounds.1 - 1]);
    assert(bounds.1 > end ==> directive[bounds.1 - 1] == trail[bounds.1 - 1 - end]);
    assert(crate::text::trimmed(directive) =~= inner);
    crate::text::lemma_one_piece(directive, ',');
    assert(crate::text::pieces(directive, ',')[0] == directive);
}

/// What is found is the first of what is looked for.
proof fn lemma_found(s: Seq<char>, from: int, at: int, a: char, b: char)
    requires
        0 <= from <= at <= s.len(),
        forall|i: int| from <= i < at ==> #[trigger] s[i] != a && s[i] != b,
        at < s.len() ==> s[at] == a || s[at] == b,
    ensures
        find(s, from, a, b) == at,
    decreases at - from,
{
    if from < at {
        lemma_found(s, from + 1, at, a, b);
    }
}

/// Slicing is cutting the text in UTF-8.
proof fn lemma_cuts(directive: Seq<char>, inner: Seq<char>, prefix: Seq<char>)
    requires
        prefix.len() <= inner.len(),
        prefix =~= inner.take(prefix.len() as int),
    ensures
        fits(directive, inner, prefix.len() as int) <==> cuts(directive, prefix),
{
    let n = prefix.len() as int;
    lemma_same_offset(inner, prefix, n);
    lemma_offset_is_encoded(prefix);
    lemma_boundary(directive, offset(inner, n) as int);
}

/// The offset of the end of a text is the length of the text in UTF-8.
proof fn lemma_offset_is_encoded(s: Seq<char>)
    ensures
        offset(s, s.len() as int) == vstd::utf8::encode_utf8(s).len(),
    decreases s.len(),
{
    if s.len() > 0 {
        lemma_offset_from_the_front(s, s.len() as int);
        lemma_offset_is_encoded(s.drop_first());
        vstd::utf8::char_is_scalar(s[0]);
    }
}

/// An offset is the width of the first character and an offset of the others.
proof fn lemma_offset_from_the_front(s: Seq<char>, n: int)
    requires
        0 < n <= s.len(),
    ensures
        offset(s, n) == width(s[0]) + offset(s.drop_first(), n - 1),
    decreases n,
{
    if n > 1 {
        lemma_offset_from_the_front(s, n - 1);
    } else {
        reveal_with_fuel(offset, 2);
    }
}

/// A text in UTF-8 can be cut at the offsets of its characters and at no others.
proof fn lemma_boundary(s: Seq<char>, k: int)
    ensures
        vstd::utf8::is_char_boundary(vstd::utf8::encode_utf8(s), k) <==> exists|m: int|
            0 <= m <= s.len() && #[trigger] offset(s, m) == k,
    decreases s.len(),
{
    let bytes = vstd::utf8::encode_utf8(s);
    vstd::utf8::encode_utf8_valid_utf8(s);
    lemma_offset_is_encoded(s);
    assert(offset(s, 0) == 0);
    if 0 < k <= bytes.len() {
        let rest = s.drop_first();
        let wide = width(s[0]) as int;
        vstd::utf8::encode_utf8_first_scalar(s);
        vstd::utf8::char_is_scalar(s[0]);
        assert(vstd::utf8::encode_scalar(s[0] as u32).len() == wide);
        assert(vstd::utf8::pop_first_scalar(bytes) =~= vstd::utf8::encode_utf8(rest));
        lemma_boundary(rest, k - wide);
        if exists|m: int| 0 <= m <= rest.len() && #[trigger] offset(rest, m) == k - wide {
            let m = choose|m: int| 0 <= m <= rest.len() && #[trigger] offset(rest, m) == k - wide;
            lemma_offset_from_the_front(s, m + 1);
            assert(offset(s, m + 1) == k);
        }
        if exists|m: int| 0 <= m <= s.len() && #[trigger] offset(s, m) == k {
            let m = choose|m: int| 0 <= m <= s.len() && #[trigger] offset(s, m) == k;
            lemma_offset_from_the_front(s, m);
            assert(offset(rest, m - 1) == k - wide);
        }
    } else if k > bytes.len() {
        assert forall|m: int| 0 <= m <= s.len() implies #[trigger] offset(s, m) != k by {
            lemma_offset_grows(s, m, s.len() as int);
        }
    }
}

/// A directive by itself can be sliced where the directive can.
proof fn lemma_alone(directive: Seq<char>)
    requires
        aligned_directive(directive),
        !directive.contains(','),
    ensures
        aligned(directive),
{
    crate::text::lemma_one_piece(directive, ',');
}

/// What is found lies between where the search starts and the end.
proof fn lemma_find(s: Seq<char>, from: int, a: char, b: char)
    requires
        0 <= from <= s.len(),
    ensures
        from <= find(s, from, a, b) <= s.len(),
    decreases s.len() - from,
{
    if from < s.len() && s[from] != a && s[from] != b {
        lemma_find(s, from + 1, a, b);
    }
}

/// What is found in a text is found in every text that begins alike.
proof fn lemma_find_alike(s: Seq<char>, t: Seq<char>, from: int, a: char, b: char)
    requires
        0 <= from <= s.len(),
        find(s, from, a, b) < s.len(),
        find(s, from, a, b) < t.len(),
        forall|i: int| 0 <= i <= find(s, from, a, b) ==> s[i] == t[i],
    ensures
        find(t, from, a, b) == find(s, from, a, b),
    decreases s.len() - from,
{
    lemma_find(s, from, a, b);
    if s[from] != a && s[from] != b {
        lemma_find_alike(s, t, from + 1, a, b);
    }
}

/// More characters take more bytes.
proof fn lemma_offset_grows(s: Seq<char>, n: int, m: int)
    requires
        0 <= n,
    ensures
        n < m ==> offset(s, n) < offset(s, m),
    decreases m - n,
{
    if n < m - 1 {
        lemma_offset_grows(s, n, m - 1);
    }
}

/// Texts that begin alike have the same offsets.
proof fn lemma_same_offset(s: Seq<char>, t: Seq<char>, n: int)
    requires
        forall|i: int| 0 <= i < n ==> s[i] == t[i],
    ensures
        offset(s, n) == offset(t, n),
    decreases n,
{
    if n > 0 {
        lemma_same_offset(s, t, n - 1);
    }
}

/// A stretch of a text takes no more bytes than the text up to its end.
proof fn lemma_offset_of_stretch(s: Seq<char>, inner: Seq<char>, from: int, n: int)
    requires
        0 <= from,
        0 <= n,
        forall|i: int| 0 <= i < n ==> inner[i] == s[from + i],
    ensures
        offset(inner, n) <= offset(s, from + n),
    decreases n,
{
    if n > 0 {
        lemma_offset_of_stretch(s, inner, from, n - 1);
    }
}

/// Whether a directive can be sliced at an offset shows in what it begins with.
proof fn lemma_fits_alike(
    directive: Seq<char>,
    inner: Seq<char>,
    other: Seq<char>,
    other_inner: Seq<char>,
    leading: int,
    n: int,
)
    requires
        0 <= leading,
        0 <= n,
        leading + n <= other.len(),
        fits(directive, inner, n),
        forall|i: int| 0 <= i < n ==> inner[i] == directive[leading + i],
        forall|i: int| 0 <= i < leading + n ==> directive[i] == other[i],
        forall|i: int| 0 <= i < n ==> inner[i] == other_inner[i],
    ensures
        fits(other, other_inner, n),
{
    let m = choose|m: int|
        0 <= m <= directive.len() && #[trigger] offset(directive, m) == offset(inner, n);
    lemma_offset_of_stretch(directive, inner, leading, n);
    lemma_offset_grows(directive, leading + n, m);
    lemma_same_offset(directive, other, m);
    lemma_same_offset(inner, other_inner, n);
}

/// Where a directive can be sliced up to its field, what of it [`up_to_field`]
/// takes can be sliced.
proof fn lemma_up_to_field(directive: Seq<char>, n: int)
    requires
        !directive.contains(','),
        ({
            let inner = crate::text::trimmed(directive);
            let name_end = find(inner, n + 1, ']', '{');
            let field_end = find(inner, name_end + 1, '}', '}');
            &&& 0 <= n < inner.len()
            &&& n == find(inner, 0, '=', '[')
            &&& inner[n] == '['
            &&& n > 0 ==> fits(directive, inner, n)
            &&& name_end < inner.len()
            &&& inner[name_end] == '{'
            &&& fits(directive, inner, n + 1)
            &&& fits(directive, inner, name_end)
            &&& field_end < inner.len()
            &&& fits(directive, inner, name_end + 1)
            &&& fits(directive, inner, field_end)
        }),
    ensures
        ({
            let inner = crate::text::trimmed(directive);
            let name_end = find(inner, n + 1, ']', '{');
            aligned(up_to_field(directive, find(inner, name_end + 1, '}', '}')))
        }),
{
    let inner = crate::text::trimmed(directive);
    let name_end = find(inner, n + 1, ']', '{');
    let field_end = find(inner, name_end + 1, '}', '}');
    lemma_find(inner, n + 1, ']', '{');
    lemma_find(inner, name_end + 1, '}', '}');
    let leading = crate::text::law_trimmed_is_the_inner_stretch(directive).0;
    let part = up_to_field(directive, field_end);
    let part_inner = inner.take(field_end + 1).push(']');
    assert(part.len() == leading + field_end + 2);
    let bounds = crate::text::law_trimmed_is_the_inner_stretch(part);
    assert(part[leading] == inner[0]);
    assert(part[leading + field_end + 1] == ']');
    assert(bounds.0 <= leading);
    assert(bounds.1 == part.len());
    assert(crate::text::trimmed(part)[0] == part[bounds.0]);
    assert(bounds.0 < leading ==> part[bounds.0] == directive[bounds.0]);
    assert(crate::text::trimmed(part) =~= part_inner);
    lemma_find_alike(inner, part_inner, 0, '=', '[');
    lemma_find_alike(inner, part_inner, n + 1, ']', '{');
    lemma_find_alike(inner, part_inner, name_end + 1, '}', '}');
    if n > 0 {
        lemma_fits_alike(directive, inner, part, part_inner, leading, n);
    }
    lemma_fits_alike(directive, inner, part, part_inner, leading, n + 1);
    lemma_fits_alike(directive, inner, part, part_inner, leading, name_end);
    lemma_fits_alike(directive, inner, part, part_inner, leading, name_end + 1);
    lemma_fits_alike(directive, inner, part, part_inner, leading, field_end);
    assert forall|i: int| 0 <= i < part.len() implies part[i] != ',' by {
        if i < part.len() - 1 {
            assert(directive.contains(directive[i]));
        }
    }
    lemma_alone(part);
}

} // verus!
