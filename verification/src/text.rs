//! Text handling for configuration values: white space, trimming, splitting
//! a list at its separators, and decimal numbers.
use vstd::prelude::*;
use vstd::string::StringExecFns;
use vstd::string::StrSliceExecFns;

verus! {

/// Whether `c` has the Unicode property `White_Space`.
pub open spec fn white_space(c: char) -> bool {
    let code = c as u32;
    ||| 0x9 <= code <= 0xD
    ||| code == 0x20
    ||| code == 0x85
    ||| code == 0xA0
    ||| code == 0x1680
    ||| 0x2000 <= code <= 0x200A
    ||| code == 0x2028
    ||| code == 0x2029
    ||| code == 0x202F
    ||| code == 0x205F
    ||| code == 0x3000
}

/// `s` without its leading white space.
pub open spec fn trimmed_start(s: Seq<char>) -> Seq<char>
    decreases s.len(),
{
    if s.len() > 0 && white_space(s[0]) {
        trimmed_start(s.drop_first())
    } else {
        s
    }
}

/// `s` without its trailing white space.
pub open spec fn trimmed_end(s: Seq<char>) -> Seq<char>
    decreases s.len(),
{
    if s.len() > 0 && white_space(s.last()) {
        trimmed_end(s.drop_last())
    } else {
        s
    }
}

/// `s` without its leading and its trailing white space.
pub open spec fn trimmed(s: Seq<char>) -> Seq<char> {
    trimmed_end(trimmed_start(s))
}

/// The pieces of `s` between the occurrences of `separator`, in order. There is
/// one piece more than there are separators; a piece may be empty.
pub open spec fn pieces(s: Seq<char>, separator: char) -> Seq<Seq<char>>
    decreases s.len(),
{
    if s.len() == 0 {
        seq![Seq::empty()]
    } else {
        let before = pieces(s.drop_last(), separator);
        if s.last() == separator {
            before.push(Seq::empty())
        } else {
            before.drop_last().push(before.last().push(s.last()))
        }
    }
}

/// The pieces of `s` between the occurrences of `separator`, each trimmed.
pub open spec fn trimmed_pieces(s: Seq<char>, separator: char) -> Seq<Seq<char>> {
    Seq::new(pieces(s, separator).len(), |i: int| trimmed(pieces(s, separator)[i]))
}

/// `parts` written one after the other with `separator` between neighbours.
pub open spec fn joined(parts: Seq<Seq<char>>, separator: char) -> Seq<char>
    decreases parts.len(),
{
    if parts.len() == 0 {
        Seq::empty()
    } else if parts.len() == 1 {
        parts[0]
    } else {
        joined(parts.drop_last(), separator).push(separator) + parts.last()
    }
}

/// The decimal digit of `d`, for `d` below ten.
pub open spec fn digit(d: nat) -> char {
    (('0' as u32 + d) as u32) as char
}

/// `n` in decimal notation, without leading zeros.
pub open spec fn decimal(n: nat) -> Seq<char>
    decreases n,
{
    if n < 10 {
        seq![digit(n)]
    } else {
        decimal(n / 10).push(digit(n % 10))
    }
}

/// The contents of each string of `strings`.
pub open spec fn contents(strings: Seq<String>) -> Seq<Seq<char>> {
    strings.map_values(|s: String| s@)
}

/// Tells whether `c` has the Unicode property `White_Space`.
pub fn is_white_space(c: char) -> (r: bool)
    ensures
        r == white_space(c),
{
    let code: u32 = c as u32;
    (0x9 <= code && code <= 0xD) || code == 0x20 || code == 0x85 || code == 0xA0 || code == 0x1680
        || (0x2000 <= code && code <= 0x200A) || code == 0x2028 || code == 0x2029 || code == 0x202F
        || code == 0x205F || code == 0x3000
}

/// The characters of `text`, in order.
pub(crate) fn characters(text: &str) -> (r: Vec<char>)
    ensures
        r@ == text@,
{
    let mut r: Vec<char> = Vec::new();
    for c in it: text.chars()
        invariant
            r@ == it.seq().take(it.index() as int),
            it.seq() == text@,
    {
        r.push(c);
    }
    r
}

/// The bounds of what is left of `chars[from..to]` once it is trimmed.
pub(crate) fn trimmed_bounds(chars: &Vec<char>, from: usize, to: usize) -> (r: (usize, usize))
    requires
        from <= to <= chars@.len(),
    ensures
        from <= r.0 <= r.1 <= to,
        chars@.subrange(r.0 as int, to as int) == trimmed_start(
            chars@.subrange(from as int, to as int),
        ),
        chars@.subrange(r.0 as int, r.1 as int) == trimmed(
            chars@.subrange(from as int, to as int),
        ),
{
    let ghost whole = chars@.subrange(from as int, to as int);
    let mut start: usize = from;
    while start < to && is_white_space(chars[start])
        invariant
            from <= start <= to <= chars@.len(),
            trimmed_start(whole) == trimmed_start(chars@.subrange(start as int, to as int)),
        decreases to - start,
    {
        assert(chars@.subrange(start as int, to as int).drop_first() =~= chars@.subrange(
            start + 1,
            to as int,
        ));
        start = start + 1;
    }
    let mut end: usize = to;
    while start < end && is_white_space(chars[end - 1])
        invariant
            from <= start <= end <= to <= chars@.len(),
            trimmed(whole) == trimmed_end(chars@.subrange(start as int, end as int)),
        decreases end - start,
    {
        assert(chars@.subrange(start as int, end as int).drop_last() =~= chars@.subrange(
            start as int,
            end - 1,
        ));
        end = end - 1;
    }
    (start, end)
}

/// `text` without its leading and trailing white space.
pub fn trim(text: &str) -> (r: String)
    ensures
        r@ == trimmed(text@),
{
    let chars = characters(text);
    let bounds = trimmed_bounds(&chars, 0, chars.len());
    assert(chars@.subrange(0, chars@.len() as int) =~= text@);
    text.substring_char(bounds.0, bounds.1).to_owned()
}

/// Where the pieces of `chars` between the occurrences of `separator` begin and
/// end.
pub(crate) fn piece_bounds(chars: &Vec<char>, separator: char) -> (r: Vec<(usize, usize)>)
    ensures
        r@.len() == pieces(chars@, separator).len(),
        forall|i: int|
            0 <= i < r@.len() ==> (#[trigger] r@[i]).0 <= r@[i].1 <= chars@.len() && chars@.subrange(
                r@[i].0 as int,
                r@[i].1 as int,
            ) == pieces(chars@, separator)[i],
{
    let mut found: Vec<(usize, usize)> = Vec::new();
    let mut start: usize = 0;
    let mut at: usize = 0;
    let ghost mut complete: Seq<Seq<char>> = Seq::empty();
    assert(chars@.subrange(0, 0) =~= Seq::empty());
    assert(pieces(chars@.take(0), separator) =~= complete.push(chars@.subrange(0, 0)));
    while at < chars.len()
        invariant
            start <= at <= chars@.len(),
            found@.len() == complete.len(),
            forall|i: int|
                0 <= i < found@.len() ==> (#[trigger] found@[i]).0 <= found@[i].1 <= chars@.len()
                    && chars@.subrange(found@[i].0 as int, found@[i].1 as int) == complete[i],
            pieces(chars@.take(at as int), separator) == complete.push(
                chars@.subrange(start as int, at as int),
            ),
        decreases chars@.len() - at,
    {
        let ghost current = chars@.subrange(start as int, at as int);
        assert(chars@.take(at + 1).drop_last() =~= chars@.take(at as int));
        assert(complete.push(current).drop_last() =~= complete);
        if chars[at] == separator {
            found.push((start, at));
            proof {
                complete = complete.push(current);
                assert(chars@.subrange(at + 1, at + 1) =~= Seq::empty());
            }
            start = at + 1;
        } else {
            assert(chars@.subrange(start as int, at + 1) =~= current.push(chars@[at as int]));
        }
        at = at + 1;
    }
    assert(chars@.take(at as int) =~= chars@);
    found.push((start, at));
    found
}

/// The pieces of `text` between the occurrences of `separator`, each trimmed.
pub fn split_trimmed(text: &str, separator: char) -> (r: Vec<String>)
    ensures
        contents(r@) == trimmed_pieces(text@, separator),
{
    let chars = characters(text);
    let bounds = piece_bounds(&chars, separator);
    let mut found: Vec<String> = Vec::new();
    let mut i: usize = 0;
    while i < bounds.len()
        invariant
            chars@ == text@,
            i <= bounds@.len(),
            bounds@.len() == pieces(text@, separator).len(),
            forall|j: int|
                0 <= j < bounds@.len() ==> (#[trigger] bounds@[j]).0 <= bounds@[j].1 <= chars@.len()
                    && chars@.subrange(bounds@[j].0 as int, bounds@[j].1 as int) == pieces(
                    text@,
                    separator,
                )[j],
            found@.len() == i,
            forall|j: int|
                0 <= j < i ==> (#[trigger] found@[j])@ == trimmed(pieces(text@, separator)[j]),
        decreases bounds@.len() - i,
    {
        let piece = bounds[i];
        let inner = trimmed_bounds(&chars, piece.0, piece.1);
        found.push(text.substring_char(inner.0, inner.1).to_owned());
        i = i + 1;
    }
    assert(contents(found@) =~= trimmed_pieces(text@, separator));
    found
}

/// The decimal digit of `d`, as text.
fn digit_text(d: usize) -> (r: &'static str)
    requires
        d < 10,
    ensures
        r@ == seq![digit(d as nat)],
{
    proof {
        reveal_strlit("0");
        reveal_strlit("1");
        reveal_strlit("2");
        reveal_strlit("3");
        reveal_strlit("4");
        reveal_strlit("5");
        reveal_strlit("6");
        reveal_strlit("7");
        reveal_strlit("8");
        reveal_strlit("9");
    }
    match d {
        0 => "0",
        1 => "1",
        2 => "2",
        3 => "3",
        4 => "4",
        5 => "5",
        6 => "6",
        7 => "7",
        8 => "8",
        _ => "9",
    }
}

/// `n` in decimal notation.
pub fn to_decimal(n: usize) -> (r: String)
    ensures
        r@ == decimal(n as nat),
    decreases n,
{
    if n < 10 {
        digit_text(n).to_owned()
    } else {
        let mut r = to_decimal(n / 10);
        r.append(digit_text(n % 10));
        assert(r@ =~= decimal((n / 10) as nat).push(digit((n % 10) as nat)));
        r
    }
}

/// `first` with `second` behind it.
pub fn followed_by(first: &str, second: &str) -> (r: String)
    ensures
        r@ == first@ + second@,
{
    let mut r = first.to_owned();
    r.append(second);
    r
}

/// Splitting loses nothing: the pieces of a text, joined again with the
/// separator, are the text.
pub proof fn law_pieces_join_to_the_text(s: Seq<char>, separator: char)
    ensures
        pieces(s, separator).len() > 0,
        joined(pieces(s, separator), separator) == s,
    decreases s.len(),
{
    if s.len() > 0 {
        let before = pieces(s.drop_last(), separator);
        law_pieces_join_to_the_text(s.drop_last(), separator);
        if s.last() == separator {
            let all = before.push(Seq::empty());
            assert(all.drop_last() =~= before);
            assert(joined(all, separator) =~= s);
        } else {
            let all = before.drop_last().push(before.last().push(s.last()));
            assert(all.drop_last() =~= before.drop_last());
            assert(joined(all, separator) =~= joined(before, separator).push(s.last()));
            assert(s.drop_last().push(s.last()) =~= s);
        }
    }
}

/// No piece of a split text holds the separator, and there is one piece more
/// than there are separators.
pub proof fn law_pieces_are_what_separators_bound(s: Seq<char>, separator: char)
    ensures
        forall|i: int|
            0 <= i < pieces(s, separator).len() ==> !(#[trigger] pieces(s, separator)[i]).contains(
                separator,
            ),
        pieces(s, separator).len() == s.to_multiset().count(separator) + 1,
    decreases s.len(),
{
    broadcast use vstd::seq_lib::group_to_multiset_ensures;

    if s.len() > 0 {
        let before = pieces(s.drop_last(), separator);
        law_pieces_join_to_the_text(s.drop_last(), separator);
        law_pieces_are_what_separators_bound(s.drop_last(), separator);
        assert(s.drop_last().push(s.last()) =~= s);
        if s.last() != separator {
            assert(!before.last().contains(separator));
            assert forall|k: int| 0 <= k < before.last().push(s.last()).len() implies before.last().push(
                s.last(),
            )[k] != separator by {
                if k < before.last().len() {
                    assert(before.last().contains(before.last()[k]));
                }
            }
        }
    }
}

/// The first piece of a text ends at its first separator, and the others are
/// those of what is behind it.
pub proof fn law_the_first_piece_ends_at_the_first_separator(
    first: Seq<char>,
    rest: Seq<char>,
    separator: char,
)
    requires
        !first.contains(separator),
    ensures
        pieces(first.push(separator) + rest, separator) == seq![first] + pieces(rest, separator),
    decreases rest.len(),
{
    let whole = first.push(separator) + rest;
    if rest.len() == 0 {
        lemma_one_piece(first, separator);
        assert(whole.drop_last() =~= first);
        assert(rest =~= Seq::empty());
        assert(pieces(whole, separator) =~= seq![first] + pieces(rest, separator));
    } else {
        let before = rest.drop_last();
        law_the_first_piece_ends_at_the_first_separator(first, before, separator);
        law_pieces_join_to_the_text(before, separator);
        assert(whole.drop_last() =~= first.push(separator) + before);
        let all = seq![first] + pieces(before, separator);
        assert(all.drop_last() =~= seq![first] + pieces(before, separator).drop_last());
        assert(all.last() == pieces(before, separator).last());
        assert(pieces(whole, separator) =~= seq![first] + pieces(rest, separator));
    }
}

/// Trimming removes white space at the two ends and nothing else: what is left
/// is a stretch of the text, all that was removed around it is white space, and
/// its own first and last characters are not.
pub proof fn law_trimmed_is_the_inner_stretch(s: Seq<char>) -> (bounds: (int, int))
    ensures
        0 <= bounds.0 <= bounds.1 <= s.len(),
        trimmed_start(s) == s.skip(bounds.0),
        trimmed(s) == s.subrange(bounds.0, bounds.1),
        forall|i: int| 0 <= i < bounds.0 ==> white_space(#[trigger] s[i]),
        forall|i: int| bounds.1 <= i < s.len() ==> white_space(#[trigger] s[i]),
        trimmed(s).len() > 0 ==> !white_space(trimmed(s)[0]) && !white_space(trimmed(s).last()),
{
    let from = lemma_trimmed_start(s);
    let rest = trimmed_start(s);
    let kept = lemma_trimmed_end(rest);
    assert(trimmed(s) =~= s.subrange(from, from + kept));
    assert forall|i: int| from + kept <= i < s.len() implies white_space(#[trigger] s[i]) by {
        assert(rest[i - from] == s[i]);
    }
    (from, from + kept)
}

/// Whether `inner` is what is left of `whole` once all white space at its two
/// ends is taken away.
pub open spec fn strips(inner: Seq<char>, whole: Seq<char>) -> bool {
    exists|from: int, to: int|
        {
            &&& 0 <= from <= to <= whole.len()
            &&& inner == #[trigger] whole.subrange(from, to)
            &&& forall|i: int| 0 <= i < from ==> white_space(#[trigger] whole[i])
            &&& forall|i: int| to <= i < whole.len() ==> white_space(#[trigger] whole[i])
            &&& inner.len() > 0 ==> !white_space(inner[0]) && !white_space(inner.last())
        }
}

/// The number that `digits` denote in decimal notation.
pub open spec fn number(digits: Seq<char>) -> int
    decreases digits.len(),
{
    if digits.len() == 0 {
        0
    } else {
        number(digits.drop_last()) * 10 + (digits.last() as u32 - '0' as u32)
    }
}

/// White space is these characters and no others.
pub proof fn law_white_space_is_these_characters(c: char, r: bool)
    requires
        call_ensures(is_white_space, (c,), r),
    ensures
        r <==> white_space(c),
        r <==> {
            ||| c == '\t'
            ||| c == '\n'
            ||| c == '\u{b}'
            ||| c == '\u{c}'
            ||| c == '\r'
            ||| c == ' '
            ||| c == '\u{85}'
            ||| c == '\u{a0}'
            ||| c == '\u{1680}'
            ||| c == '\u{2000}'
            ||| c == '\u{2001}'
            ||| c == '\u{2002}'
            ||| c == '\u{2003}'
            ||| c == '\u{2004}'
            ||| c == '\u{2005}'
            ||| c == '\u{2006}'
            ||| c == '\u{2007}'
            ||| c == '\u{2008}'
            ||| c == '\u{2009}'
            ||| c == '\u{200a}'
            ||| c == '\u{2028}'
            ||| c == '\u{2029}'
            ||| c == '\u{202f}'
            ||| c == '\u{205f}'
            ||| c == '\u{3000}'
        },
{
}

/// Trimming a text takes away all white space at its two ends and nothing else.
pub proof fn law_trim_strips_the_ends(text: &str, r: String)
    requires
        call_ensures(trim, (text,), r),
    ensures
        strips(r@, text@),
{
    let bounds = law_trimmed_is_the_inner_stretch(text@);
    assert(r@ == text@.subrange(bounds.0, bounds.1));
}

/// A text is split into parts that hold no separator and that give the text
/// again once they are joined, and each part is stripped of the white space at
/// its ends.
pub proof fn law_split_parts_are_stripped(text: &str, separator: char, r: Vec<String>) -> (parts:
    Seq<Seq<char>>)
    requires
        call_ensures(split_trimmed, (text, separator), r),
    ensures
        joined(parts, separator) == text@,
        forall|i: int| 0 <= i < parts.len() ==> !(#[trigger] parts[i]).contains(separator),
        parts.len() > 0,
        r@.len() == parts.len(),
        forall|i: int| 0 <= i < parts.len() ==> strips((#[trigger] r@[i])@, parts[i]),
{
    let parts = pieces(text@, separator);
    law_pieces_join_to_the_text(text@, separator);
    law_pieces_are_what_separators_bound(text@, separator);
    assert(contents(r@).len() == r@.len());
    assert forall|i: int| 0 <= i < parts.len() implies strips((#[trigger] r@[i])@, parts[i]) by {
        assert(contents(r@)[i] == r@[i]@);
        let bounds = law_trimmed_is_the_inner_stretch(parts[i]);
        assert(r@[i]@ == parts[i].subrange(bounds.0, bounds.1));
    }
    parts
}

/// A number is written with decimal digits that denote it, and without a zero in
/// front of other digits.
pub proof fn law_the_digits_denote_the_number(n: usize, r: String)
    requires
        call_ensures(to_decimal, (n,), r),
    ensures
        r@.len() > 0,
        number(r@) == n,
        forall|i: int| 0 <= i < r@.len() ==> '0' <= #[trigger] r@[i] <= '9',
        r@.len() > 1 ==> r@[0] != '0',
{
    lemma_digits(n as nat);
}

/// One text behind another is the first, then the second, and nothing else.
pub proof fn law_followed_by_keeps_both(first: &str, second: &str, r: String)
    requires
        call_ensures(followed_by, (first, second), r),
    ensures
        r@.len() == first@.len() + second@.len(),
        forall|i: int| 0 <= i < first@.len() ==> #[trigger] r@[i] == first@[i],
        forall|i: int| 0 <= i < second@.len() ==> r@[first@.len() + i] == #[trigger] second@[i],
{
}

proof fn lemma_digits(n: nat)
    ensures
        decimal(n).len() > 0,
        number(decimal(n)) == n,
        forall|i: int| 0 <= i < decimal(n).len() ==> '0' <= #[trigger] decimal(n)[i] <= '9',
        decimal(n).len() > 1 ==> decimal(n)[0] != '0',
        n > 0 ==> decimal(n)[0] != '0',
    decreases n,
{
    reveal_with_fuel(number, 2);
    if n >= 10 {
        lemma_digits(n / 10);
        assert(decimal(n).drop_last() =~= decimal(n / 10));
    } else {
        assert(decimal(n).drop_last() =~= Seq::empty());
    }
}

/// A text without a separator is its own only piece.
pub(crate) proof fn lemma_one_piece(s: Seq<char>, separator: char)
    requires
        !s.contains(separator),
    ensures
        pieces(s, separator) == seq![s],
    decreases s.len(),
{
    if s.len() > 0 {
        let before = s.drop_last();
        assert forall|i: int| 0 <= i < before.len() implies before[i] != separator by {
            assert(s.contains(s[i]));
        }
        assert(s.contains(s.last()));
        lemma_one_piece(before, separator);
        assert(before.push(s.last()) =~= s);
        assert(pieces(s, separator) =~= seq![s]);
    } else {
        assert(s =~= Seq::empty());
    }
}

/// A text that neither starts nor ends with white space is left as it is.
pub(crate) proof fn lemma_nothing_to_trim(s: Seq<char>)
    requires
        s.len() > 0,
        !white_space(s[0]),
        !white_space(s.last()),
    ensures
        trimmed(s) == s,
{
}

proof fn lemma_trimmed_start(s: Seq<char>) -> (from: int)
    ensures
        0 <= from <= s.len(),
        trimmed_start(s) == s.skip(from),
        forall|i: int| 0 <= i < from ==> white_space(#[trigger] s[i]),
        trimmed_start(s).len() > 0 ==> !white_space(trimmed_start(s)[0]),
    decreases s.len(),
{
    if s.len() > 0 && white_space(s[0]) {
        let rest = s.drop_first();
        let from = lemma_trimmed_start(rest);
        assert(rest.skip(from) =~= s.skip(from + 1));
        assert forall|i: int| 0 <= i < from + 1 implies white_space(#[trigger] s[i]) by {
            if i > 0 {
                assert(rest[i - 1] == s[i]);
            }
        }
        from + 1
    } else {
        assert(s.skip(0) =~= s);
        0
    }
}

proof fn lemma_trimmed_end(s: Seq<char>) -> (kept: int)
    ensures
        0 <= kept <= s.len(),
        trimmed_end(s) == s.take(kept),
        forall|i: int| kept <= i < s.len() ==> white_space(#[trigger] s[i]),
        trimmed_end(s).len() > 0 ==> !white_space(trimmed_end(s).last()),
    decreases s.len(),
{
    if s.len() > 0 && white_space(s.last()) {
        let rest = s.drop_last();
        let kept = lemma_trimmed_end(rest);
        assert(rest.take(kept) =~= s.take(kept));
        assert forall|i: int| kept <= i < s.len() implies white_space(#[trigger] s[i]) by {
            if i < rest.len() {
                assert(rest[i] == s[i]);
            }
        }
        kept
    } else {
        assert(s.take(s.len() as int) =~= s);
        s.len() as int
    }
}

} // verus!
