//! Character-sequence primitives shared by every module: conversion
//! between `String` and `Vec<char>`, prefix / suffix / substring tests,
//! Unicode whitespace trimming, the `split` and `lines` scans, joining,
//! and decimal rendering and parsing of `usize` values.

use vstd::prelude::*;

verus! {

// ---------------------------------------------------------------------
// Specifications
// ---------------------------------------------------------------------

/// The Unicode `White_Space` property, which is what `str::trim` strips.
pub open spec fn is_whitespace(c: char) -> bool {
    let code = c as u32;
    ||| 0x09 <= code <= 0x0d
    ||| code == 0x20
    ||| code == 0x85
    ||| code == 0xa0
    ||| code == 0x1680
    ||| 0x2000 <= code <= 0x200a
    ||| code == 0x2028
    ||| code == 0x2029
    ||| code == 0x202f
    ||| code == 0x205f
    ||| code == 0x3000
}

/// The sequence with its leading whitespace removed.
pub open spec fn trim_start(s: Seq<char>) -> Seq<char>
    decreases s.len(),
{
    if s.len() > 0 && is_whitespace(s[0]) {
        trim_start(s.skip(1))
    } else {
        s
    }
}

/// The sequence with its trailing whitespace removed.
pub open spec fn trim_end(s: Seq<char>) -> Seq<char>
    decreases s.len(),
{
    if s.len() > 0 && is_whitespace(s.last()) {
        trim_end(s.drop_last())
    } else {
        s
    }
}

/// What `str::trim` returns.
pub open spec fn trim(s: Seq<char>) -> Seq<char> {
    trim_end(trim_start(s))
}

/// `prefix` is an initial segment of `s`.
pub open spec fn has_prefix(s: Seq<char>, prefix: Seq<char>) -> bool {
    prefix.len() <= s.len() && s.subrange(0, prefix.len() as int) == prefix
}

/// `suffix` is a final segment of `s`.
pub open spec fn has_suffix(s: Seq<char>, suffix: Seq<char>) -> bool {
    suffix.len() <= s.len() && s.subrange(s.len() - suffix.len(), s.len() as int) == suffix
}

/// `needle` occurs in `s` starting at `position`.
pub open spec fn occurs_at(s: Seq<char>, needle: Seq<char>, position: int) -> bool {
    0 <= position && position + needle.len() <= s.len() && s.subrange(
        position,
        position + needle.len(),
    ) == needle
}

/// `needle` occurs somewhere in `s` (the empty needle always does).
pub open spec fn has_substring(s: Seq<char>, needle: Seq<char>) -> bool {
    exists|position: int| occurs_at(s, needle, position)
}

/// The views of a sequence of character vectors.
pub open spec fn views(pieces: Seq<Vec<char>>) -> Seq<Seq<char>> {
    pieces.map_values(|piece: Vec<char>| piece@)
}

/// The views of a sequence of strings.
pub open spec fn string_views(pieces: Seq<String>) -> Seq<Seq<char>> {
    pieces.map_values(|piece: String| piece@)
}

/// Scan behind `split_on`: `start` is where the current piece began,
/// `position` the next character to examine.
pub open spec fn split_scan(s: Seq<char>, separator: char, start: int, position: int) -> Seq<
    Seq<char>,
>
    decreases s.len() - position,
{
    if position >= s.len() {
        seq![s.subrange(start, s.len() as int)]
    } else if s[position] == separator {
        seq![s.subrange(start, position)] + split_scan(s, separator, position + 1, position + 1)
    } else {
        split_scan(s, separator, start, position + 1)
    }
}

/// What `str::split(separator)` yields: every piece between separators,
/// empty pieces included, at least one piece.
pub open spec fn split_on(s: Seq<char>, separator: char) -> Seq<Seq<char>> {
    split_scan(s, separator, 0, 0)
}

/// A line as `str::lines` reports it once its `\n` is cut off: a
/// carriage return right before the line feed is dropped too.
pub open spec fn without_carriage_return(line: Seq<char>) -> Seq<char> {
    if line.len() > 0 && line.last() == '\r' {
        line.drop_last()
    } else {
        line
    }
}

/// Scan behind `lines_of`.
pub open spec fn lines_scan(s: Seq<char>, start: int, position: int) -> Seq<Seq<char>>
    decreases s.len() - position,
{
    if position >= s.len() {
        if start < s.len() {
            seq![s.subrange(start, s.len() as int)]
        } else {
            seq![]
        }
    } else if s[position] == '\n' {
        seq![without_carriage_return(s.subrange(start, position))] + lines_scan(
            s,
            position + 1,
            position + 1,
        )
    } else {
        lines_scan(s, start, position + 1)
    }
}

/// What `str::lines` yields.
pub open spec fn lines_of(s: Seq<char>) -> Seq<Seq<char>> {
    lines_scan(s, 0, 0)
}

/// Scanning up to the first line feed at `q` yields the line before it
/// first.
proof fn lemma_scan_to_line_feed(s: Seq<char>, start: int, position: int, q: int)
    requires
        0 <= start <= position <= q < s.len(),
        s[q] == '\n',
        forall|i: int| position <= i < q ==> s[i] != '\n',
    ensures
        lines_scan(s, start, position) == seq![without_carriage_return(s.subrange(start, q))] + lines_scan(
            s,
            q + 1,
            q + 1,
        ),
    decreases q - position,
{
    if position < q {
        lemma_scan_to_line_feed(s, start, position + 1, q);
    }
}

/// The first line `str::lines` yields is the text before the first line
/// feed (without a carriage return right before it).
pub proof fn lemma_first_line(s: Seq<char>, q: int)
    requires
        0 <= q < s.len(),
        s[q] == '\n',
        forall|i: int| 0 <= i < q ==> s[i] != '\n',
    ensures
        lines_of(s).len() > 0,
        lines_of(s)[0] == without_carriage_return(s.subrange(0, q)),
{
    lemma_scan_to_line_feed(s, 0, 0, q);
}

/// What `join(separator)` on a slice of strings returns.
pub open spec fn join(parts: Seq<Seq<char>>, separator: Seq<char>) -> Seq<char>
    decreases parts.len(),
{
    if parts.len() == 0 {
        seq![]
    } else if parts.len() == 1 {
        parts[0]
    } else {
        join(parts.drop_last(), separator) + separator + parts.last()
    }
}

/// The ASCII digit for a value below ten.
pub open spec fn digit_char(value: nat) -> char {
    if value == 0 {
        '0'
    } else if value == 1 {
        '1'
    } else if value == 2 {
        '2'
    } else if value == 3 {
        '3'
    } else if value == 4 {
        '4'
    } else if value == 5 {
        '5'
    } else if value == 6 {
        '6'
    } else if value == 7 {
        '7'
    } else if value == 8 {
        '8'
    } else {
        '9'
    }
}

/// Decimal rendering without leading zeros, as `{}` formats an integer.
pub open spec fn decimal(value: nat) -> Seq<char>
    decreases value,
{
    if value < 10 {
        seq![digit_char(value)]
    } else {
        decimal(value / 10).push(digit_char(value % 10))
    }
}

/// An ASCII decimal digit.
pub open spec fn is_digit(c: char) -> bool {
    '0' <= c <= '9'
}

/// Every character is an ASCII digit.
pub open spec fn all_digits(s: Seq<char>) -> bool {
    forall|i: int| 0 <= i < s.len() ==> is_digit(#[trigger] s[i])
}

/// The value of a string of digits, most significant first.
pub open spec fn digits_value(s: Seq<char>) -> nat
    decreases s.len(),
{
    if s.len() == 0 {
        0
    } else {
        digits_value(s.drop_last()) * 10 + ((s.last() as u32 - '0' as u32) as nat)
    }
}

/// The digit part that `str::parse::<usize>` reads: an optional leading
/// `+` is skipped.
pub open spec fn unsigned_body(s: Seq<char>) -> Seq<char> {
    if s.len() > 0 && s[0] == '+' {
        s.skip(1)
    } else {
        s
    }
}

/// `str::parse::<usize>` succeeds on `s`.
pub open spec fn parses_as_usize(s: Seq<char>) -> bool {
    let body = unsigned_body(s);
    body.len() > 0 && all_digits(body) && digits_value(body) <= usize::MAX
}

/// Equality of ASCII letters regardless of case; other characters must
/// be identical.
pub open spec fn ascii_fold(c: char) -> int {
    if 'A' <= c <= 'Z' {
        (c as u32) + 32
    } else {
        c as u32 as int
    }
}

/// What `eq_ignore_ascii_case` decides.
pub open spec fn equal_ignoring_ascii_case(a: Seq<char>, b: Seq<char>) -> bool {
    a.len() == b.len() && forall|i: int| 0 <= i < a.len() ==> ascii_fold(a[i]) == ascii_fold(b[i])
}

// ---------------------------------------------------------------------
// Lemmas
// ---------------------------------------------------------------------

proof fn lemma_trim_start_skips(s: Seq<char>, count: int)
    requires
        0 <= count <= s.len(),
        forall|k: int| 0 <= k < count ==> is_whitespace(#[trigger] s[k]),
    ensures
        trim_start(s) == trim_start(s.skip(count)),
    decreases count,
{
    if count > 0 {
        assert(is_whitespace(s[0]));
        let rest = s.skip(1);
        assert forall|k: int| 0 <= k < count - 1 implies is_whitespace(#[trigger] rest[k]) by {
            assert(rest[k] == s[k + 1]);
        }
        lemma_trim_start_skips(rest, count - 1);
        assert(rest.skip(count - 1) =~= s.skip(count));
    } else {
        assert(s.skip(0) =~= s);
    }
}

proof fn lemma_trim_end_takes(s: Seq<char>, count: int)
    requires
        0 <= count <= s.len(),
        forall|k: int| count <= k < s.len() ==> is_whitespace(#[trigger] s[k]),
    ensures
        trim_end(s) == trim_end(s.take(count)),
    decreases s.len() - count,
{
    if count < s.len() {
        assert(is_whitespace(s.last()));
        let rest = s.drop_last();
        assert forall|k: int| count <= k < rest.len() implies is_whitespace(#[trigger] rest[k]) by {
            assert(rest[k] == s[k]);
        }
        lemma_trim_end_takes(rest, count);
        assert(rest.take(count) =~= s.take(count));
    } else {
        assert(s.take(count) =~= s);
    }
}

/// Unfolds `split_scan` past characters that are not the separator.
proof fn lemma_split_scan_advance(s: Seq<char>, separator: char, start: int, from: int, to: int)
    requires
        0 <= start <= from <= to <= s.len(),
        forall|k: int| from <= k < to ==> s[k] != separator,
    ensures
        split_scan(s, separator, start, from) == split_scan(s, separator, start, to),
    decreases to - from,
{
    if from < to {
        lemma_split_scan_advance(s, separator, start, from + 1, to);
    }
}

/// Scanning `left + [separator] + right` from inside `left` yields the
/// pieces of `left` from there, then the scan after the separator.
proof fn lemma_split_scan_left(left: Seq<char>, right: Seq<char>, separator: char, start: int, position: int)
    requires
        0 <= start <= position <= left.len(),
    ensures
        split_scan(left + seq![separator] + right, separator, start, position) == split_scan(
            left,
            separator,
            start,
            position,
        ) + split_scan(left + seq![separator] + right, separator, left.len() + 1int, left.len() + 1int),
    decreases left.len() - position,
{
    let s = left + seq![separator] + right;
    let after = split_scan(s, separator, left.len() + 1int, left.len() + 1int);
    if position < left.len() {
        assert(s[position] == left[position]);
        if left[position] == separator {
            lemma_split_scan_left(left, right, separator, position + 1, position + 1);
            assert(s.subrange(start, position) =~= left.subrange(start, position));
            let rest = split_scan(left, separator, position + 1, position + 1);
            assert(seq![left.subrange(start, position)] + (rest + after) =~= (seq![
                left.subrange(start, position),
            ] + rest) + after);
        } else {
            lemma_split_scan_left(left, right, separator, start, position + 1);
        }
    } else {
        assert(s[position] == separator);
        assert(s.subrange(start, position) =~= left.subrange(start, position));
    }
}

/// Scanning `left + [separator] + right` past the separator is scanning
/// `right`.
proof fn lemma_split_scan_right(left: Seq<char>, right: Seq<char>, separator: char, start: int, position: int)
    requires
        0 <= start <= position <= right.len(),
    ensures
        split_scan(left + seq![separator] + right, separator, left.len() + 1 + start, left.len() + 1 + position)
            == split_scan(right, separator, start, position),
    decreases right.len() - position,
{
    let s = left + seq![separator] + right;
    let offset = left.len() + 1int;
    if position < right.len() {
        assert(s[offset + position] == right[position]);
        if right[position] == separator {
            lemma_split_scan_right(left, right, separator, position + 1, position + 1);
            assert(s.subrange(offset + start, offset + position) =~= right.subrange(start, position));
        } else {
            lemma_split_scan_right(left, right, separator, start, position + 1);
        }
    } else {
        assert(s.subrange(offset + start, s.len() as int) =~= right.subrange(start, right.len() as int));
    }
}

/// Splitting `left + [separator] + right` splits each side.
pub proof fn lemma_split_on_concat(left: Seq<char>, right: Seq<char>, separator: char)
    ensures
        split_on(left + seq![separator] + right, separator) == split_on(left, separator) + split_on(
            right,
            separator,
        ),
{
    lemma_split_scan_left(left, right, separator, 0, 0);
    lemma_split_scan_right(left, right, separator, 0, 0);
}

/// A text without the separator splits into itself alone.
pub proof fn lemma_split_on_without_separator(s: Seq<char>, separator: char)
    requires
        !s.contains(separator),
    ensures
        split_on(s, separator) == seq![s],
{
    assert forall|k: int| 0 <= k < s.len() implies s[k] != separator by {
        if s[k] == separator {
            assert(s.contains(separator));
        }
    }
    lemma_split_scan_advance(s, separator, 0, 0, s.len() as int);
    assert(s.subrange(0, s.len() as int) =~= s);
}

/// No piece of a scan holds the separator, when none lies between the
/// piece start and the scan position.
proof fn lemma_split_scan_pieces(s: Seq<char>, separator: char, start: int, position: int)
    requires
        0 <= start <= position <= s.len(),
        forall|k: int| start <= k < position ==> s[k] != separator,
    ensures
        forall|i: int|
            0 <= i < split_scan(s, separator, start, position).len() ==> !(#[trigger] split_scan(
                s,
                separator,
                start,
                position,
            )[i]).contains(separator),
    decreases s.len() - position,
{
    if position >= s.len() {
        let piece = s.subrange(start, s.len() as int);
        if piece.contains(separator) {
            let k = choose|k: int| 0 <= k < piece.len() && piece[k] == separator;
            assert(s[start + k] == separator);
        }
        assert(split_scan(s, separator, start, position) == seq![piece]);
        assert forall|i: int| 0 <= i < split_scan(s, separator, start, position).len() implies !(
        #[trigger] split_scan(s, separator, start, position)[i]).contains(separator) by {
            assert(split_scan(s, separator, start, position)[i] == piece);
        }
    } else if s[position] == separator {
        lemma_split_scan_pieces(s, separator, position + 1, position + 1);
        let piece = s.subrange(start, position);
        if piece.contains(separator) {
            let k = choose|k: int| 0 <= k < piece.len() && piece[k] == separator;
            assert(s[start + k] == separator);
        }
        let rest = split_scan(s, separator, position + 1, position + 1);
        assert forall|i: int| 0 <= i < split_scan(s, separator, start, position).len() implies !(
        #[trigger] split_scan(s, separator, start, position)[i]).contains(separator) by {
            if i > 0 {
                assert(split_scan(s, separator, start, position)[i] == rest[i - 1]);
            }
        }
    } else {
        lemma_split_scan_pieces(s, separator, start, position + 1);
        let whole = split_scan(s, separator, start, position);
        let next = split_scan(s, separator, start, position + 1);
        assert(whole == next);
        assert forall|i: int| 0 <= i < whole.len() implies !(#[trigger] whole[i]).contains(separator) by {
            assert(whole[i] == next[i]);
        }
    }
}

/// No piece of `split_on` holds the separator.
pub proof fn lemma_split_on_pieces(s: Seq<char>, separator: char)
    ensures
        forall|i: int| 0 <= i < split_on(s, separator).len() ==> !(#[trigger] split_on(s, separator)[i]).contains(separator),
{
    lemma_split_scan_pieces(s, separator, 0, 0);
}

/// `trim_start` drops a prefix and leaves a non-whitespace first
/// character, if any.
proof fn lemma_trim_start_shape(s: Seq<char>) -> (dropped: int)
    ensures
        0 <= dropped <= s.len(),
        trim_start(s) == s.skip(dropped),
        trim_start(s).len() > 0 ==> !is_whitespace(trim_start(s)[0]),
    decreases s.len(),
{
    if s.len() > 0 && is_whitespace(s[0]) {
        let inner = lemma_trim_start_shape(s.skip(1));
        assert(s.skip(1).skip(inner) =~= s.skip(inner + 1));
        inner + 1
    } else {
        assert(s.skip(0) =~= s);
        0
    }
}

/// `trim_end` keeps a prefix whose last character, if any, is not
/// whitespace.
proof fn lemma_trim_end_shape(s: Seq<char>) -> (kept: int)
    ensures
        0 <= kept <= s.len(),
        trim_end(s) == s.take(kept),
        kept > 0 ==> !is_whitespace(s[kept - 1]),
    decreases s.len(),
{
    if s.len() > 0 && is_whitespace(s.last()) {
        let inner = lemma_trim_end_shape(s.drop_last());
        assert(s.drop_last().take(inner) =~= s.take(inner));
        inner
    } else {
        assert(s.take(s.len() as int) =~= s);
        s.len() as int
    }
}

/// What `trim` leaves is a stretch of the text with no whitespace at
/// either end.
pub proof fn lemma_trim_shape(s: Seq<char>)
    ensures
        trim(s).len() > 0 ==> !is_whitespace(trim(s)[0]) && !is_whitespace(trim(s).last()),
        forall|c: char| trim(s).contains(c) ==> s.contains(c),
{
    let dropped = lemma_trim_start_shape(s);
    let kept = lemma_trim_end_shape(trim_start(s));
    let trimmed_text = trim(s);
    assert(trimmed_text =~= s.subrange(dropped, dropped + kept));
    assert forall|c: char| trimmed_text.contains(c) implies s.contains(c) by {
        let k = choose|k: int| 0 <= k < trimmed_text.len() && trimmed_text[k] == c;
        assert(s[dropped + k] == c);
    }
}

/// Scanning `first + [\n] + rest` past the line feed is scanning `rest`.
proof fn lemma_lines_scan_shift(first: Seq<char>, rest: Seq<char>, start: int, position: int)
    requires
        0 <= start <= position <= rest.len(),
    ensures
        lines_scan(first + seq!['\n'] + rest, first.len() + 1 + start, first.len() + 1 + position)
            == lines_scan(rest, start, position),
    decreases rest.len() - position,
{
    let s = first + seq!['\n'] + rest;
    let offset = first.len() + 1int;
    if position < rest.len() {
        assert(s[offset + position] == rest[position]);
        if rest[position] == '\n' {
            lemma_lines_scan_shift(first, rest, position + 1, position + 1);
            assert(s.subrange(offset + start, offset + position) =~= rest.subrange(start, position));
        } else {
            lemma_lines_scan_shift(first, rest, start, position + 1);
        }
    } else {
        assert(s.subrange(offset + start, s.len() as int) =~= rest.subrange(start, rest.len() as int));
    }
}

/// The lines of `first + [\n] + rest`, when `first` holds no line feed:
/// `first` (without a carriage return at its end), then the lines of
/// `rest`.
pub proof fn lemma_lines_of_cons(first: Seq<char>, rest: Seq<char>)
    requires
        !first.contains('\n'),
    ensures
        lines_of(first + seq!['\n'] + rest) == seq![without_carriage_return(first)] + lines_of(rest),
{
    let s = first + seq!['\n'] + rest;
    assert forall|i: int| 0 <= i < first.len() implies s[i] != '\n' by {
        assert(s[i] == first[i]);
        if first[i] == '\n' {
            assert(first.contains('\n'));
        }
    }
    lemma_scan_to_line_feed(s, 0, 0, first.len() as int);
    assert(s.subrange(0, first.len() as int) =~= first);
    lemma_lines_scan_shift(first, rest, 0, 0);
}

/// No line that `lines_of` yields holds a line feed.
proof fn lemma_lines_scan_pieces(s: Seq<char>, start: int, position: int)
    requires
        0 <= start <= position <= s.len(),
        forall|k: int| start <= k < position ==> s[k] != '\n',
    ensures
        forall|i: int|
            0 <= i < lines_scan(s, start, position).len() ==> !(#[trigger] lines_scan(s, start, position)[i]).contains(
                '\n',
            ),
    decreases s.len() - position,
{
    let whole = lines_scan(s, start, position);
    if position >= s.len() {
        if start < s.len() {
            let piece = s.subrange(start, s.len() as int);
            if piece.contains('\n') {
                let k = choose|k: int| 0 <= k < piece.len() && piece[k] == '\n';
                assert(s[start + k] == '\n');
            }
            assert(whole == seq![piece]);
            assert forall|i: int| 0 <= i < whole.len() implies !(#[trigger] whole[i]).contains('\n') by {
                assert(whole[i] == piece);
            }
        }
    } else if s[position] == '\n' {
        lemma_lines_scan_pieces(s, position + 1, position + 1);
        let piece = without_carriage_return(s.subrange(start, position));
        if piece.contains('\n') {
            let k = choose|k: int| 0 <= k < piece.len() && piece[k] == '\n';
            assert(s[start + k] == '\n');
        }
        let rest = lines_scan(s, position + 1, position + 1);
        assert(whole == seq![piece] + rest);
        assert forall|i: int| 0 <= i < whole.len() implies !(#[trigger] whole[i]).contains('\n') by {
            if i > 0 {
                assert(whole[i] == rest[i - 1]);
            } else {
                assert(whole[i] == piece);
            }
        }
    } else {
        lemma_lines_scan_pieces(s, start, position + 1);
        let next = lines_scan(s, start, position + 1);
        assert(whole == next);
        assert forall|i: int| 0 <= i < whole.len() implies !(#[trigger] whole[i]).contains('\n') by {
            assert(whole[i] == next[i]);
        }
    }
}

/// No line that `lines_of` yields holds a line feed.
pub proof fn lemma_lines_have_no_line_feed(s: Seq<char>)
    ensures
        forall|i: int| 0 <= i < lines_of(s).len() ==> !(#[trigger] lines_of(s)[i]).contains('\n'),
{
    lemma_lines_scan_pieces(s, 0, 0);
}

/// Joining from the front: the first part, the separator, then the rest
/// joined.
pub proof fn lemma_join_front(parts: Seq<Seq<char>>, separator: Seq<char>)
    requires
        parts.len() >= 2,
    ensures
        join(parts, separator) == parts[0] + separator + join(parts.drop_first(), separator),
    decreases parts.len(),
{
    if parts.len() == 2 {
        assert(parts.drop_last() =~= seq![parts[0]]);
        assert(parts.drop_first() =~= seq![parts[1]]);
        assert(join(parts.drop_last(), separator) == parts[0]);
        assert(join(parts.drop_first(), separator) == parts[1]);
    } else {
        let init = parts.drop_last();
        let tail = parts.drop_first();
        lemma_join_front(init, separator);
        assert(init.drop_first() =~= tail.drop_last());
        assert(init[0] == parts[0]);
        assert(tail.last() == parts.last());
        assert(join(tail, separator) == join(tail.drop_last(), separator) + separator + tail.last());
        assert(join(parts, separator) == join(init, separator) + separator + parts.last());
        assert(join(parts, separator) =~= parts[0] + separator + join(tail, separator));
    }
}

/// The lines of text joined by `\n` and followed by `\n` and more are
/// those lines, then the lines of what follows, when no line holds a line
/// feed or ends with a carriage return.
pub proof fn lemma_lines_of_joined(parts: Seq<Seq<char>>, rest: Seq<char>)
    requires
        parts.len() > 0,
        forall|i: int| 0 <= i < parts.len() ==> !(#[trigger] parts[i]).contains('\n'),
        forall|i: int| 0 <= i < parts.len() ==> without_carriage_return(#[trigger] parts[i]) == parts[i],
    ensures
        lines_of(join(parts, seq!['\n']) + seq!['\n'] + rest) == parts + lines_of(rest),
    decreases parts.len(),
{
    let newline = seq!['\n'];
    assert(!parts[0].contains('\n'));
    assert(without_carriage_return(parts[0]) == parts[0]);
    if parts.len() == 1 {
        lemma_lines_of_cons(parts[0], rest);
        assert(seq![parts[0]] =~= parts);
    } else {
        let tail = parts.drop_first();
        assert forall|i: int| 0 <= i < tail.len() implies !(#[trigger] tail[i]).contains('\n') by {
            assert(tail[i] == parts[i + 1]);
        }
        assert forall|i: int| 0 <= i < tail.len() implies without_carriage_return(#[trigger] tail[i]) == tail[i] by {
            assert(tail[i] == parts[i + 1]);
        }
        lemma_lines_of_joined(tail, rest);
        lemma_join_front(parts, newline);
        let after = join(tail, newline) + newline + rest;
        assert(join(parts, newline) + newline + rest =~= parts[0] + newline + after);
        lemma_lines_of_cons(parts[0], after);
        assert(seq![parts[0]] + (tail + lines_of(rest)) =~= parts + lines_of(rest));
    }
}

/// Unfolds `lines_scan` past characters that are not a line feed.
proof fn lemma_lines_scan_advance(s: Seq<char>, start: int, from: int, to: int)
    requires
        0 <= start <= from <= to <= s.len(),
        forall|k: int| from <= k < to ==> s[k] != '\n',
    ensures
        lines_scan(s, start, from) == lines_scan(s, start, to),
    decreases to - from,
{
    if from < to {
        lemma_lines_scan_advance(s, start, from + 1, to);
    }
}

/// `decimal` only yields digits and is never empty.
pub proof fn lemma_decimal_is_digits(value: nat)
    ensures
        decimal(value).len() > 0,
        all_digits(decimal(value)),
        digits_value(decimal(value)) == value,
    decreases value,
{
    lemma_digit_char_value(value % 10);
    if value >= 10 {
        lemma_decimal_is_digits(value / 10);
        let d = decimal(value / 10).push(digit_char(value % 10));
        assert(d.drop_last() =~= decimal(value / 10));
        assert(decimal(value) == d);
        assert(d.last() == digit_char(value % 10));
        assert(digits_value(d) == digits_value(d.drop_last()) * 10 + ((d.last() as u32 - '0' as u32) as nat));
        assert(value == (value / 10) * 10 + value % 10);
    } else {
        let single = seq![digit_char(value)];
        assert(single.drop_last() =~= Seq::<char>::empty());
        assert(digits_value(Seq::<char>::empty()) == 0);
        assert(decimal(value) == single);
        assert(digits_value(single) == digits_value(single.drop_last()) * 10 + ((single.last() as u32 - '0' as u32) as nat));
    }
}

proof fn lemma_digit_char_value(value: nat)
    requires
        value < 10,
    ensures
        is_digit(digit_char(value)),
        (digit_char(value) as u32 - '0' as u32) == value,
{
}

// ---------------------------------------------------------------------
// Executable helpers
// ---------------------------------------------------------------------

/// Appends one character; `String::push` has no specification in vstd.
#[verifier::external_body]
pub(crate) fn push_char(target: &mut String, character: char)
    ensures
        final(target)@ == old(target)@.push(character),
{
    target.push(character);
}

/// Copies the characters of a string slice into a vector.
pub fn chars_of(source: &str) -> (characters: Vec<char>)
    ensures
        characters@ == source@,
{
    let length = source.unicode_len();
    let mut characters: Vec<char> = Vec::new();
    let mut index: usize = 0;
    while index < length
        invariant
            length == source@.len(),
            index <= length,
            characters@ == source@.subrange(0, index as int),
        decreases length - index,
    {
        let next_character = source.get_char(index);
        characters.push(next_character);
        index = index + 1;
        assert(characters@ =~= source@.subrange(0, index as int));
    }
    assert(characters@ =~= source@);
    characters
}

/// Builds a string from a character sequence.
pub fn string_of(characters: &[char]) -> (built: String)
    ensures
        built@ == characters@,
{
    let mut built = String::new();
    let mut index: usize = 0;
    while index < characters.len()
        invariant
            index <= characters@.len(),
            built@ == characters@.subrange(0, index as int),
        decreases characters@.len() - index,
    {
        push_char(&mut built, characters[index]);
        index = index + 1;
        assert(built@ =~= characters@.subrange(0, index as int));
    }
    assert(built@ =~= characters@);
    built
}

/// Appends a character slice to a vector.
pub fn extend_chars(target: &mut Vec<char>, addition: &[char])
    ensures
        final(target)@ == old(target)@ + addition@,
{
    let mut index: usize = 0;
    while index < addition.len()
        invariant
            index <= addition@.len(),
            target@ == old(target)@ + addition@.subrange(0, index as int),
        decreases addition@.len() - index,
    {
        target.push(addition[index]);
        index = index + 1;
        assert(target@ =~= old(target)@ + addition@.subrange(0, index as int));
    }
    assert(addition@.subrange(0, index as int) =~= addition@);
}

/// Appends the characters of a string slice to a vector.
pub fn extend_str(target: &mut Vec<char>, addition: &str)
    ensures
        final(target)@ == old(target)@ + addition@,
{
    let addition_chars = chars_of(addition);
    extend_chars(target, addition_chars.as_slice());
}

/// Character-wise equality.
pub fn chars_equal(a: &[char], b: &[char]) -> (same: bool)
    ensures
        same == (a@ == b@),
{
    if a.len() != b.len() {
        return false;
    }
    let mut index: usize = 0;
    while index < a.len()
        invariant
            a@.len() == b@.len(),
            index <= a@.len(),
            forall|k: int| 0 <= k < index ==> a@[k] == b@[k],
        decreases a@.len() - index,
    {
        if a[index] != b[index] {
            return false;
        }
        index = index + 1;
    }
    assert(a@ =~= b@);
    true
}

/// Whether `prefix` starts `s`.
pub fn starts_with(s: &[char], prefix: &[char]) -> (found: bool)
    ensures
        found == has_prefix(s@, prefix@),
{
    if prefix.len() > s.len() {
        return false;
    }
    let mut index: usize = 0;
    while index < prefix.len()
        invariant
            prefix@.len() <= s@.len(),
            index <= prefix@.len(),
            forall|k: int| 0 <= k < index ==> s@[k] == prefix@[k],
        decreases prefix@.len() - index,
    {
        if s[index] != prefix[index] {
            assert(s@.subrange(0, prefix@.len() as int)[index as int] != prefix@[index as int]);
            return false;
        }
        index = index + 1;
    }
    assert(s@.subrange(0, prefix@.len() as int) =~= prefix@);
    true
}

/// Whether `suffix` ends `s`.
pub fn ends_with(s: &[char], suffix: &[char]) -> (found: bool)
    ensures
        found == has_suffix(s@, suffix@),
{
    if suffix.len() > s.len() {
        return false;
    }
    let offset = s.len() - suffix.len();
    let mut index: usize = 0;
    while index < suffix.len()
        invariant
            suffix@.len() <= s@.len(),
            offset == s@.len() - suffix@.len(),
            offset + suffix@.len() == s@.len(),
            s@.len() <= usize::MAX,
            index <= suffix@.len(),
            forall|k: int| 0 <= k < index ==> s@[offset + k] == suffix@[k],
        decreases suffix@.len() - index,
    {
        if s[offset + index] != suffix[index] {
            assert(s@.subrange(offset as int, s@.len() as int)[index as int] != suffix@[index as int]);
            return false;
        }
        index = index + 1;
    }
    assert(s@.subrange(offset as int, s@.len() as int) =~= suffix@);
    true
}

/// Whether `needle` occurs in `s` at `position`.
pub fn occurs_at_position(s: &[char], needle: &[char], position: usize) -> (found: bool)
    ensures
        found == occurs_at(s@, needle@, position as int),
{
    if position > s.len() || needle.len() > s.len() - position {
        return false;
    }
    let mut index: usize = 0;
    while index < needle.len()
        invariant
            position + needle@.len() <= s@.len(),
            s@.len() <= usize::MAX,
            index <= needle@.len(),
            forall|k: int| 0 <= k < index ==> s@[position + k] == needle@[k],
        decreases needle@.len() - index,
    {
        if s[position + index] != needle[index] {
            assert(s@.subrange(position as int, position + needle@.len())[index as int]
                != needle@[index as int]);
            return false;
        }
        index = index + 1;
    }
    assert(s@.subrange(position as int, position + needle@.len()) =~= needle@);
    true
}

/// Whether `needle` occurs anywhere in `s`.
pub fn contains(s: &[char], needle: &[char]) -> (found: bool)
    ensures
        found == has_substring(s@, needle@),
{
    let mut position: usize = 0;
    while position < s.len()
        invariant
            position <= s@.len(),
            forall|p: int| 0 <= p < position ==> !occurs_at(s@, needle@, p),
        decreases s@.len() - position,
    {
        if occurs_at_position(s, needle, position) {
            return true;
        }
        position = position + 1;
    }
    if occurs_at_position(s, needle, position) {
        return true;
    }
    assert forall|p: int| !occurs_at(s@, needle@, p) by {
        if 0 <= p && p <= position {
        }
    }
    false
}

/// Whether `needle` (a string slice) occurs anywhere in `s`.
pub fn contains_str(s: &[char], needle: &str) -> (found: bool)
    ensures
        found == has_substring(s@, needle@),
{
    let needle_chars = chars_of(needle);
    contains(s, needle_chars.as_slice())
}

/// Whether `s` starts with the string slice `prefix`.
pub fn starts_with_str(s: &[char], prefix: &str) -> (found: bool)
    ensures
        found == has_prefix(s@, prefix@),
{
    let prefix_chars = chars_of(prefix);
    starts_with(s, prefix_chars.as_slice())
}

/// Whether `s` ends with the string slice `suffix`.
pub fn ends_with_str(s: &[char], suffix: &str) -> (found: bool)
    ensures
        found == has_suffix(s@, suffix@),
{
    let suffix_chars = chars_of(suffix);
    ends_with(s, suffix_chars.as_slice())
}

/// Whether a character is Unicode whitespace.
pub fn char_is_whitespace(c: char) -> (answer: bool)
    ensures
        answer == is_whitespace(c),
{
    let code = c as u32;
    (0x09 <= code && code <= 0x0d) || code == 0x20 || code == 0x85 || code == 0xa0 || code
        == 0x1680 || (0x2000 <= code && code <= 0x200a) || code == 0x2028 || code == 0x2029
        || code == 0x202f || code == 0x205f || code == 0x3000
}

/// What `str::trim` returns.
pub fn trimmed(s: &[char]) -> (result: Vec<char>)
    ensures
        result@ == trim(s@),
{
    let mut start: usize = 0;
    while start < s.len() && char_is_whitespace(s[start])
        invariant
            start <= s@.len(),
            forall|k: int| 0 <= k < start ==> is_whitespace(#[trigger] s@[k]),
        decreases s@.len() - start,
    {
        start = start + 1;
    }
    proof {
        lemma_trim_start_skips(s@, start as int);
        let rest = s@.skip(start as int);
        if rest.len() > 0 {
            assert(rest[0] == s@[start as int]);
        }
    }
    let ghost front = s@.skip(start as int);
    assert(trim_start(s@) == front);
    let mut end: usize = s.len();
    while end > start && char_is_whitespace(s[end - 1])
        invariant
            start <= end <= s@.len(),
            front == s@.skip(start as int),
            forall|k: int| end - start <= k < front.len() ==> is_whitespace(#[trigger] front[k]),
        decreases end,
    {
        end = end - 1;
    }
    proof {
        lemma_trim_end_takes(front, end - start);
        let kept = front.take(end - start);
        if kept.len() > 0 {
            assert(kept.last() == s@[end - 1]);
        }
    }
    let mut result: Vec<char> = Vec::new();
    let mut index: usize = start;
    while index < end
        invariant
            start <= index <= end <= s@.len(),
            result@ == s@.subrange(start as int, index as int),
        decreases end - index,
    {
        result.push(s[index]);
        index = index + 1;
        assert(result@ =~= s@.subrange(start as int, index as int));
    }
    assert(result@ =~= front.take(end - start));
    result
}

/// Copies `s[from..to]`.
pub fn slice_chars(s: &[char], from: usize, to: usize) -> (result: Vec<char>)
    requires
        from <= to <= s@.len(),
    ensures
        result@ == s@.subrange(from as int, to as int),
{
    let mut result: Vec<char> = Vec::new();
    let mut index: usize = from;
    while index < to
        invariant
            from <= index <= to <= s@.len(),
            result@ == s@.subrange(from as int, index as int),
        decreases to - index,
    {
        result.push(s[index]);
        index = index + 1;
        assert(result@ =~= s@.subrange(from as int, index as int));
    }
    result
}

/// What `str::split(separator)` yields.
pub fn split_chars(s: &[char], separator: char) -> (pieces: Vec<Vec<char>>)
    ensures
        views(pieces@) == split_on(s@, separator),
{
    let mut pieces: Vec<Vec<char>> = Vec::new();
    let mut start: usize = 0;
    let mut position: usize = 0;
    while position < s.len()
        invariant
            start <= position <= s@.len(),
            views(pieces@) + split_scan(s@, separator, start as int, position as int) == split_on(
                s@,
                separator,
            ),
        decreases s@.len() - position,
    {
        if s[position] == separator {
            let piece = slice_chars(s, start, position);
            let ghost before = pieces@;
            pieces.push(piece);
            assert(views(pieces@) =~= views(before).push(piece@));
            assert(views(pieces@) + split_scan(s@, separator, position + 1, position + 1)
                =~= views(before) + split_scan(s@, separator, start as int, position as int));
            start = position + 1;
        }
        position = position + 1;
    }
    let last_piece = slice_chars(s, start, s.len());
    let ghost before = pieces@;
    pieces.push(last_piece);
    assert(views(pieces@) =~= views(before).push(last_piece@));
    assert(views(pieces@) =~= views(before) + split_scan(
        s@,
        separator,
        start as int,
        position as int,
    ));
    pieces
}

/// What `str::lines` yields.
pub fn split_lines(s: &[char]) -> (lines: Vec<Vec<char>>)
    ensures
        views(lines@) == lines_of(s@),
{
    let mut lines: Vec<Vec<char>> = Vec::new();
    let mut start: usize = 0;
    let mut position: usize = 0;
    while position < s.len()
        invariant
            start <= position <= s@.len(),
            views(lines@) + lines_scan(s@, start as int, position as int) == lines_of(s@),
        decreases s@.len() - position,
    {
        if s[position] == '\n' {
            let mut line = slice_chars(s, start, position);
            if line.len() > 0 && line[line.len() - 1] == '\r' {
                line.pop();
            }
            assert(line@ =~= without_carriage_return(s@.subrange(start as int, position as int)));
            let ghost before = lines@;
            lines.push(line);
            assert(views(lines@) =~= views(before).push(line@));
            assert(views(lines@) + lines_scan(s@, position + 1, position + 1) =~= views(before)
                + lines_scan(s@, start as int, position as int));
            start = position + 1;
        }
        position = position + 1;
    }
    if start < s.len() {
        let last_line = slice_chars(s, start, s.len());
        let ghost before = lines@;
        lines.push(last_line);
        assert(views(lines@) =~= views(before).push(last_line@));
        assert(views(lines@) =~= views(before) + lines_scan(s@, start as int, position as int));
    } else {
        assert(views(lines@) =~= views(lines@) + lines_scan(s@, start as int, position as int));
    }
    lines
}

/// What `join(separator)` returns on the given parts.
pub fn join_chars(parts: &Vec<Vec<char>>, separator: &[char]) -> (joined: Vec<char>)
    ensures
        joined@ == join(views(parts@), separator@),
{
    let mut joined: Vec<char> = Vec::new();
    let mut index: usize = 0;
    while index < parts.len()
        invariant
            index <= parts@.len(),
            joined@ == join(views(parts@).take(index as int), separator@),
        decreases parts@.len() - index,
    {
        let ghost previous = views(parts@).take(index as int);
        if index > 0 {
            extend_chars(&mut joined, separator);
        }
        extend_chars(&mut joined, parts[index].as_slice());
        index = index + 1;
        proof {
            let current = views(parts@).take(index as int);
            assert(current.drop_last() =~= previous);
            assert(current.last() == parts@[index - 1]@);
            if index == 1 {
                assert(joined@ =~= parts@[0]@);
            }
        }
    }
    assert(views(parts@).take(parts@.len() as int) =~= views(parts@));
    joined
}

/// Appends the decimal rendering of `value`.
pub fn push_decimal(target: &mut Vec<char>, value: usize)
    ensures
        final(target)@ == old(target)@ + decimal(value as nat),
    decreases value,
{
    if value >= 10 {
        push_decimal(target, value / 10);
    }
    let remainder = value % 10;
    let digit = if remainder == 0 {
        '0'
    } else if remainder == 1 {
        '1'
    } else if remainder == 2 {
        '2'
    } else if remainder == 3 {
        '3'
    } else if remainder == 4 {
        '4'
    } else if remainder == 5 {
        '5'
    } else if remainder == 6 {
        '6'
    } else if remainder == 7 {
        '7'
    } else if remainder == 8 {
        '8'
    } else {
        '9'
    };
    target.push(digit);
    proof {
        if value >= 10 {
            assert(final(target)@ =~= old(target)@ + decimal(value as nat));
        } else {
            assert(final(target)@ =~= old(target)@ + decimal(value as nat));
        }
    }
}

/// What `str::parse::<usize>` returns, as an option.
pub fn parse_decimal_usize(s: &[char]) -> (parsed: Option<usize>)
    ensures
        parsed is Some <==> parses_as_usize(s@),
        parsed matches Some(value) ==> value as nat == digits_value(unsigned_body(s@)),
{
    let start: usize = if s.len() > 0 && s[0] == '+' {
        1
    } else {
        0
    };
    let ghost body = unsigned_body(s@);
    assert(body =~= s@.skip(start as int));
    if start >= s.len() {
        assert(body.len() == 0);
        return None;
    }
    let mut value: usize = 0;
    let mut index: usize = start;
    while index < s.len()
        invariant
            start <= index <= s@.len(),
            body == s@.skip(start as int),
            body == unsigned_body(s@),
            forall|k: int| 0 <= k < index - start ==> is_digit(#[trigger] body[k]),
            value as nat == digits_value(body.take(index - start)),
        decreases s@.len() - index,
    {
        let c = s[index];
        assert(body[index - start] == c);
        if !('0' <= c && c <= '9') {
            assert(!is_digit(body[index - start]));
            assert(!all_digits(body));
            return None;
        }
        let digit_value = (c as u32 - '0' as u32) as usize;
        let ghost prefix = body.take(index - start + 1);
        assert(prefix.drop_last() =~= body.take(index - start));
        assert(prefix.last() == c);
        if value > (usize::MAX - digit_value) / 10 {
            proof {
                assert(value * 10 + digit_value > usize::MAX) by (nonlinear_arith)
                    requires
                        value > (usize::MAX - digit_value) / 10,
                        digit_value <= 9,
                ;
                if all_digits(body) {
                    lemma_digits_value_monotone(body, index - start + 1);
                }
            }
            return None;
        }
        value = value * 10 + digit_value;
        index = index + 1;
    }
    assert(body.take(index - start) =~= body);
    Some(value)
}

/// A digit string is at least as large as any of its prefixes.
proof fn lemma_digits_value_monotone(s: Seq<char>, count: int)
    requires
        0 <= count <= s.len(),
        all_digits(s),
    ensures
        digits_value(s.take(count)) <= digits_value(s),
    decreases s.len() - count,
{
    if count < s.len() {
        lemma_digits_value_monotone(s.drop_last(), count);
        assert(s.drop_last().take(count) =~= s.take(count));
        assert(is_digit(s[s.len() - 1]));
    } else {
        assert(s.take(count) =~= s);
    }
}

/// What `eq_ignore_ascii_case` returns.
pub fn chars_equal_ignoring_ascii_case(a: &[char], b: &[char]) -> (same: bool)
    ensures
        same == equal_ignoring_ascii_case(a@, b@),
{
    if a.len() != b.len() {
        return false;
    }
    let mut index: usize = 0;
    while index < a.len()
        invariant
            a@.len() == b@.len(),
            index <= a@.len(),
            forall|k: int| 0 <= k < index ==> ascii_fold(a@[k]) == ascii_fold(b@[k]),
        decreases a@.len() - index,
    {
        let left = a[index];
        let right = b[index];
        let folded_left: u32 = if 'A' <= left && left <= 'Z' {
            (left as u32) + 32
        } else {
            left as u32
        };
        let folded_right: u32 = if 'A' <= right && right <= 'Z' {
            (right as u32) + 32
        } else {
            right as u32
        };
        if folded_left != folded_right {
            return false;
        }
        index = index + 1;
    }
    true
}

/// How many bytes UTF-8 spends on a character.
pub open spec fn utf8_width(c: char) -> nat {
    let v = c as u32;
    if v <= 0x7F {
        1
    } else if v <= 0x7FF {
        2
    } else if v <= 0xFFFF {
        3
    } else {
        4
    }
}

/// How many bytes the UTF-8 encoding of `s` takes.
pub open spec fn utf8_length(s: Seq<char>) -> nat
    decreases s.len(),
{
    if s.len() == 0 {
        0
    } else {
        utf8_width(s[0]) + utf8_length(s.drop_first())
    }
}

/// The UTF-8 encoding is as long as the widths of the characters add up to.
pub proof fn lemma_utf8_length(s: Seq<char>)
    ensures
        vstd::utf8::encode_utf8(s).len() == utf8_length(s),
    decreases s.len(),
{
    if s.len() > 0 {
        lemma_utf8_length(s.drop_first());
        vstd::utf8::char_is_scalar(s[0]);
    }
}

/// The number of bytes in the UTF-8 encoding of the characters.
pub fn utf8_byte_count(s: &[char]) -> (count: u128)
    ensures
        count == utf8_length(s@),
        count == vstd::utf8::encode_utf8(s@).len(),
{
    let mut count: u128 = 0;
    let mut index: usize = s.len();
    assert(s@.skip(index as int) =~= Seq::<char>::empty());
    while index > 0
        invariant
            index <= s@.len(),
            count == utf8_length(s@.skip(index as int)),
            count <= 4 * (s@.len() - index),
        decreases index,
    {
        let c = s[index - 1];
        let v = c as u32;
        let width: u128 = if v <= 0x7F {
            1
        } else if v <= 0x7FF {
            2
        } else if v <= 0xFFFF {
            3
        } else {
            4
        };
        assert(s@.skip(index - 1).drop_first() =~= s@.skip(index as int));
        assert(s@.skip(index - 1)[0] == c);
        count = count + width;
        index = index - 1;
    }
    assert(s@.skip(0) =~= s@);
    proof {
        lemma_utf8_length(s@);
    }
    count
}

/// What `str::trim_end` returns.
pub fn trimmed_end(s: &[char]) -> (result: Vec<char>)
    ensures
        result@ == trim_end(s@),
{
    let mut end: usize = s.len();
    while end > 0 && char_is_whitespace(s[end - 1])
        invariant
            end <= s@.len(),
            forall|k: int| end <= k < s@.len() ==> is_whitespace(#[trigger] s@[k]),
        decreases end,
    {
        end = end - 1;
    }
    proof {
        lemma_trim_end_takes(s@, end as int);
        let kept = s@.take(end as int);
        if kept.len() > 0 {
            assert(kept.last() == s@[end - 1]);
        }
    }
    let result = slice_chars(s, 0, end);
    assert(result@ =~= s@.take(end as int));
    result
}

/// What `join(separator)` returns on strings.
pub fn join_strings(parts: &Vec<String>, separator: &str) -> (joined: String)
    ensures
        joined@ == join(string_views(parts@), separator@),
{
    let mut pieces: Vec<Vec<char>> = Vec::new();
    let mut index: usize = 0;
    while index < parts.len()
        invariant
            index <= parts@.len(),
            views(pieces@) == string_views(parts@.take(index as int)),
        decreases parts@.len() - index,
    {
        let ghost before = pieces@;
        let piece = chars_of(parts[index].as_str());
        assert(piece@ == parts@[index as int]@);
        pieces.push(piece);
        assert(views(pieces@) =~= views(before).push(parts@[index as int]@));
        assert(string_views(parts@.take(index + 1)) =~= string_views(parts@.take(index as int)).push(
            parts@[index as int]@,
        ));
        index = index + 1;
    }
    assert(parts@.take(parts@.len() as int) =~= parts@);
    let separator_chars = chars_of(separator);
    let joined = join_chars(&pieces, separator_chars.as_slice());
    string_of(joined.as_slice())
}

/// What `str::to_uppercase` returns: each character's full Unicode
/// uppercase mapping, from the standard library's tables.
pub uninterp spec fn uppercase(s: Seq<char>) -> Seq<char>;

/// `str::to_uppercase`: its result is named, as a function of the text
/// alone.
#[verifier::external_body]
pub(crate) fn to_uppercase_text(s: &str) -> (upper: String)
    ensures
        upper@ == uppercase(s@),
{
    s.to_uppercase()
}

} // verus!
