//! Text as sequences of characters.
use vstd::prelude::*;
use vstd::utf8::*;

verus! {

/// How many bytes `text` takes as UTF-8.
pub open spec fn byte_len(text: Seq<char>) -> nat {
    encode_utf8(text).len()
}

/// Whether `text` begins with `prefix`.
pub open spec fn begins(text: Seq<char>, prefix: Seq<char>) -> bool {
    prefix.len() <= text.len() && text.take(prefix.len() as int) == prefix
}

/// Whether `needle` stands in `text` at position `at`.
pub open spec fn occurs_at(text: Seq<char>, needle: Seq<char>, at: int) -> bool {
    0 <= at && at + needle.len() <= text.len() && text.subrange(at, at + needle.len()) == needle
}

/// Whether `needle` stands anywhere in `text`.
pub open spec fn occurs(text: Seq<char>, needle: Seq<char>) -> bool {
    exists|at: int| #[trigger] occurs_at(text, needle, at)
}

/// Whether every character of `text` is an ASCII digit.
pub open spec fn all_digits(text: Seq<char>) -> bool {
    forall|i: int| 0 <= i < text.len() ==> '0' <= #[trigger] text[i] && text[i] <= '9'
}

/// An ASCII letter, digit, underscore or hyphen.
pub open spec fn token_char(c: char) -> bool {
    ('0' <= c && c <= '9') || ('a' <= c && c <= 'z') || ('A' <= c && c <= 'Z') || c == '_' || c == '-'
}

/// Whether every character of `text` is an ASCII letter, digit, underscore or hyphen.
pub open spec fn all_token_chars(text: Seq<char>) -> bool {
    forall|i: int| 0 <= i < text.len() ==> token_char(#[trigger] text[i])
}

/// What follows the last slash of `path`, or all of it where it has none.
pub open spec fn last_segment(path: Seq<char>) -> Seq<char>
    decreases path.len(),
{
    if path.len() == 0 {
        path
    } else if path.last() == '/' {
        Seq::empty()
    } else {
        last_segment(path.drop_last()).push(path.last())
    }
}

/// Where `c` first stands in `text`, or the length of `text` where it does not.
pub open spec fn first_index(text: Seq<char>, c: char) -> int
    decreases text.len(),
{
    if text.len() == 0 || text[0] == c {
        0
    } else {
        1 + first_index(text.skip(1), c)
    }
}

/// The digits of `n` in base ten.
pub open spec fn decimal(n: nat) -> Seq<char>
    decreases n,
{
    if n < 10 {
        seq![digit(n)]
    } else {
        decimal(n / 10).push(digit(n % 10))
    }
}

/// The ASCII digit for `n`, which is below ten.
pub open spec fn digit(n: nat) -> char {
    if n == 0 { '0' } else if n == 1 { '1' } else if n == 2 { '2' } else if n == 3 { '3' } else if n == 4 { '4' }
    else if n == 5 { '5' } else if n == 6 { '6' } else if n == 7 { '7' } else if n == 8 { '8' } else { '9' }
}

/// The number that a run of ASCII digits writes.
pub open spec fn number(text: Seq<char>) -> nat
    decreases text.len(),
{
    if text.len() == 0 {
        0
    } else {
        number(text.drop_last()) * 10 + digit_value(text.last())
    }
}

/// The value of one ASCII digit, and zero for any other character.
pub open spec fn digit_value(c: char) -> nat {
    if '0' <= c && c <= '9' { (c as u32 - '0' as u32) as nat } else { 0 }
}

/// `String::push`: the text grows by the one character at its end.
#[verifier::external_body]
pub(crate) fn push_char(text: &mut String, c: char)
    ensures
        final(text)@ == old(text)@.push(c),
{
    text.push(c)
}

/// The characters of `text`, in order.
pub fn chars_of(text: &str) -> (chars: Vec<char>)
    ensures
        chars@ == text@,
{
    let mut chars: Vec<char> = Vec::new();
    for c in it: text.chars()
        invariant
            it.seq() == text@,
            chars@ == text@.take(it.index() as int),
    {
        chars.push(c);
        assert(text@.take(it.index() as int + 1) =~= text@.take(it.index() as int).push(text@[it.index() as int]));
    }
    assert(text@.take(text@.len() as int) =~= text@);
    chars
}

/// Whether the two texts hold the same characters.
pub fn same_text(a: &str, b: &str) -> (same: bool)
    ensures
        same == (a@ == b@),
{
    let left = a.as_bytes();
    let right = b.as_bytes();
    proof {
        encode_utf8_decode_utf8(a@);
        encode_utf8_decode_utf8(b@);
    }
    if left.len() != right.len() {
        return false;
    }
    let mut i: usize = 0;
    while i < left.len()
        invariant
            i <= left.len(),
            left@.len() == right@.len(),
            left@ == encode_utf8(a@),
            right@ == encode_utf8(b@),
            forall|j: int| 0 <= j < i ==> left@[j] == right@[j],
        decreases left.len() - i,
    {
        if left[i] != right[i] {
            return false;
        }
        i += 1;
    }
    assert(left@ =~= right@);
    true
}

/// Whether the optional text is there and equals `expected`.
pub fn holds(text: &Option<String>, expected: &str) -> (same: bool)
    ensures
        same == (text is Some && text->0@ == expected@),
{
    match text {
        Some(value) => same_text(value, expected),
        None => false,
    }
}

/// Whether `text` begins with `prefix`.
pub fn starts_with(text: &str, prefix: &str) -> (starts: bool)
    ensures
        starts == begins(text@, prefix@),
{
    let whole = chars_of(text);
    let front = chars_of(prefix);
    if front.len() > whole.len() {
        return false;
    }
    let mut i: usize = 0;
    while i < front.len()
        invariant
            i <= front.len() <= whole.len(),
            whole@ == text@,
            front@ == prefix@,
            forall|j: int| 0 <= j < i ==> whole@[j] == front@[j],
        decreases front.len() - i,
    {
        if whole[i] != front[i] {
            assert(whole@.take(front@.len() as int)[i as int] != front@[i as int]);
            return false;
        }
        i += 1;
    }
    assert(whole@.take(front@.len() as int) =~= front@);
    true
}

/// The part of `text` between the characters `from` and `to`.
pub fn part(text: &Vec<char>, from: usize, to: usize) -> (out: String)
    requires
        from <= to <= text@.len(),
    ensures
        out@ == text@.subrange(from as int, to as int),
{
    let mut out = String::new();
    let mut i: usize = from;
    while i < to
        invariant
            from <= i <= to <= text@.len(),
            out@ == text@.subrange(from as int, i as int),
        decreases to - i,
    {
        push_char(&mut out, text[i]);
        assert(text@.subrange(from as int, i as int + 1) =~= text@.subrange(from as int, i as int).push(text@[i as int]));
        i += 1;
    }
    out
}

/// Whether `needle` stands anywhere in `text`.
pub fn contains(text: &str, needle: &str) -> (found: bool)
    ensures
        found == occurs(text@, needle@),
{
    let hay = chars_of(text);
    let pin = chars_of(needle);
    if pin.len() > hay.len() {
        return false;
    }
    let mut at: usize = 0;
    while at <= hay.len() - pin.len()
        invariant
            pin.len() <= hay.len(),
            at <= hay.len() - pin.len() + 1,
            hay@ == text@,
            pin@ == needle@,
            forall|k: int| 0 <= k < at ==> !#[trigger] occurs_at(text@, needle@, k),
        decreases hay.len() + 1 - at,
    {
        let mut i: usize = 0;
        while i < pin.len() && hay[at + i] == pin[i]
            invariant
                i <= pin.len(),
                pin.len() <= hay.len(),
                at <= hay.len() - pin.len(),
                forall|j: int| 0 <= j < i ==> hay@[at + j] == pin@[j],
            decreases pin.len() - i,
        {
            i += 1;
        }
        if i == pin.len() {
            assert(hay@.subrange(at as int, at + pin@.len()) =~= pin@);
            assert(occurs_at(text@, needle@, at as int));
            return true;
        }
        assert(!occurs_at(text@, needle@, at as int)) by {
            assert(hay@.subrange(at as int, at + pin@.len())[i as int] != pin@[i as int]);
        }
        if at == hay.len() - pin.len() {
            return false;
        }
        at += 1;
    }
    false
}

/// Whether `text` is made of ASCII digits alone.
pub fn digits_only(text: &Vec<char>) -> (yes: bool)
    ensures
        yes == all_digits(text@),
{
    let mut i: usize = 0;
    while i < text.len()
        invariant
            i <= text.len(),
            forall|j: int| 0 <= j < i ==> '0' <= #[trigger] text@[j] && text@[j] <= '9',
        decreases text.len() - i,
    {
        if text[i] < '0' || text[i] > '9' {
            return false;
        }
        i += 1;
    }
    true
}

/// Whether `text` is made of ASCII letters, digits, underscores and hyphens alone.
pub fn token_chars_only(text: &Vec<char>) -> (yes: bool)
    ensures
        yes == all_token_chars(text@),
{
    let mut i: usize = 0;
    while i < text.len()
        invariant
            i <= text.len(),
            forall|j: int| 0 <= j < i ==> token_char(#[trigger] text@[j]),
        decreases text.len() - i,
    {
        let c = text[i];
        let fits = ('0' <= c && c <= '9') || ('a' <= c && c <= 'z') || ('A' <= c && c <= 'Z') || c == '_' || c == '-';
        if !fits {
            assert(!token_char(text@[i as int]));
            return false;
        }
        i += 1;
    }
    true
}

/// What follows the last slash of `path`, or all of it where it has none.
pub fn final_segment(path: &str) -> (segment: String)
    ensures
        segment@ == last_segment(path@),
{
    let chars = chars_of(path);
    let mut start: usize = chars.len();
    assert(chars@.take(chars@.len() as int) =~= chars@);
    assert(last_segment(chars@) =~= last_segment(chars@.take(start as int)) + chars@.subrange(start as int, chars@.len() as int));
    while start > 0 && chars[start - 1] != '/'
        invariant
            start <= chars.len(),
            last_segment(chars@) == last_segment(chars@.take(start as int)) + chars@.subrange(start as int, chars@.len() as int),
        decreases start,
    {
        proof {
            let shorter = chars@.take(start as int);
            assert(shorter.drop_last() =~= chars@.take(start as int - 1));
            assert(last_segment(shorter) == last_segment(shorter.drop_last()).push(shorter.last()));
            assert(last_segment(chars@) =~= last_segment(chars@.take(start as int - 1)) + chars@.subrange(start as int - 1, chars@.len() as int));
        }
        start -= 1;
    }
    proof {
        if start > 0 {
            assert(chars@.take(start as int).last() == '/');
        }
        assert(last_segment(chars@.take(start as int)) =~= Seq::<char>::empty());
        assert(last_segment(chars@) =~= chars@.subrange(start as int, chars@.len() as int));
    }
    part(&chars, start, chars.len())
}

/// The first place of a character is within the text, holds it, and nothing before does.
pub proof fn lemma_first_index(text: Seq<char>, c: char)
    ensures
        0 <= first_index(text, c) <= text.len(),
        first_index(text, c) < text.len() ==> text[first_index(text, c)] == c,
        forall|i: int| 0 <= i < first_index(text, c) ==> text[i] != c,
    decreases text.len(),
{
    if text.len() > 0 && text[0] != c {
        lemma_first_index(text.skip(1), c);
        assert forall|i: int| 0 <= i < first_index(text, c) implies text[i] != c by {
            if i > 0 {
                assert(text.skip(1)[i - 1] == text[i]);
            }
        }
    }
}

/// Where `c` first stands in `text`, or the length of `text` where it does not.
pub fn index_of(text: &Vec<char>, c: char) -> (at: usize)
    ensures
        at == first_index(text@, c),
        at <= text@.len(),
{
    let mut i: usize = 0;
    assert(text@.skip(0) =~= text@);
    while i < text.len() && text[i] != c
        invariant
            i <= text.len(),
            first_index(text@, c) == i + first_index(text@.skip(i as int), c),
        decreases text.len() - i,
    {
        assert(text@.skip(i as int).skip(1) =~= text@.skip(i as int + 1));
        i += 1;
    }
    i
}

/// What follows `prefix` in `text`, where `text` begins with it.
pub fn after(text: &str, prefix: &str) -> (rest: Option<String>)
    ensures
        rest is Some == begins(text@, prefix@),
        rest is Some ==> rest->0@ == text@.skip(prefix@.len() as int),
{
    if !starts_with(text, prefix) {
        return None;
    }
    let whole = chars_of(text);
    let from: usize = chars_of(prefix).len();
    let rest = part(&whole, from, whole.len());
    assert(rest@ =~= text@.skip(prefix@.len() as int));
    Some(rest)
}

/// `n` in base ten.
pub fn decimal_text(n: u64) -> (out: String)
    ensures
        out@ == decimal(n as nat),
    decreases n,
{
    let mut out = if n < 10 { String::new() } else { decimal_text(n / 10) };
    let d: u64 = n % 10;
    let c = if d == 0 { '0' } else if d == 1 { '1' } else if d == 2 { '2' } else if d == 3 { '3' } else if d == 4 { '4' }
        else if d == 5 { '5' } else if d == 6 { '6' } else if d == 7 { '7' } else if d == 8 { '8' } else { '9' };
    push_char(&mut out, c);
    assert(out@ =~= decimal(n as nat));
    out
}

/// Ten to the power `n`.
pub open spec fn ten_to(n: nat) -> nat
    decreases n,
{
    if n == 0 {
        1
    } else {
        10 * ten_to((n - 1) as nat)
    }
}

proof fn lemma_number_below_power(text: Seq<char>)
    ensures
        number(text) < ten_to(text.len()),
    decreases text.len(),
{
    if text.len() > 0 {
        lemma_number_below_power(text.drop_last());
        assert(digit_value(text.last()) <= 9);
    }
}

/// A run of at most nine digits stays below ten to that many.
pub proof fn lemma_number_bound(text: Seq<char>)
    requires
        text.len() <= 9,
    ensures
        number(text) < 1_000_000_000,
        text.len() <= 8 ==> number(text) < 100_000_000,
        text.len() <= 7 ==> number(text) < 10_000_000,
        text.len() <= 3 ==> number(text) < 1_000,
{
    lemma_number_below_power(text);
    reveal_with_fuel(ten_to, 10);
    if text.len() < 9 {
        lemma_power_order(text.len(), 8);
    }
    if text.len() <= 7 {
        lemma_power_order(text.len(), 7);
    }
    if text.len() <= 3 {
        lemma_power_order(text.len(), 3);
    }
}

proof fn lemma_power_order(a: nat, b: nat)
    requires
        a <= b,
    ensures
        ten_to(a) <= ten_to(b),
    decreases b,
{
    if a < b {
        lemma_power_order(a, (b - 1) as nat);
    }
}

/// The number that at most nine ASCII digits write.
pub fn small_number(text: &Vec<char>) -> (n: u64)
    requires
        text@.len() <= 9,
        all_digits(text@),
    ensures
        n == number(text@),
{
    let mut n: u64 = 0;
    let mut i: usize = 0;
    while i < text.len()
        invariant
            i <= text.len() <= 9,
            all_digits(text@),
            n == number(text@.take(i as int)),
        decreases text.len() - i,
    {
        proof {
            lemma_number_bound(text@.take(i as int));
            assert(text@.take(i as int + 1).drop_last() =~= text@.take(i as int));
        }
        let c = text[i];
        n = n * 10 + (c as u32 - '0' as u32) as u64;
        i += 1;
    }
    assert(text@.take(text@.len() as int) =~= text@);
    n
}

// ---------------------------------------------------------------- white space and numbers

/// What `str::to_lowercase` makes of a text.
pub uninterp spec fn lowercase(text: Seq<char>) -> Seq<char>;

/// An ASCII capital as its small letter, any other character as it is.
pub open spec fn small(c: char) -> char {
    if 'A' <= c && c <= 'Z' { (c as u32 + 32) as char } else { c }
}

pub open spec fn small_text(text: Seq<char>) -> Seq<char> {
    Seq::new(text.len(), |i: int| small(text[i]))
}

pub open spec fn ascii_text(text: Seq<char>) -> bool {
    forall|i: int| 0 <= i < text.len() ==> #[trigger] text[i] <= '\u{7f}'
}

/// `str::to_lowercase`. The contract names the outcome, which depends on the text alone, and
/// says what it is of ASCII: the capitals become small letters, and the rest stays.
#[verifier::external_body]
pub(crate) fn to_lowercase(text: &str) -> (lower: String)
    ensures
        lower@ == lowercase(text@),
        ascii_text(text@) ==> lower@ == small_text(text@),
{
    text.to_lowercase()
}

/// Whether the characters from `from` up to `to` are one word: a longest run without white space.
pub open spec fn word_at(text: Seq<char>, from: int, to: int) -> bool {
    &&& 0 <= from < to <= text.len()
    &&& forall|i: int| from <= i < to ==> !space(#[trigger] text[i])
    &&& from == 0 || space(text[from - 1])
    &&& to == text.len() || space(text[to])
}

/// Whether every word of `search` stands somewhere in `text`.
pub open spec fn all_words_occur(search: Seq<char>, text: Seq<char>) -> bool {
    forall|from: int, to: int| #[trigger] word_at(search, from, to) ==> occurs(text, search.subrange(from, to))
}

/// Whether every word of `search` stands somewhere in `text`.
pub fn has_all_words(search: &str, text: &str) -> (yes: bool)
    ensures
        yes == all_words_occur(search@, text@),
{
    let chars = chars_of(search);
    let mut at: usize = 0;
    while at < chars.len()
        invariant
            at <= chars.len(),
            chars@ == search@,
            at == 0 || at == chars.len() || space(chars@[at - 1]) || space(chars@[at as int]),
            forall|from: int, to: int|
                from < at && #[trigger] word_at(search@, from, to) ==> to <= at && occurs(
                    text@,
                    search@.subrange(from, to),
                ),
        decreases chars.len() - at,
    {
        if is_space(chars[at]) {
            proof {
                assert forall|from: int, to: int|
                    from < at + 1 && #[trigger] word_at(search@, from, to) implies to <= at + 1 && occurs(
                    text@,
                    search@.subrange(from, to),
                ) by {
                    assert(from != at) by {
                        if from == at {
                            assert(!space(search@[at as int]));
                        }
                    }
                }
            }
            at += 1;
        } else {
            let from0: usize = at;
            let mut end: usize = at;
            while end < chars.len() && !is_space(chars[end])
                invariant
                    from0 <= end <= chars.len(),
                    forall|i: int| from0 <= i < end ==> !space(#[trigger] chars@[i]),
                decreases chars.len() - end,
            {
                end += 1;
            }
            let word = part(&chars, from0, end);
            let found = contains(text, &word);
            proof {
                assert(end > from0);
                assert(word_at(search@, from0 as int, end as int));
                assert forall|from: int, to: int|
                    from < end && #[trigger] word_at(search@, from, to) implies to <= end && (from < from0 ==> occurs(
                    text@,
                    search@.subrange(from, to),
                )) && (from >= from0 ==> from == from0 && to == end) by {
                    if from > from0 {
                        assert(!space(search@[from - 1]));
                    } else if from == from0 {
                        if to < end {
                            assert(!space(search@[to]));
                        }
                        if to > end {
                            assert(!space(search@[end as int]));
                        }
                    }
                }
            }
            if !found {
                return false;
            }
            at = end;
        }
    }
    true
}

/// The characters that Unicode counts as white space.
pub open spec fn space(c: char) -> bool {
    ('\u{9}' <= c && c <= '\u{d}') || c == ' ' || c == '\u{85}' || c == '\u{a0}' || c == '\u{1680}' || ('\u{2000}' <= c
        && c <= '\u{200a}') || c == '\u{2028}' || c == '\u{2029}' || c == '\u{202f}' || c == '\u{205f}' || c
        == '\u{3000}'
}

pub fn is_space(c: char) -> (yes: bool)
    ensures
        yes == space(c),
{
    ('\u{9}' <= c && c <= '\u{d}') || c == ' ' || c == '\u{85}' || c == '\u{a0}' || c == '\u{1680}' || ('\u{2000}' <= c
        && c <= '\u{200a}') || c == '\u{2028}' || c == '\u{2029}' || c == '\u{202f}' || c == '\u{205f}' || c
        == '\u{3000}'
}

pub open spec fn trim_front(text: Seq<char>) -> Seq<char>
    decreases text.len(),
{
    if text.len() > 0 && space(text[0]) { trim_front(text.skip(1)) } else { text }
}

pub open spec fn trim_back(text: Seq<char>) -> Seq<char>
    decreases text.len(),
{
    if text.len() > 0 && space(text.last()) { trim_back(text.drop_last()) } else { text }
}

/// `text` without the white space around it.
pub open spec fn trimmed(text: Seq<char>) -> Seq<char> {
    trim_back(trim_front(text))
}

pub fn trim(text: &str) -> (out: String)
    ensures
        out@ == trimmed(text@),
{
    let chars = chars_of(text);
    let mut from: usize = 0;
    assert(chars@.skip(0) =~= chars@);
    while from < chars.len() && is_space(chars[from])
        invariant
            from <= chars.len(),
            trim_front(chars@) == trim_front(chars@.skip(from as int)),
        decreases chars.len() - from,
    {
        assert(chars@.skip(from as int).skip(1) =~= chars@.skip(from as int + 1));
        from += 1;
    }
    let ghost front = chars@.skip(from as int);
    assert(trim_front(chars@) == front);
    let mut to: usize = chars.len();
    assert(chars@.subrange(from as int, to as int) =~= front);
    while to > from && is_space(chars[to - 1])
        invariant
            from <= to <= chars.len(),
            trim_back(front) == trim_back(chars@.subrange(from as int, to as int)),
        decreases to,
    {
        assert(chars@.subrange(from as int, to as int).drop_last() =~= chars@.subrange(from as int, to as int - 1));
        to -= 1;
    }
    part(&chars, from, to)
}

/// The whole number that `text` writes, with an optional sign, where it fits 64 bits.
pub open spec fn signed_number(text: Seq<char>) -> Option<int> {
    let signed = text.len() > 0 && (text[0] == '-' || text[0] == '+');
    let digits = if signed { text.skip(1) } else { text };
    let value: int = if signed && text[0] == '-' { -(number(digits) as int) } else { number(digits) as int };
    if digits.len() > 0 && all_digits(digits) && i64::MIN <= value <= i64::MAX { Some(value) } else { None }
}

pub fn parse_signed(text: &str) -> (value: Option<i64>)
    ensures
        value is Some == signed_number(text@) is Some,
        value is Some ==> value->0 == signed_number(text@)->0,
{
    let chars = chars_of(text);
    let signed = chars.len() > 0 && (chars[0] == '-' || chars[0] == '+');
    let negative = signed && chars[0] == '-';
    let from: usize = if signed { 1 } else { 0 };
    let digits = chars_of(&part(&chars, from, chars.len()));
    assert(digits@ =~= if signed { text@.skip(1) } else { text@ });
    if digits.len() == 0 || !digits_only(&digits) {
        return None;
    }
    let mut n: u128 = 0;
    let mut i: usize = 0;
    while i < digits.len()
        invariant
            i <= digits.len(),
            all_digits(digits@),
            n <= 9_223_372_036_854_775_809,
            n == if number(digits@.take(i as int)) <= 9_223_372_036_854_775_808 {
                number(digits@.take(i as int)) as int
            } else {
                9_223_372_036_854_775_809
            },
        decreases digits.len() - i,
    {
        assert(digits@.take(i as int + 1).drop_last() =~= digits@.take(i as int));
        let next: u128 = n * 10 + (digits[i] as u32 - '0' as u32) as u128;
        n = if next > 9_223_372_036_854_775_808 { 9_223_372_036_854_775_809 } else { next };
        i += 1;
    }
    assert(digits@.take(digits@.len() as int) =~= digits@);
    if negative {
        if n <= 9_223_372_036_854_775_808 {
            Some((0 - n as i128) as i64)
        } else {
            None
        }
    } else if n <= 9_223_372_036_854_775_807 {
        Some(n as i64)
    } else {
        None
    }
}

// ---------------------------------------------------------------- words

pub open spec fn all_spaces(text: Seq<char>) -> bool {
    forall|i: int| 0 <= i < text.len() ==> space(#[trigger] text[i])
}

/// The words of two texts with white space between them are the words of both.
pub proof fn words_of_both(a: Seq<char>, gap: Seq<char>, b: Seq<char>, text: Seq<char>)
    requires
        gap.len() > 0,
        all_spaces(gap),
    ensures
        all_words_occur(a + gap + b, text) == (all_words_occur(a, text) && all_words_occur(b, text)),
{
    let whole = a + gap + b;
    let behind = (a.len() + gap.len()) as int;
    assert forall|i: int| 0 <= i < a.len() implies whole[i] == a[i] by {}
    assert forall|i: int| 0 <= i < b.len() implies whole[behind + i] == b[i] by {}
    assert forall|i: int| a.len() <= i < behind implies space(#[trigger] whole[i]) by {
        assert(whole[i] == gap[i - a.len()]);
    }
    if all_words_occur(whole, text) {
        assert forall|from: int, to: int| #[trigger] word_at(a, from, to) implies occurs(text, a.subrange(from, to)) by {
            if to == a.len() {
                assert(space(whole[to]));
            } else {
                assert(whole[to] == a[to]);
            }
            assert(word_at(whole, from, to));
            assert(whole.subrange(from, to) =~= a.subrange(from, to));
        }
        assert forall|from: int, to: int| #[trigger] word_at(b, from, to) implies occurs(text, b.subrange(from, to)) by {
            assert(space(whole[behind - 1]));
            if from > 0 {
                assert(whole[behind + from - 1] == b[from - 1]);
            }
            if to < b.len() {
                assert(whole[behind + to] == b[to]);
            }
            assert forall|i: int| behind + from <= i < behind + to implies !space(#[trigger] whole[i]) by {
                assert(whole[i] == b[i - behind]);
            }
            assert(word_at(whole, behind + from, behind + to));
            assert(whole.subrange(behind + from, behind + to) =~= b.subrange(from, to));
        }
    }
    if all_words_occur(a, text) && all_words_occur(b, text) {
        assert forall|from: int, to: int| #[trigger] word_at(whole, from, to) implies occurs(
            text,
            whole.subrange(from, to),
        ) by {
            if from < a.len() {
                if to > a.len() {
                    assert(space(whole[a.len() as int]));
                }
                assert forall|i: int| from <= i < to implies !space(#[trigger] a[i]) by {
                    assert(whole[i] == a[i]);
                }
                if from > 0 {
                    assert(whole[from - 1] == a[from - 1]);
                }
                if to < a.len() {
                    assert(whole[to] == a[to]);
                }
                assert(word_at(a, from, to));
                assert(whole.subrange(from, to) =~= a.subrange(from, to));
            } else {
                if from < behind {
                    assert(space(whole[from]));
                }
                assert forall|i: int| from - behind <= i < to - behind implies !space(#[trigger] b[i]) by {
                    assert(whole[behind + i] == b[i]);
                }
                if from > behind {
                    assert(whole[behind + (from - behind - 1)] == b[from - behind - 1]);
                }
                if to < whole.len() {
                    assert(whole[behind + (to - behind)] == b[to - behind]);
                }
                assert(word_at(b, from - behind, to - behind));
                assert(whole.subrange(from, to) =~= b.subrange(from - behind, to - behind));
            }
        }
    }
}

/// White space around a text, and whether its ASCII letters are capitals, leave its words as
/// they are once all are small.
pub proof fn trimming_keeps_the_words(search: Seq<char>, text: Seq<char>)
    ensures
        all_words_occur(small_text(trimmed(search)), text) == all_words_occur(small_text(search), text),
{
    lemma_front_trimmed(search, text);
    lemma_back_trimmed(trim_front(search), text);
}

proof fn lemma_one_space(c: char, text: Seq<char>, search: Seq<char>)
    requires
        space(c),
    ensures
        all_words_occur(seq![c] + search, text) == all_words_occur(search, text),
        all_words_occur(search + seq![c], text) == all_words_occur(search, text),
{
    let none = Seq::<char>::empty();
    assert forall|from: int, to: int| !#[trigger] word_at(none, from, to) by {}
    assert(all_words_occur(none, text));
    words_of_both(none, seq![c], search, text);
    words_of_both(search, seq![c], none, text);
    assert(none + seq![c] + search =~= seq![c] + search);
    assert(search + seq![c] + none =~= search + seq![c]);
}

proof fn lemma_front_trimmed(search: Seq<char>, text: Seq<char>)
    ensures
        all_words_occur(small_text(trim_front(search)), text) == all_words_occur(small_text(search), text),
    decreases search.len(),
{
    if search.len() > 0 && space(search[0]) {
        lemma_front_trimmed(search.skip(1), text);
        lemma_one_space(search[0], text, small_text(search.skip(1)));
        assert(small_text(search) =~= seq![search[0]] + small_text(search.skip(1)));
    }
}

proof fn lemma_back_trimmed(search: Seq<char>, text: Seq<char>)
    ensures
        all_words_occur(small_text(trim_back(search)), text) == all_words_occur(small_text(search), text),
    decreases search.len(),
{
    if search.len() > 0 && space(search.last()) {
        lemma_back_trimmed(search.drop_last(), text);
        lemma_one_space(search.last(), text, small_text(search.drop_last()));
        assert(small_text(search) =~= small_text(search.drop_last()) + seq![search.last()]);
    }
}

/// Nothing is left of white space alone.
pub proof fn lemma_spaces_trimmed(text: Seq<char>)
    requires
        all_spaces(text),
    ensures
        trimmed(text).len() == 0,
    decreases text.len(),
{
    if text.len() > 0 {
        assert(space(text[0]));
        assert forall|i: int| 0 <= i < text.skip(1).len() implies space(#[trigger] text.skip(1)[i]) by {
            assert(text.skip(1)[i] == text[i + 1]);
        }
        lemma_spaces_trimmed(text.skip(1));
    }
}

/// A digit stands for its value.
pub proof fn lemma_digit_value(n: nat)
    requires
        n < 10,
    ensures
        digit_value(digit(n)) == n,
        '0' <= digit(n) <= '9',
{
}

/// The decimal form of a number is made of digits, writes that number, and has no zero in front
/// but that of zero itself.
pub proof fn lemma_decimal_number(n: nat)
    ensures
        number(decimal(n)) == n,
        all_digits(decimal(n)),
        decimal(n).len() > 0,
        n > 0 ==> decimal(n)[0] != '0',
    decreases n,
{
    lemma_digit_value(n % 10);
    if n >= 10 {
        lemma_decimal_number(n / 10);
        assert(decimal(n).drop_last() =~= decimal(n / 10));
    } else {
        assert(decimal(n).drop_last() =~= Seq::empty());
        assert(number(Seq::<char>::empty()) == 0);
    }
}

/// A text begins with what it was put behind, and a part of it occurs in it, wherever it stands; a text in
/// which another occurs is that one with something around it.
pub proof fn parts_occur_in_the_whole(front: Seq<char>, part: Seq<char>, back: Seq<char>)
    ensures
        begins(front + part, front),
        occurs(front + part + back, part),
        occurs(front, Seq::empty()),
        begins(front, part) ==> front == part + front.skip(part.len() as int),
        occurs(front, part) ==> exists|at: int|
            0 <= at <= front.len() - part.len() && front == #[trigger] front.take(at) + part + front.skip(at + part.len()),
        front.len() < part.len() ==> !occurs(front, part) && !begins(front, part),
{
    let whole = front + part + back;
    assert((front + part).take(front.len() as int) =~= front);
    assert(whole.subrange(front.len() as int, (front.len() + part.len()) as int) =~= part);
    assert(occurs_at(whole, part, front.len() as int));
    assert(front.subrange(0, 0) =~= Seq::<char>::empty());
    assert(occurs_at(front, Seq::empty(), 0));
    if begins(front, part) {
        assert(front =~= part + front.skip(part.len() as int));
    }
    if occurs(front, part) {
        let at = choose|at: int| #[trigger] occurs_at(front, part, at);
        assert(front =~= front.take(at) + part + front.skip(at + part.len()));
    }
}

/// White space around a text is taken off, and nothing else of it is.
pub proof fn only_outer_spaces_are_trimmed(front: Seq<char>, core: Seq<char>, back: Seq<char>)
    requires
        all_spaces(front) && all_spaces(back),
        core.len() > 0 ==> !space(core[0]) && !space(core.last()),
    ensures
        trimmed(front + core + back) == core,
    decreases front.len() + back.len(),
{
    let whole = front + core + back;
    if front.len() > 0 {
        assert(whole[0] == front[0]);
        assert(whole.skip(1) =~= front.skip(1) + core + back);
        assert(all_spaces(front.skip(1))) by {
            assert forall|i: int| 0 <= i < front.skip(1).len() implies space(#[trigger] front.skip(1)[i]) by {
                assert(front.skip(1)[i] == front[i + 1]);
            }
        }
        only_outer_spaces_are_trimmed(front.skip(1), core, back);
    } else if core.len() > 0 {
        assert(whole =~= core + back);
        assert(whole[0] == core[0]);
        lemma_core_stays(core, back);
    } else {
        assert(whole =~= back);
        lemma_spaces_trimmed(back);
        assert(trimmed(whole) =~= core);
    }
}

proof fn lemma_core_stays(core: Seq<char>, back: Seq<char>)
    requires
        all_spaces(back),
        core.len() > 0 && !space(core.last()),
    ensures
        trim_back(core + back) == core,
    decreases back.len(),
{
    if back.len() > 0 {
        assert((core + back).last() == back[back.len() - 1]);
        assert((core + back).drop_last() =~= core + back.drop_last());
        assert(all_spaces(back.drop_last())) by {
            assert forall|i: int| 0 <= i < back.drop_last().len() implies space(#[trigger] back.drop_last()[i]) by {
                assert(back.drop_last()[i] == back[i]);
            }
        }
        lemma_core_stays(core, back.drop_last());
    } else {
        assert(core + back =~= core);
    }
}

/// Blanks, tabs and line ends are white space; letters, digits and signs are not.
pub proof fn spaces_are_no_letters(c: char)
    ensures
        c == ' ' || c == '\t' || c == '\n' || c == '\r' || c == '\u{a0}' ==> space(c),
        '!' <= c <= '~' ==> !space(c),
{
}

/// Capitals of the alphabet become small letters, each its own; nothing else changes, and a second time
/// nothing does.
pub proof fn capitals_become_small(c: char, text: Seq<char>)
    ensures
        'A' <= c <= 'Z' ==> 'a' <= small(c) <= 'z' && small(c) as u32 - 'a' as u32 == c as u32 - 'A' as u32,
        !('A' <= c <= 'Z') ==> small(c) == c,
        small(small(c)) == small(c),
        small_text(text).len() == text.len(),
        small_text(small_text(text)) == small_text(text),
        forall|i: int| 0 <= i < text.len() ==> #[trigger] small_text(text)[i] == small(text[i]),
{
    assert(small_text(small_text(text)) =~= small_text(text));
}

/// A number reads back from its digits, with a plus as without and with a minus as its negative; whatever
/// holds anything else, or does not fit, is no number.
pub proof fn numbers_read_back(n: nat, text: Seq<char>, i: int)
    ensures
        n <= i64::MAX ==> signed_number(decimal(n)) == Some(n as int) && signed_number(seq!['+'] + decimal(n)) == Some(
            n as int,
        ) && signed_number(seq!['-'] + decimal(n)) == Some(-(n as int)),
        n > i64::MAX ==> signed_number(decimal(n)) is None,
        signed_number(Seq::empty()) is None && signed_number(seq!['-']) is None && signed_number(seq!['+']) is None,
        1 <= i < text.len() && !('0' <= text[i] <= '9') ==> signed_number(text) is None,
        text.len() > 0 && !('0' <= text[0] <= '9') && text[0] != '-' && text[0] != '+' ==> signed_number(text) is None,
{
    lemma_decimal_number(n);
    let digits = decimal(n);
    assert(digits[0] != '-' && digits[0] != '+');
    assert((seq!['+'] + digits).skip(1) =~= digits);
    assert((seq!['-'] + digits).skip(1) =~= digits);
    assert((seq!['+'] + digits)[0] == '+' && (seq!['-'] + digits)[0] == '-');
    assert(seq!['-'].skip(1).len() == 0 && seq!['+'].skip(1).len() == 0);
    if 1 <= i < text.len() && !('0' <= text[i] <= '9') {
        assert(text.skip(1)[i - 1] == text[i]);
    }
}

/// Each of a list of token characters is a letter, a digit, a dash or an underscore; every such list is one,
/// and so it is with digits.
pub proof fn tokens_are_plain_characters(text: Seq<char>, i: int)
    requires
        0 <= i < text.len(),
    ensures
        all_token_chars(text) ==> '0' <= text[i] <= '9' || 'a' <= text[i] <= 'z' || 'A' <= text[i] <= 'Z' || text[i] == '-'
            || text[i] == '_',
        all_digits(text) ==> '0' <= text[i] <= '9' && all_token_chars(text),
        text.len() == 1 && ('a' <= text[0] <= 'z' || 'A' <= text[0] <= 'Z' || text[0] == '-' || text[0] == '_')
            ==> all_token_chars(text) && !all_digits(text),
        text.len() == 1 && '0' <= text[0] <= '9' ==> all_digits(text),
{
}

/// A single word is found exactly where it occurs.
pub proof fn single_words_are_found_where_they_occur(word: Seq<char>, text: Seq<char>)
    requires
        word.len() > 0,
        forall|i: int| 0 <= i < word.len() ==> !space(#[trigger] word[i]),
    ensures
        all_words_occur(word, text) == occurs(text, word),
        all_words_occur(Seq::empty(), text),
{
    let n = word.len() as int;
    assert(word.subrange(0, n) =~= word);
    assert(word_at(word, 0, n));
    assert forall|from: int, to: int| #[trigger] word_at(word, from, to) implies from == 0 && to == n by {
        if from > 0 {
            assert(!space(word[from - 1]));
        }
        if to < n {
            assert(!space(word[to]));
        }
    }
    assert forall|from: int, to: int| !#[trigger] word_at(Seq::<char>::empty(), from, to) by {}
}

/// What follows the last slash of a path is its last segment.
pub proof fn segments_follow_the_last_slash(front: Seq<char>, segment: Seq<char>)
    requires
        forall|i: int| 0 <= i < segment.len() ==> segment[i] != '/',
    ensures
        last_segment(front + seq!['/'] + segment) == segment,
        last_segment(segment) == segment,
    decreases segment.len(),
{
    let whole = front + seq!['/'] + segment;
    if segment.len() == 0 {
        assert(whole.last() == '/');
        assert(last_segment(whole) =~= segment);
    } else {
        assert(whole.drop_last() =~= front + seq!['/'] + segment.drop_last());
        segments_follow_the_last_slash(front, segment.drop_last());
        assert(segment.drop_last().push(segment.last()) =~= segment);
    }
}

} // verus!
