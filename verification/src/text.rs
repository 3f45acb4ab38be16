//! Text operations with exact contracts: replacing, splitting, joining and
//! reading numbers. A string is modelled by its sequence of characters.

use vstd::prelude::*;
use vstd::string::*;

verus! {

/// The characters of each string of a list.
pub open spec fn texts(list: Seq<String>) -> Seq<Seq<char>> {
    list.map_values(|s: String| s@)
}

/// The characters of an optional string.
pub open spec fn opt_text(value: Option<String>) -> Option<Seq<char>> {
    match value {
        Some(s) => Some(s@),
        None => None,
    }
}

/// `s` with every occurrence of `from` replaced by `to`, taking occurrences
/// from left to right and never looking inside a replacement.
pub open spec fn replace_all(s: Seq<char>, from: Seq<char>, to: Seq<char>) -> Seq<char>
    decreases s.len(),
{
    if from.len() == 0 || s.len() < from.len() {
        s
    } else if from.is_prefix_of(s) {
        to + replace_all(s.skip(from.len() as int), from, to)
    } else {
        seq![s[0]] + replace_all(s.skip(1), from, to)
    }
}

/// Whether `part` occurs in `s`.
pub open spec fn occurs_in(part: Seq<char>, s: Seq<char>) -> bool {
    exists|i: int| 0 <= i <= s.len() && part.is_prefix_of(#[trigger] s.skip(i))
}

/// The pieces of `s` between the occurrences of `separator`: one more than
/// there are occurrences.
pub open spec fn split_on(s: Seq<char>, separator: char) -> Seq<Seq<char>>
    decreases s.len(),
{
    if s.len() == 0 {
        seq![s]
    } else {
        let before = split_on(s.drop_last(), separator);
        if s.last() == separator {
            before.push(Seq::empty())
        } else {
            before.drop_last().push(before.last().push(s.last()))
        }
    }
}

/// The items of a list one after another, each followed by `separator`.
pub open spec fn terminated(list: Seq<Seq<char>>, separator: Seq<char>) -> Seq<char>
    decreases list.len(),
{
    if list.len() == 0 {
        Seq::empty()
    } else {
        terminated(list.drop_last(), separator) + list.last() + separator
    }
}

/// The items of a list one after another, with `separator` between neighbours.
pub open spec fn joined(list: Seq<Seq<char>>, separator: Seq<char>) -> Seq<char> {
    if list.len() == 0 {
        Seq::empty()
    } else {
        terminated(list.drop_last(), separator) + list.last()
    }
}

/// Whether `c` is a decimal digit.
pub open spec fn is_digit(c: char) -> bool {
    '0' <= c <= '9'
}

/// The number that a sequence of decimal digits writes.
pub open spec fn digits_value(s: Seq<char>) -> nat
    decreases s.len(),
{
    if s.len() == 0 {
        0
    } else {
        digits_value(s.drop_last()) * 10 + (s.last() as nat - '0' as nat) as nat
    }
}

/// `s` without the plus sign that it may start with.
pub open spec fn without_plus(s: Seq<char>) -> Seq<char> {
    if s.len() > 0 && s[0] == '+' {
        s.skip(1)
    } else {
        s
    }
}

/// The 32-bit number that `s` writes: an optional plus sign followed by at
/// least one digit and by nothing else.
pub open spec fn number_in(s: Seq<char>) -> Option<u32> {
    let digits = without_plus(s);
    if digits.len() > 0 && (forall|i: int|
        0 <= i < digits.len() ==> is_digit(#[trigger] digits[i])) && digits_value(digits)
        <= u32::MAX {
        Some(digits_value(digits) as u32)
    } else {
        None
    }
}

/// Whether two strings hold the same characters.
pub fn same_text(a: &str, b: &str) -> (same: bool)
    ensures
        same == (a@ == b@),
{
    a.to_owned() == b.to_owned()
}

/// The concatenation of three strings.
pub fn concat3(a: &str, b: &str, c: &str) -> (whole: String)
    ensures
        whole@ == a@ + b@ + c@,
{
    a.to_owned().concat(b).concat(c)
}

/// A copy of a list of strings.
pub(crate) fn copy_texts(list: &Vec<String>) -> (copy: Vec<String>)
    ensures
        texts(copy@) == texts(list@),
{
    let copy = list.clone();
    assert(texts(copy@) =~= texts(list@));
    copy
}

/// The characters of a string, as a vector.
pub(crate) fn chars_of(s: &str) -> (chars: Vec<char>)
    ensures
        chars@ == s@,
{
    let mut chars: Vec<char> = Vec::new();
    for c in it: s.chars()
        invariant
            it.seq() == s@,
            chars@ == it.seq().take(it.index() as int),
    {
        chars.push(c);
    }
    chars
}

/// Whether `pattern` stands in `chars` at position `at`.
fn stands_at(chars: &Vec<char>, at: usize, pattern: &Vec<char>) -> (found: bool)
    requires
        at <= chars@.len(),
    ensures
        found == pattern@.is_prefix_of(chars@.skip(at as int)),
{
    if chars.len() - at < pattern.len() {
        return false;
    }
    let mut i: usize = 0;
    while i < pattern.len()
        invariant
            i <= pattern@.len() <= chars.len() - at,
            at <= chars.len(),
            forall|j: int| 0 <= j < i ==> pattern@[j] == chars@[at + j],
        decreases pattern@.len() - i,
    {
        if chars[at + i] != pattern[i] {
            assert(chars@.skip(at as int)[i as int] != pattern@[i as int]);
            return false;
        }
        i += 1;
    }
    assert(pattern@ =~= chars@.skip(at as int).take(pattern@.len() as int));
    true
}

/// Replaces every occurrence of `from` in `s` by `to`.
pub(crate) fn replace_text(s: &str, from: &str, to: &str) -> (result: String)
    requires
        from@.len() > 0,
    ensures
        result@ == replace_all(s@, from@, to@),
{
    let chars = chars_of(s);
    let pattern = chars_of(from);
    let mut result = String::new();
    let mut copied: usize = 0;
    let mut at: usize = 0;
    assert(s@.skip(0) =~= s@);
    while chars.len() - at >= pattern.len()
        invariant
            chars@ == s@,
            pattern@ == from@,
            from@.len() > 0,
            copied <= at <= chars@.len(),
            replace_all(s@, from@, to@) =~= result@ + s@.subrange(copied as int, at as int)
                + replace_all(s@.skip(at as int), from@, to@),
        decreases chars@.len() - at,
    {
        let ghost rest = s@.skip(at as int);
        if stands_at(&chars, at, &pattern) {
            result.append(s.substring_char(copied, at));
            result.append(to);
            assert(rest.skip(from@.len() as int) =~= s@.skip(at + from@.len()));
            at += pattern.len();
            copied = at;
        } else {
            assert(rest.skip(1) =~= s@.skip(at + 1));
            at += 1;
        }
    }
    assert(s@.subrange(copied as int, s@.len() as int) =~= s@.subrange(copied as int, at as int)
        + s@.skip(at as int));
    result.append(s.substring_char(copied, chars.len()));
    result
}

/// Splits a string at every occurrence of a character.
pub(crate) fn split_text(s: &str, separator: char) -> (pieces: Vec<Vec<char>>)
    ensures
        pieces@.len() == split_on(s@, separator).len(),
        forall|i: int|
            0 <= i < pieces@.len() ==> (#[trigger] pieces@[i])@ == split_on(s@, separator)[i],
{
    let chars = chars_of(s);
    let mut pieces: Vec<Vec<char>> = Vec::new();
    let mut current: Vec<char> = Vec::new();
    let mut i: usize = 0;
    while i < chars.len()
        invariant
            chars@ == s@,
            i <= chars@.len(),
            split_on(s@.take(i as int), separator).len() == pieces@.len() + 1,
            split_on(s@.take(i as int), separator).last() == current@,
            forall|j: int|
                0 <= j < pieces@.len() ==> (#[trigger] pieces@[j])@ == split_on(
                    s@.take(i as int),
                    separator,
                )[j],
        decreases chars@.len() - i,
    {
        assert(s@.take(i + 1).drop_last() =~= s@.take(i as int));
        if chars[i] == separator {
            pieces.push(current);
            current = Vec::new();
        } else {
            current.push(chars[i]);
        }
        i += 1;
    }
    assert(s@.take(s@.len() as int) =~= s@);
    pieces.push(current);
    pieces
}

/// A shorter prefix of digits never writes a larger number.
proof fn lemma_digits_value_grows(s: Seq<char>, i: int)
    requires
        0 <= i <= s.len(),
    ensures
        digits_value(s.take(i)) <= digits_value(s),
    decreases s.len(),
{
    if i == s.len() {
        assert(s.take(i) =~= s);
    } else {
        lemma_digits_value_grows(s.drop_last(), i);
        assert(s.drop_last().take(i) =~= s.take(i));
    }
}

/// Reads a 32-bit number.
pub(crate) fn parse_number(s: &Vec<char>) -> (number: Option<u32>)
    ensures
        number == number_in(s@),
{
    let start: usize = if s.len() > 0 && s[0] == '+' {
        1
    } else {
        0
    };
    let ghost digits = without_plus(s@);
    assert(digits =~= s@.skip(start as int));
    if start == s.len() {
        return None;
    }
    let mut value: u32 = 0;
    let mut i: usize = start;
    while i < s.len()
        invariant
            start <= i <= s@.len(),
            start < s@.len(),
            digits == s@.skip(start as int),
            digits == without_plus(s@),
            value as nat == digits_value(digits.take(i - start)),
            forall|j: int| 0 <= j < i - start ==> is_digit(#[trigger] digits[j]),
        decreases s@.len() - i,
    {
        let c = s[i];
        assert(digits[i - start] == c);
        if c < '0' || '9' < c {
            return None;
        }
        assert(digits.take(i + 1 - start).drop_last() =~= digits.take(i - start));
        let wide: u64 = (value as u64) * 10 + ((c as u32) - ('0' as u32)) as u64;
        assert(wide as nat == digits_value(digits.take(i + 1 - start)));
        if wide > u32::MAX as u64 {
            proof {
                lemma_digits_value_grows(digits, i + 1 - start);
            }
            return None;
        }
        value = wide as u32;
        i += 1;
    }
    assert(digits.take(s@.len() - start) =~= digits);
    Some(value)
}

/// Joins the strings of a list, with a separator between neighbours.
pub(crate) fn join_texts(list: &Vec<String>, separator: &str) -> (whole: String)
    ensures
        whole@ == joined(texts(list@), separator@),
{
    let mut whole = String::new();
    let mut i: usize = 0;
    let ghost all = texts(list@);
    while i < list.len()
        invariant
            i <= list@.len(),
            all == texts(list@),
            whole@ == joined(all.take(i as int), separator@),
        decreases list@.len() - i,
    {
        let ghost done = all.take(i as int);
        assert(all.take(i + 1).drop_last() =~= done);
        if i > 0 {
            whole.append(separator);
        }
        whole.append(list[i].as_str());
        assert(i > 0 ==> terminated(done, separator@) == joined(done, separator@) + separator@);
        i += 1;
    }
    assert(all.take(list@.len() as int) =~= all);
    whole
}

/// Replacing a text that does not occur changes nothing.
pub proof fn law_replace_without_occurrence(s: Seq<char>, from: Seq<char>, to: Seq<char>)
    requires
        !occurs_in(from, s),
    ensures
        replace_all(s, from, to) == s,
    decreases s.len(),
{
    if from.len() > 0 && s.len() >= from.len() {
        assert(s.skip(0) =~= s);
        lemma_occurs_in_rest(from, s, 1);
        law_replace_without_occurrence(s.skip(1), from, to);
        assert(seq![s[0]] + s.skip(1) =~= s);
    }
}

/// What occurs in the rest of a text occurs in the text.
proof fn lemma_occurs_in_rest(part: Seq<char>, s: Seq<char>, from: int)
    requires
        0 <= from <= s.len(),
    ensures
        occurs_in(part, s.skip(from)) ==> occurs_in(part, s),
{
    if occurs_in(part, s.skip(from)) {
        let i = choose|i: int|
            0 <= i <= s.skip(from).len() && part.is_prefix_of(#[trigger] s.skip(from).skip(i));
        assert(s.skip(from).skip(i) =~= s.skip(from + i));
    }
}

/// Whether two texts agree as far as the shorter one goes.
pub open spec fn agree(a: Seq<char>, b: Seq<char>) -> bool {
    a.is_prefix_of(b) || b.is_prefix_of(a)
}

/// Whether a text that is put among others can neither hold nor begin nor
/// continue `part`, whatever comes before and after it.
pub open spec fn cannot_form(value: Seq<char>, part: Seq<char>) -> bool {
    &&& forall|i: int| 0 <= i < value.len() ==> !agree(#[trigger] value.skip(i), part)
    &&& forall|j: int| 0 < j < part.len() ==> !agree(value, #[trigger] part.skip(j))
}

/// A text cannot form another if neither holds the first character of the other.
pub proof fn law_unlike_texts_cannot_form(value: Seq<char>, part: Seq<char>)
    requires
        value.len() > 0,
        part.len() > 0,
        !part.contains(value[0]),
        !value.contains(part[0]),
    ensures
        cannot_form(value, part),
{
    assert forall|i: int| 0 <= i < value.len() implies !agree(#[trigger] value.skip(i), part) by {
        assert(value.skip(i)[0] == value[i]);
    }
    assert forall|j: int| 0 < j < part.len() implies !agree(value, #[trigger] part.skip(j)) by {
        assert(part.skip(j)[0] == part[j]);
    }
}

/// A text at the start of a concatenation agrees with the first operand.
proof fn lemma_prefix_agrees(part: Seq<char>, first: Seq<char>, second: Seq<char>)
    requires
        part.is_prefix_of(first + second),
    ensures
        agree(first, part),
{
    let whole = first + second;
    if part.len() <= first.len() {
        assert forall|i: int| 0 <= i < part.len() implies part[i] == first[i] by {
            assert(part[i] == whole.take(part.len() as int)[i]);
        }
        assert(part =~= first.take(part.len() as int));
    } else {
        assert forall|i: int| 0 <= i < first.len() implies part[i] == first[i] by {
            assert(part[i] == whole.take(part.len() as int)[i]);
        }
        assert(first =~= part.take(first.len() as int));
    }
}

/// A text at the start of the result of a replacement, which the replacement
/// could not have continued, was there before.
proof fn lemma_prefix_before_replacing(
    s: Seq<char>,
    from: Seq<char>,
    to: Seq<char>,
    part: Seq<char>,
)
    requires
        forall|j: int| 0 <= j < part.len() ==> !agree(to, #[trigger] part.skip(j)),
        part.is_prefix_of(replace_all(s, from, to)),
    ensures
        part.is_prefix_of(s),
    decreases s.len(), 1int,
{
    if part.len() == 0 {
        assert(part =~= s.take(0));
    } else if from.len() == 0 || s.len() < from.len() {
    } else if from.is_prefix_of(s) {
        lemma_prefix_agrees(part, to, replace_all(s.skip(from.len() as int), from, to));
        assert(part.skip(0) =~= part);
    } else {
        lemma_head_before_replacing(s, from, to, part);
    }
}

/// A text at the start of the result of a replacement, which starts with a
/// character that was kept, was there before.
proof fn lemma_head_before_replacing(
    s: Seq<char>,
    from: Seq<char>,
    to: Seq<char>,
    part: Seq<char>,
)
    requires
        part.len() > 0,
        0 < from.len() <= s.len(),
        !from.is_prefix_of(s),
        forall|j: int| 0 < j < part.len() ==> !agree(to, #[trigger] part.skip(j)),
        part.is_prefix_of(replace_all(s, from, to)),
    ensures
        part.is_prefix_of(s),
    decreases s.len(), 0int,
{
    let result = replace_all(s, from, to);
    let rest = replace_all(s.skip(1), from, to);
    let tail = part.skip(1);
    assert(part[0] == result[0]);
    assert forall|i: int| 0 <= i < tail.len() implies tail[i] == rest[i] by {
        assert(part[i + 1] == result[i + 1]);
    }
    assert(tail =~= rest.take(tail.len() as int));
    assert forall|j: int| 0 <= j < tail.len() implies !agree(to, #[trigger] tail.skip(j)) by {
        assert(tail.skip(j) =~= part.skip(j + 1));
    }
    lemma_prefix_before_replacing(s.skip(1), from, to, tail);
    assert forall|k: int| 0 <= k < part.len() implies part[k] == s[k] by {
        if k > 0 {
            assert(tail[k - 1] == s.skip(1)[k - 1]);
        }
    }
    assert(part =~= s.take(part.len() as int));
}

/// After a replacement, neither the text that was replaced nor a text that was
/// absent before occurs, if the replacement cannot form it.
pub proof fn law_replace_leaves_none(
    s: Seq<char>,
    from: Seq<char>,
    to: Seq<char>,
    part: Seq<char>,
)
    requires
        part.len() > 0,
        cannot_form(to, part),
        part == from || !occurs_in(part, s),
    ensures
        !occurs_in(part, replace_all(s, from, to)),
    decreases s.len(),
{
    let result = replace_all(s, from, to);
    if occurs_in(part, result) {
        let i = choose|i: int| 0 <= i <= result.len() && part.is_prefix_of(#[trigger] result.skip(i));
        if from.len() == 0 || s.len() < from.len() {
        } else if from.is_prefix_of(s) {
            let rest = replace_all(s.skip(from.len() as int), from, to);
            if i < to.len() {
                assert(result.skip(i) =~= to.skip(i) + rest);
                lemma_prefix_agrees(part, to.skip(i), rest);
            } else {
                assert(result.skip(i) =~= rest.skip(i - to.len()));
                lemma_occurs_in_rest(part, s, from.len() as int);
                law_replace_leaves_none(s.skip(from.len() as int), from, to, part);
            }
        } else {
            let rest = replace_all(s.skip(1), from, to);
            if i == 0 {
                assert(result.skip(0) =~= result);
                lemma_head_before_replacing(s, from, to, part);
                assert(s.skip(0) =~= s);
            } else {
                assert(result.skip(i) =~= rest.skip(i - 1));
                lemma_occurs_in_rest(part, s, 1);
                law_replace_leaves_none(s.skip(1), from, to, part);
            }
        }
    }
}

/// Where a text stands whose first character does not come again in it, exactly
/// that text is replaced, and what is before and after it is dealt with on its
/// own.
pub proof fn law_replace_at_occurrence(
    a: Seq<char>,
    from: Seq<char>,
    b: Seq<char>,
    to: Seq<char>,
)
    requires
        from.len() > 0,
        forall|i: int| 0 < i < from.len() ==> #[trigger] from[i] != from[0],
    ensures
        replace_all(a + from + b, from, to) == replace_all(a, from, to) + to + replace_all(
            b,
            from,
            to,
        ),
    decreases a.len(),
{
    let n = from.len() as int;
    let s = a + from + b;
    let rest = replace_all(b, from, to);
    if a.len() == 0 {
        assert(from =~= s.take(n));
        assert(s.skip(n) =~= b);
        assert(replace_all(a, from, to) + to + rest =~= to + rest);
    } else if from.is_prefix_of(a) {
        assert(from =~= a.take(n));
        assert(from =~= s.take(n));
        assert(s.skip(n) =~= a.skip(n) + from + b);
        law_replace_at_occurrence(a.skip(n), from, b, to);
        assert(replace_all(a, from, to) + to + rest =~= to + (replace_all(a.skip(n), from, to) + to
            + rest));
    } else {
        if from.is_prefix_of(s) {
            assert(from =~= s.take(n));
            if a.len() >= n {
                assert(from =~= a.take(n));
            } else {
                assert(from[a.len() as int] == s[a.len() as int]);
            }
        }
        let tail = a.skip(1);
        assert(s.skip(1) =~= tail + from + b);
        law_replace_at_occurrence(tail, from, b, to);
        assert(seq![a[0]] + tail =~= a);
        assert(replace_all(a, from, to) =~= seq![a[0]] + replace_all(tail, from, to));
        assert(replace_all(a, from, to) + to + rest =~= seq![s[0]] + (replace_all(tail, from, to)
            + to + rest));
    }
}

/// A text that cannot form what is replaced stays as it is, and what is before
/// and after it is dealt with on its own.
pub proof fn law_replace_around(
    a: Seq<char>,
    value: Seq<char>,
    b: Seq<char>,
    from: Seq<char>,
    to: Seq<char>,
)
    requires
        from.len() > 0,
        cannot_form(value, from),
    ensures
        replace_all(a + value + b, from, to) == replace_all(a, from, to) + value + replace_all(
            b,
            from,
            to,
        ),
    decreases a.len(),
{
    let n = from.len() as int;
    let s = a + value + b;
    let rest = replace_all(b, from, to);
    if a.len() == 0 {
        lemma_replace_behind(value, b, from, to, 0);
        assert(s =~= value.skip(0) + b);
        assert(replace_all(a, from, to) + value + rest =~= value.skip(0) + rest);
    } else if from.is_prefix_of(a) {
        assert(from =~= a.take(n));
        assert(from =~= s.take(n));
        assert(s.skip(n) =~= a.skip(n) + value + b);
        law_replace_around(a.skip(n), value, b, from, to);
        assert(replace_all(a, from, to) + value + rest =~= to + (replace_all(a.skip(n), from, to)
            + value + rest));
    } else {
        let k = a.len() as int;
        let tail = a.skip(1);
        if from.is_prefix_of(s) {
            assert(from =~= s.take(n));
            if k >= n {
                assert(from =~= a.take(n));
            } else {
                let end = from.skip(k);
                assert(end =~= (value + b).take(end.len() as int));
                lemma_prefix_agrees(end, value, b);
            }
        }
        assert(s.skip(1) =~= tail + value + b);
        law_replace_around(tail, value, b, from, to);
        assert(seq![a[0]] + tail =~= a);
        assert(replace_all(a, from, to) =~= seq![a[0]] + replace_all(tail, from, to));
        if s.len() < n {
            assert(replace_all(tail, from, to) == tail);
            assert(s =~= a + value + rest);
        } else {
            assert(replace_all(a, from, to) + value + rest =~= seq![s[0]] + (replace_all(
                tail,
                from,
                to,
            ) + value + rest));
        }
    }
}

/// What is behind a text that cannot form what is replaced is dealt with on its
/// own, from any place in the text on.
proof fn lemma_replace_behind(
    value: Seq<char>,
    b: Seq<char>,
    from: Seq<char>,
    to: Seq<char>,
    k: int,
)
    requires
        from.len() > 0,
        cannot_form(value, from),
        0 <= k <= value.len(),
    ensures
        replace_all(value.skip(k) + b, from, to) == value.skip(k) + replace_all(b, from, to),
    decreases value.len() - k,
{
    let s = value.skip(k) + b;
    if k == value.len() {
        assert(s =~= b);
        assert(value.skip(k) + replace_all(b, from, to) =~= replace_all(b, from, to));
    } else if s.len() < from.len() {
    } else {
        if from.is_prefix_of(s) {
            lemma_prefix_agrees(from, value.skip(k), b);
        }
        lemma_replace_behind(value, b, from, to, k + 1);
        assert(s.skip(1) =~= value.skip(k + 1) + b);
        assert(seq![s[0]] + (value.skip(k + 1) + replace_all(b, from, to)) =~= value.skip(k)
            + replace_all(b, from, to));
    }
}

/// A text without the separator is one piece, and after a separator a new piece
/// begins.
pub proof fn law_split_at_separators(a: Seq<char>, b: Seq<char>, separator: char)
    requires
        !b.contains(separator),
    ensures
        split_on(b, separator) == seq![b],
        split_on(a.push(separator) + b, separator) == split_on(a, separator).push(b),
    decreases b.len(),
{
    let s = a.push(separator) + b;
    if b.len() == 0 {
        assert(s =~= a.push(separator));
        assert(s.drop_last() =~= a);
        assert(b =~= Seq::empty());
    } else {
        let c = b.last();
        let shorter = b.drop_last();
        assert(b[b.len() - 1] == c);
        assert(!shorter.contains(separator)) by {
            if shorter.contains(separator) {
                let i = choose|i: int| 0 <= i < shorter.len() && shorter[i] == separator;
                assert(b[i] == separator);
            }
        }
        law_split_at_separators(a, shorter, separator);
        assert(s.drop_last() =~= a.push(separator) + shorter);
        assert(shorter.push(c) =~= b);
        assert(seq![shorter].drop_last().push(b) =~= seq![b]);
        assert(split_on(a, separator).push(shorter).drop_last().push(b) =~= split_on(
            a,
            separator,
        ).push(b));
    }
}

/// Joining lists one after another puts a separator between them; nothing is
/// put around a single item or in place of none.
pub proof fn law_join_in_turn(a: Seq<Seq<char>>, b: Seq<Seq<char>>, separator: Seq<char>)
    requires
        a.len() > 0,
        b.len() > 0,
    ensures
        joined(a + b, separator) == joined(a, separator) + separator + joined(b, separator),
        joined(seq![a[0]], separator) == a[0],
        joined(Seq::<Seq<char>>::empty(), separator).len() == 0,
    decreases b.len(),
{
    let first = seq![a[0]];
    assert(first.drop_last() =~= Seq::<Seq<char>>::empty());
    assert(joined(first, separator) =~= a[0]);
    assert(terminated(a, separator) == joined(a, separator) + separator);
    let whole = a + b;
    assert(whole.drop_last() =~= a + b.drop_last());
    if b.len() == 1 {
        assert(whole.drop_last() =~= a);
        assert(b.drop_last() =~= Seq::<Seq<char>>::empty());
        assert(joined(b, separator) =~= b.last());
    } else {
        let shorter = b.drop_last();
        law_join_in_turn(a, shorter, separator);
        assert(terminated(a + shorter, separator) =~= joined(a + shorter, separator) + separator);
        assert(terminated(shorter, separator) =~= joined(shorter, separator) + separator);
        assert(joined(whole, separator) =~= joined(a, separator) + separator + joined(
            b,
            separator,
        ));
    }
}

/// Numbers are read in decimal, digit by digit: one digit is its own value, one
/// more makes ten times as much and itself, as long as 32 bits can hold it, and
/// no other character may follow.
pub proof fn law_numbers_are_decimal(s: Seq<char>, c: char)
    ensures
        number_in(Seq::<char>::empty()) is None,
        number_in(seq![c]) == if '0' <= c <= '9' {
            Some((c as u32 - '0' as u32) as u32)
        } else {
            None::<u32>
        },
        s.len() > 0 && s != seq!['+'] ==> number_in(s.push(c)) == match number_in(s) {
            Some(n) if '0' <= c <= '9' && n * 10 + (c as u32 - '0' as u32) <= u32::MAX => Some(
                (n * 10 + (c as u32 - '0' as u32)) as u32,
            ),
            _ => None::<u32>,
        },
{
    let one = seq![c];
    reveal_with_fuel(digits_value, 2);
    assert(one.drop_last() =~= Seq::<char>::empty());
    assert(without_plus(one) =~= if c == '+' { Seq::<char>::empty() } else { one });
    if '0' <= c <= '9' {
        assert(digits_value(one) == c as nat - '0' as nat);
    } else if c != '+' {
        assert(!is_digit(one[0]));
    }
    if s.len() > 0 && s != seq!['+'] {
        let digits = without_plus(s);
        let longer = digits.push(c);
        assert(digits.len() > 0) by {
            if s.len() == 1 && s[0] == '+' {
                assert(s =~= seq!['+']);
            }
        }
        assert(without_plus(s.push(c)) =~= longer);
        assert(longer.drop_last() =~= digits);
        assert(digits_value(longer) == digits_value(digits) * 10 + (c as nat - '0' as nat) as nat);
        assert(longer[digits.len() as int] == c);
        if number_in(s) is Some && is_digit(c) {
            assert forall|i: int| 0 <= i < longer.len() implies is_digit(#[trigger] longer[i]) by {
                if i < digits.len() {
                    assert(is_digit(digits[i]));
                }
            }
        } else if number_in(s) is None && is_digit(c) {
            if forall|i: int| 0 <= i < digits.len() ==> is_digit(#[trigger] digits[i]) {
                assert(digits_value(digits) > u32::MAX);
            } else {
                let i = choose|i: int| 0 <= i < digits.len() && !is_digit(#[trigger] digits[i]);
                assert(longer[i] == digits[i]);
            }
        }
    }
}

/// One plus sign may come before a number, and is none by itself.
pub proof fn law_plus_before_a_number(s: Seq<char>)
    ensures
        number_in(seq!['+']) is None,
        s.len() > 0 && s[0] != '+' ==> number_in(seq!['+'] + s) == number_in(s),
        number_in(seq!['+', '+'] + s) is None,
{
    assert(without_plus(seq!['+']) =~= Seq::<char>::empty());
    assert(without_plus(seq!['+'] + s) =~= s);
    assert(without_plus(seq!['+', '+'] + s)[0] == '+');
}

} // verus!
