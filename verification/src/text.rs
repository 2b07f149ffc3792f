//! Plain text: trimming, searching, and the decimal notation of numbers.
//!
//! A text is modelled by the sequence of its characters, which is what the view
//! of `str` and of `String` gives.

use vstd::prelude::*;

verus! {

/// Contract of `String::push`: the character is appended to the string.
pub assume_specification[ String::push ](s: &mut String, c: char)
    ensures
        final(s)@ == old(s)@.push(c),
;

/// `s` without the slashes at its end.
pub open spec fn without_end_slashes(s: Seq<char>) -> Seq<char>
    decreases s.len(),
{
    if s.len() > 0 && s.last() == '/' {
        without_end_slashes(s.drop_last())
    } else {
        s
    }
}

/// The characters with Unicode's property `White_Space`.
pub open spec fn is_space(c: char) -> bool {
    ||| '\u{9}' <= c <= '\u{d}'
    ||| c == ' '
    ||| c == '\u{85}'
    ||| c == '\u{a0}'
    ||| c == '\u{1680}'
    ||| '\u{2000}' <= c <= '\u{200a}'
    ||| c == '\u{2028}'
    ||| c == '\u{2029}'
    ||| c == '\u{202f}'
    ||| c == '\u{205f}'
    ||| c == '\u{3000}'
}

/// `s` without the white space at its start.
pub open spec fn without_start_space(s: Seq<char>) -> Seq<char>
    decreases s.len(),
{
    if s.len() > 0 && is_space(s[0]) {
        without_start_space(s.drop_first())
    } else {
        s
    }
}

/// `s` without the white space at its end.
pub open spec fn without_end_space(s: Seq<char>) -> Seq<char>
    decreases s.len(),
{
    if s.len() > 0 && is_space(s.last()) {
        without_end_space(s.drop_last())
    } else {
        s
    }
}

/// `s` without the white space at both ends.
pub open spec fn trimmed(s: Seq<char>) -> Seq<char> {
    without_end_space(without_start_space(s))
}

/// Whether `part` stands somewhere in `s`.
pub open spec fn has_part(s: Seq<char>, part: Seq<char>) -> bool {
    exists|i: int|
        0 <= i && i + part.len() <= s.len() && #[trigger] s.subrange(i, i + part.len()) == part
}

/// What follows `prefix` in `s`, or `None` where `s` does not begin with it.
pub open spec fn after_prefix(s: Seq<char>, prefix: Seq<char>) -> Option<Seq<char>> {
    if prefix.len() <= s.len() && s.take(prefix.len() as int) == prefix {
        Some(s.skip(prefix.len() as int))
    } else {
        None
    }
}

/// The character that writes a digit below ten.
pub open spec fn digit_char(d: nat) -> char {
    ('0' as nat + d) as char
}

/// Whether `c` is one of `0` to `9`.
pub open spec fn is_digit(c: char) -> bool {
    '0' <= c <= '9'
}

/// The number that a digit stands for.
pub open spec fn digit_value(c: char) -> int {
    c as int - '0' as int
}

/// The decimal notation of `n`, without leading zeros.
pub open spec fn decimal(n: nat) -> Seq<char>
    decreases n,
{
    if n < 10 {
        seq![digit_char(n)]
    } else {
        decimal(n / 10).push(digit_char(n % 10))
    }
}

/// The number that a sequence of digits writes.
pub open spec fn digits_value(s: Seq<char>) -> int
    decreases s.len(),
{
    if s.len() == 0 {
        0
    } else {
        10 * digits_value(s.drop_last()) + digit_value(s.last())
    }
}

/// `s` without a leading plus sign.
pub open spec fn without_plus(s: Seq<char>) -> Seq<char> {
    if s.len() > 0 && s[0] == '+' {
        s.drop_first()
    } else {
        s
    }
}

/// Whether `s` is not empty and holds digits only.
pub open spec fn all_digits(s: Seq<char>) -> bool {
    s.len() > 0 && forall|i: int| 0 <= i < s.len() ==> is_digit(#[trigger] s[i])
}

/// The port that `s` writes: digits, perhaps after a plus sign, whose value is at
/// most 65535.
pub open spec fn port_of(s: Seq<char>) -> Option<u16> {
    let digits = without_plus(s);
    if all_digits(digits) && digits_value(digits) <= u16::MAX {
        Some(digits_value(digits) as u16)
    } else {
        None
    }
}

/// The texts that a sequence of strings holds.
pub open spec fn texts(v: Seq<String>) -> Seq<Seq<char>> {
    v.map_values(|s: String| s@)
}

/// The text that an optional string holds.
pub open spec fn opt_text(v: Option<String>) -> Option<Seq<char>> {
    match v {
        Some(s) => Some(s@),
        None => None,
    }
}

/// Copies a list of strings.
pub fn copy_texts(v: &Vec<String>) -> (r: Vec<String>)
    ensures
        r@ == v@,
{
    let mut r: Vec<String> = Vec::new();
    append_texts(&mut r, v);
    r
}

/// Copies the strings of `more` to the end of `list`.
pub fn append_texts(list: &mut Vec<String>, more: &Vec<String>)
    ensures
        final(list)@ == old(list)@ + more@,
{
    let ghost before = list@;
    let mut i: usize = 0;
    while i < more.len()
        invariant
            i <= more@.len(),
            list@ == before + more@.take(i as int),
        decreases more@.len() - i,
    {
        list.push(more[i].clone());
        proof {
            assert(more@.take(i + 1) =~= more@.take(i as int).push(more@[i as int]));
        }
        i = i + 1;
    }
    proof {
        assert(more@.take(i as int) =~= more@);
    }
}

/// Whether a text is one of a list.
pub fn list_has(list: &Vec<String>, wanted: &str) -> (r: bool)
    ensures
        r == texts(list@).contains(wanted@),
{
    let mut i: usize = 0;
    while i < list.len()
        invariant
            i <= list@.len(),
            forall|j: int| 0 <= j < i ==> texts(list@)[j] != wanted@,
        decreases list@.len() - i,
    {
        if same_text(list[i].as_str(), wanted) {
            proof {
                assert(texts(list@)[i as int] == wanted@);
            }
            return true;
        }
        i = i + 1;
    }
    false
}

/// The characters of `s`.
pub fn chars_of(s: &str) -> (v: Vec<char>)
    ensures
        v@ == s@,
{
    let mut v: Vec<char> = Vec::new();
    for c in it: s.chars()
        invariant
            v@ == it.seq().take(it.index() as int),
            it.seq() == s@,
    {
        v.push(c);
    }
    v
}

/// Whether two texts are the same.
pub fn same_text(a: &str, b: &str) -> (r: bool)
    ensures
        r == (a@ == b@),
{
    a.to_owned() == b.to_owned()
}

/// One text after the other.
pub fn join(a: &str, b: &str) -> (r: String)
    ensures
        r@ == a@ + b@,
{
    let mut r = a.to_owned();
    r.append(b);
    r
}

/// Removes the slashes at the end.
pub fn trim_end_slashes(s: &str) -> (r: String)
    ensures
        r@ == without_end_slashes(s@),
{
    let chars = chars_of(s);
    let mut end: usize = chars.len();
    proof {
        assert(s@.take(s@.len() as int) =~= s@);
    }
    while end > 0 && chars[end - 1] == '/'
        invariant
            chars@ == s@,
            end <= chars@.len(),
            without_end_slashes(s@) == without_end_slashes(s@.take(end as int)),
        decreases end,
    {
        proof {
            assert(s@.take(end as int).drop_last() =~= s@.take(end - 1));
        }
        end = end - 1;
    }
    proof {
        assert(s@.take(end as int) =~= s@.subrange(0, end as int));
    }
    s.substring_char(0, end).to_owned()
}

/// Whether `c` is white space.
pub fn space_char(c: char) -> (r: bool)
    ensures
        r == is_space(c),
{
    ('\u{9}' <= c && c <= '\u{d}') || c == ' ' || c == '\u{85}' || c == '\u{a0}' || c == '\u{1680}'
        || ('\u{2000}' <= c && c <= '\u{200a}') || c == '\u{2028}' || c == '\u{2029}' || c
        == '\u{202f}' || c == '\u{205f}' || c == '\u{3000}'
}

/// Removes the white space at both ends.
pub fn trim(s: &str) -> (r: String)
    ensures
        r@ == trimmed(s@),
{
    let chars = chars_of(s);
    let mut start: usize = 0;
    proof {
        assert(s@.skip(0) =~= s@);
    }
    while start < chars.len() && space_char(chars[start])
        invariant
            chars@ == s@,
            start <= chars@.len(),
            without_start_space(s@) == without_start_space(s@.skip(start as int)),
        decreases chars@.len() - start,
    {
        proof {
            assert(s@.skip(start as int).drop_first() =~= s@.skip(start + 1));
        }
        start = start + 1;
    }
    let ghost rest = s@.skip(start as int);
    let mut end: usize = chars.len();
    proof {
        assert(s@.subrange(start as int, end as int) =~= rest);
    }
    while end > start && space_char(chars[end - 1])
        invariant
            chars@ == s@,
            start <= end <= chars@.len(),
            rest == s@.skip(start as int),
            without_end_space(rest) == without_end_space(s@.subrange(start as int, end as int)),
        decreases end,
    {
        proof {
            assert(s@.subrange(start as int, end as int).drop_last() =~= s@.subrange(
                start as int,
                end - 1,
            ));
        }
        end = end - 1;
    }
    s.substring_char(start, end).to_owned()
}

/// Whether `part` stands in `chars` at `at`.
fn part_at(chars: &Vec<char>, part: &Vec<char>, at: usize) -> (r: bool)
    requires
        at + part@.len() <= chars@.len(),
    ensures
        r == (chars@.subrange(at as int, at + part@.len()) == part@),
{
    let ghost window = chars@.subrange(at as int, at + part@.len());
    let total: usize = chars.len();
    let mut i: usize = 0;
    while i < part.len()
        invariant
            i <= part@.len(),
            total == chars@.len(),
            at + part@.len() <= chars@.len(),
            window == chars@.subrange(at as int, at + part@.len()),
            forall|j: int| 0 <= j < i ==> window[j] == part@[j],
        decreases part@.len() - i,
    {
        if chars[at + i] != part[i] {
            proof {
                assert(window[i as int] != part@[i as int]);
            }
            return false;
        }
        i = i + 1;
    }
    proof {
        assert(window =~= part@);
    }
    true
}

/// Whether `part` stands somewhere in `s`.
pub fn contains(s: &str, part: &str) -> (r: bool)
    ensures
        r == has_part(s@, part@),
{
    let chars = chars_of(s);
    let wanted = chars_of(part);
    if wanted.len() > chars.len() {
        return false;
    }
    let last: usize = chars.len() - wanted.len();
    let mut at: usize = 0;
    while at <= last
        invariant
            chars@ == s@,
            wanted@ == part@,
            wanted@.len() <= chars@.len(),
            last == chars@.len() - wanted@.len(),
            at <= last + 1,
            forall|i: int| 0 <= i < at ==> #[trigger] s@.subrange(i, i + part@.len()) != part@,
        decreases last + 1 - at,
    {
        if part_at(&chars, &wanted, at) {
            return true;
        }
        if at == last {
            return false;
        }
        at = at + 1;
    }
    false
}

/// Takes a prefix off.
pub fn strip_prefix(s: &str, prefix: &str) -> (r: Option<String>)
    ensures
        opt_text(r) == after_prefix(s@, prefix@),
{
    let chars = chars_of(s);
    let wanted = chars_of(prefix);
    if wanted.len() > chars.len() {
        return None;
    }
    proof {
        assert(s@.subrange(0, prefix@.len() as int) =~= s@.take(prefix@.len() as int));
        assert(s@.subrange(prefix@.len() as int, s@.len() as int) =~= s@.skip(prefix@.len() as int));
    }
    if part_at(&chars, &wanted, 0) {
        Some(s.substring_char(wanted.len(), chars.len()).to_owned())
    } else {
        None
    }
}

/// The character that writes a digit below ten.
fn digit(d: u8) -> (c: char)
    requires
        d < 10,
    ensures
        c == digit_char(d as nat),
{
    (48u8 + d) as char
}

/// Writes a number in decimal notation.
pub fn decimal_text(n: u64) -> (r: String)
    ensures
        r@ == decimal(n as nat),
    decreases n,
{
    if n < 10 {
        let mut r = String::new();
        r.push(digit(n as u8));
        proof {
            assert(r@ =~= decimal(n as nat));
        }
        r
    } else {
        let mut r = decimal_text(n / 10);
        r.push(digit((n % 10) as u8));
        r
    }
}

/// Reads a port: the port that the text writes, or `None` where it writes none.
pub fn parse_port(s: &str) -> (r: Option<u16>)
    ensures
        r == port_of(s@),
{
    let chars = chars_of(s);
    let start: usize = if chars.len() > 0 && chars[0] == '+' {
        1
    } else {
        0
    };
    let ghost digits = without_plus(s@);
    proof {
        assert(digits =~= s@.skip(start as int));
    }
    if start == chars.len() {
        return None;
    }
    let mut value: u32 = 0;
    let mut small: bool = true;
    let mut i: usize = start;
    proof {
        assert(digits.take(0) =~= Seq::<char>::empty());
    }
    while i < chars.len()
        invariant
            chars@ == s@,
            start <= i <= chars@.len(),
            start <= 1,
            digits == without_plus(s@),
            digits == s@.skip(start as int),
            forall|j: int| 0 <= j < i - start ==> is_digit(#[trigger] digits[j]),
            small ==> value == digits_value(digits.take(i - start)) && value <= 65535,
            !small ==> digits_value(digits.take(i - start)) > 65535,
        decreases chars@.len() - i,
    {
        let c = chars[i];
        proof {
            assert(digits[i - start] == c);
            assert(digits.take(i - start + 1).drop_last() =~= digits.take(i - start));
        }
        if c < '0' || c > '9' {
            proof {
                assert(!is_digit(digits[i - start]));
            }
            return None;
        }
        if small {
            value = value * 10 + (c as u32 - '0' as u32);
            if value > 65535 {
                small = false;
            }
        }
        i = i + 1;
    }
    proof {
        assert(digits.take(i - start) =~= digits);
    }
    if small {
        Some(value as u16)
    } else {
        None
    }
}

/// A text without white space at its ends is left as it is by trimming.
pub proof fn trimmed_stays(s: Seq<char>)
    requires
        s.len() > 0 ==> !is_space(s[0]) && !is_space(s.last()),
    ensures
        trimmed(s) == s,
{
}

/// Trimming a second time changes nothing.
pub proof fn trimmed_twice(s: Seq<char>)
    ensures
        trimmed(trimmed(s)) == trimmed(s),
{
    start_space_gone(s);
    end_space_gone(without_start_space(s));
    trimmed_stays(trimmed(s));
}

proof fn start_space_gone(s: Seq<char>)
    ensures
        without_start_space(s).len() > 0 ==> !is_space(without_start_space(s)[0]),
    decreases s.len(),
{
    if s.len() > 0 && is_space(s[0]) {
        start_space_gone(s.drop_first());
    }
}

proof fn end_space_gone(s: Seq<char>)
    ensures
        without_end_space(s).len() > 0 ==> !is_space(without_end_space(s).last())
            && without_end_space(s)[0] == s[0],
    decreases s.len(),
{
    if s.len() > 0 && is_space(s.last()) {
        end_space_gone(s.drop_last());
    }
}

/// The decimal notation of a number is made of digits, and writes that number.
pub proof fn decimal_writes(n: nat)
    ensures
        all_digits(decimal(n)),
        digits_value(decimal(n)) == n,
    decreases n,
{
    if n < 10 {
        let d = decimal(n);
        assert(d.drop_last() =~= Seq::<char>::empty());
        assert(digits_value(Seq::<char>::empty()) == 0);
        assert(d.last() == digit_char(n));
    } else {
        decimal_writes(n / 10);
        let d = decimal(n);
        assert(d.drop_last() =~= decimal(n / 10));
        assert(d.last() == digit_char(n % 10));
    }
}

/// A port that is written in decimal notation is read back.
pub proof fn port_read_back(port: u16)
    ensures
        port_of(decimal(port as nat)) == Some(port),
        trimmed(decimal(port as nat)) == decimal(port as nat),
{
    let d = decimal(port as nat);
    decimal_writes(port as nat);
    assert(is_digit(d[0]) && is_digit(d[d.len() - 1]));
    trimmed_stays(d);
}

/// What is left after the slashes at the end are removed does not end in a slash.
pub proof fn end_slashes_gone(s: Seq<char>)
    ensures
        without_end_slashes(s).len() > 0 ==> without_end_slashes(s).last() != '/',
        without_end_slashes(s).len() <= s.len(),
        s.take(without_end_slashes(s).len() as int) == without_end_slashes(s),
        forall|i: int| without_end_slashes(s).len() <= i < s.len() ==> s[i] == '/',
    decreases s.len(),
{
    if s.len() > 0 && s.last() == '/' {
        end_slashes_gone(s.drop_last());
        let t = without_end_slashes(s);
        assert(s.take(t.len() as int) =~= s.drop_last().take(t.len() as int));
        assert forall|i: int| t.len() <= i < s.len() implies s[i] == '/' by {
            if i < s.len() - 1 {
                assert(s[i] == s.drop_last()[i]);
            }
        }
    } else {
        assert(s.take(s.len() as int) =~= s);
    }
}

/// White space is what Unicode gives the property `White_Space`: five control characters from
/// the tab on, the space, and these code points beyond ASCII.
pub proof fn white_space_characters(c: char)
    ensures
        is_space(c) <==> {
            let n = c as u32;
            n == 9 || n == 10 || n == 11 || n == 12 || n == 13 || n == 32 || n == 0x85 || n == 0xa0
                || n == 0x1680 || (0x2000 <= n && n <= 0x200a) || n == 0x2028 || n == 0x2029
                || n == 0x202f || n == 0x205f || n == 0x3000
        },
        '!' <= c <= '~' ==> !is_space(c),
{
}

/// Taking white space off the start stops at what follows it.
proof fn start_space_comes_off(space: Seq<char>, rest: Seq<char>)
    requires
        forall|i: int| 0 <= i < space.len() ==> is_space(#[trigger] space[i]),
        rest.len() > 0 ==> !is_space(rest[0]),
    ensures
        without_start_space(space + rest) == rest,
    decreases space.len(),
{
    if space.len() == 0 {
        assert(space + rest =~= rest);
    } else {
        assert(is_space(space[0]));
        assert((space + rest)[0] == space[0]);
        assert((space + rest).drop_first() =~= space.drop_first() + rest);
        start_space_comes_off(space.drop_first(), rest);
    }
}

/// Taking white space off the end stops at what comes before it.
proof fn end_space_comes_off(rest: Seq<char>, space: Seq<char>)
    requires
        forall|i: int| 0 <= i < space.len() ==> is_space(#[trigger] space[i]),
        rest.len() > 0 ==> !is_space(rest.last()),
    ensures
        without_end_space(rest + space) == rest,
    decreases space.len(),
{
    if space.len() == 0 {
        assert(rest + space =~= rest);
    } else {
        assert(is_space(space[space.len() - 1]));
        assert((rest + space).last() == space.last());
        assert((rest + space).drop_last() =~= rest + space.drop_last());
        end_space_comes_off(rest, space.drop_last());
    }
}

/// White space round a text comes off by trimming, all of it, and nothing else does.
pub proof fn surrounding_space_comes_off(before: Seq<char>, text: Seq<char>, after: Seq<char>)
    requires
        forall|i: int| 0 <= i < before.len() ==> is_space(#[trigger] before[i]),
        forall|i: int| 0 <= i < after.len() ==> is_space(#[trigger] after[i]),
        text.len() > 0 ==> !is_space(text[0]) && !is_space(text.last()),
    ensures
        trimmed(before + text + after) == text,
{
    if text.len() == 0 {
        let space = before + after;
        assert(before + text + after =~= space + text);
        start_space_comes_off(space, text);
    } else {
        assert(before + text + after =~= before + (text + after));
        assert((text + after)[0] == text[0]);
        start_space_comes_off(before, text + after);
        end_space_comes_off(text, after);
    }
}

/// A text stands in every text that is made of something, that text, and something more.
pub proof fn part_is_found(before: Seq<char>, part: Seq<char>, after: Seq<char>)
    ensures
        has_part(before + part + after, part),
{
    let s = before + part + after;
    let i = before.len() as int;
    assert(s.subrange(i, i + part.len()) =~= part);
}

/// What is found in a text really stands there.
pub proof fn found_part_is_there(s: Seq<char>, part: Seq<char>)
    requires
        has_part(s, part),
    ensures
        exists|i: int|
            0 <= i && i + part.len() <= s.len() && s == #[trigger] s.take(i) + part + s.skip(
                i + part.len(),
            ),
{
    let i = choose|i: int|
        0 <= i && i + part.len() <= s.len() && #[trigger] s.subrange(i, i + part.len()) == part;
    assert(s =~= s.take(i) + s.subrange(i, i + part.len()) + s.skip(i + part.len()));
}

/// A prefix comes off a text that begins with it, and what is left is what followed it.
pub proof fn prefix_comes_off(prefix: Seq<char>, rest: Seq<char>)
    ensures
        after_prefix(prefix + rest, prefix) == Some(rest),
{
    assert((prefix + rest).take(prefix.len() as int) =~= prefix);
    assert((prefix + rest).skip(prefix.len() as int) =~= rest);
}

/// A prefix comes off nothing else.
pub proof fn only_prefix_comes_off(s: Seq<char>, prefix: Seq<char>)
    ensures
        after_prefix(s, prefix) matches Some(rest) ==> s == prefix + rest,
{
    if let Some(rest) = after_prefix(s, prefix) {
        assert(s =~= s.take(prefix.len() as int) + s.skip(prefix.len() as int));
    }
}

/// A digit more makes the number ten times as large and adds its value; the digits are the
/// ASCII ones.
pub proof fn digits_count_by_ten(s: Seq<char>, c: char)
    ensures
        digits_value(s.push(c)) == 10 * digits_value(s) + (c as int - 48),
        digits_value(Seq::empty()) == 0,
        is_digit(c) <==> 48 <= c as u32 <= 57,
{
    assert(s.push(c).drop_last() =~= s);
}

/// A number is written without leading zeros.
pub proof fn no_leading_zero(n: nat)
    ensures
        n > 0 ==> decimal(n)[0] != '0',
        decimal(0) == seq!['0'],
        decimal(n).len() > 0,
    decreases n,
{
    if n >= 10 {
        no_leading_zero(n / 10);
        assert(decimal(n)[0] == decimal(n / 10)[0]);
    }
}

/// Zeros in front do not change a number.
proof fn zeros_add_nothing(k: nat, s: Seq<char>)
    ensures
        digits_value(Seq::new(k, |i: int| '0') + s) == digits_value(s),
    decreases k + s.len(),
{
    let zeros = Seq::new(k, |i: int| '0');
    if s.len() > 0 {
        zeros_add_nothing(k, s.drop_last());
        assert((zeros + s).drop_last() =~= zeros + s.drop_last());
        assert((zeros + s).last() == s.last());
    } else if k > 0 {
        let fewer = (k - 1) as nat;
        zeros_add_nothing(fewer, s);
        assert((zeros + s).drop_last() =~= Seq::new(fewer, |i: int| '0') + s);
        assert((zeros + s).last() == '0');
    } else {
        assert(zeros + s =~= s);
    }
}

/// A port is read in decimal notation with any number of zeros in front, and with a plus sign
/// before these or without.
pub proof fn written_port_is_read(port: u16, zeros: nat)
    ensures
        port_of(Seq::new(zeros, |i: int| '0') + decimal(port as nat)) == Some(port),
        port_of(seq!['+'] + (Seq::new(zeros, |i: int| '0') + decimal(port as nat))) == Some(port),
{
    let s = Seq::new(zeros, |i: int| '0') + decimal(port as nat);
    decimal_writes(port as nat);
    zeros_add_nothing(zeros, decimal(port as nat));
    assert forall|i: int| 0 <= i < s.len() implies is_digit(#[trigger] s[i]) by {
        if i >= zeros {
            assert(s[i] == decimal(port as nat)[i - zeros]);
        }
    }
    assert(is_digit(s[0]));
    assert(s[0] != '+');
    assert((seq!['+'] + s).drop_first() =~= s);
}

/// Nothing else is a port: what is read as one is, after a plus sign or without, one ASCII
/// digit or more, and their number is the port.
pub proof fn only_digits_are_a_port(s: Seq<char>, rest: Seq<char>)
    requires
        s == seq!['+'] + rest || (s == rest && (rest.len() > 0 ==> rest[0] != '+')),
    ensures
        port_of(s) is Some <==> rest.len() > 0 && digits_value(rest) < 65536 && (forall|i: int|
            0 <= i < rest.len() ==> '0' <= #[trigger] rest[i] <= '9'),
        port_of(s) matches Some(port) ==> port == digits_value(rest),
{
    assert(rest =~= without_plus(s));
    if all_digits(rest) {
        assert forall|i: int| 0 <= i < rest.len() implies '0' <= #[trigger] rest[i] <= '9' by {
            assert(is_digit(rest[i]));
        }
        digits_are_not_negative(rest);
    }
}

proof fn digits_are_not_negative(s: Seq<char>)
    requires
        forall|i: int| 0 <= i < s.len() ==> is_digit(#[trigger] s[i]),
    ensures
        digits_value(s) >= 0,
    decreases s.len(),
{
    if s.len() > 0 {
        assert(is_digit(s[s.len() - 1]));
        digits_are_not_negative(s.drop_last());
    }
}

/// The view of a list of strings has each text at its place, and the view of an optional
/// string has the text where there is one.
pub proof fn texts_are_whole(list: Seq<String>, v: Option<String>, i: int)
    ensures
        texts(list).len() == list.len(),
        0 <= i < list.len() ==> texts(list)[i] == list[i]@,
        v matches Some(s) ==> opt_text(v) == Some(s@),
        v is None ==> opt_text(v) is None,
{
}

} // verus!
