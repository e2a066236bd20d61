//! Text helpers: characters of a string, decimal numbers, ASCII case and
//! whitespace, prefixes and suffixes.

use vstd::prelude::*;
use vstd::std_specs::iter::IteratorSpec;

verus! {

broadcast use vstd::string::group_string_axioms;

/// `String::push`: appends one character to the string.
#[verifier::external_body]
pub(crate) fn push_char(s: &mut String, c: char)
    ensures
        final(s)@ == old(s)@.push(c),
{
    s.push(c)
}

/// The characters of a string, in order.
pub fn chars_of(s: &str) -> (r: Vec<char>)
    ensures
        r@ == s@,
{
    let mut out: Vec<char> = Vec::new();
    let mut it = s.chars();
    loop
        invariant
            out@ + it.remaining() == s@,
            it.decrease() is Some,
        ensures
            out@ == s@,
        decreases it.decrease()->0,
    {
        match it.next() {
            Some(c) => {
                out.push(c);
            },
            None => {
                assert(out@ + it.remaining() =~= out@);
                break ;
            },
        }
    }
    out
}

/// The string made of the given characters.
pub fn string_of(chars: &Vec<char>) -> (r: String)
    ensures
        r@ == chars@,
{
    let mut out = String::new();
    let mut i: usize = 0;
    while i < chars.len()
        invariant
            i <= chars.len(),
            out@ == chars@.subrange(0, i as int),
        decreases chars.len() - i,
    {
        push_char(&mut out, chars[i]);
        i += 1;
        assert(chars@.subrange(0, i as int) == chars@.subrange(0, i - 1).push(chars@[i - 1]));
    }
    assert(chars@.subrange(0, chars.len() as int) == chars@);
    out
}

/// `str`'s `==`: two string slices are equal when they hold the same
/// characters.
pub assume_specification[ <str as PartialEq>::eq ](a: &str, b: &str) -> (r: bool)
    ensures
        r == (a@ == b@),
;

/// Whether two strings hold the same characters.
pub fn same_text(a: &str, b: &str) -> (r: bool)
    ensures
        r == (a@ == b@),
{
    *a == *b
}

/// Whether a character is white space: the characters with Unicode's
/// `White_Space` property.
pub open spec fn is_space(c: char) -> bool {
    let n = c as u32;
    ||| 0x09 <= n <= 0x0D
    ||| n == 0x20
    ||| n == 0x85
    ||| n == 0xA0
    ||| n == 0x1680
    ||| 0x2000 <= n <= 0x200A
    ||| n == 0x2028
    ||| n == 0x2029
    ||| n == 0x202F
    ||| n == 0x205F
    ||| n == 0x3000
}

/// Whether a character is white space.
pub fn is_space_char(c: char) -> (r: bool)
    ensures
        r == is_space(c),
{
    let n = c as u32;
    (0x09 <= n && n <= 0x0D) || n == 0x20 || n == 0x85 || n == 0xA0 || n == 0x1680 || (0x2000 <= n
        && n <= 0x200A) || n == 0x2028 || n == 0x2029 || n == 0x202F || n == 0x205F || n
        == 0x3000
}

/// The text without its leading white space.
pub open spec fn trim_start(s: Seq<char>) -> Seq<char>
    decreases s.len(),
{
    if s.len() > 0 && is_space(s[0]) {
        trim_start(s.drop_first())
    } else {
        s
    }
}

/// The text without its trailing white space.
pub open spec fn trim_end(s: Seq<char>) -> Seq<char>
    decreases s.len(),
{
    if s.len() > 0 && is_space(s.last()) {
        trim_end(s.drop_last())
    } else {
        s
    }
}

/// The text without its leading and trailing white space.
pub open spec fn trimmed(s: Seq<char>) -> Seq<char> {
    trim_end(trim_start(s))
}

/// Whether a text holds nothing but white space.
pub open spec fn is_blank(s: Seq<char>) -> bool {
    trimmed(s).len() == 0
}

/// The characters from `from` up to `to`.
pub fn slice_chars(chars: &Vec<char>, from: usize, to: usize) -> (r: Vec<char>)
    requires
        from <= to <= chars.len(),
    ensures
        r@ == chars@.subrange(from as int, to as int),
{
    let mut out: Vec<char> = Vec::new();
    let mut i: usize = from;
    while i < to
        invariant
            from <= i <= to <= chars.len(),
            out@ == chars@.subrange(from as int, i as int),
        decreases to - i,
    {
        out.push(chars[i]);
        i += 1;
        assert(chars@.subrange(from as int, i as int) == chars@.subrange(from as int, i - 1).push(
            chars@[i - 1],
        ));
    }
    out
}

/// The characters without leading and trailing white space.
pub fn trim_chars(chars: &Vec<char>) -> (r: Vec<char>)
    ensures
        r@ == trimmed(chars@),
{
    let n = chars.len();
    let mut start: usize = 0;
    assert(chars@.subrange(0, n as int) == chars@);
    while start < n && is_space_char(chars[start])
        invariant
            start <= n == chars.len(),
            trim_start(chars@) == trim_start(chars@.subrange(start as int, n as int)),
        decreases n - start,
    {
        assert(chars@.subrange(start as int, n as int).drop_first() == chars@.subrange(
            start + 1,
            n as int,
        ));
        start += 1;
    }
    let ghost rest = chars@.subrange(start as int, n as int);
    assert(trim_start(chars@) == rest);
    let mut end: usize = n;
    assert(rest.subrange(0, (end - start) as int) == rest);
    while end > start && is_space_char(chars[end - 1])
        invariant
            start <= end <= n == chars.len(),
            rest == chars@.subrange(start as int, n as int),
            trim_end(rest) == trim_end(rest.subrange(0, (end - start) as int)),
        decreases end,
    {
        assert(rest.subrange(0, (end - start) as int).drop_last() == rest.subrange(
            0,
            (end - 1 - start) as int,
        ));
        end -= 1;
    }
    assert(rest.subrange(0, (end - start) as int) == chars@.subrange(start as int, end as int));
    slice_chars(chars, start, end)
}

/// The text without leading and trailing white space.
pub fn trim_text(text: &str) -> (r: String)
    ensures
        r@ == trimmed(text@),
{
    string_of(&trim_chars(&chars_of(text)))
}

/// Whether a text holds nothing but white space.
pub fn blank_text(text: &str) -> (r: bool)
    ensures
        r == is_blank(text@),
{
    trim_chars(&chars_of(text)).len() == 0
}

/// The parts of a text between the occurrences of a separator. A text
/// without the separator is one part; two adjacent separators hold an empty
/// part between them.
pub open spec fn split(s: Seq<char>, sep: char) -> Seq<Seq<char>>
    decreases s.len(),
{
    if s.len() == 0 {
        seq![Seq::empty()]
    } else {
        let parts = split(s.drop_last(), sep);
        if s.last() == sep {
            parts.push(Seq::empty())
        } else {
            parts.update(parts.len() - 1, parts.last().push(s.last()))
        }
    }
}

/// The views of a list of character vectors.
pub open spec fn parts_view(parts: Seq<Vec<char>>) -> Seq<Seq<char>> {
    Seq::new(parts.len(), |i: int| parts[i]@)
}

/// The parts of a text between the occurrences of a separator.
pub fn split_chars(chars: &Vec<char>, sep: char) -> (r: Vec<Vec<char>>)
    ensures
        parts_view(r@) == split(chars@, sep),
        r.len() >= 1,
{
    let mut out: Vec<Vec<char>> = Vec::new();
    let mut current: Vec<char> = Vec::new();
    let mut i: usize = 0;
    assert(chars@.subrange(0, 0) =~= Seq::empty());
    assert(parts_view(out@).push(current@) =~= seq![Seq::empty()]);
    while i < chars.len()
        invariant
            i <= chars.len(),
            parts_view(out@).push(current@) == split(chars@.subrange(0, i as int), sep),
        decreases chars.len() - i,
    {
        let ghost before = parts_view(out@).push(current@);
        let ghost prefix = chars@.subrange(0, i + 1);
        assert(prefix.drop_last() =~= chars@.subrange(0, i as int));
        assert(prefix.last() == chars@[i as int]);
        let c = chars[i];
        if c == sep {
            out.push(current);
            current = Vec::new();
            assert(parts_view(out@).push(current@) =~= before.push(Seq::empty()));
        } else {
            current.push(c);
            assert(parts_view(out@).push(current@) =~= before.update(
                before.len() - 1,
                before.last().push(c),
            ));
        }
        i += 1;
    }
    assert(chars@.subrange(0, chars.len() as int) =~= chars@);
    let ghost before = parts_view(out@).push(current@);
    out.push(current);
    assert(parts_view(out@) =~= before);
    out
}

/// The words of a text: its longest runs of characters that are not white
/// space, in order.
pub open spec fn words(s: Seq<char>) -> Seq<Seq<char>>
    decreases s.len(),
{
    if s.len() == 0 {
        Seq::empty()
    } else {
        let before = words(s.drop_last());
        if is_space(s.last()) {
            before
        } else if s.len() >= 2 && !is_space(s[s.len() - 2]) && before.len() > 0 {
            before.update(before.len() - 1, before.last().push(s.last()))
        } else {
            before.push(seq![s.last()])
        }
    }
}

/// The words of a text.
pub fn split_words(chars: &Vec<char>) -> (r: Vec<Vec<char>>)
    ensures
        parts_view(r@) == words(chars@),
{
    let mut out: Vec<Vec<char>> = Vec::new();
    let mut current: Vec<char> = Vec::new();
    let mut in_word = false;
    let mut i: usize = 0;
    assert(chars@.subrange(0, 0) =~= Seq::empty());
    assert(parts_view(out@) =~= Seq::empty());
    while i < chars.len()
        invariant
            i <= chars.len(),
            in_word == (i > 0 && !is_space(chars@[i - 1])),
            in_word ==> current.len() > 0 && parts_view(out@).push(current@) == words(
                chars@.subrange(0, i as int),
            ),
            !in_word ==> current.len() == 0 && parts_view(out@) == words(
                chars@.subrange(0, i as int),
            ),
        decreases chars.len() - i,
    {
        let ghost done = words(chars@.subrange(0, i as int));
        let ghost held = parts_view(out@);
        let ghost prefix = chars@.subrange(0, i + 1);
        assert(prefix.drop_last() =~= chars@.subrange(0, i as int));
        assert(prefix.last() == chars@[i as int]);
        if i > 0 {
            assert(prefix[prefix.len() - 2] == chars@[i - 1]);
        }
        let c = chars[i];
        if is_space_char(c) {
            if in_word {
                out.push(current);
                current = Vec::new();
                assert(parts_view(out@) =~= done);
            }
            in_word = false;
        } else {
            if in_word {
                current.push(c);
                assert(parts_view(out@).push(current@) =~= done.update(
                    done.len() - 1,
                    done.last().push(c),
                ));
            } else {
                current.push(c);
                assert(current@ =~= seq![c]);
                assert(parts_view(out@).push(current@) =~= done.push(seq![c]));
            }
            in_word = true;
        }
        i += 1;
    }
    assert(chars@.subrange(0, chars.len() as int) =~= chars@);
    if in_word {
        let ghost done = parts_view(out@).push(current@);
        out.push(current);
        assert(parts_view(out@) =~= done);
    }
    out
}

/// Whether `i` is the position of the first occurrence of a character.
pub open spec fn is_first_occurrence(s: Seq<char>, c: char, i: int) -> bool {
    &&& 0 <= i < s.len()
    &&& s[i] == c
    &&& forall|j: int| 0 <= j < i ==> s[j] != c
}

/// The position of the first occurrence of a character, where it occurs.
pub open spec fn first_index(s: Seq<char>, c: char) -> Option<int> {
    if exists|i: int| is_first_occurrence(s, c, i) {
        Some(choose|i: int| is_first_occurrence(s, c, i))
    } else {
        None
    }
}

/// The position of the first occurrence of a character.
pub fn find_char(chars: &Vec<char>, c: char) -> (r: Option<usize>)
    ensures
        match r {
            Some(i) => first_index(chars@, c) == Some(i as int) && is_first_occurrence(
                chars@,
                c,
                i as int,
            ),
            None => first_index(chars@, c) is None && forall|j: int|
                0 <= j < chars.len() ==> chars@[j] != c,
        },
{
    let mut i: usize = 0;
    while i < chars.len()
        invariant
            i <= chars.len(),
            forall|j: int| 0 <= j < i ==> chars@[j] != c,
        decreases chars.len() - i,
    {
        if chars[i] == c {
            assert(is_first_occurrence(chars@, c, i as int));
            let ghost k = choose|k: int| is_first_occurrence(chars@, c, k);
            assert(k == i) by {
                if k < i {
                    assert(chars@[k] != c);
                }
                if i < k {
                    assert(chars@[i as int] != c);
                }
            }
            return Some(i);
        }
        i += 1;
    }
    assert forall|k: int| !is_first_occurrence(chars@, c, k) by {
        if is_first_occurrence(chars@, c, k) {
            assert(chars@[k] != c);
        }
    }
    None
}

/// The value of a character as a digit of a radix, where it is one. Radixes
/// up to sixteen are read, with letters in either case.
pub open spec fn digit_of(c: char, radix: u32) -> Option<u32> {
    let v = if '0' <= c <= '9' {
        Some((c as u32 - '0' as u32) as u32)
    } else if 'a' <= c <= 'f' {
        Some((c as u32 - 'a' as u32 + 10) as u32)
    } else if 'A' <= c <= 'F' {
        Some((c as u32 - 'A' as u32 + 10) as u32)
    } else {
        None
    };
    match v {
        Some(d) if d < radix => Some(d),
        _ => None,
    }
}

/// Whether a text is made of digits of a radix alone.
pub open spec fn all_digits_of(s: Seq<char>, radix: u32) -> bool {
    forall|i: int| 0 <= i < s.len() ==> digit_of(#[trigger] s[i], radix) is Some
}

/// The number that a text of digits of a radix writes.
pub open spec fn value_of(s: Seq<char>, radix: u32) -> nat
    decreases s.len(),
{
    if s.len() == 0 {
        0
    } else {
        value_of(s.drop_last(), radix) * (radix as nat) + (match digit_of(s.last(), radix) {
            Some(d) => d as nat,
            None => 0,
        })
    }
}

/// The unsigned number that a text writes in a radix: digits, at least one,
/// after an optional plus sign, with a value of at most `max`.
pub open spec fn parse_number_spec(s: Seq<char>, radix: u32, max: u64) -> Option<u64> {
    let digits = if s.len() > 0 && s[0] == '+' {
        s.drop_first()
    } else {
        s
    };
    if digits.len() > 0 && all_digits_of(digits, radix) && value_of(digits, radix) <= max {
        Some(value_of(digits, radix) as u64)
    } else {
        None
    }
}

/// A text of digits writes at least what any of its beginnings writes.
pub proof fn lemma_value_grows(s: Seq<char>, radix: u32, k: int)
    requires
        0 <= k <= s.len(),
        radix >= 1,
    ensures
        value_of(s.subrange(0, k), radix) <= value_of(s, radix),
    decreases s.len() - k,
{
    if k == s.len() {
        assert(s.subrange(0, k) =~= s);
    } else {
        lemma_value_grows(s, radix, k + 1);
        let longer = s.subrange(0, k + 1);
        assert(longer.drop_last() =~= s.subrange(0, k));
        let v = value_of(s.subrange(0, k), radix);
        assert(v <= v * (radix as nat)) by (nonlinear_arith)
            requires
                radix >= 1,
        ;
    }
}

/// The value of a character as a digit of a radix.
pub fn digit_value(c: char, radix: u32) -> (r: Option<u32>)
    ensures
        r == digit_of(c, radix),
{
    let v: u32 = if '0' <= c && c <= '9' {
        c as u32 - '0' as u32
    } else if 'a' <= c && c <= 'f' {
        c as u32 - 'a' as u32 + 10
    } else if 'A' <= c && c <= 'F' {
        c as u32 - 'A' as u32 + 10
    } else {
        return None;
    };
    if v < radix {
        Some(v)
    } else {
        None
    }
}

/// The unsigned number that a text writes in a radix.
pub fn parse_number(chars: &Vec<char>, radix: u32, max: u64) -> (r: Option<u64>)
    requires
        2 <= radix <= 16,
    ensures
        r == parse_number_spec(chars@, radix, max),
{
    let n = chars.len();
    let start: usize = if n > 0 && chars[0] == '+' {
        1
    } else {
        0
    };
    let ghost digits = chars@.subrange(start as int, n as int);
    assert(start == 1 ==> digits =~= chars@.drop_first());
    assert(start == 0 ==> digits =~= chars@);
    if start == n {
        return None;
    }
    let mut acc: u128 = 0;
    let mut i: usize = start;
    assert(digits.subrange(0, 0) =~= Seq::empty());
    while i < n
        invariant
            start <= i <= n == chars.len(),
            2 <= radix <= 16,
            digits == chars@.subrange(start as int, n as int),
            digits == (if chars@.len() > 0 && chars@[0] == '+' {
                chars@.drop_first()
            } else {
                chars@
            }),
            all_digits_of(digits.subrange(0, i - start), radix),
            acc == value_of(digits.subrange(0, i - start), radix),
            acc <= max,
        decreases n - i,
    {
        let c = chars[i];
        let ghost shorter = digits.subrange(0, i - start);
        let ghost longer = digits.subrange(0, i + 1 - start);
        assert(longer.drop_last() =~= shorter);
        assert(longer.last() == c);
        let Some(d) = digit_value(c, radix) else {
            assert(digit_of(digits[i - start], radix) is None);
            return None;
        };
        assert(all_digits_of(longer, radix)) by {
            assert forall|j: int| 0 <= j < longer.len() implies digit_of(
                #[trigger] longer[j],
                radix,
            ) is Some by {
                if j < shorter.len() {
                    assert(longer[j] == shorter[j]);
                }
            }
        }
        assert(acc * (radix as u128) <= 0xFFFF_FFFF_FFFF_FFFF * 16) by (nonlinear_arith)
            requires
                acc <= 0xFFFF_FFFF_FFFF_FFFF,
                radix <= 16,
        ;
        acc = acc * (radix as u128) + (d as u128);
        if acc > max as u128 {
            proof {
                lemma_value_grows(digits, radix, i + 1 - start);
            }
            return None;
        }
        i += 1;
    }
    assert(digits.subrange(0, n - start) =~= digits);
    Some(acc as u64)
}

/// The unsigned number that a text writes in decimal: digits, at least one,
/// after an optional plus sign, with a value that fits in 32 bits.
pub open spec fn parse_u32_spec(s: Seq<char>) -> Option<u32> {
    match parse_number_spec(s, 10, 0xFFFF_FFFF) {
        Some(n) => Some(n as u32),
        None => None,
    }
}

/// The unsigned number that a text writes in decimal.
pub fn parse_u32(chars: &Vec<char>) -> (r: Option<u32>)
    ensures
        r == parse_u32_spec(chars@),
{
    match parse_number(chars, 10, 0xFFFF_FFFF) {
        Some(n) => Some(n as u32),
        None => None,
    }
}

/// The decimal digits of a number, without leading zeros.
pub open spec fn decimal_digits(n: nat) -> Seq<char>
    decreases n,
{
    if n < 10 {
        seq![(('0' as u32 + n) as u8) as char]
    } else {
        decimal_digits(n / 10).push((('0' as u32 + n % 10) as u8) as char)
    }
}

/// The decimal digits of a number, as characters.
pub fn decimal_chars(n: u64) -> (r: Vec<char>)
    ensures
        r@ == decimal_digits(n as nat),
    decreases n,
{
    if n < 10 {
        let mut out: Vec<char> = Vec::new();
        out.push((('0' as u32 + n as u32) as u8) as char);
        assert(out@ =~= decimal_digits(n as nat));
        out
    } else {
        let mut out = decimal_chars(n / 10);
        out.push((('0' as u32 + (n % 10) as u32) as u8) as char);
        out
    }
}

/// The decimal text of a number.
pub fn decimal_text(n: u64) -> (r: String)
    ensures
        r@ == decimal_digits(n as nat),
{
    string_of(&decimal_chars(n))
}

/// Whether a text begins with another.
pub open spec fn has_prefix(s: Seq<char>, prefix: Seq<char>) -> bool {
    prefix.len() <= s.len() && s.subrange(0, prefix.len() as int) == prefix
}

/// Whether a text ends with another.
pub open spec fn has_suffix(s: Seq<char>, suffix: Seq<char>) -> bool {
    suffix.len() <= s.len() && s.subrange(s.len() - suffix.len(), s.len() as int) == suffix
}

/// Whether a text holds another at a position.
pub open spec fn holds_at(s: Seq<char>, part: Seq<char>, i: int) -> bool {
    0 <= i && i + part.len() <= s.len() && s.subrange(i, i + part.len()) == part
}

/// Whether a text holds another somewhere.
pub open spec fn contains_text(s: Seq<char>, part: Seq<char>) -> bool {
    exists|i: int| holds_at(s, part, i)
}

/// Whether the characters hold `part` at position `i`.
pub fn chars_hold_at(chars: &Vec<char>, part: &Vec<char>, i: usize) -> (r: bool)
    ensures
        r == holds_at(chars@, part@, i as int),
{
    if part.len() > chars.len() || i > chars.len() - part.len() {
        return false;
    }
    let mut k: usize = 0;
    while k < part.len()
        invariant
            k <= part.len(),
            i + part.len() <= chars.len(),
            forall|j: int| 0 <= j < k ==> chars@[i + j] == part@[j],
        decreases part.len() - k,
    {
        if chars[i + k] != part[k] {
            assert(chars@.subrange(i as int, i + part.len())[k as int] != part@[k as int]);
            return false;
        }
        k += 1;
    }
    assert(chars@.subrange(i as int, i + part.len()) =~= part@);
    true
}

/// Whether the characters begin with `prefix`.
pub fn chars_start_with(chars: &Vec<char>, prefix: &Vec<char>) -> (r: bool)
    ensures
        r == has_prefix(chars@, prefix@),
{
    chars_hold_at(chars, prefix, 0)
}

/// Whether the characters end with `suffix`.
pub fn chars_end_with(chars: &Vec<char>, suffix: &Vec<char>) -> (r: bool)
    ensures
        r == has_suffix(chars@, suffix@),
{
    if suffix.len() > chars.len() {
        return false;
    }
    chars_hold_at(chars, suffix, chars.len() - suffix.len())
}

/// Whether the characters hold `part` somewhere.
pub fn chars_contain(chars: &Vec<char>, part: &Vec<char>) -> (r: bool)
    ensures
        r == contains_text(chars@, part@),
{
    if part.len() > chars.len() {
        assert forall|i: int| !holds_at(chars@, part@, i) by {}
        return false;
    }
    let last = chars.len() - part.len();
    let mut i: usize = 0;
    while i < last
        invariant
            i <= last,
            last == chars.len() - part.len(),
            forall|j: int| 0 <= j < i ==> !holds_at(chars@, part@, j),
        decreases last - i,
    {
        if chars_hold_at(chars, part, i) {
            return true;
        }
        i += 1;
    }
    if chars_hold_at(chars, part, last) {
        return true;
    }
    assert forall|j: int| !holds_at(chars@, part@, j) by {}
    false
}

/// Whether a text begins with another.
pub fn starts_with(text: &str, prefix: &str) -> (r: bool)
    ensures
        r == has_prefix(text@, prefix@),
{
    chars_start_with(&chars_of(text), &chars_of(prefix))
}

/// Whether a text ends with another.
pub fn ends_with(text: &str, suffix: &str) -> (r: bool)
    ensures
        r == has_suffix(text@, suffix@),
{
    chars_end_with(&chars_of(text), &chars_of(suffix))
}

/// Whether a text holds another somewhere.
pub fn contains(text: &str, part: &str) -> (r: bool)
    ensures
        r == contains_text(text@, part@),
{
    chars_contain(&chars_of(text), &chars_of(part))
}

/// The lower-case letter of an ASCII capital, and any other character as it
/// is.
pub open spec fn ascii_lower(c: char) -> char {
    if 'A' <= c <= 'Z' {
        ((c as u8) + 32) as char
    } else {
        c
    }
}

/// Whether two texts are equal but for the case of ASCII letters.
pub open spec fn same_ignoring_ascii_case(a: Seq<char>, b: Seq<char>) -> bool {
    a.len() == b.len() && forall|i: int| 0 <= i < a.len() ==> ascii_lower(a[i]) == ascii_lower(b[i])
}

/// The lower-case letter of an ASCII capital, and any other character as it
/// is.
pub fn ascii_lower_char(c: char) -> (r: char)
    ensures
        r == ascii_lower(c),
{
    if 'A' <= c && c <= 'Z' {
        ((c as u8) + 32) as char
    } else {
        c
    }
}

/// Whether two texts are equal but for the case of ASCII letters.
pub fn eq_ignore_ascii_case(a: &str, b: &str) -> (r: bool)
    ensures
        r == same_ignoring_ascii_case(a@, b@),
{
    let x = chars_of(a);
    let y = chars_of(b);
    if x.len() != y.len() {
        return false;
    }
    let mut i: usize = 0;
    while i < x.len()
        invariant
            i <= x.len(),
            x.len() == y.len(),
            x@ == a@,
            y@ == b@,
            forall|j: int| 0 <= j < i ==> ascii_lower(x@[j]) == ascii_lower(y@[j]),
        decreases x.len() - i,
    {
        if ascii_lower_char(x[i]) != ascii_lower_char(y[i]) {
            return false;
        }
        i += 1;
    }
    true
}

/// The text that `str::to_lowercase` gives: each character turned to lower
/// case by Unicode's rules.
pub uninterp spec fn lowercased(text: Seq<char>) -> Seq<char>;

/// `str::to_lowercase`: the text in lower case.
#[verifier::external_body]
pub(crate) fn to_lowercase(text: &str) -> (r: String)
    ensures
        r@ == lowercased(text@),
{
    text.to_lowercase()
}

/// The text without the occurrences of a character at its start.
pub open spec fn strip_leading(s: Seq<char>, c: char) -> Seq<char>
    decreases s.len(),
{
    if s.len() > 0 && s[0] == c {
        strip_leading(s.drop_first(), c)
    } else {
        s
    }
}

/// The characters without the occurrences of `c` at their start.
pub fn strip_leading_chars(chars: &Vec<char>, c: char) -> (r: Vec<char>)
    ensures
        r@ == strip_leading(chars@, c),
{
    let n = chars.len();
    let mut start: usize = 0;
    assert(chars@.subrange(0, n as int) == chars@);
    while start < n && chars[start] == c
        invariant
            start <= n == chars.len(),
            strip_leading(chars@, c) == strip_leading(chars@.subrange(start as int, n as int), c),
        decreases n - start,
    {
        assert(chars@.subrange(start as int, n as int).drop_first() == chars@.subrange(
            start + 1,
            n as int,
        ));
        start += 1;
    }
    slice_chars(chars, start, n)
}

/// Whether `i` is the position of the last occurrence of a character.
pub open spec fn is_last_occurrence(s: Seq<char>, c: char, i: int) -> bool {
    &&& 0 <= i < s.len()
    &&& s[i] == c
    &&& forall|j: int| i < j < s.len() ==> s[j] != c
}

/// What follows the last occurrence of a character: the whole text where the
/// character does not occur.
pub open spec fn after_last(s: Seq<char>, c: char) -> Seq<char> {
    if exists|i: int| is_last_occurrence(s, c, i) {
        let i = choose|i: int| is_last_occurrence(s, c, i);
        s.subrange(i + 1, s.len() as int)
    } else {
        s
    }
}

/// What follows the last occurrence of `c` among the characters.
pub fn chars_after_last(chars: &Vec<char>, c: char) -> (r: Vec<char>)
    ensures
        r@ == after_last(chars@, c),
{
    let n = chars.len();
    let mut i: usize = n;
    while i > 0
        invariant
            i <= n == chars.len(),
            forall|j: int| i <= j < n ==> chars@[j] != c,
        decreases i,
    {
        if chars[i - 1] == c {
            assert(is_last_occurrence(chars@, c, i - 1));
            let ghost k = choose|k: int| is_last_occurrence(chars@, c, k);
            assert(k == i - 1) by {
                if k < i - 1 {
                    assert(chars@[i - 1] != c);
                }
                if i - 1 < k {
                    assert(chars@[k] != c);
                }
            }
            return slice_chars(chars, i, n);
        }
        i -= 1;
    }
    assert forall|k: int| !is_last_occurrence(chars@, c, k) by {
        if is_last_occurrence(chars@, c, k) {
            assert(chars@[k] != c);
        }
    }
    let out = slice_chars(chars, 0, n);
    assert(out@ =~= chars@);
    out
}

} // verus!
