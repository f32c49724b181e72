//! Text: white space, prefixes and suffixes, and decimal numbers.
//!
//! Everything here works on the characters of a string, which is how the
//! contracts of this crate see text.
use vstd::prelude::*;

verus! {

/// The characters with the Unicode property `White_Space`.
pub open spec fn is_white_space(c: char) -> bool {
    ||| '\u{9}' <= c <= '\u{d}'
    ||| c == ' '
    ||| c == '\u{85}'
    ||| c == '\u{a0}'
    ||| c == '\u{1680}'
    ||| '\u{2000}' <= c <= '\u{200a}'
    ||| c == '\u{2028}'
    ||| c == '\u{2029}'
    ||| c == '\u{202f}'
    ||| c == '\u{205f}'
    ||| c == '\u{3000}'
}

/// `s` without its leading white space.
pub open spec fn trim_start(s: Seq<char>) -> Seq<char>
    decreases s.len(),
{
    if s.len() > 0 && is_white_space(s[0]) {
        trim_start(s.skip(1))
    } else {
        s
    }
}

/// `s` without its trailing white space.
pub open spec fn trim_end(s: Seq<char>) -> Seq<char>
    decreases s.len(),
{
    if s.len() > 0 && is_white_space(s.last()) {
        trim_end(s.drop_last())
    } else {
        s
    }
}

/// `s` without leading and trailing white space.
pub open spec fn trimmed(s: Seq<char>) -> Seq<char> {
    trim_end(trim_start(s))
}

/// Whether a text is white space only.
pub open spec fn is_blank(s: Seq<char>) -> bool {
    forall|i: int| 0 <= i < s.len() ==> is_white_space(#[trigger] s[i])
}

/// `s` without the occurrences of `c` at its end.
pub open spec fn without_trailing(s: Seq<char>, c: char) -> Seq<char>
    decreases s.len(),
{
    if s.len() > 0 && s.last() == c {
        without_trailing(s.drop_last(), c)
    } else {
        s
    }
}

/// The characters of `s` before the first white space.
pub open spec fn until_white_space(s: Seq<char>) -> Seq<char>
    decreases s.len(),
{
    if s.len() > 0 && !is_white_space(s[0]) {
        seq![s[0]] + until_white_space(s.skip(1))
    } else {
        Seq::empty()
    }
}

/// The first word of `s`: its first run of characters that are no white
/// space, empty if there is none.
pub open spec fn first_word_of(s: Seq<char>) -> Seq<char> {
    until_white_space(trim_start(s))
}

/// Whether `s` begins with `prefix`.
pub open spec fn begins_with(s: Seq<char>, prefix: Seq<char>) -> bool {
    prefix.len() <= s.len() && s.take(prefix.len() as int) == prefix
}

/// Trimming takes exactly the white space around a text off that neither begins
/// nor ends with any.
pub proof fn lemma_trim_padded(lead: Seq<char>, s: Seq<char>, tail: Seq<char>)
    requires
        is_blank(lead),
        is_blank(tail),
        s.len() > 0 ==> !is_white_space(s[0]) && !is_white_space(s.last()),
    ensures
        trimmed(lead + s + tail) == s,
    decreases lead.len() + tail.len(),
{
    let whole = lead + s + tail;
    if lead.len() > 0 {
        let rest = lead.skip(1);
        assert(whole[0] == lead[0]);
        assert(whole.skip(1) =~= rest + s + tail);
        assert forall|i: int| 0 <= i < rest.len() implies is_white_space(
            #[trigger] rest[i],
        ) by {
            assert(rest[i] == lead[i + 1]);
        }
        lemma_trim_padded(rest, s, tail);
    } else if s.len() == 0 {
        assert(whole =~= tail);
        lemma_trim_blank(tail);
        assert(s =~= Seq::<char>::empty());
    } else {
        assert(whole =~= s + tail);
        assert(whole[0] == s[0]);
        assert(trim_start(whole) == whole);
        lemma_trim_tail(s, tail);
    }
}

proof fn lemma_trim_blank(s: Seq<char>)
    requires
        is_blank(s),
    ensures
        trimmed(s) == Seq::<char>::empty(),
    decreases s.len(),
{
    if s.len() > 0 {
        let rest = s.skip(1);
        assert forall|i: int| 0 <= i < rest.len() implies is_white_space(
            #[trigger] rest[i],
        ) by {
            assert(rest[i] == s[i + 1]);
        }
        assert(is_white_space(s[0]));
        lemma_trim_blank(rest);
    } else {
        assert(s =~= Seq::<char>::empty());
    }
}

proof fn lemma_trim_tail(s: Seq<char>, tail: Seq<char>)
    requires
        s.len() > 0,
        !is_white_space(s.last()),
        is_blank(tail),
    ensures
        trim_end(s + tail) == s,
    decreases tail.len(),
{
    if tail.len() > 0 {
        let rest = tail.drop_last();
        assert((s + tail).last() == tail.last());
        assert(tail.last() == tail[tail.len() - 1]);
        assert((s + tail).drop_last() =~= s + rest);
        assert forall|i: int| 0 <= i < rest.len() implies is_white_space(
            #[trigger] rest[i],
        ) by {
            assert(rest[i] == tail[i]);
        }
        lemma_trim_tail(s, rest);
    } else {
        assert(s + tail =~= s);
    }
}

/// Whether `c` is white space.
pub fn white_space(c: char) -> (res: bool)
    ensures
        res == is_white_space(c),
{
    ('\u{9}' <= c && c <= '\u{d}') || c == ' ' || c == '\u{85}' || c == '\u{a0}' || c == '\u{1680}'
        || ('\u{2000}' <= c && c <= '\u{200a}') || c == '\u{2028}' || c == '\u{2029}' || c
        == '\u{202f}' || c == '\u{205f}' || c == '\u{3000}'
}

/// The characters of `s`, in order.
pub fn chars_of(s: &str) -> (res: Vec<char>)
    ensures
        res@ == s@,
{
    let mut out: Vec<char> = Vec::new();
    for c in it: s.chars()
        invariant
            out@ == it.seq().take(it.index()),
            it.seq() == s@,
    {
        out.push(c);
    }
    out
}

/// `s` without leading and trailing white space.
pub fn trim(s: &str) -> (res: &str)
    ensures
        res@ == trimmed(s@),
{
    let cs = chars_of(s);
    let n: usize = cs.len();
    let mut from: usize = 0;
    proof {
        assert(cs@.skip(0) =~= cs@);
    }
    while from < n && white_space(cs[from])
        invariant
            n == cs@.len(),
            from <= n,
            trim_start(cs@) == trim_start(cs@.skip(from as int)),
        decreases n - from,
    {
        proof {
            assert(cs@.skip(from as int).skip(1) =~= cs@.skip(from + 1));
        }
        from += 1;
    }
    let mut to: usize = n;
    proof {
        assert(trim_start(cs@) == cs@.skip(from as int));
        assert(cs@.subrange(from as int, n as int) =~= cs@.skip(from as int));
    }
    while to > from && white_space(cs[to - 1])
        invariant
            n == cs@.len(),
            from <= to <= n,
            trimmed(cs@) == trim_end(cs@.subrange(from as int, to as int)),
        decreases to,
    {
        proof {
            assert(cs@.subrange(from as int, to as int).drop_last() =~= cs@.subrange(
                from as int,
                to - 1,
            ));
        }
        to -= 1;
    }
    s.substring_char(from, to)
}

/// `s` without the occurrences of `c` at its end.
pub fn trim_end_matches(s: &str, c: char) -> (res: &str)
    ensures
        res@ == without_trailing(s@, c),
{
    let cs = chars_of(s);
    let mut to: usize = cs.len();
    proof {
        assert(cs@.take(to as int) =~= cs@);
    }
    while to > 0 && cs[to - 1] == c
        invariant
            to <= cs@.len(),
            without_trailing(cs@, c) == without_trailing(cs@.take(to as int), c),
        decreases to,
    {
        proof {
            assert(cs@.take(to as int).drop_last() =~= cs@.take(to - 1));
        }
        to -= 1;
    }
    proof {
        assert(cs@.take(to as int) =~= cs@.subrange(0, to as int));
    }
    s.substring_char(0, to)
}

/// The first word of `s`, empty if there is none.
pub fn first_word(s: &str) -> (res: &str)
    ensures
        res@ == first_word_of(s@),
{
    let cs = chars_of(s);
    let n: usize = cs.len();
    let mut from: usize = 0;
    proof {
        assert(cs@.skip(0) =~= cs@);
    }
    while from < n && white_space(cs[from])
        invariant
            n == cs@.len(),
            from <= n,
            trim_start(cs@) == trim_start(cs@.skip(from as int)),
        decreases n - from,
    {
        proof {
            assert(cs@.skip(from as int).skip(1) =~= cs@.skip(from + 1));
        }
        from += 1;
    }
    let mut to: usize = from;
    proof {
        assert(cs@.subrange(from as int, from as int) + until_white_space(cs@.skip(from as int))
            =~= until_white_space(cs@.skip(from as int)));
    }
    while to < n && !white_space(cs[to])
        invariant
            n == cs@.len(),
            from <= to <= n,
            first_word_of(cs@) == cs@.subrange(from as int, to as int) + until_white_space(
                cs@.skip(to as int),
            ),
        decreases n - to,
    {
        proof {
            assert(cs@.skip(to as int).skip(1) =~= cs@.skip(to + 1));
            assert(cs@.subrange(from as int, to as int) + (seq![cs@[to as int]]
                + until_white_space(cs@.skip(to + 1))) =~= cs@.subrange(from as int, to + 1)
                + until_white_space(cs@.skip(to + 1)));
        }
        to += 1;
    }
    proof {
        assert(until_white_space(cs@.skip(to as int)) =~= Seq::<char>::empty());
        assert(first_word_of(cs@) =~= cs@.subrange(from as int, to as int));
    }
    s.substring_char(from, to)
}

/// Whether two strings hold the same characters.
pub fn same_text(a: &str, b: &str) -> (res: bool)
    ensures
        res == (a@ == b@),
{
    let x = a.as_bytes();
    let y = b.as_bytes();
    proof {
        vstd::utf8::encode_utf8_decode_utf8(a@);
        vstd::utf8::encode_utf8_decode_utf8(b@);
    }
    same_bytes(x, y)
}

/// Whether two byte strings are equal.
pub fn same_bytes(x: &[u8], y: &[u8]) -> (res: bool)
    ensures
        res == (x@ == y@),
{
    if x.len() != y.len() {
        return false;
    }
    let n: usize = x.len();
    let mut i: usize = 0;
    while i < n
        invariant
            n == x@.len(),
            n == y@.len(),
            i <= n,
            x@.take(i as int) == y@.take(i as int),
        decreases n - i,
    {
        if x[i] != y[i] {
            assert(x@[i as int] != y@[i as int]);
            return false;
        }
        proof {
            assert(x@.take(i + 1) =~= x@.take(i as int).push(x@[i as int]));
            assert(y@.take(i + 1) =~= y@.take(i as int).push(y@[i as int]));
        }
        i += 1;
    }
    proof {
        assert(x@.take(n as int) =~= x@);
        assert(y@.take(n as int) =~= y@);
    }
    true
}

/// `s` without `prefix` at its start, if it begins with it.
pub fn strip_prefix<'a>(s: &'a str, prefix: &str) -> (res: Option<&'a str>)
    ensures
        res is Some <==> begins_with(s@, prefix@),
        res matches Some(rest) ==> rest@ == s@.skip(prefix@.len() as int),
{
    let n: usize = s.unicode_len();
    let k: usize = prefix.unicode_len();
    if k > n {
        return None;
    }
    proof {
        assert(s@.subrange(0, k as int) =~= s@.take(k as int));
        assert(s@.subrange(k as int, n as int) =~= s@.skip(k as int));
    }
    if same_text(s.substring_char(0, k), prefix) {
        Some(s.substring_char(k, n))
    } else {
        None
    }
}

// ── Decimal numbers ─────────────────────────────────────────────────

/// The decimal digit of value `d`.
pub open spec fn digit_char(d: nat) -> char {
    ('0' as u32 + d) as char
}

/// The decimal digits of `n`, without leading zeros.
pub open spec fn decimal(n: nat) -> Seq<char>
    decreases n,
{
    if n < 10 {
        seq![digit_char(n)]
    } else {
        decimal(n / 10).push(digit_char(n % 10))
    }
}

/// `n` in decimal, with a minus sign if it is negative.
pub open spec fn signed_decimal(n: int) -> Seq<char> {
    if n < 0 {
        seq!['-'] + decimal((-n) as nat)
    } else {
        decimal(n as nat)
    }
}

/// The text of one decimal digit.
fn digit_text(d: u64) -> (res: &'static str)
    requires
        d < 10,
    ensures
        res@ == seq![digit_char(d as nat)],
{
    proof {
        reveal_strlit("0");
        reveal_strlit("1");
        reveal_strlit("2");
        reveal_strlit("3");
        reveal_strlit("4");
        reveal_strlit("5");
        reveal_strlit("6");
        reveal_strlit("7");
        reveal_strlit("8");
        reveal_strlit("9");
    }
    if d == 0 {
        "0"
    } else if d == 1 {
        "1"
    } else if d == 2 {
        "2"
    } else if d == 3 {
        "3"
    } else if d == 4 {
        "4"
    } else if d == 5 {
        "5"
    } else if d == 6 {
        "6"
    } else if d == 7 {
        "7"
    } else if d == 8 {
        "8"
    } else {
        "9"
    }
}

/// `n` in decimal.
pub fn decimal_text(n: u64) -> (res: String)
    ensures
        res@ == decimal(n as nat),
    decreases n,
{
    if n < 10 {
        digit_text(n).to_string()
    } else {
        let mut out = decimal_text(n / 10);
        out.append(digit_text(n % 10));
        assert(out@ =~= decimal((n / 10) as nat).push(digit_char((n % 10) as nat)));
        out
    }
}

/// `n` in decimal, with a minus sign if it is negative.
pub fn signed_decimal_text(n: i64) -> (res: String)
    ensures
        res@ == signed_decimal(n as int),
{
    if n < 0 {
        let mut out = "-".to_string();
        // `-(n + 1)` fits where `-n` may not.
        let m: u64 = (-(n + 1)) as u64 + 1;
        out.append(decimal_text(m).as_str());
        proof {
            reveal_strlit("-");
            assert(m == -n);
            assert("-"@ =~= seq!['-']);
        }
        out
    } else {
        decimal_text(n as u64)
    }
}

/// Whether `c` is one of the digits 0 to 9.
pub open spec fn is_digit(c: char) -> bool {
    '0' <= c <= '9'
}

/// The value of a string of decimal digits, most significant first.
pub open spec fn digits_value(s: Seq<char>) -> nat
    decreases s.len(),
{
    if s.len() == 0 {
        0
    } else {
        (10 * digits_value(s.drop_last()) + (s.last() as u32 - '0' as u32)) as nat
    }
}

/// The digits of a number's text: what follows an optional plus sign.
pub open spec fn number_digits(s: Seq<char>) -> Seq<char> {
    if s.len() > 0 && s[0] == '+' {
        s.skip(1)
    } else {
        s
    }
}

/// How many digits `s` begins with.
pub open spec fn digit_run(s: Seq<char>) -> nat
    decreases s.len(),
{
    if s.len() > 0 && is_digit(s[0]) {
        1 + digit_run(s.skip(1))
    } else {
        0
    }
}

/// Why a text is no number: there is none.
pub const NO_TEXT: &'static str = "cannot parse integer from empty string";

/// Why a text is no number: it is not made of digits.
pub const NO_DIGIT: &'static str = "invalid digit found in string";

/// Why a text is no number of a type: the digits make a larger one.
pub const TOO_LARGE: &'static str = "number too large to fit in target type";

/// The 16-bit number that `s` writes, by an optional plus sign and one or more
/// decimal digits, or why it writes none. Digits that make too large a number
/// count before what follows them.
pub open spec fn number_u16(s: Seq<char>) -> Result<u16, Seq<char>> {
    let digits = number_digits(s);
    let run = digit_run(digits) as int;
    if s.len() == 0 {
        Err(NO_TEXT@)
    } else if digits_value(digits.take(run)) > u16::MAX {
        Err(TOO_LARGE@)
    } else if run == 0 || run < digits.len() {
        Err(NO_DIGIT@)
    } else {
        Ok(digits_value(digits) as u16)
    }
}

/// The run of digits that a text begins with: it goes on as long as there are
/// digits.
proof fn lemma_digit_run(s: Seq<char>, k: int)
    requires
        0 <= k <= s.len(),
        forall|i: int| 0 <= i < k ==> is_digit(#[trigger] s[i]),
    ensures
        digit_run(s) == k + digit_run(s.skip(k)),
        k <= digit_run(s) <= s.len(),
        forall|i: int| 0 <= i < digit_run(s) ==> is_digit(#[trigger] s[i]),
    decreases s.len(),
{
    if s.len() > 0 && is_digit(s[0]) {
        let rest = s.skip(1);
        if k > 0 {
            assert forall|i: int| 0 <= i < k - 1 implies is_digit(#[trigger] rest[i]) by {
                assert(rest[i] == s[i + 1]);
            }
            lemma_digit_run(rest, k - 1);
            assert(rest.skip(k - 1) =~= s.skip(k));
        } else {
            lemma_digit_run(rest, 0);
            assert(s.skip(0) =~= s);
        }
        assert forall|i: int| 0 <= i < digit_run(s) implies is_digit(#[trigger] s[i]) by {
            if i > 0 {
                assert(rest[i - 1] == s[i]);
            }
        }
    } else {
        if k > 0 {
            assert(is_digit(s[0]));
        }
        assert(s.skip(0) =~= s);
    }
}

/// More digits make no smaller number.
proof fn lemma_digits_value_grows(s: Seq<char>, k: int)
    requires
        0 <= k <= s.len(),
        forall|i: int| 0 <= i < s.len() ==> is_digit(#[trigger] s[i]),
    ensures
        digits_value(s.take(k)) <= digits_value(s),
    decreases s.len() - k,
{
    if k < s.len() {
        lemma_digits_value_grows(s, k + 1);
        assert(s.take(k + 1).drop_last() =~= s.take(k));
        assert(is_digit(s[k]));
    } else {
        assert(s.take(k) =~= s);
    }
}

/// Reads a 16-bit decimal number.
#[verifier::rlimit(40)]
pub fn parse_u16(s: &str) -> (res: Result<u16, &'static str>)
    ensures
        match (res, number_u16(s@)) {
            (Ok(n), Ok(m)) => n == m,
            (Err(e), Err(m)) => e@ == m,
            _ => false,
        },
{
    let cs = chars_of(s);
    let n: usize = cs.len();
    if n == 0 {
        return Err(NO_TEXT);
    }
    let from: usize = if cs[0] == '+' {
        1
    } else {
        0
    };
    let ghost digits = number_digits(s@);
    proof {
        assert(digits =~= s@.skip(from as int));
        assert(digits.take(0) =~= Seq::<char>::empty());
    }
    let mut value: u32 = 0;
    let mut i: usize = from;
    while i < n
        invariant
            n == cs@.len(),
            n > 0,
            cs@ == s@,
            from <= i <= n,
            digits == s@.skip(from as int),
            digits == number_digits(s@),
            digits.len() == n - from,
            forall|j: int| 0 <= j < i - from ==> is_digit(#[trigger] digits[j]),
            value == digits_value(digits.take(i - from)),
            value <= u16::MAX,
        decreases n - i,
    {
        let c = cs[i];
        let ghost k = i - from;
        proof {
            assert(digits[k] == c);
            lemma_digit_run(digits, k);
        }
        if !('0' <= c && c <= '9') {
            assert(digits.skip(k)[0] == c);
            assert(digit_run(digits.skip(k)) == 0);
            return Err(NO_DIGIT);
        }
        value = value * 10 + (c as u32 - '0' as u32);
        proof {
            assert(digits.take(k + 1).drop_last() =~= digits.take(k));
            assert(digits.take(k + 1).last() == c);
        }
        if value > 65535 {
            proof {
                lemma_digit_run(digits, k + 1);
                let run = digits.take(digit_run(digits) as int);
                assert forall|j: int| 0 <= j < run.len() implies is_digit(#[trigger] run[j]) by {
                    assert(run[j] == digits[j]);
                }
                lemma_digits_value_grows(run, k + 1);
                assert(run.take(k + 1) =~= digits.take(k + 1));
            }
            return Err(TOO_LARGE);
        }
        i += 1;
    }
    proof {
        lemma_digit_run(digits, digits.len() as int);
        assert(digits.take(digits.len() as int) =~= digits);
    }
    if from == n {
        return Err(NO_DIGIT);
    }
    Ok(value as u16)
}

/// A number in decimal is digits, and reads back as the number.
pub proof fn lemma_decimal_digits(n: nat)
    ensures
        decimal(n).len() > 0,
        forall|i: int| 0 <= i < decimal(n).len() ==> is_digit(#[trigger] decimal(n)[i]),
        digits_value(decimal(n)) == n,
    decreases n,
{
    if n < 10 {
        assert(decimal(n).drop_last() =~= Seq::<char>::empty());
        assert(digits_value(Seq::<char>::empty()) == 0);
    } else {
        lemma_decimal_digits(n / 10);
        assert(decimal(n).drop_last() =~= decimal(n / 10));
    }
}

/// Reading back what was written: a 16-bit number in decimal is read as that
/// number.
pub proof fn law_decimal_round_trip(n: u16)
    ensures
        number_u16(decimal(n as nat)) == Ok::<u16, Seq<char>>(n),
{
    let digits = decimal(n as nat);
    lemma_decimal_digits(n as nat);
    assert(is_digit(digits[0]));
    lemma_digit_run(digits, digits.len() as int);
    assert(digits.take(digits.len() as int) =~= digits);
}

/// The text of a string, if there is one.
pub open spec fn said(s: Option<String>) -> Option<Seq<char>> {
    match s {
        Some(s) => Some(s@),
        None => None,
    }
}

/// The text of a string slice, if there is one.
pub open spec fn slice_said(s: Option<&str>) -> Option<Seq<char>> {
    match s {
        Some(s) => Some(s@),
        None => None,
    }
}

/// Two texts, one after the other.
pub fn text2(a: &str, b: &str) -> (res: String)
    ensures
        res@ == a@ + b@,
{
    let mut out = a.to_string();
    out.append(b);
    out
}

/// Three texts, one after the other.
pub fn text3(a: &str, b: &str, c: &str) -> (res: String)
    ensures
        res@ == a@ + b@ + c@,
{
    let mut out = text2(a, b);
    out.append(c);
    out
}

/// Four texts, one after the other.
pub fn text4(a: &str, b: &str, c: &str, d: &str) -> (res: String)
    ensures
        res@ == a@ + b@ + c@ + d@,
{
    let mut out = text3(a, b, c);
    out.append(d);
    out
}

/// Five texts, one after the other.
pub fn text5(a: &str, b: &str, c: &str, d: &str, e: &str) -> (res: String)
    ensures
        res@ == a@ + b@ + c@ + d@ + e@,
{
    let mut out = text4(a, b, c, d);
    out.append(e);
    out
}

// ── Laws ────────────────────────────────────────────────────────────

proof fn lemma_word_before(word: Seq<char>, tail: Seq<char>)
    requires
        forall|i: int| 0 <= i < word.len() ==> !is_white_space(#[trigger] word[i]),
        tail.len() > 0 ==> is_white_space(tail[0]),
    ensures
        until_white_space(word + tail) == word,
    decreases word.len(),
{
    let whole = word + tail;
    if word.len() > 0 {
        let rest = word.skip(1);
        assert(whole[0] == word[0]);
        assert(whole.skip(1) =~= rest + tail);
        assert forall|i: int| 0 <= i < rest.len() implies !is_white_space(#[trigger] rest[i]) by {
            assert(rest[i] == word[i + 1]);
        }
        lemma_word_before(rest, tail);
        assert(seq![word[0]] + rest =~= word);
    } else {
        assert(whole =~= tail);
        assert(word =~= Seq::<char>::empty());
    }
}

/// The first word is what stands between the white space in front and the next
/// white space or the end.
pub proof fn law_first_word(lead: Seq<char>, word: Seq<char>, tail: Seq<char>)
    requires
        is_blank(lead),
        word.len() > 0,
        forall|i: int| 0 <= i < word.len() ==> !is_white_space(#[trigger] word[i]),
        tail.len() > 0 ==> is_white_space(tail[0]),
    ensures
        first_word_of(lead + word + tail) == word,
    decreases lead.len(),
{
    let whole = lead + word + tail;
    if lead.len() > 0 {
        let rest = lead.skip(1);
        assert(whole[0] == lead[0]);
        assert(is_white_space(lead[0]));
        assert(whole.skip(1) =~= rest + word + tail);
        assert forall|i: int| 0 <= i < rest.len() implies is_white_space(#[trigger] rest[i]) by {
            assert(rest[i] == lead[i + 1]);
        }
        law_first_word(rest, word, tail);
    } else {
        assert(whole =~= word + tail);
        assert(whole[0] == word[0]);
        assert(!is_white_space(word[0]));
        lemma_word_before(word, tail);
    }
}

/// White space holds no word.
pub proof fn law_blank_has_no_word(s: Seq<char>)
    requires
        is_blank(s),
    ensures
        first_word_of(s) == Seq::<char>::empty(),
    decreases s.len(),
{
    if s.len() > 0 {
        let rest = s.skip(1);
        assert(is_white_space(s[0]));
        assert forall|i: int| 0 <= i < rest.len() implies is_white_space(#[trigger] rest[i]) by {
            assert(rest[i] == s[i + 1]);
        }
        law_blank_has_no_word(rest);
    }
}

/// Trimming takes the white space around a text off, and nothing else.
pub proof fn law_trimming_takes_white_space_only(lead: Seq<char>, s: Seq<char>, tail: Seq<char>)
    requires
        is_blank(lead),
        is_blank(tail),
        s.len() > 0 ==> !is_white_space(s[0]) && !is_white_space(s.last()),
    ensures
        trimmed(lead + s + tail) == s,
{
    lemma_trim_padded(lead, s, tail);
}

/// What is white space and what is not, among the characters of ASCII.
pub proof fn law_ascii_white_space(c: char)
    requires
        (c as u32) < 0x80,
    ensures
        is_white_space(c) <==> c == ' ' || c == '\t' || c == '\n' || c == '\r' || c == '\u{b}'
            || c == '\u{c}',
{
}

/// Taking a character off the end takes all of its occurrences there, and none
/// before another character.
pub proof fn law_trailing_characters_go(s: Seq<char>, c: char, n: nat)
    requires
        s.len() > 0 ==> s.last() != c,
    ensures
        without_trailing(s + Seq::new(n, |i: int| c), c) == s,
    decreases n,
{
    let tail = Seq::new(n, |i: int| c);
    let whole = s + tail;
    if n > 0 {
        let fewer = Seq::new((n - 1) as nat, |i: int| c);
        assert(whole.last() == c);
        assert(whole.drop_last() =~= s + fewer);
        law_trailing_characters_go(s, c, (n - 1) as nat);
    } else {
        assert(whole =~= s);
    }
}

/// A text begins with another exactly if something follows it.
pub proof fn law_prefix_and_rest(s: Seq<char>, prefix: Seq<char>)
    ensures
        begins_with(s, prefix) <==> exists|rest: Seq<char>| s == #[trigger] (prefix + rest),
{
    if begins_with(s, prefix) {
        let rest = s.skip(prefix.len() as int);
        assert(s =~= prefix + rest);
    }
    if exists|rest: Seq<char>| s == #[trigger] (prefix + rest) {
        let rest = choose|rest: Seq<char>| s == #[trigger] (prefix + rest);
        assert(s.take(prefix.len() as int) =~= prefix);
    }
}

/// A number's text is that of its tens and one digit more; a negative number's is
/// a minus sign and that of its amount.
pub proof fn law_decimal_digit_by_digit(n: nat, d: nat)
    requires
        d < 10,
        n > 0,
    ensures
        decimal(d) == seq![('0' as u32 + d) as char],
        decimal(10 * n + d) == decimal(n).push(('0' as u32 + d) as char),
        signed_decimal(n as int) == decimal(n),
        signed_decimal(-(n as int)) == seq!['-'] + decimal(n),
        signed_decimal(0) == seq!['0'],
{
    assert((10 * n + d) / 10 == n);
    assert((10 * n + d) % 10 == d);
}

/// A port is what its digits say: a number that 16 bits hold is read back from its
/// decimal text, with or without a plus sign; a larger one is refused for its
/// size.
pub proof fn law_ports_are_read(n: nat)
    ensures
        n <= 65535 ==> number_u16(decimal(n)) == Ok::<u16, Seq<char>>(n as u16),
        n <= 65535 ==> number_u16(seq!['+'] + decimal(n)) == Ok::<u16, Seq<char>>(n as u16),
        n > 65535 ==> number_u16(decimal(n)) == Err::<u16, Seq<char>>(
            "number too large to fit in target type"@,
        ),
{
    let digits = decimal(n);
    let plus = seq!['+'] + digits;
    lemma_decimal_digits(n);
    lemma_digit_run(digits, digits.len() as int);
    assert(digits.take(digits.len() as int) =~= digits);
    assert(is_digit(digits[0]));
    assert(plus.skip(1) =~= digits);
}

/// What holds anything but digits, a plus sign in front aside, is no port, nor is
/// nothing.
pub proof fn law_other_texts_are_no_port(s: Seq<char>, i: int)
    requires
        0 <= i < s.len(),
        !is_digit(s[i]),
        i == 0 ==> s[i] != '+',
    ensures
        number_u16(s) is Err,
        number_u16(Seq::<char>::empty()) == Err::<u16, Seq<char>>(
            "cannot parse integer from empty string"@,
        ),
        number_u16(seq!['+']) is Err,
{
    let digits = number_digits(s);
    lemma_digit_run(digits, 0);
    let run = digit_run(digits) as int;
    if run == digits.len() {
        let k = if s[0] == '+' {
            i - 1
        } else {
            i
        };
        assert(digits[k] == s[i]);
    }
    let plus = seq!['+'];
    assert(plus.skip(1).len() == 0);
}

/// White space in front of a text goes, and nothing behind it.
pub proof fn law_leading_white_space_goes(lead: Seq<char>, s: Seq<char>)
    requires
        is_blank(lead),
        s.len() > 0 ==> !is_white_space(s[0]),
    ensures
        trim_start(lead + s) == s,
    decreases lead.len(),
{
    let whole = lead + s;
    if lead.len() > 0 {
        let rest = lead.skip(1);
        assert(whole[0] == lead[0]);
        assert(is_white_space(lead[0]));
        assert(whole.skip(1) =~= rest + s);
        assert forall|i: int| 0 <= i < rest.len() implies is_white_space(#[trigger] rest[i]) by {
            assert(rest[i] == lead[i + 1]);
        }
        law_leading_white_space_goes(rest, s);
    } else {
        assert(whole =~= s);
    }
}

/// What is white space beyond ASCII.
pub proof fn law_other_white_space(c: char)
    requires
        (c as u32) >= 0x80,
    ensures
        is_white_space(c) <==> {
            ||| c == '\u{85}' || c == '\u{a0}' || c == '\u{1680}' || c == '\u{2028}'
            ||| c == '\u{2029}' || c == '\u{202f}' || c == '\u{205f}' || c == '\u{3000}'
            ||| '\u{2000}' <= c && c <= '\u{200a}'
        },
{
}

/// The text of a string that is there is its own.
pub proof fn law_texts_are_their_own(s: String, t: &str)
    ensures
        said(Some(s)) == Some(s@),
        said(None) is None,
        slice_said(Some(t)) == Some(t@),
        slice_said(None) is None,
{
}

} // verus!
