//! Base-16 text.
use vstd::prelude::*;

use crate::deps;
use crate::text;

verus! {

/// The value of a hexadecimal digit, upper or lower case.
pub open spec fn nibble_of(b: u8) -> Option<u8> {
    if 0x30 <= b <= 0x39 {
        Some((b - 0x30) as u8)
    } else if 0x61 <= b <= 0x66 {
        Some((b - 0x61 + 10) as u8)
    } else if 0x41 <= b <= 0x46 {
        Some((b - 0x41 + 10) as u8)
    } else {
        None
    }
}

/// The bytes that pairs of hexadecimal digits write, high digit first; none if
/// a digit is unpaired or is no digit.
pub open spec fn pairs_of(s: Seq<u8>) -> Option<Seq<u8>>
    decreases s.len(),
{
    if s.len() == 0 {
        Some(Seq::empty())
    } else if s.len() == 1 {
        None
    } else {
        match (pairs_of(s.take(s.len() - 2)), nibble_of(s[s.len() - 2]), nibble_of(s.last())) {
            (Some(before), Some(hi), Some(lo)) => Some(before.push((16 * hi + lo) as u8)),
            _ => None,
        }
    }
}

/// The bytes that a hexadecimal text writes, white space around it aside; none
/// if it is no UTF-8 or no such text.
pub open spec fn hex_decoded(s: Seq<u8>) -> Option<Seq<u8>> {
    if vstd::utf8::valid_utf8(s) {
        pairs_of(vstd::utf8::encode_utf8(text::trimmed(vstd::utf8::decode_utf8(s))))
    } else {
        None
    }
}

/// The lower-case hexadecimal digit of value `n`.
pub open spec fn hex_char(n: nat) -> char {
    if n < 10 {
        ('0' as u32 + n) as char
    } else {
        ('a' as u32 + n - 10) as char
    }
}

/// Some bytes in lower-case hexadecimal, two digits each.
pub open spec fn hex_of(bytes: Seq<u8>) -> Seq<char>
    decreases bytes.len(),
{
    if bytes.len() == 0 {
        Seq::empty()
    } else {
        hex_of(bytes.drop_last()) + seq![
            hex_char((bytes.last() / 16) as nat),
            hex_char((bytes.last() % 16) as nat),
        ]
    }
}

/// The value of a hexadecimal digit.
pub fn hex_nibble(b: u8) -> (res: Option<u8>)
    ensures
        res == nibble_of(b),
{
    if 0x30 <= b && b <= 0x39 {
        Some(b - 0x30)
    } else if 0x61 <= b && b <= 0x66 {
        Some(b - 0x61 + 10)
    } else if 0x41 <= b && b <= 0x46 {
        Some(b - 0x41 + 10)
    } else {
        None
    }
}

/// Pairs that stop being digits early never make bytes.
proof fn lemma_pairs_prefix(s: Seq<u8>, k: int)
    requires
        0 <= k <= s.len(),
        (s.len() - k) % 2 == 0,
        pairs_of(s.take(k)) is None,
    ensures
        pairs_of(s) is None,
    decreases s.len() - k,
{
    if k == s.len() {
        assert(s.take(k) =~= s);
    } else {
        assert(s.take(k + 2).take(k) =~= s.take(k));
        lemma_pairs_prefix(s, k + 2);
    }
}

/// An odd number of digits makes no bytes.
proof fn lemma_pairs_odd(s: Seq<u8>)
    requires
        s.len() % 2 != 0,
    ensures
        pairs_of(s) is None,
    decreases s.len(),
{
    if s.len() > 1 {
        lemma_pairs_odd(s.take(s.len() - 2));
    }
}

/// Reads a hexadecimal text.
pub fn hex_decode(s: &[u8]) -> (res: Option<Vec<u8>>)
    ensures
        res is Some <==> hex_decoded(s@) is Some,
        res matches Some(bytes) ==> hex_decoded(s@) == Some(bytes@),
{
    let t = match deps::utf8_text(s) {
        Some(t) => t,
        None => {
            return None;
        },
    };
    proof {
        vstd::utf8::encode_utf8_decode_utf8(t@);
        assert(t@ == vstd::utf8::decode_utf8(s@));
    }
    let d = text::trim(t).as_bytes();
    let n: usize = d.len();
    if n % 2 != 0 {
        proof {
            lemma_pairs_odd(d@);
        }
        return None;
    }
    let mut out: Vec<u8> = Vec::new();
    let mut i: usize = 0;
    proof {
        assert(d@.take(0) =~= Seq::<u8>::empty());
    }
    while i < n
        invariant
            n == d@.len(),
            i <= n,
            n % 2 == 0,
            i % 2 == 0,
            hex_decoded(s@) == pairs_of(d@),
            pairs_of(d@.take(i as int)) == Some(out@),
        decreases n - i,
    {
        let hi = hex_nibble(d[i]);
        let lo = hex_nibble(d[i + 1]);
        proof {
            assert(d@.take(i + 2).take(i as int) =~= d@.take(i as int));
        }
        match (hi, lo) {
            (Some(h), Some(l)) => {
                assert((h << 4) | l == 16 * h + l) by (bit_vector)
                    requires
                        h < 16,
                        l < 16,
                ;
                out.push((h << 4) | l);
            },
            _ => {
                proof {
                    lemma_pairs_prefix(d@, i + 2);
                }
                return None;
            },
        }
        i += 2;
    }
    proof {
        assert(d@.take(n as int) =~= d@);
    }
    Some(out)
}

/// The text of one hexadecimal digit.
fn hex_digit(n: u8) -> (res: &'static str)
    requires
        n < 16,
    ensures
        res@ == seq![hex_char(n as nat)],
{
    proof {
        reveal_strlit("0");
        reveal_strlit("1");
        reveal_strlit("2");
        reveal_strlit("3");
        reveal_strlit("4");
        reveal_strlit("5");
        reveal_strlit("6");
        reveal_strlit("7");
        reveal_strlit("8");
        reveal_strlit("9");
        reveal_strlit("a");
        reveal_strlit("b");
        reveal_strlit("c");
        reveal_strlit("d");
        reveal_strlit("e");
        reveal_strlit("f");
    }
    match n {
        0 => "0",
        1 => "1",
        2 => "2",
        3 => "3",
        4 => "4",
        5 => "5",
        6 => "6",
        7 => "7",
        8 => "8",
        9 => "9",
        10 => "a",
        11 => "b",
        12 => "c",
        13 => "d",
        14 => "e",
        _ => "f",
    }
}

/// Some bytes in lower-case hexadecimal.
pub fn hex_encode(bytes: &[u8]) -> (res: String)
    ensures
        res@ == hex_of(bytes@),
{
    let mut out = String::new();
    let n: usize = bytes.len();
    let mut i: usize = 0;
    proof {
        assert(bytes@.take(0) =~= Seq::<u8>::empty());
    }
    while i < n
        invariant
            n == bytes@.len(),
            i <= n,
            out@ == hex_of(bytes@.take(i as int)),
        decreases n - i,
    {
        let b = bytes[i];
        out.append(hex_digit(b / 16));
        out.append(hex_digit(b % 16));
        proof {
            assert(bytes@.take(i + 1).drop_last() =~= bytes@.take(i as int));
            assert(out@ =~= hex_of(bytes@.take(i + 1)));
        }
        i += 1;
    }
    proof {
        assert(bytes@.take(n as int) =~= bytes@);
    }
    out
}

/// The characters of a hexadecimal text are digits: plain ASCII, none of it
/// white space.
pub proof fn lemma_hex_chars(bytes: Seq<u8>)
    ensures
        hex_of(bytes).len() == 2 * bytes.len(),
        forall|i: int|
            0 <= i < hex_of(bytes).len() ==> {
                ||| '0' <= #[trigger] hex_of(bytes)[i] <= '9'
                ||| 'a' <= hex_of(bytes)[i] <= 'f'
            },
    decreases bytes.len(),
{
    if bytes.len() > 0 {
        lemma_hex_chars(bytes.drop_last());
    }
}

/// The digits of a hexadecimal text, as bytes, pair up to the bytes it writes.
proof fn lemma_hex_pairs(bytes: Seq<u8>, digits: Seq<u8>)
    requires
        digits.len() == hex_of(bytes).len(),
        forall|i: int| 0 <= i < digits.len() ==> #[trigger] digits[i] == hex_of(bytes)[i] as u8,
    ensures
        pairs_of(digits) == Some(bytes),
    decreases bytes.len(),
{
    lemma_hex_chars(bytes);
    if bytes.len() == 0 {
        assert(digits =~= Seq::<u8>::empty());
        assert(bytes =~= Seq::<u8>::empty());
    } else {
        let k = digits.len() - 2;
        lemma_hex_chars(bytes.drop_last());
        assert forall|i: int| 0 <= i < k implies #[trigger] digits.take(k)[i] == hex_of(
            bytes.drop_last(),
        )[i] as u8 by {
            assert(digits[i] == hex_of(bytes)[i] as u8);
        }
        lemma_hex_pairs(bytes.drop_last(), digits.take(k));
        let hi = (bytes.last() / 16) as nat;
        let lo = (bytes.last() % 16) as nat;
        assert(hex_of(bytes)[k] == hex_char(hi));
        assert(hex_of(bytes)[k + 1] == hex_char(lo));
        assert(digits[k] == hex_char(hi) as u8);
        assert(digits[k + 1] == hex_char(lo) as u8);
        assert(nibble_of(digits[k]) == Some(hi as u8));
        assert(nibble_of(digits[k + 1]) == Some(lo as u8));
        assert(bytes.drop_last().push(bytes.last()) =~= bytes);
        assert(16 * hi + lo == bytes.last());
    }
}

/// Reading back what was written: hexadecimal text decodes to the bytes that
/// it was made from.
pub proof fn law_hex_round_trip(bytes: Seq<u8>)
    ensures
        hex_decoded(vstd::utf8::encode_utf8(hex_of(bytes))) == Some(bytes),
{
    let t = hex_of(bytes);
    lemma_hex_chars(bytes);
    vstd::utf8::encode_utf8_valid_utf8(t);
    vstd::utf8::encode_utf8_decode_utf8(t);
    assert(text::trim_start(t) == t);
    assert(text::trimmed(t) == t);
    assert(vstd::utf8::is_ascii_chars(t));
    vstd::utf8::is_ascii_chars_encode_utf8(t);
    lemma_hex_pairs(bytes, vstd::utf8::encode_utf8(t));
}

/// Hexadecimal text is read whatever white space is around it.
pub proof fn law_padded_hex_is_read(lead: Seq<char>, bytes: Seq<u8>, tail: Seq<char>)
    requires
        text::is_blank(lead),
        text::is_blank(tail),
    ensures
        hex_decoded(vstd::utf8::encode_utf8(lead + hex_of(bytes) + tail)) == Some(bytes),
{
    let t = hex_of(bytes);
    let whole = lead + t + tail;
    lemma_hex_chars(bytes);
    vstd::utf8::encode_utf8_valid_utf8(whole);
    vstd::utf8::encode_utf8_decode_utf8(whole);
    if t.len() > 0 {
        assert('0' <= t[0] <= '9' || 'a' <= t[0] <= 'f');
        assert('0' <= t[t.len() - 1] <= '9' || 'a' <= t[t.len() - 1] <= 'f');
    }
    text::lemma_trim_padded(lead, t, tail);
    vstd::utf8::is_ascii_chars_encode_utf8(t);
    lemma_hex_pairs(bytes, vstd::utf8::encode_utf8(t));
}

/// A hexadecimal digit has its value, in upper and in lower case; nothing else is
/// one.
pub proof fn law_hex_digits(n: u8, b: u8)
    requires
        n < 16,
    ensures
        n < 10 ==> nibble_of((0x30 + n) as u8) == Some(n),
        n >= 10 ==> nibble_of((0x61 + n - 10) as u8) == Some(n),
        n >= 10 ==> nibble_of((0x41 + n - 10) as u8) == Some(n),
        nibble_of(b) is Some ==> 0x30 <= b <= 0x39 || 0x41 <= b <= 0x46 || 0x61 <= b <= 0x66,
        hex_char(n as nat) as u32 == if n < 10 {
            0x30 + n
        } else {
            0x61 + n - 10
        },
{
}

/// Two digits make a byte, the first of them counting sixteen times; a digit
/// without a partner makes none, nor does what is no digit.
pub proof fn law_two_digits_make_a_byte(front: Seq<u8>, bytes: Seq<u8>, hi: u8, lo: u8)
    requires
        pairs_of(front) == Some(bytes),
    ensures
        nibble_of(hi) is Some && nibble_of(lo) is Some ==> pairs_of(front.push(hi).push(lo))
            == Some(bytes.push((16 * nibble_of(hi)->Some_0 + nibble_of(lo)->Some_0) as u8)),
        nibble_of(hi) is None || nibble_of(lo) is None ==> pairs_of(
            front.push(hi).push(lo),
        ) is None,
        front.len() % 2 == 0 ==> pairs_of(front.push(hi)) is None,
        pairs_of(Seq::<u8>::empty()) == Some(Seq::<u8>::empty()),
{
    let two = front.push(hi).push(lo);
    assert(two.take(two.len() - 2) =~= front);
    if front.len() % 2 == 0 {
        lemma_pairs_odd(front.push(hi));
    }
}

/// A text of plain characters is read by its pairs of digits, in upper and in
/// lower case alike, whatever white space is around it.
pub proof fn law_hex_text_is_read_by_pairs(lead: Seq<char>, t: Seq<char>, tail: Seq<char>)
    requires
        text::is_blank(lead),
        text::is_blank(tail),
        t.len() > 0 ==> !text::is_white_space(t[0]) && !text::is_white_space(t.last()),
    ensures
        hex_decoded(vstd::utf8::encode_utf8(lead + t + tail)) == pairs_of(
            vstd::utf8::encode_utf8(t),
        ),
{
    let whole = lead + t + tail;
    vstd::utf8::encode_utf8_valid_utf8(whole);
    vstd::utf8::encode_utf8_decode_utf8(whole);
    text::lemma_trim_padded(lead, t, tail);
}

} // verus!
