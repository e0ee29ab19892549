use vstd::prelude::*;
use vstd::string::StringSliceAdditionalSpecFns;

verus! {

broadcast use vstd::string::is_ascii_spec_bytes;

/// The lowercase hexadecimal digit for a value below sixteen.
pub open spec fn hex_char(d: int) -> char {
    if d == 0 { '0' } else if d == 1 { '1' } else if d == 2 { '2' } else if d == 3 { '3' }
    else if d == 4 { '4' } else if d == 5 { '5' } else if d == 6 { '6' } else if d == 7 { '7' }
    else if d == 8 { '8' } else if d == 9 { '9' } else if d == 10 { 'a' } else if d == 11 { 'b' }
    else if d == 12 { 'c' } else if d == 13 { 'd' } else if d == 14 { 'e' } else { 'f' }
}

/// The value of a hexadecimal digit of either case, or `None` for any other character.
pub open spec fn digit_value(c: char) -> Option<int> {
    if '0' <= c && c <= '9' {
        Some(c as int - '0' as int)
    } else if 'a' <= c && c <= 'f' {
        Some(c as int - 'a' as int + 10)
    } else if 'A' <= c && c <= 'F' {
        Some(c as int - 'A' as int + 10)
    } else {
        None
    }
}

/// Lowercase hexadecimal text of a byte string: two digits per byte, high nibble first.
pub open spec fn hex_text(b: Seq<u8>) -> Seq<char> {
    Seq::new(
        2 * b.len(),
        |i: int|
            if i % 2 == 0 {
                hex_char(b[i / 2] as int / 16)
            } else {
                hex_char(b[i / 2] as int % 16)
            },
    )
}

/// Whether every character of `s` is a hexadecimal digit and they pair up into bytes.
pub open spec fn is_hex(s: Seq<char>) -> bool {
    s.len() % 2 == 0 && forall|i: int| 0 <= i < s.len() ==> #[trigger] digit_value(s[i]) is Some
}

/// The bytes that well-formed hexadecimal text `s` denotes.
pub open spec fn hex_bytes(s: Seq<char>) -> Seq<u8> {
    Seq::new(
        s.len() / 2,
        |i: int| (16 * digit_value(s[2 * i])->0 + digit_value(s[2 * i + 1])->0) as u8,
    )
}

/// Every digit that `hex_text` writes reads back as its own value.
pub proof fn lemma_digit_of_hex_char(d: int)
    requires
        0 <= d < 16,
    ensures
        digit_value(hex_char(d)) == Some(d),
{
}

/// Reading back the text that `hex_text` writes gives the original bytes.
pub proof fn lemma_hex_round_trip(b: Seq<u8>)
    ensures
        is_hex(hex_text(b)),
        hex_bytes(hex_text(b)) == b,
{
    let t = hex_text(b);
    assert forall|i: int| 0 <= i < t.len() implies #[trigger] digit_value(t[i]) is Some by {
        lemma_digit_of_hex_char(b[i / 2] as int / 16);
        lemma_digit_of_hex_char(b[i / 2] as int % 16);
    }
    assert forall|i: int| 0 <= i < b.len() implies #[trigger] hex_bytes(t)[i] == b[i] by {
        assert((2 * i) / 2 == i);
        assert((2 * i + 1) / 2 == i);
        lemma_digit_of_hex_char(b[i] as int / 16);
        lemma_digit_of_hex_char(b[i] as int % 16);
        assert(16 * (b[i] as int / 16) + b[i] as int % 16 == b[i] as int);
    }
    assert(hex_bytes(t) =~= b);
}

/// The one-character text of a digit value.
fn digit_str(d: u8) -> (r: &'static str)
    requires
        d < 16,
    ensures
        r@ == seq![hex_char(d as int)],
{
    proof {
        reveal_strlit("0"); reveal_strlit("1"); reveal_strlit("2"); reveal_strlit("3");
        reveal_strlit("4"); reveal_strlit("5"); reveal_strlit("6"); reveal_strlit("7");
        reveal_strlit("8"); reveal_strlit("9"); reveal_strlit("a"); reveal_strlit("b");
        reveal_strlit("c"); reveal_strlit("d"); reveal_strlit("e"); reveal_strlit("f");
    }
    match d {
        0 => "0", 1 => "1", 2 => "2", 3 => "3", 4 => "4", 5 => "5", 6 => "6", 7 => "7",
        8 => "8", 9 => "9", 10 => "a", 11 => "b", 12 => "c", 13 => "d", 14 => "e", _ => "f",
    }
}

/// Writes `bytes` as lowercase hexadecimal text.
pub fn encode(bytes: &[u8]) -> (r: String)
    ensures
        r@ == hex_text(bytes@),
{
    let mut r = String::new();
    let mut i: usize = 0;
    while i < bytes.len()
        invariant
            i <= bytes@.len(),
            r@ == hex_text(bytes@.subrange(0, i as int)),
        decreases bytes@.len() - i,
    {
        let b = bytes[i];
        r.append(digit_str(b / 16));
        r.append(digit_str(b % 16));
        i = i + 1;
        assert(r@ =~= hex_text(bytes@.subrange(0, i as int)));
    }
    assert(bytes@.subrange(0, i as int) =~= bytes@);
    r
}

/// The value of the ASCII byte `b` read as a hexadecimal digit.
fn digit_of_byte(b: u8, Ghost(c): Ghost<char>) -> (r: Option<u8>)
    requires
        c as int == b as int,
    ensures
        r matches Some(v) ==> digit_value(c) == Some(v as int),
        r is None ==> digit_value(c) is None,
{
    if 48u8 <= b && b <= 57u8 {
        Some(b - 48u8)
    } else if 97u8 <= b && b <= 102u8 {
        Some(b - 97u8 + 10)
    } else if 65u8 <= b && b <= 70u8 {
        Some(b - 65u8 + 10)
    } else {
        None
    }
}

/// Reads hexadecimal text of either case; `None` where `s` is not well-formed hexadecimal.
pub fn decode(s: &str) -> (r: Option<Vec<u8>>)
    ensures
        r is Some <==> is_hex(s@),
        r matches Some(v) ==> v@ == hex_bytes(s@),
{
    if !s.is_ascii() {
        proof {
            let k = choose|k: int| 0 <= k < s@.len() && !('\0' <= #[trigger] s@[k] <= '\u{7f}');
            assert(digit_value(s@[k]) is None);
        }
        return None;
    }
    let bytes = s.as_bytes();
    let n = bytes.len();
    assert(n == s@.len());
    if n % 2 != 0 {
        return None;
    }
    let mut out: Vec<u8> = Vec::new();
    let mut i: usize = 0;
    while i < n
        invariant
            n == bytes@.len(),
            n == s@.len(),
            n % 2 == 0,
            i % 2 == 0,
            i <= n,
            bytes@ == s.spec_bytes(),
            s.spec_bytes() =~= Seq::new(s@.len(), |j| s@.index(j) as u8),
            vstd::string::is_ascii(s),
            forall|j: int| 0 <= j < i ==> #[trigger] digit_value(s@[j]) is Some,
            out@ == hex_bytes(s@.subrange(0, i as int)),
        decreases n - i,
    {
        assert(s@[i as int] as int == bytes@[i as int] as int);
        assert(s@[i + 1] as int == bytes@[i + 1] as int);
        let hi = digit_of_byte(bytes[i], Ghost(s@[i as int]));
        let lo = digit_of_byte(bytes[i + 1], Ghost(s@[i + 1]));
        match (hi, lo) {
            (Some(h), Some(l)) => {
                out.push(16 * h + l);
                i = i + 2;
                assert forall|j: int| 0 <= j < i implies #[trigger] digit_value(s@[j]) is Some by {
                    if j < i - 2 {
                    }
                }
                assert(out@ =~= hex_bytes(s@.subrange(0, i as int)));
            },
            _ => {
                return None;
            },
        }
    }
    assert(s@.subrange(0, i as int) =~= s@);
    Some(out)
}

} // verus!
