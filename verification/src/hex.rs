//! Lower-case hex encoding and decoding of byte strings.
//!
//! Payment hashes travel through the protocol as 64-character hex strings;
//! preimages arrive as hex text. Both directions are implemented here and
//! proved against the spec functions [`hex_of`] and [`hex_decode`].

use vstd::prelude::*;

verus! {

/// The lower-case hex digit with value `v`.
pub open spec fn hex_digit(v: u8) -> char
    recommends
        v < 16,
{
    if v == 0 {
        '0'
    } else if v == 1 {
        '1'
    } else if v == 2 {
        '2'
    } else if v == 3 {
        '3'
    } else if v == 4 {
        '4'
    } else if v == 5 {
        '5'
    } else if v == 6 {
        '6'
    } else if v == 7 {
        '7'
    } else if v == 8 {
        '8'
    } else if v == 9 {
        '9'
    } else if v == 10 {
        'a'
    } else if v == 11 {
        'b'
    } else if v == 12 {
        'c'
    } else if v == 13 {
        'd'
    } else if v == 14 {
        'e'
    } else {
        'f'
    }
}

/// The lower-case hex encoding of `bytes`: two digits per byte, high
/// nibble first.
pub open spec fn hex_of(bytes: Seq<u8>) -> Seq<char>
    decreases bytes.len(),
{
    if bytes.len() == 0 {
        Seq::<char>::empty()
    } else {
        seq![hex_digit(bytes[0] / 16), hex_digit(bytes[0] % 16)] + hex_of(bytes.drop_first())
    }
}

/// The value of one hex digit, upper or lower case, or `None` for any
/// other character.
pub open spec fn hex_val(c: char) -> Option<u8> {
    if '0' <= c && c <= '9' {
        Some((c as u32 - '0' as u32) as u8)
    } else if 'a' <= c && c <= 'f' {
        Some((c as u32 - 'a' as u32 + 10) as u8)
    } else if 'A' <= c && c <= 'F' {
        Some((c as u32 - 'A' as u32 + 10) as u8)
    } else {
        None
    }
}

/// The bytes a hex string denotes, or `None` if its length is odd or a
/// character is not a hex digit.
pub open spec fn hex_decode(s: Seq<char>) -> Option<Seq<u8>>
    decreases s.len(),
{
    if s.len() % 2 != 0 {
        None
    } else if s.len() == 0 {
        Some(Seq::<u8>::empty())
    } else {
        if hex_val(s[0]) is Some && hex_val(s[1]) is Some && hex_decode(s.skip(2)) is Some {
            Some(
                seq![(hex_val(s[0])->Some_0 * 16 + hex_val(s[1])->Some_0) as u8]
                    + hex_decode(s.skip(2))->Some_0,
            )
        } else {
            None
        }
    }
}

/// Relies on `String::push`: appends exactly the one character.
#[verifier::external_body]
fn string_push(s: &mut String, c: char)
    ensures
        final(s)@ == old(s)@.push(c),
{
    s.push(c);
}

proof fn lemma_hex_of_step(bytes: Seq<u8>, i: int)
    requires
        0 <= i < bytes.len(),
    ensures
        hex_of(bytes.skip(i)) == seq![
            hex_digit(bytes[i] / 16),
            hex_digit(bytes[i] % 16),
        ] + hex_of(bytes.skip(i + 1)),
{
    assert(bytes.skip(i).len() > 0);
    assert(bytes.skip(i)[0] == bytes[i]);
    assert(bytes.skip(i).drop_first() =~= bytes.skip(i + 1));
}

/// Encode `bytes` as a lower-case hex string.
pub fn to_hex(bytes: &[u8]) -> (r: String)
    ensures
        r@ == hex_of(bytes@),
        r@.len() == 2 * bytes@.len(),
{
    let mut r = String::new();
    let ghost whole = bytes@;
    proof {
        assert(whole.skip(0) =~= whole);
    }
    for i in 0..bytes.len()
        invariant
            whole == bytes@,
            hex_of(whole) == r@ + hex_of(whole.skip(i as int)),
            r@.len() == 2 * i,
    {
        let b = bytes[i];
        proof {
            lemma_hex_of_step(whole, i as int);
        }
        string_push(&mut r, hex_digit_char(b / 16));
        string_push(&mut r, hex_digit_char(b % 16));
        proof {
            assert(r@ + hex_of(whole.skip(i + 1)) =~= hex_of(whole));
        }
    }
    proof {
        assert(whole.skip(whole.len() as int) =~= Seq::<u8>::empty());
        assert(r@ =~= hex_of(whole));
    }
    r
}

/// The lower-case hex digit with value `v`, as executable code.
fn hex_digit_char(v: u8) -> (c: char)
    requires
        v < 16,
    ensures
        c == hex_digit(v),
{
    if v < 10 {
        (('0' as u8) + v) as char
    } else {
        (('a' as u8) + (v - 10)) as char
    }
}

/// The value of one hex digit, as executable code.
fn hex_val_char(c: char) -> (r: Option<u8>)
    ensures
        r == hex_val(c),
{
    if '0' <= c && c <= '9' {
        Some((c as u32 - '0' as u32) as u8)
    } else if 'a' <= c && c <= 'f' {
        Some((c as u32 - 'a' as u32 + 10) as u8)
    } else if 'A' <= c && c <= 'F' {
        Some((c as u32 - 'A' as u32 + 10) as u8)
    } else {
        None
    }
}

proof fn lemma_hex_decode_step(s: Seq<char>, i: int)
    requires
        0 <= i,
        2 * i + 2 <= s.len(),
        s.len() % 2 == 0,
    ensures
        hex_decode(s.skip(2 * i)) is Some <==> (hex_val(s[2 * i]) is Some && hex_val(
            s[2 * i + 1],
        ) is Some && hex_decode(s.skip(2 * i + 2)) is Some),
        (hex_decode(s.skip(2 * i)) is Some ==> hex_decode(s.skip(2 * i))->Some_0 == seq![
            (hex_val(s[2 * i])->Some_0 * 16 + hex_val(s[2 * i + 1])->Some_0) as u8,
        ] + hex_decode(s.skip(2 * i + 2))->Some_0),
{
    let t = s.skip(2 * i);
    assert(t.len() == s.len() - 2 * i);
    assert(t.len() % 2 == 0) by {
        assert(s.len() % 2 == 0);
    }
    assert(t[0] == s[2 * i]);
    assert(t[1] == s[2 * i + 1]);
    assert(t.skip(2) =~= s.skip(2 * i + 2));
}

/// Decode a hex string into bytes; `None` if the length is odd or a
/// character is not a hex digit.
pub fn from_hex(s: &str) -> (r: Option<Vec<u8>>)
    ensures
        match r {
            Some(v) => hex_decode(s@) == Some(v@),
            None => hex_decode(s@) is None,
        },
{
    let n = s.unicode_len();
    if n % 2 != 0 {
        return None;
    }
    let mut v: Vec<u8> = Vec::new();
    let mut i: usize = 0;
    proof {
        assert(s@.skip(0) =~= s@);
    }
    while i < n / 2
        invariant
            n == s@.len(),
            n % 2 == 0,
            i <= n / 2,
            v@.len() == i,
            hex_decode(s@) is Some <==> hex_decode(s@.skip(2 * i)) is Some,
            hex_decode(s@) is Some ==> hex_decode(s@)->Some_0 == v@ + hex_decode(
                s@.skip(2 * i),
            )->Some_0,
        decreases n / 2 - i,
    {
        proof {
            lemma_hex_decode_step(s@, i as int);
        }
        let hi = s.get_char(2 * i);
        let lo = s.get_char(2 * i + 1);
        match (hex_val_char(hi), hex_val_char(lo)) {
            (Some(h), Some(l)) => {
                v.push(h * 16 + l);
            },
            _ => {
                return None;
            },
        }
        i = i + 1;
        proof {
            if hex_decode(s@) is Some {
                assert(v@ + hex_decode(s@.skip(2 * i as int))->Some_0 =~= hex_decode(
                    s@,
                )->Some_0);
            }
        }
    }
    proof {
        assert(s@.skip(2 * (n / 2) as int) =~= Seq::<char>::empty());
        if hex_decode(s@) is Some {
            assert(hex_decode(s@)->Some_0 =~= v@);
        }
    }
    Some(v)
}

} // verus!
