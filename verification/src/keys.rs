use vstd::prelude::*;

verus! {

/// ASCII whitespace that may surround the key line: space, tab, LF, CR.
pub open spec fn is_ascii_ws(b: u8) -> bool {
    b == 32 || b == 9 || b == 10 || b == 13
}

pub open spec fn trim_front(s: Seq<u8>) -> Seq<u8>
    decreases s.len(),
{
    if s.len() > 0 && is_ascii_ws(s.first()) {
        trim_front(s.drop_first())
    } else {
        s
    }
}

pub open spec fn trim_back(s: Seq<u8>) -> Seq<u8>
    decreases s.len(),
{
    if s.len() > 0 && is_ascii_ws(s.last()) {
        trim_back(s.drop_last())
    } else {
        s
    }
}

/// The key line without surrounding whitespace.
pub open spec fn trimmed(s: Seq<u8>) -> Seq<u8> {
    trim_back(trim_front(s))
}

/// The optional `0x` prefix removed (48 and 120 are `0` and `x`).
pub open spec fn strip_hex_prefix(s: Seq<u8>) -> Seq<u8> {
    if s.len() >= 2 && s[0] == 48 && s[1] == 120 {
        s.skip(2)
    } else {
        s
    }
}

/// The part of a key-material line that must consist of hex digits.
pub open spec fn cleaned_key(s: Seq<u8>) -> Seq<u8> {
    strip_hex_prefix(trimmed(s))
}

///`0`..`9`, `a`..`f` or `A`..`F`.
pub open spec fn is_hex_digit(b: u8) -> bool {
    (48 <= b && b <= 57) || (97 <= b && b <= 102) || (65 <= b && b <= 70)
}

/// The value of one hex digit.
pub open spec fn hex_val(b: u8) -> u8 {
    if 48 <= b && b <= 57 {
        (b - 48) as u8
    } else if 97 <= b && b <= 102 {
        (b - 87) as u8
    } else {
        (b - 55) as u8
    }
}

/// The bytes a string of hex digits denotes: one byte per digit pair, high
/// nibble first.
pub open spec fn hex_decode_spec(s: Seq<u8>) -> Seq<u8> {
    Seq::new((s.len() / 2) as nat, |i: int| (hex_val(s[2 * i]) * 16 + hex_val(s[2 * i + 1])) as u8)
}

/// Why a key-material line was rejected. Malformed key material is fatal at
/// startup; the caller must not proceed with a node built on it.
#[derive(Clone, Copy, PartialEq, Eq, Structural, Debug)]
pub enum KeyMaterialError {
    /// The hex digits of the cleaned line do not pair up.
    OddLength,
    /// A character of the cleaned line is no hex digit.
    InvalidHexCharacter,
}

/// Relies on `hex::decode`: an even-length input of hex digits decodes to
/// one byte per digit pair, high nibble first; an odd-length input is
/// refused, and otherwise an input holding a non-digit is refused.
#[verifier::external_body]
fn hex_decode(input: &Vec<u8>) -> (r: Result<Vec<u8>, KeyMaterialError>)
    ensures
        (match r {
            Ok(v) => input@.len() % 2 == 0 && (forall|i: int|
                0 <= i < input@.len() ==> is_hex_digit(#[trigger] input@[i])) && v@
                == hex_decode_spec(input@),
            Err(KeyMaterialError::OddLength) => input@.len() % 2 != 0,
            Err(KeyMaterialError::InvalidHexCharacter) => input@.len() % 2 == 0 && (exists|i: int|
                0 <= i < input@.len() && !is_hex_digit(#[trigger] input@[i])),
        }),
{
    match hex::decode(input) {
        Ok(v) => Ok(v),
        Err(hex::FromHexError::OddLength) => Err(KeyMaterialError::OddLength),
        Err(hex::FromHexError::InvalidHexCharacter { .. }) => Err(
            KeyMaterialError::InvalidHexCharacter,
        ),
        Err(hex::FromHexError::InvalidStringLength) => Err(KeyMaterialError::InvalidHexCharacter),
    }
}

fn is_ws_byte(b: u8) -> (r: bool)
    ensures
        r == is_ascii_ws(b),
{
    b == 32 || b == 9 || b == 10 || b == 13
}

/// Decode one line of key material: surrounding whitespace and an optional
/// `0x` prefix are dropped, and what remains must be an even number of hex
/// digits, which become the key's bytes pairwise. Exactly the lines whose
/// cleaned remainder is even-length pure hex are accepted.
#[verifier::loop_isolation(false)]
pub fn decode_key_material(line: &Vec<u8>) -> (r: Result<Vec<u8>, KeyMaterialError>)
    ensures
        ({
            let c = cleaned_key(line@);
            match r {
                Ok(v) => c.len() % 2 == 0 && (forall|i: int|
                    0 <= i < c.len() ==> is_hex_digit(#[trigger] c[i])) && v@ == hex_decode_spec(c),
                Err(KeyMaterialError::OddLength) => c.len() % 2 != 0,
                Err(KeyMaterialError::InvalidHexCharacter) => c.len() % 2 == 0 && (exists|i: int|
                    0 <= i < c.len() && !is_hex_digit(#[trigger] c[i])),
            }
        }),
{
    let n = line.len();
    proof {
        assert(line@.skip(0) =~= line@);
    }
    let mut start: usize = 0;
    while start < n && is_ws_byte(line[start])
        invariant
            0 <= start <= n,
            trim_front(line@) == trim_front(line@.skip(start as int)),
        decreases n - start,
    {
        proof {
            assert(line@.skip(start as int).drop_first() =~= line@.skip(start as int + 1));
        }
        start += 1;
    }
    proof {
        if start == n {
            assert(line@.skip(start as int) =~= Seq::<u8>::empty());
        }
        assert(trim_front(line@) == line@.skip(start as int));
        assert(line@.skip(start as int) =~= line@.subrange(start as int, n as int));
    }
    let mut end: usize = n;
    while end > start && is_ws_byte(line[end - 1])
        invariant
            start <= end <= n,
            trim_back(line@.skip(start as int)) == trim_back(
                line@.subrange(start as int, end as int),
            ),
        decreases end,
    {
        proof {
            let sub = line@.subrange(start as int, end as int);
            assert(sub.last() == line@[end - 1]);
            assert(sub.drop_last() =~= line@.subrange(start as int, end as int - 1));
        }
        end -= 1;
    }
    proof {
        assert(line@.skip(start as int) =~= line@.subrange(start as int, n as int));
        let sub = line@.subrange(start as int, end as int);
        if end > start {
            assert(sub.last() == line@[end - 1]);
        }
        assert(trim_back(sub) == sub);
        assert(trimmed(line@) == line@.subrange(start as int, end as int));
    }
    if end - start >= 2 && line[start] == 48 && line[start + 1] == 120 {
        proof {
            let t = line@.subrange(start as int, end as int);
            assert(t[0] == line@[start as int] && t[1] == line@[start as int + 1]);
            assert(t.skip(2) =~= line@.subrange(start as int + 2, end as int));
        }
        start += 2;
    }
    proof {
        assert(cleaned_key(line@) =~= line@.subrange(start as int, end as int));
    }
    let mut cleaned: Vec<u8> = Vec::new();
    let mut i: usize = start;
    while i < end
        invariant
            start <= i <= end <= n,
            cleaned@ == line@.subrange(start as int, i as int),
        decreases end - i,
    {
        proof {
            assert(line@.subrange(start as int, i as int + 1) =~= line@.subrange(
                start as int,
                i as int,
            ).push(line@[i as int]));
        }
        cleaned.push(line[i]);
        i += 1;
    }
    hex_decode(&cleaned)
}

} // verus!
