//! The relay's join proof of work: find the first counter whose hex proof
//! makes the SHA-256 of the challenge material start with enough zero bits.

use vstd::prelude::*;
use vstd::string::StringSliceAdditionalSpecFns;
use crate::digest::{sha256, spec_sha256};

verus! {

/// Why a proof of work could not be produced.
#[derive(Clone, Copy, Debug, PartialEq, Eq, Structural)]
pub enum PowError {
    /// A challenge value is not 32 bytes long.
    InvalidLength,
    /// A challenge value holds a pair that is not a hexadecimal byte.
    InvalidHex,
    /// No counter gives enough zero bits.
    Exhausted,
}

/// Whether the first `bits` bits of `bytes` are zero.
pub open spec fn spec_leading_zero_bits(bytes: Seq<u8>, bits: u8) -> bool {
    let whole = (bits / 8) as int;
    let rest = bits % 8;
    &&& whole <= bytes.len()
    &&& forall|i: int| 0 <= i < whole ==> #[trigger] bytes[i] == 0
    &&& (rest == 0 || (whole < bytes.len() && bytes[whole] >> ((8 - rest) as u8) == 0))
}

/// Whether the first `bits` bits of `bytes` are zero.
pub fn leading_zero_bits(bytes: &[u8; 32], bits: u8) -> (r: bool)
    ensures
        r == spec_leading_zero_bits(bytes@, bits),
{
    let whole: usize = (bits / 8) as usize;
    let rest: u8 = bits % 8;
    if whole > 32 {
        return false;
    }
    let mut i: usize = 0;
    while i < whole
        invariant
            whole <= 32,
            whole == bits / 8,
            bytes@.len() == 32,
            i <= whole,
            forall|k: int| 0 <= k < i ==> #[trigger] bytes@[k] == 0,
        decreases whole - i,
    {
        if bytes[i] != 0 {
            proof {
                assert(bytes@[i as int] != 0);
                assert(0 <= i < (bits / 8) as int);
                assert(!spec_leading_zero_bits(bytes@, bits));
            }
            return false;
        }
        i = i + 1;
    }
    rest == 0 || (whole < 32 && bytes[whole] >> (8 - rest) == 0)
}

/// The value of an ASCII hexadecimal digit.
pub open spec fn spec_hex_digit(b: u8) -> Option<u8> {
    if 48 <= b <= 57 {
        Some((b - 48) as u8)
    } else if 97 <= b <= 102 {
        Some((b - 87) as u8)
    } else if 65 <= b <= 70 {
        Some((b - 55) as u8)
    } else {
        None
    }
}

/// A two-byte pair read as a base-16 `u8` (a leading `+` sign is accepted).
pub open spec fn spec_hex_pair(a: u8, b: u8) -> Option<u8> {
    match (spec_hex_digit(a), spec_hex_digit(b)) {
        (Some(hi), Some(lo)) => Some((hi * 16 + lo) as u8),
        (None, Some(lo)) => if a == 43 { Some(lo) } else { None },
        _ => None,
    }
}

fn hex_digit(b: u8) -> (r: Option<u8>)
    ensures
        r == spec_hex_digit(b),
{
    if 48 <= b && b <= 57 {
        Some(b - 48)
    } else if 97 <= b && b <= 102 {
        Some(b - 87)
    } else if 65 <= b && b <= 70 {
        Some(b - 55)
    } else {
        None
    }
}

fn hex_pair(a: u8, b: u8) -> (r: Option<u8>)
    ensures
        r == spec_hex_pair(a, b),
{
    match (hex_digit(a), hex_digit(b)) {
        (Some(hi), Some(lo)) => Some(hi * 16 + lo),
        (None, Some(lo)) => if a == 43 {
            Some(lo)
        } else {
            None
        },
        _ => None,
    }
}

/// All sixteen pairs of `bytes` are hexadecimal bytes.
pub open spec fn spec_all_pairs(bytes: Seq<u8>) -> bool {
    forall|i: int| 0 <= i < 16 ==> (#[trigger] spec_hex_pair(bytes[2 * i], bytes[2 * i + 1])) is Some
}

/// The sixteen bytes that 32 hexadecimal characters spell.
pub open spec fn spec_decode_hex_16(bytes: Seq<u8>) -> Result<Seq<u8>, PowError> {
    if bytes.len() != 32 {
        Err(PowError::InvalidLength)
    } else if !spec_all_pairs(bytes) {
        Err(PowError::InvalidHex)
    } else {
        Ok(Seq::new(16, |i: int| spec_hex_pair(bytes[2 * i], bytes[2 * i + 1])->Some_0))
    }
}

/// Decodes 32 hexadecimal characters (as UTF-8 bytes) into 16 bytes.
pub fn decode_hex_16(value: &str) -> (r: Result<[u8; 16], PowError>)
    ensures
        match (r, spec_decode_hex_16(value.spec_bytes())) {
            (Ok(b), Ok(s)) => b@ == s,
            (Err(e), Err(f)) => e == f,
            _ => false,
        },
{
    let bytes = value.as_bytes();
    if bytes.len() != 32 {
        return Err(PowError::InvalidLength);
    }
    let mut out = [0u8; 16];
    let mut i: usize = 0;
    while i < 16
        invariant
            bytes@ == value.spec_bytes(),
            bytes@.len() == 32,
            i <= 16,
            out@.len() == 16,
            forall|k: int| 0 <= k < i ==> #[trigger] spec_hex_pair(bytes@[2 * k], bytes@[2 * k + 1]) == Some(out@[k]),
        decreases 16 - i,
    {
        match hex_pair(bytes[2 * i], bytes[2 * i + 1]) {
            Some(v) => {
                out.set(i, v);
            },
            None => {
                proof {
                    assert(!spec_all_pairs(bytes@)) by {
                        assert(spec_hex_pair(bytes@[2 * (i as int)], bytes@[2 * (i as int) + 1]) is None);
                    }
                }
                return Err(PowError::InvalidHex);
            },
        }
        i = i + 1;
    }
    proof {
        assert(spec_all_pairs(bytes@)) by {
            assert forall|k: int| 0 <= k < 16 implies (#[trigger] spec_hex_pair(bytes@[2 * k], bytes@[2 * k + 1])) is Some by {
                assert(spec_hex_pair(bytes@[2 * k], bytes@[2 * k + 1]) == Some(out@[k]));
            }
        }
        assert(out@ =~= Seq::new(16, |k: int| spec_hex_pair(bytes@[2 * k], bytes@[2 * k + 1])->Some_0));
    }
    Ok(out)
}

/// The lower-case hexadecimal digit for `n < 16`.
pub open spec fn hex_char(n: u64) -> char {
    if n < 10 {
        (48 + n) as char
    } else {
        (87 + n) as char
    }
}

/// `counter` as sixteen lower-case hexadecimal digits, most significant first.
pub open spec fn spec_hex16(counter: u64) -> Seq<char> {
    Seq::new(16, |i: int| hex_char((counter >> ((4 * (15 - i)) as u64)) & 15))
}

/// The ASCII bytes of `chars`.
pub open spec fn ascii_bytes(chars: Seq<char>) -> Seq<u8> {
    Seq::new(chars.len(), |i: int| chars[i] as u8)
}

/// `v` as eight big-endian bytes.
pub open spec fn spec_be_u64(v: u64) -> Seq<u8> {
    Seq::new(8, |i: int| ((v >> ((8 * (7 - i)) as u64)) & 0xff) as u8)
}

/// What is hashed for one counter.
pub open spec fn spec_pow_message(
    challenge: Seq<u8>,
    session: Seq<u8>,
    steam_id64: u64,
    nonce: Seq<u8>,
    counter: u64,
) -> Seq<u8> {
    challenge + session + spec_be_u64(steam_id64) + nonce + ascii_bytes(spec_hex16(counter))
}

/// Whether `counter` solves the challenge.
pub open spec fn spec_solves(
    challenge: Seq<u8>,
    session: Seq<u8>,
    steam_id64: u64,
    nonce: Seq<u8>,
    bits: u8,
    counter: u64,
) -> bool {
    spec_leading_zero_bits(spec_sha256(spec_pow_message(challenge, session, steam_id64, nonce, counter)), bits)
}

/// The sixteen hex digits of `counter`, as text and as ASCII bytes.
fn hex16(counter: u64) -> (r: (String, Vec<u8>))
    ensures
        r.0@ == spec_hex16(counter),
        r.1@ == ascii_bytes(spec_hex16(counter)),
{
    let mut digits: Vec<u8> = Vec::new();
    let mut text = String::new();
    let mut i: usize = 0;
    while i < 16
        invariant
            i <= 16,
            digits@.len() == i,
            text@.len() == i,
            forall|j: int| 0 <= j < i ==> #[trigger] text@[j] == spec_hex16(counter)[j],
            forall|j: int| 0 <= j < i ==> #[trigger] digits@[j] == spec_hex16(counter)[j] as u8,
        decreases 16 - i,
    {
        let shift: u64 = 4 * (15 - i as u64);
        let nibble: u64 = (counter >> shift) & 15;
        assert(nibble < 16) by (bit_vector)
            requires nibble == (counter >> shift) & 15;
        let piece: &str = hex_digit_str(nibble);
        let byte: u8 = if nibble < 10 { 48 + nibble as u8 } else { 87 + nibble as u8 };
        let ghost before = text@;
        text.append(piece);
        digits.push(byte);
        proof {
            assert(text@ == before + piece@);
            assert(spec_hex16(counter)[i as int] == hex_char(nibble));
        }
        i = i + 1;
    }
    proof {
        assert(text@ =~= spec_hex16(counter));
        assert(digits@ =~= ascii_bytes(spec_hex16(counter)));
    }
    (text, digits)
}

fn hex_digit_str(n: u64) -> (s: &'static str)
    requires
        n < 16,
    ensures
        s@ == seq![hex_char(n)],
{
    proof {
        reveal_strlit("0");
        reveal_strlit("1");
        reveal_strlit("2");
        reveal_strlit("3");
        reveal_strlit("4");
        reveal_strlit("5");
        reveal_strlit("6");
        reveal_strlit("7");
        reveal_strlit("8");
        reveal_strlit("9");
        reveal_strlit("a");
        reveal_strlit("b");
        reveal_strlit("c");
        reveal_strlit("d");
        reveal_strlit("e");
        reveal_strlit("f");
    }
    if n == 0 { "0" } else if n == 1 { "1" } else if n == 2 { "2" } else if n == 3 { "3" }
    else if n == 4 { "4" } else if n == 5 { "5" } else if n == 6 { "6" } else if n == 7 { "7" }
    else if n == 8 { "8" } else if n == 9 { "9" } else if n == 10 { "a" } else if n == 11 { "b" }
    else if n == 12 { "c" } else if n == 13 { "d" } else if n == 14 { "e" } else { "f" }
}

/// `v` as eight big-endian bytes.
pub(crate) fn be_bytes(v: u64) -> (r: Vec<u8>)
    ensures
        r@ == spec_be_u64(v),
{
    let mut r: Vec<u8> = Vec::new();
    let mut i: usize = 0;
    while i < 8
        invariant
            i <= 8,
            r@.len() == i,
            forall|j: int| 0 <= j < i ==> #[trigger] r@[j] == spec_be_u64(v)[j],
        decreases 8 - i,
    {
        let shift: u64 = 8 * (7 - i as u64);
        let byte: u8 = ((v >> shift) & 0xff) as u8;
        r.push(byte);
        i = i + 1;
    }
    proof {
        assert(r@ =~= spec_be_u64(v));
    }
    r
}

/// Appends `bytes` to `out`.
pub fn extend_bytes(out: &mut Vec<u8>, bytes: &[u8])
    ensures
        final(out)@ == old(out)@ + bytes@,
{
    let ghost start = out@;
    let mut i: usize = 0;
    while i < bytes.len()
        invariant
            i <= bytes@.len(),
            out@ == start + bytes@.take(i as int),
        decreases bytes@.len() - i,
    {
        out.push(bytes[i]);
        proof {
            assert(bytes@.take(i + 1) == bytes@.take(i as int).push(bytes@[i as int]));
        }
        i = i + 1;
    }
    proof {
        assert(bytes@.take(bytes@.len() as int) == bytes@);
    }
}

/// Finds the proof for a relay join challenge: with zero difficulty the empty
/// proof; otherwise the sixteen-digit hex form of the first counter whose
/// digest of challenge, session, Steam id, nonce and proof starts with
/// `difficulty_bits` zero bits.
pub fn solve_pow(
    challenge_id: &str,
    session: &[u8; 16],
    steam_id64: u64,
    nonce: &str,
    difficulty_bits: u8,
) -> (r: Result<String, PowError>)
    ensures
        difficulty_bits == 0 ==> (r matches Ok(p) && p@.len() == 0),
        difficulty_bits != 0 ==> match (spec_decode_hex_16(challenge_id.spec_bytes()), spec_decode_hex_16(nonce.spec_bytes())) {
            (Err(e), _) => r == Err::<String, PowError>(e),
            (Ok(_), Err(e)) => r == Err::<String, PowError>(e),
            (Ok(challenge), Ok(nonce_bytes)) => match r {
                Ok(p) => exists|counter: u64| {
                    &&& p@ == spec_hex16(counter)
                    &&& spec_solves(challenge, session@, steam_id64, nonce_bytes, difficulty_bits, counter)
                    &&& forall|c: u64| c < counter ==> !spec_solves(challenge, session@, steam_id64, nonce_bytes, difficulty_bits, c)
                },
                Err(e) => e == PowError::Exhausted && forall|c: u64| !spec_solves(challenge, session@, steam_id64, nonce_bytes, difficulty_bits, c),
            },
        },
{
    if difficulty_bits == 0 {
        return Ok(String::new());
    }
    let challenge = match decode_hex_16(challenge_id) {
        Ok(b) => b,
        Err(e) => return Err(e),
    };
    let nonce_bytes = match decode_hex_16(nonce) {
        Ok(b) => b,
        Err(e) => return Err(e),
    };
    let mut prefix: Vec<u8> = Vec::new();
    extend_bytes(&mut prefix, challenge.as_slice());
    extend_bytes(&mut prefix, session.as_slice());
    let steam = be_bytes(steam_id64);
    extend_bytes(&mut prefix, steam.as_slice());
    extend_bytes(&mut prefix, nonce_bytes.as_slice());
    let ghost base = challenge@ + session@ + spec_be_u64(steam_id64) + nonce_bytes@;
    proof {
        assert(prefix@ =~= base);
    }
    let mut counter: u64 = 0;
    loop
        invariant
            prefix@ == base,
            base == challenge@ + session@ + spec_be_u64(steam_id64) + nonce_bytes@,
            difficulty_bits != 0,
            spec_decode_hex_16(challenge_id.spec_bytes()) == Ok::<Seq<u8>, PowError>(challenge@),
            spec_decode_hex_16(nonce.spec_bytes()) == Ok::<Seq<u8>, PowError>(nonce_bytes@),
            forall|c: u64| c < counter ==> !spec_solves(challenge@, session@, steam_id64, nonce_bytes@, difficulty_bits, c),
        decreases u64::MAX - counter,
    {
        let (proof_text, proof_bytes) = hex16(counter);
        let mut message: Vec<u8> = Vec::new();
        extend_bytes(&mut message, prefix.as_slice());
        extend_bytes(&mut message, proof_bytes.as_slice());
        let digest = sha256(message.as_slice());
        proof {
            assert(message@ =~= prefix@ + proof_bytes@);
            assert(proof_bytes@ == ascii_bytes(spec_hex16(counter)));
            assert(prefix@ == challenge@ + session@ + spec_be_u64(steam_id64) + nonce_bytes@);
            assert(message@ =~= spec_pow_message(challenge@, session@, steam_id64, nonce_bytes@, counter));
        }
        if leading_zero_bits(&digest, difficulty_bits) {
            proof {
                assert(spec_solves(challenge@, session@, steam_id64, nonce_bytes@, difficulty_bits, counter));
            }
            return Ok(proof_text);
        }
        if counter == u64::MAX {
            proof {
                assert forall|c: u64| !spec_solves(challenge@, session@, steam_id64, nonce_bytes@, difficulty_bits, c) by {
                    if c < counter {
                    } else {
                        assert(c == counter);
                    }
                }
            }
            return Err(PowError::Exhausted);
        }
        counter = counter + 1;
    }
}

} // verus!
