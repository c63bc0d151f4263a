use vstd::prelude::*;
use vstd::utf8::*;

verus! {

/// The verdict on a credential: two values only, so a failure never tells
/// which part of the credential was wrong.
#[derive(Debug, Clone, Copy, PartialEq, Eq, Structural)]
pub enum Auth {
    Correct,
    Incorrect,
}

/// Whether `pass` hashes to `hash` under the Unix crypt scheme that `hash`
/// names (MD5, bcrypt, SHA-1, SHA-256, SHA-512, BSDi or traditional DES).
pub uninterp spec fn hash_matches(pass: Seq<char>, hash: Seq<char>) -> bool;

/// The Unicode White_Space characters.
pub open spec fn is_white_space(c: char) -> bool {
    let v = c as u32;
    (0x09 <= v <= 0x0d) || v == 0x20 || v == 0x85 || v == 0xa0 || v == 0x1680 || (0x2000 <= v
        <= 0x200a) || v == 0x2028 || v == 0x2029 || v == 0x202f || v == 0x205f || v == 0x3000
}

/// `s` without its leading white space.
pub open spec fn trim_start(s: Seq<char>) -> Seq<char>
    decreases s.len(),
{
    if s.len() > 0 && is_white_space(s[0]) {
        trim_start(s.drop_first())
    } else {
        s
    }
}

/// `s` without its trailing white space.
pub open spec fn trim_end(s: Seq<char>) -> Seq<char>
    decreases s.len(),
{
    if s.len() > 0 && is_white_space(s.last()) {
        trim_end(s.drop_last())
    } else {
        s
    }
}

/// `s` without the white space that surrounds it.
pub open spec fn trimmed(s: Seq<char>) -> Seq<char> {
    trim_end(trim_start(s))
}

/// Whether a stored hash can be checked at all: every character of it lies
/// in U+0020..=U+007F, the printable ASCII range (with DEL) that the crypt
/// salt decoders index their tables by.
pub open spec fn usable_hash(hash: Seq<char>) -> bool {
    forall|i: int| 0 <= i < hash.len() ==> 0x20 <= #[trigger] (hash[i] as u32) <= 0x7f
}

/// Whether every byte of `b` lies in 0x20..=0x7f.
pub open spec fn hash_bytes_ok(b: Seq<u8>) -> bool {
    forall|i: int| 0 <= i < b.len() ==> 0x20 <= #[trigger] b[i] <= 0x7f
}

/// The verdict that a stored hash gives on a typed credential: surrounding
/// white space of the typed text does not count, and an unusable hash
/// accepts nothing.
pub open spec fn verdict_on(pass: Seq<char>, hash: Seq<char>) -> Auth {
    if usable_hash(hash) {
        verdict(hash_matches(trimmed(pass), hash))
    } else {
        Auth::Incorrect
    }
}

/// The verdict for the outcome of a hash comparison.
pub open spec fn verdict(matched: bool) -> Auth {
    if matched {
        Auth::Correct
    } else {
        Auth::Incorrect
    }
}

/// Relies on `str::trim`: it removes leading and trailing characters with the
/// Unicode White_Space property.
#[verifier::external_body]
fn trim_white_space(s: &str) -> (r: &str)
    ensures
        r@ == trimmed(s@),
{
    s.trim()
}

/// Relies on `pwhash::unix::verify`: it recognises the hash's format, hashes
/// the password with the hash's own salt and parameters, and compares; the
/// answer depends on the two strings alone. Its salt decoders subtract 0x20
/// from each character's code and index a table of 96 entries, so a hash
/// with a character below U+0020 overflows there and one at U+0080 or above
/// indexes past the table: both are kept out.
#[verifier::external_body]
fn unix_verify(pass: &str, hash: &str) -> (r: bool)
    requires
        usable_hash(hash@),
    ensures
        r == hash_matches(pass@, hash@),
{
    pwhash::unix::verify(pass, hash)
}

/// The typed text as it is compared: without surrounding white space.
pub fn normalize(pass: &str) -> (r: &str)
    ensures
        r@ == trimmed(pass@),
{
    trim_white_space(pass)
}

/// Maps the outcome of a hash comparison to a verdict.
pub fn verdict_of(matched: bool) -> (r: Auth)
    ensures
        r == verdict(matched),
        r == Auth::Correct <==> matched,
{
    if matched {
        Auth::Correct
    } else {
        Auth::Incorrect
    }
}

/// A character's UTF-8 encoding has all its bytes in 0x20..=0x7f exactly
/// when the character lies in U+0020..=U+007F: every byte of a longer
/// encoding is at least 0x80.
proof fn lemma_scalar_hash_bytes(v: u32)
    requires
        is_scalar(v),
    ensures
        hash_bytes_ok(encode_scalar(v)) <==> 0x20 <= v <= 0x7f,
{
    let e = encode_scalar(v);
    if has_width_1_encoding(v) {
        assert((v & 0x7f) == v) by (bit_vector)
            requires
                v <= 0x7f,
        ;
        assert(e.len() == 1 && e[0] as u32 == v);
    } else {
        assert(0x80u8 | ((v & 0x3f) as u8) >= 0x80u8) by (bit_vector);
        assert(0x80u8 | (((v >> 6) & 0x3f) as u8) >= 0x80u8) by (bit_vector);
        assert(0x80u8 | (((v >> 12) & 0x3f) as u8) >= 0x80u8) by (bit_vector);
        assert(0xc0u8 | (((v >> 6) & 0x1f) as u8) >= 0x80u8) by (bit_vector);
        assert(0xe0u8 | (((v >> 12) & 0x0f) as u8) >= 0x80u8) by (bit_vector);
        assert(0xf0u8 | (((v >> 18) & 0x7) as u8) >= 0x80u8) by (bit_vector);
        assert(last_continuation_byte(v) >= 0x80);
        if has_width_2_encoding(v) {
            assert(leading_byte_width_2(v) >= 0x80);
        } else if has_width_3_encoding(v) {
            assert(leading_byte_width_3(v) >= 0x80);
            assert(second_last_continuation_byte(v) >= 0x80);
        } else {
            assert(leading_byte_width_4(v) >= 0x80);
            assert(second_last_continuation_byte(v) >= 0x80);
            assert(third_last_continuation_byte(v) >= 0x80);
        }
        assert(e.len() > 0 && e[0] >= 0x80);
        assert(!hash_bytes_ok(e));
    }
}

/// A text's UTF-8 encoding has all its bytes in 0x20..=0x7f exactly when
/// the text is a usable hash.
proof fn lemma_hash_bytes(cs: Seq<char>)
    ensures
        hash_bytes_ok(encode_utf8(cs)) <==> usable_hash(cs),
    decreases cs.len(),
{
    if cs.len() > 0 {
        let head = encode_scalar(cs[0] as u32);
        let rest = encode_utf8(cs.drop_first());
        char_is_scalar(cs[0]);
        lemma_scalar_hash_bytes(cs[0] as u32);
        lemma_hash_bytes(cs.drop_first());
        assert(encode_utf8(cs) == head + rest);
        if hash_bytes_ok(head + rest) {
            assert forall|i: int| 0 <= i < head.len() implies 0x20 <= #[trigger] head[i] <= 0x7f by {
                assert((head + rest)[i] == head[i]);
            }
            assert forall|i: int| 0 <= i < rest.len() implies 0x20 <= #[trigger] rest[i] <= 0x7f by {
                assert((head + rest)[head.len() + i] == rest[i]);
            }
            assert forall|i: int| 0 <= i < cs.len() implies 0x20 <= #[trigger] (cs[i] as u32)
                <= 0x7f by {
                if i > 0 {
                    assert(cs.drop_first()[i - 1] == cs[i]);
                }
            }
        }
        if usable_hash(cs) {
            assert forall|i: int| 0 <= i < cs.drop_first().len() implies 0x20
                <= #[trigger] (cs.drop_first()[i] as u32) <= 0x7f by {
                assert(cs.drop_first()[i] == cs[i + 1]);
            }
        }
    }
}

/// Whether `hash` can be checked: every character of it lies in
/// U+0020..=U+007F.
pub fn hash_is_usable(hash: &str) -> (r: bool)
    ensures
        r == usable_hash(hash@),
{
    let bytes = hash.as_bytes();
    proof {
        lemma_hash_bytes(hash@);
    }
    let mut i: usize = 0;
    while i < bytes.len()
        invariant
            i <= bytes@.len(),
            bytes@ == encode_utf8(hash@),
            forall|j: int| 0 <= j < i ==> 0x20 <= #[trigger] bytes@[j] <= 0x7f,
        decreases bytes@.len() - i,
    {
        if bytes[i] < 0x20 || bytes[i] > 0x7f {
            proof {
                lemma_hash_bytes(hash@);
                assert(!hash_bytes_ok(bytes@));
            }
            return false;
        }
        i += 1;
    }
    true
}

/// Checks a typed credential against the account's stored password hash. A
/// hash with a character outside U+0020..=U+007F accepts nothing.
pub fn pass_check(pass: &str, hash: &str) -> (r: Auth)
    ensures
        r == verdict_on(pass@, hash@),
        r == Auth::Correct <==> usable_hash(hash@) && hash_matches(trimmed(pass@), hash@),
{
    if !hash_is_usable(hash) {
        return Auth::Incorrect;
    }
    let text = normalize(pass);
    verdict_of(unix_verify(text, hash))
}

/// The verdict is a function of the typed text and the stored hash alone:
/// the credential a usable hash was made from, with any surrounding white
/// space, is always `Correct`, and anything else is always `Incorrect`.
pub proof fn lemma_verdict_deterministic(pass: Seq<char>, hash: Seq<char>)
    ensures
        verdict_on(pass, hash) == Auth::Correct <==> usable_hash(hash) && hash_matches(
            trimmed(pass),
            hash,
        ),
        verdict_on(pass, hash) == Auth::Incorrect <==> !(usable_hash(hash) && hash_matches(
            trimmed(pass),
            hash,
        )),
        usable_hash(hash) && trimmed(pass) == pass ==> (verdict_on(pass, hash) == Auth::Correct
            <==> hash_matches(pass, hash)),
{
}

} // verus!
