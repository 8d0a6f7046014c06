//! Strings at the C boundary.
use vstd::prelude::*;
use vstd::string::*;
use vstd::utf8::*;

verus! {

/// No byte of `b` is zero, so `b` followed by a terminator is a C string
/// that reads back as `b`.
pub open spec fn no_nul(b: Seq<u8>) -> bool {
    forall|i: int| 0 <= i < b.len() ==> b[i] != 0u8
}

/// No character of `s` is NUL.
pub open spec fn no_nul_char(s: Seq<char>) -> bool {
    forall|i: int| 0 <= i < s.len() ==> s[i] != '\0'
}

proof fn lemma_scalar_no_nul(v: u32)
    requires
        is_scalar(v),
    ensures
        no_nul(encode_scalar(v)) <==> v != 0,
{
    let e = encode_scalar(v);
    if has_width_1_encoding(v) {
        assert(((v & 0x7F) as u8 == 0) <==> v == 0) by (bit_vector)
            requires
                v <= 0x7F,
        ;
        assert(e.len() == 1 && e[0] == leading_byte_width_1(v));
    } else {
        let lead = e[0];
        assert(lead != 0u8) by {
            if has_width_2_encoding(v) {
                assert((0xC0u8 | ((v >> 6u32) & 0x1Fu32) as u8) != 0u8) by (bit_vector);
            } else if has_width_3_encoding(v) {
                assert((0xE0u8 | ((v >> 12u32) & 0x0Fu32) as u8) != 0u8) by (bit_vector);
            } else {
                assert((0xF0u8 | ((v >> 18u32) & 0x7u32) as u8) != 0u8) by (bit_vector);
            }
        }
        assert forall|k: u32| #[trigger] ((0x80u8 | (k & 0x3Fu32) as u8)) != 0u8 by {
            assert((0x80u8 | (k & 0x3Fu32) as u8) != 0u8) by (bit_vector);
        }
        assert forall|k: u32| #[trigger] ((0x80u8 | ((k >> 6u32) & 0x3Fu32) as u8)) != 0u8 by {
            assert((0x80u8 | ((k >> 6u32) & 0x3Fu32) as u8) != 0u8) by (bit_vector);
        }
        assert forall|k: u32| #[trigger] ((0x80u8 | ((k >> 12u32) & 0x3Fu32) as u8)) != 0u8 by {
            assert((0x80u8 | ((k >> 12u32) & 0x3Fu32) as u8) != 0u8) by (bit_vector);
        }
        assert(last_continuation_byte(v) != 0u8);
        assert(second_last_continuation_byte(v) != 0u8);
        assert(third_last_continuation_byte(v) != 0u8);
        assert(no_nul(e));
    }
}

/// The UTF-8 encoding of `s` holds a zero byte exactly where `s` holds a
/// NUL character.
pub proof fn lemma_no_nul_encode(s: Seq<char>)
    ensures
        no_nul(encode_utf8(s)) == no_nul_char(s),
    decreases s.len(),
{
    if s.len() > 0 {
        let head = encode_scalar(s[0] as u32);
        let rest = encode_utf8(s.drop_first());
        char_is_scalar(s[0]);
        lemma_scalar_no_nul(s[0] as u32);
        lemma_no_nul_encode(s.drop_first());
        char_u32_cast(s[0], s[0] as u32);
        assert(('\0' as u32) == 0u32);
        assert(encode_utf8(s) == head + rest);
        if no_nul(head + rest) {
            assert forall|i: int| 0 <= i < head.len() implies head[i] != 0u8 by {
                assert((head + rest)[i] == head[i]);
            }
            assert forall|i: int| 0 <= i < rest.len() implies rest[i] != 0u8 by {
                assert((head + rest)[head.len() + i] == rest[i]);
            }
            assert forall|i: int| 0 <= i < s.len() implies s[i] != '\0' by {
                if i > 0 {
                    assert(s[i] == s.drop_first()[i - 1]);
                }
            }
        }
        if no_nul_char(s) {
            assert forall|i: int| 0 <= i < s.len() - 1 implies s.drop_first()[i] != '\0' by {
                assert(s.drop_first()[i] == s[i + 1]);
            }
            assert(s[0] != '\0');
            assert forall|i: int| 0 <= i < (head + rest).len() implies (head + rest)[i] != 0u8 by {
                if i >= head.len() {
                    assert((head + rest)[i] == rest[i - head.len()]);
                }
            }
        }
    }
}

/// Whether `s` can be handed to the host as a C string, that is whether its
/// UTF-8 bytes hold no NUL. Names and values that fail this cannot be passed
/// through the host's interface.
pub fn is_c_compatible(s: &str) -> (r: bool)
    ensures
        r == no_nul(s.spec_bytes()),
        r == no_nul_char(s@),
{
    proof {
        lemma_no_nul_encode(s@);
        assert(s.spec_bytes() == encode_utf8(s@));
    }
    let b = s.as_bytes_vec();
    let mut i: usize = 0;
    while i < b.len()
        invariant
            b@ == s.spec_bytes(),
            no_nul(b@) == no_nul_char(s@),
            i <= b@.len(),
            forall|j: int| 0 <= j < i ==> b@[j] != 0u8,
        decreases b@.len() - i,
    {
        if b[i] == 0u8 {
            assert(!no_nul(b@));
            return false;
        }
        i = i + 1;
    }
    true
}

/// What a lossy UTF-8 decode makes of `b`: each invalid sequence becomes
/// U+FFFD and the rest decodes as usual.
pub uninterp spec fn lossy_utf8(b: Seq<u8>) -> Seq<char>;

/// Relies on `String::from_utf8_lossy`: valid UTF-8 is returned as it is
/// decoded, and any input decodes by its bytes alone.
#[verifier::external_body]
fn utf8_lossy(b: &[u8]) -> (r: String)
    ensures
        r@ == lossy_utf8(b@),
        valid_utf8(b@) ==> r@ == decode_utf8(b@),
{
    String::from_utf8_lossy(b).into_owned()
}

/// The text of a C string that the host returned, given by its bytes
/// without the terminator.
pub fn text_from_c(bytes: &[u8]) -> (r: String)
    ensures
        r@ == lossy_utf8(bytes@),
        valid_utf8(bytes@) ==> r@ == decode_utf8(bytes@),
{
    utf8_lossy(bytes)
}

/// The text of a lookup that the host answers with a C string, or with
/// nothing when the request holds no such entry.
pub fn value_from_c(raw: Option<&[u8]>) -> (r: Option<String>)
    ensures
        raw is None <==> r is None,
        raw matches Some(b) ==> r.unwrap()@ == lossy_utf8(b@),
        raw matches Some(b) ==> (valid_utf8(b@) ==> r.unwrap()@ == decode_utf8(b@)),
{
    match raw {
        Some(b) => Some(text_from_c(b)),
        None => None,
    }
}

} // verus!
