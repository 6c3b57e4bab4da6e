//! Words in text: the first word of a string, found in its UTF-8 bytes.

use vstd::prelude::*;
use vstd::string::StringSliceAdditionalSpecFns;
use vstd::utf8::{
    char_is_scalar, encode_scalar, encode_utf8, encode_utf8_decode_utf8, encode_utf8_valid_utf8,
    has_width_1_encoding, has_width_2_encoding, has_width_3_encoding,
    is_char_boundary_iff_not_is_continuation_byte, is_char_boundary_start_end_of_seq,
};

verus! {

/// The byte of a space in UTF-8.
pub const SPACE: u8 = 0x20;

/// The number of characters before the first space of `chars`; its whole
/// length where it holds no space.
pub open spec fn first_space(chars: Seq<char>) -> int
    decreases chars.len(),
{
    if chars.len() == 0 || chars[0] == ' ' {
        0
    } else {
        1 + first_space(chars.drop_first())
    }
}

/// The first space is at a place inside the text or at its end; no
/// character before it is a space, and the character at it is one.
pub proof fn lemma_first_space_is_first(chars: Seq<char>)
    ensures
        0 <= first_space(chars) <= chars.len(),
        forall|i: int| 0 <= i < first_space(chars) ==> chars[i] != ' ',
        first_space(chars) < chars.len() ==> chars[first_space(chars)] == ' ',
    decreases chars.len(),
{
    if !(chars.len() == 0 || chars[0] == ' ') {
        let rest = chars.drop_first();
        lemma_first_space_is_first(rest);
        assert forall|i: int| 0 <= i < first_space(chars) implies chars[i] != ' ' by {
            if i > 0 {
                assert(chars[i] == rest[i - 1]);
            }
        }
        if first_space(rest) < rest.len() {
            assert(chars[first_space(rest) + 1] == rest[first_space(rest)]);
        }
    }
}

proof fn lemma_one_byte_scalar(v: u32)
    by (bit_vector)
    requires
        v <= 0x7F,
    ensures
        (v & 0x7F) as u8 == v,
{
}

proof fn lemma_high_bytes(v: u32)
    by (bit_vector)
    ensures
        (0xC0u8 | ((v >> 6) & 0x1F) as u8) >= 0x80,
        (0xE0u8 | ((v >> 12) & 0x0F) as u8) >= 0x80,
        (0xF0u8 | ((v >> 18) & 0x7) as u8) >= 0x80,
        (0x80u8 | (v & 0x3F) as u8) >= 0x80,
        (0x80u8 | ((v >> 6) & 0x3F) as u8) >= 0x80,
        (0x80u8 | ((v >> 12) & 0x3F) as u8) >= 0x80,
{
}

/// A space is encoded as the one byte `SPACE`, and that byte occurs in the
/// encoding of no other character.
proof fn lemma_space_byte_only_in_space(c: char)
    ensures
        encode_scalar(c as u32).len() >= 1,
        c == ' ' ==> encode_scalar(c as u32) =~= seq![SPACE],
        c != ' ' ==> ({
            let encoded = encode_scalar(c as u32);
            forall|j: int| 0 <= j < encoded.len() ==> #[trigger] encoded[j] != SPACE
        }),
{
    let v = c as u32;
    char_is_scalar(c);
    lemma_high_bytes(v);
    if has_width_1_encoding(v) {
        lemma_one_byte_scalar(v);
    } else if has_width_2_encoding(v) {
    } else if has_width_3_encoding(v) {
    } else {
    }
}

/// Where the first space lies in the bytes: behind the encoding of the
/// characters before it, which holds no `SPACE` byte.
proof fn lemma_first_space_in_bytes(chars: Seq<char>)
    ensures
        ({
            let k = first_space(chars);
            let bytes = encode_utf8(chars);
            let head = encode_utf8(chars.take(k));
            &&& 0 <= k <= chars.len()
            &&& head.len() <= bytes.len()
            &&& bytes.subrange(0, head.len() as int) == head
            &&& forall|j: int| 0 <= j < head.len() ==> bytes[j] != SPACE
            &&& k < chars.len() ==> head.len() < bytes.len() && bytes[head.len() as int] == SPACE
            &&& k == chars.len() ==> head.len() == bytes.len()
        }),
    decreases chars.len(),
{
    let k = first_space(chars);
    let bytes = encode_utf8(chars);
    let head = encode_utf8(chars.take(k));
    if chars.len() == 0 {
        assert(chars.take(k) =~= chars);
    } else if chars[0] == ' ' {
        lemma_space_byte_only_in_space(chars[0]);
        assert(chars.take(0) =~= Seq::<char>::empty());
    } else {
        let rest = chars.drop_first();
        let first = encode_scalar(chars[0] as u32);
        lemma_first_space_in_bytes(rest);
        lemma_space_byte_only_in_space(chars[0]);
        let rest_head = encode_utf8(rest.take(k - 1));
        assert(chars.take(k).drop_first() =~= rest.take(k - 1));
        assert(head =~= first + rest_head);
        assert(bytes =~= first + encode_utf8(rest));
        assert(bytes.subrange(0, head.len() as int) =~= head) by {
            assert(encode_utf8(rest).subrange(0, rest_head.len() as int) == rest_head);
            assert forall|j: int| 0 <= j < head.len() implies bytes[j] == head[j] by {
                if j >= first.len() {
                    assert(bytes[j] == encode_utf8(rest)[j - first.len()]);
                    assert(encode_utf8(rest).subrange(0, rest_head.len() as int)[j - first.len()]
                        == encode_utf8(rest)[j - first.len()]);
                }
            }
        }
        assert forall|j: int| 0 <= j < head.len() implies bytes[j] != SPACE by {
            if j >= first.len() {
                assert(bytes[j] == encode_utf8(rest)[j - first.len()]);
            }
        }
        if k < chars.len() {
            assert(bytes[head.len() as int] == encode_utf8(rest)[rest_head.len() as int]);
        }
    }
}

/// The first word of `s`: the text before its first space, or all of `s`
/// where it holds no space.
pub fn first_word(s: &String) -> (word: &str)
    ensures
        word@ == s@.take(first_space(s@)),
{
    let text = s.as_str();
    let bytes = text.as_bytes();
    proof {
        lemma_first_space_in_bytes(s@);
        encode_utf8_valid_utf8(s@);
    }
    let ghost head = encode_utf8(s@.take(first_space(s@)));
    let mut i: usize = 0;
    while i < bytes.len()
        invariant
            bytes@ == encode_utf8(s@),
            text@ == s@,
            head == encode_utf8(s@.take(first_space(s@))),
            i <= bytes@.len(),
            i <= head.len(),
            forall|j: int| 0 <= j < head.len() ==> bytes@[j] != SPACE,
            first_space(s@) < s@.len() ==> head.len() < bytes@.len() && bytes@[head.len() as int]
                == SPACE,
            first_space(s@) == s@.len() ==> head.len() == bytes@.len(),
            0 <= first_space(s@) <= s@.len(),
            bytes@.subrange(0, head.len() as int) == head,
            vstd::utf8::valid_utf8(bytes@),
        decreases bytes@.len() - i,
    {
        if bytes[i] == SPACE {
            proof {
                assert(i == head.len());
                is_char_boundary_iff_not_is_continuation_byte(bytes@, i as int);
                is_char_boundary_start_end_of_seq(bytes@);
            }
            let (word, _) = text.split_at(i);
            proof {
                assert(word.spec_bytes() == head);
                encode_utf8_decode_utf8(word@);
                encode_utf8_decode_utf8(s@.take(first_space(s@)));
            }
            return word;
        }
        i += 1;
    }
    proof {
        assert(s@.take(first_space(s@)) =~= s@);
    }
    text
}

} // verus!
