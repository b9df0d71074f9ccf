//! The order of names: lexicographic by characters, decided on their bytes.

use vstd::prelude::*;
use vstd::utf8::{
    char_is_scalar,
    char_u32_cast,
    encode_scalar,
    encode_utf8,
    has_width_1_encoding,
    has_width_2_encoding,
    has_width_3_encoding,
    has_width_4_encoding,
    is_scalar,
    last_continuation_byte,
    leading_byte_width_1,
    leading_byte_width_2,
    leading_byte_width_3,
    leading_byte_width_4,
    second_last_continuation_byte,
    third_last_continuation_byte,
};

verus! {

/// The lexicographic order of texts: at the first place where two differ
/// the smaller character decides, and a text comes before every text that
/// it is the start of.
pub open spec fn text_le(left: Seq<char>, right: Seq<char>) -> bool
    decreases left.len(),
{
    if left.len() == 0 {
        true
    } else if right.len() == 0 {
        false
    } else if left[0] != right[0] {
        (left[0] as u32) < (right[0] as u32)
    } else {
        text_le(left.drop_first(), right.drop_first())
    }
}

/// The lexicographic order of byte strings.
pub open spec fn bytes_le(left: Seq<u8>, right: Seq<u8>) -> bool
    decreases left.len(),
{
    if left.len() == 0 {
        true
    } else if right.len() == 0 {
        false
    } else if left[0] != right[0] {
        left[0] < right[0]
    } else {
        bytes_le(left.drop_first(), right.drop_first())
    }
}

/// Whether one byte string comes before another or equals it.
pub fn bytes_precede(left: &[u8], right: &[u8]) -> (le: bool)
    ensures
        le == bytes_le(left@, right@),
{
    let mut i: usize = 0;
    assert(left@.skip(0) =~= left@);
    assert(right@.skip(0) =~= right@);
    while i < left.len() && i < right.len()
        invariant
            i <= left.len(),
            i <= right.len(),
            bytes_le(left@, right@) == bytes_le(left@.skip(i as int), right@.skip(i as int)),
        decreases left.len() - i,
    {
        assert(left@.skip(i as int).drop_first() =~= left@.skip(i + 1));
        assert(right@.skip(i as int).drop_first() =~= right@.skip(i + 1));
        if left[i] != right[i] {
            return left[i] < right[i];
        }
        i = i + 1;
    }
    i == left.len()
}

/// Whether one name comes before another or equals it.
pub fn name_precedes(left: &str, right: &str) -> (le: bool)
    ensures
        le == text_le(left@, right@),
{
    proof {
        bytes_order_is_text_order(left@, right@);
    }
    bytes_precede(left.as_bytes(), right.as_bytes())
}

/// A text comes before itself.
pub proof fn text_le_reflexive(text: Seq<char>)
    ensures
        text_le(text, text),
    decreases text.len(),
{
    if text.len() > 0 {
        text_le_reflexive(text.drop_first());
    }
}

/// Of two texts one comes before the other.
pub proof fn text_le_total(left: Seq<char>, right: Seq<char>)
    ensures
        text_le(left, right) || text_le(right, left),
    decreases left.len(),
{
    if left.len() > 0 && right.len() > 0 {
        if left[0] == right[0] {
            text_le_total(left.drop_first(), right.drop_first());
        } else {
            char_u32_cast(left[0], left[0] as u32);
            char_u32_cast(right[0], right[0] as u32);
        }
    }
}

/// What comes before a text comes before all that the text comes before.
pub proof fn text_le_transitive(first: Seq<char>, second: Seq<char>, third: Seq<char>)
    requires
        text_le(first, second),
        text_le(second, third),
    ensures
        text_le(first, third),
    decreases first.len(),
{
    if first.len() > 0 && second.len() > 0 && third.len() > 0 && first[0] == second[0] && second[0]
        == third[0] {
        text_le_transitive(first.drop_first(), second.drop_first(), third.drop_first());
    }
}

/// Two texts that come before each other are the same.
pub proof fn text_le_antisymmetric(left: Seq<char>, right: Seq<char>)
    requires
        text_le(left, right),
        text_le(right, left),
    ensures
        left == right,
    decreases left.len(),
{
    if left.len() > 0 && right.len() > 0 {
        text_le_antisymmetric(left.drop_first(), right.drop_first());
        assert(left =~= seq![left[0]] + left.drop_first());
        assert(right =~= seq![right[0]] + right.drop_first());
    } else {
        assert(left =~= right);
    }
}

/// The first bytes of the encodings of 1, 2, 3 and 4 bytes lie in ranges
/// that ascend with the length.
proof fn lemma_leading_bytes(scalar: u32)
    by (bit_vector)
    ensures
        has_width_1_encoding(scalar) ==> leading_byte_width_1(scalar) <= 0x7F,
        has_width_2_encoding(scalar) ==> 0xC0 <= leading_byte_width_2(scalar) <= 0xDF,
        has_width_3_encoding(scalar) ==> 0xE0 <= leading_byte_width_3(scalar) <= 0xEF,
        has_width_4_encoding(scalar) ==> 0xF0 <= leading_byte_width_4(scalar) <= 0xF7,
{
}

/// Of two scalars with encodings of one byte the smaller has the smaller
/// byte.
proof fn lemma_one_byte(small: u32, large: u32)
    by (bit_vector)
    requires
        small < large,
        has_width_1_encoding(small),
        has_width_1_encoding(large),
    ensures
        leading_byte_width_1(small) < leading_byte_width_1(large),
{
}

/// Of two scalars with encodings of two bytes the smaller has the smaller
/// byte at the first place where the encodings differ.
proof fn lemma_two_bytes(small: u32, large: u32)
    by (bit_vector)
    requires
        small < large,
        has_width_2_encoding(small),
        has_width_2_encoding(large),
    ensures
        leading_byte_width_2(small) <= leading_byte_width_2(large),
        leading_byte_width_2(small) == leading_byte_width_2(large) ==> last_continuation_byte(
            small,
        ) < last_continuation_byte(large),
{
}

/// Of two scalars with encodings of three bytes the smaller has the
/// smaller byte at the first place where the encodings differ.
proof fn lemma_three_bytes(small: u32, large: u32)
    by (bit_vector)
    requires
        small < large,
        has_width_3_encoding(small),
        has_width_3_encoding(large),
    ensures
        leading_byte_width_3(small) <= leading_byte_width_3(large),
        leading_byte_width_3(small) == leading_byte_width_3(large)
            ==> second_last_continuation_byte(small) <= second_last_continuation_byte(large),
        leading_byte_width_3(small) == leading_byte_width_3(large)
            && second_last_continuation_byte(small) == second_last_continuation_byte(large)
            ==> last_continuation_byte(small) < last_continuation_byte(large),
{
}

/// Of two scalars with encodings of four bytes the smaller has the smaller
/// byte at the first place where the encodings differ.
proof fn lemma_four_bytes(small: u32, large: u32)
    by (bit_vector)
    requires
        small < large,
        has_width_4_encoding(small),
        has_width_4_encoding(large),
    ensures
        leading_byte_width_4(small) <= leading_byte_width_4(large),
        leading_byte_width_4(small) == leading_byte_width_4(large)
            ==> third_last_continuation_byte(small) <= third_last_continuation_byte(large),
        leading_byte_width_4(small) == leading_byte_width_4(large)
            && third_last_continuation_byte(small) == third_last_continuation_byte(large)
            ==> second_last_continuation_byte(small) <= second_last_continuation_byte(large),
        leading_byte_width_4(small) == leading_byte_width_4(large)
            && third_last_continuation_byte(small) == third_last_continuation_byte(large)
            && second_last_continuation_byte(small) == second_last_continuation_byte(large)
            ==> last_continuation_byte(small) < last_continuation_byte(large),
{
}

/// Where two byte strings agree up to a place at which the first has the
/// smaller byte, the first comes before the second, whatever follows, and
/// the second not before the first.
proof fn lemma_smaller_at(
    first: Seq<u8>,
    second: Seq<u8>,
    place: int,
    first_rest: Seq<u8>,
    second_rest: Seq<u8>,
)
    requires
        0 <= place < first.len(),
        place < second.len(),
        forall|i: int| 0 <= i < place ==> first[i] == second[i],
        first[place] < second[place],
    ensures
        bytes_le(first + first_rest, second + second_rest),
        !bytes_le(second + second_rest, first + first_rest),
    decreases place,
{
    if place > 0 {
        assert((first + first_rest).drop_first() =~= first.drop_first() + first_rest);
        assert((second + second_rest).drop_first() =~= second.drop_first() + second_rest);
        lemma_smaller_at(
            first.drop_first(),
            second.drop_first(),
            place - 1,
            first_rest,
            second_rest,
        );
    }
}

/// The place at which the encodings of two scalars differ, the smaller
/// scalar with the smaller byte.
proof fn lemma_scalar_order(small: u32, large: u32) -> (place: int)
    requires
        is_scalar(small),
        is_scalar(large),
        small < large,
    ensures
        0 <= place < encode_scalar(small).len(),
        place < encode_scalar(large).len(),
        forall|i: int| 0 <= i < place ==> encode_scalar(small)[i] == encode_scalar(large)[i],
        encode_scalar(small)[place] < encode_scalar(large)[place],
{
    lemma_leading_bytes(small);
    lemma_leading_bytes(large);
    if has_width_1_encoding(small) && has_width_1_encoding(large) {
        lemma_one_byte(small, large);
    } else if has_width_2_encoding(small) && has_width_2_encoding(large) {
        lemma_two_bytes(small, large);
    } else if has_width_3_encoding(small) && has_width_3_encoding(large) {
        lemma_three_bytes(small, large);
    } else if has_width_4_encoding(small) && has_width_4_encoding(large) {
        lemma_four_bytes(small, large);
    }
    let first = encode_scalar(small);
    let second = encode_scalar(large);
    if first[0] < second[0] {
        0
    } else if first[1] < second[1] {
        1
    } else if first[2] < second[2] {
        2
    } else {
        3
    }
}

/// A byte string in front of two others does not change their order.
proof fn lemma_common_start(start: Seq<u8>, first: Seq<u8>, second: Seq<u8>)
    ensures
        bytes_le(start + first, start + second) == bytes_le(first, second),
    decreases start.len(),
{
    if start.len() == 0 {
        assert(start + first =~= first);
        assert(start + second =~= second);
    } else {
        assert((start + first).drop_first() =~= start.drop_first() + first);
        assert((start + second).drop_first() =~= start.drop_first() + second);
        lemma_common_start(start.drop_first(), first, second);
    }
}

/// Names are ordered by their bytes as they are by their characters.
pub proof fn bytes_order_is_text_order(left: Seq<char>, right: Seq<char>)
    ensures
        bytes_le(encode_utf8(left), encode_utf8(right)) == text_le(left, right),
    decreases left.len(),
{
    if left.len() == 0 {
    } else if right.len() == 0 {
        assert(encode_scalar(left[0] as u32).len() > 0);
        assert(encode_utf8(left).len() > 0);
    } else {
        let small = left[0] as u32;
        let large = right[0] as u32;
        char_is_scalar(left[0]);
        char_is_scalar(right[0]);
        let left_rest = encode_utf8(left.drop_first());
        let right_rest = encode_utf8(right.drop_first());
        if left[0] == right[0] {
            lemma_common_start(encode_scalar(small), left_rest, right_rest);
            bytes_order_is_text_order(left.drop_first(), right.drop_first());
        } else if small < large {
            let place = lemma_scalar_order(small, large);
            lemma_smaller_at(
                encode_scalar(small),
                encode_scalar(large),
                place,
                left_rest,
                right_rest,
            );
        } else {
            assert(large < small) by {
                char_u32_cast(left[0], small);
                char_u32_cast(right[0], large);
            }
            let place = lemma_scalar_order(large, small);
            lemma_smaller_at(
                encode_scalar(large),
                encode_scalar(small),
                place,
                right_rest,
                left_rest,
            );
        }
    }
}

} // verus!
