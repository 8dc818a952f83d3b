//! Where a UTF-8 text may be cut: facts about character boundaries that the
//! lexer needs to hand out its lexemes as text.

use crate::lexer::bytes::{is_ascii, ByteClass, NEWLINE, QUOTE};
use crate::lexer::model::{
    has_fraction, lemma_lexeme_end_in_bounds, lemma_run_end_in_bounds, lemma_run_is_maximal,
    lexeme_end, run_end,
};
use crate::lexer::model::text;
use vstd::prelude::*;
use vstd::string::StringSliceAdditionalSpecFns;
use vstd::utf8::{
    encode_utf8_decode_utf8, encode_utf8_valid_utf8,
    is_char_boundary, is_char_boundary_iff_not_is_continuation_byte,
    is_char_boundary_start_end_of_seq, length_of_first_scalar, pop_first_scalar, valid_utf8,
    valid_utf8_split,
};

verus! {

/// An ASCII byte starts a character.
pub proof fn lemma_boundary_at_ascii(bytes: Seq<u8>, index: int)
    requires
        valid_utf8(bytes),
        0 <= index < bytes.len(),
        is_ascii(bytes[index]),
    ensures
        is_char_boundary(bytes, index),
{
    is_char_boundary_iff_not_is_continuation_byte(bytes, index);
}

/// An ASCII byte is a whole character: the next one starts right behind it.
pub proof fn lemma_boundary_after_ascii(bytes: Seq<u8>, index: int)
    requires
        valid_utf8(bytes),
        0 <= index < bytes.len(),
        is_ascii(bytes[index]),
    ensures
        is_char_boundary(bytes, index + 1),
    decreases bytes.len(),
{
    reveal_with_fuel(is_char_boundary, 2);
    let first = length_of_first_scalar(bytes);
    if index >= first {
        let rest = pop_first_scalar(bytes);
        assert(rest[index - first] == bytes[index]);
        lemma_boundary_after_ascii(rest, index - first);
    }
}

/// A boundary of a text is a boundary of each prefix that reaches it and ends
/// at a boundary.
pub proof fn lemma_boundary_within_prefix(bytes: Seq<u8>, from: int, to: int)
    requires
        valid_utf8(bytes),
        0 <= from <= to <= bytes.len(),
        is_char_boundary(bytes, from),
        is_char_boundary(bytes, to),
    ensures
        valid_utf8(bytes.subrange(0, to)),
        is_char_boundary(bytes.subrange(0, to), from),
{
    let prefix = bytes.subrange(0, to);
    valid_utf8_split(bytes, to);
    if from == to {
        is_char_boundary_start_end_of_seq(prefix);
    } else {
        is_char_boundary_iff_not_is_continuation_byte(bytes, from);
        is_char_boundary_iff_not_is_continuation_byte(prefix, from);
    }
}

/// The piece of `source` from byte `from` up to byte `to`, both of which must
/// be character boundaries.
pub fn text_between<'a>(source: &'a str, from: usize, to: usize) -> (piece: &'a str)
    requires
        from <= to <= source.spec_bytes().len(),
        is_char_boundary(source.spec_bytes(), from as int),
        is_char_boundary(source.spec_bytes(), to as int),
    ensures
        piece.spec_bytes() == source.spec_bytes().subrange(from as int, to as int),
        piece@ == text(source.spec_bytes(), from as int, to as int),
{
    proof {
        encode_utf8_valid_utf8(source@);
        lemma_boundary_within_prefix(source.spec_bytes(), from as int, to as int);
    }
    let (head, _) = source.split_at(to);
    let (_, piece) = head.split_at(from);
    proof {
        assert(piece.spec_bytes() =~= source.spec_bytes().subrange(from as int, to as int));
        encode_utf8_decode_utf8(piece@);
    }
    piece
}

/// Every lexeme ends where a character ends: behind an ASCII byte, before
/// one, or at the end of the source.
pub proof fn lemma_lexeme_ends_at_boundary(bytes: Seq<u8>, start: int)
    requires
        valid_utf8(bytes),
        0 <= start < bytes.len(),
    ensures
        is_char_boundary(bytes, lexeme_end(bytes, start)),
{
    let next = start + 1;
    let end = lexeme_end(bytes, start);
    lemma_lexeme_end_in_bounds(bytes, start);
    lemma_run_end_in_bounds(bytes, next, ByteClass::Digit);
    lemma_run_is_maximal(bytes, next, ByteClass::Except(NEWLINE));
    lemma_run_is_maximal(bytes, next, ByteClass::Except(QUOTE));
    lemma_run_is_maximal(bytes, next, ByteClass::Blank);
    lemma_run_is_maximal(bytes, next, ByteClass::Identifier);
    lemma_run_is_maximal(bytes, next, ByteClass::Unrecognized);
    lemma_run_is_maximal(bytes, next, ByteClass::Digit);
    if has_fraction(bytes, start) {
        lemma_run_is_maximal(bytes, run_end(bytes, next, ByteClass::Digit) + 1, ByteClass::Digit);
    }
    if end == bytes.len() {
        is_char_boundary_start_end_of_seq(bytes);
    } else if is_ascii(bytes[end]) {
        lemma_boundary_at_ascii(bytes, end);
    } else {
        assert(is_ascii(bytes[end - 1]));
        lemma_boundary_after_ascii(bytes, end - 1);
    }
}

} // verus!
