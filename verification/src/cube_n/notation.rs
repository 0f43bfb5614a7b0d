//! Algorithms as text.
//!
//! A move is the letter of its face, one of `R U F L D B`, and after it
//! nothing for a clockwise quarter turn, `2` for a half turn or `'` for a
//! counterclockwise quarter turn. The moves of an algorithm are separated by
//! spaces. The text is read and written as bytes.
use crate::cube_n::face::Face;
use crate::cube_n::mov::{Amount, Move};
use vstd::prelude::*;

verus! {

/// The byte of a space.
pub const SPACE: u8 = 32;

/// The byte of the digit `2`.
pub const TWO: u8 = 50;

/// The byte of the apostrophe.
pub const PRIME: u8 = 39;

/// The byte of the letter of a face.
pub open spec fn face_byte(face: Face) -> u8 {
    match face {
        Face::R => 82,
        Face::U => 85,
        Face::F => 70,
        Face::L => 76,
        Face::D => 68,
        Face::B => 66,
    }
}

/// The face that a byte is the letter of, if it is the letter of one.
pub open spec fn face_of_byte(byte: u8) -> Option<Face> {
    if byte == 82 {
        Some(Face::R)
    } else if byte == 85 {
        Some(Face::U)
    } else if byte == 70 {
        Some(Face::F)
    } else if byte == 76 {
        Some(Face::L)
    } else if byte == 68 {
        Some(Face::D)
    } else if byte == 66 {
        Some(Face::B)
    } else {
        None
    }
}

/// The text of a move.
pub open spec fn move_text(mov: Move) -> Seq<u8> {
    match mov.amount() {
        Amount::Single => seq![face_byte(mov.face())],
        Amount::Double => seq![face_byte(mov.face()), TWO],
        Amount::Reverse => seq![face_byte(mov.face()), PRIME],
    }
}

/// The text of an algorithm: the texts of its moves, with a space between
/// one move and the next.
pub open spec fn alg_text(moves: Seq<Move>) -> Seq<u8>
    decreases moves.len(),
{
    if moves.len() == 0 {
        Seq::empty()
    } else if moves.len() == 1 {
        move_text(moves[0])
    } else {
        move_text(moves[0]) + seq![SPACE] + alg_text(moves.drop_first())
    }
}

/// The amount that the text has for the move whose letter is at `at`.
pub open spec fn amount_at(text: Seq<u8>, at: int) -> Amount {
    if at + 1 < text.len() && text[at + 1] == TWO {
        Amount::Double
    } else if at + 1 < text.len() && text[at + 1] == PRIME {
        Amount::Reverse
    } else {
        Amount::Single
    }
}

/// Where the text of the move ends whose letter is at `at`.
pub open spec fn end_at(text: Seq<u8>, at: int) -> int {
    if amount_at(text, at) == Amount::Single {
        at + 1
    } else {
        at + 2
    }
}

/// The moves that the text from `at` on stands for, and nothing if it is
/// not the text of an algorithm. Spaces before a move are passed over. A
/// move must be followed by a space, or by the end of the text.
pub open spec fn parsed_from(text: Seq<u8>, at: int) -> Option<Seq<Move>>
    decreases text.len() - at,
{
    if at < 0 || at >= text.len() {
        Some(Seq::empty())
    } else if text[at] == SPACE {
        parsed_from(text, at + 1)
    } else {
        match face_of_byte(text[at]) {
            None => None,
            Some(face) => {
                let end = end_at(text, at);
                if end < text.len() && text[end] != SPACE {
                    None
                } else {
                    match parsed_from(text, end) {
                        None => None,
                        Some(rest) => Some(seq![Move::spec_new(face, amount_at(text, at))] + rest),
                    }
                }
            },
        }
    }
}

/// The moves that a text stands for, and nothing if it is not the text of an algorithm.
pub open spec fn parsed(text: Seq<u8>) -> Option<Seq<Move>> {
    parsed_from(text, 0)
}

/// The byte of the letter of a face.
fn letter(face: Face) -> (byte: u8)
    ensures
        byte == face_byte(face),
{
    match face {
        Face::R => 82,
        Face::U => 85,
        Face::F => 70,
        Face::L => 76,
        Face::D => 68,
        Face::B => 66,
    }
}

/// The face that a byte is the letter of.
fn face_named(byte: u8) -> (face: Option<Face>)
    ensures
        face == face_of_byte(byte),
{
    if byte == 82 {
        Some(Face::R)
    } else if byte == 85 {
        Some(Face::U)
    } else if byte == 70 {
        Some(Face::F)
    } else if byte == 76 {
        Some(Face::L)
    } else if byte == 68 {
        Some(Face::D)
    } else if byte == 66 {
        Some(Face::B)
    } else {
        None
    }
}

/// The text of an algorithm with one more move is the text of the algorithm,
/// a space if there is a move before, and the text of the move.
proof fn lemma_alg_text_push(moves: Seq<Move>, mov: Move)
    ensures
        alg_text(moves.push(mov)) == if moves.len() == 0 {
            move_text(mov)
        } else {
            alg_text(moves) + seq![SPACE] + move_text(mov)
        },
    decreases moves.len(),
{
    let longer = moves.push(mov);
    if moves.len() == 0 {
        assert(longer[0] == mov);
    } else {
        assert(longer.drop_first() =~= moves.drop_first().push(mov));
        lemma_alg_text_push(moves.drop_first(), mov);
        if moves.len() == 1 {
            assert(alg_text(moves.drop_first()) =~= Seq::<u8>::empty());
            assert(alg_text(longer) =~= move_text(moves[0]) + seq![SPACE] + move_text(mov));
        } else {
            assert(alg_text(longer) =~= alg_text(moves) + seq![SPACE] + move_text(mov));
        }
    }
}

/// Writes an algorithm as text.
pub fn write_alg(moves: &[Move]) -> (text: Vec<u8>)
    ensures
        text@ == alg_text(moves@),
{
    let mut text: Vec<u8> = Vec::new();
    let mut i: usize = 0;
    proof {
        assert(moves@.take(0) =~= Seq::<Move>::empty());
    }
    while i < moves.len()
        invariant
            i <= moves.len(),
            text@ == alg_text(moves@.take(i as int)),
        decreases moves.len() - i,
    {
        let ghost before = text@;
        proof {
            lemma_alg_text_push(moves@.take(i as int), moves@[i as int]);
            assert(moves@.take(i + 1) =~= moves@.take(i as int).push(moves@[i as int]));
        }
        if i > 0 {
            text.push(SPACE);
        }
        text.push(letter(moves[i].face()));
        match moves[i].amount() {
            Amount::Single => {},
            Amount::Double => {
                text.push(TWO);
            },
            Amount::Reverse => {
                text.push(PRIME);
            },
        }
        proof {
            if i > 0 {
                assert(text@ =~= before + seq![SPACE] + move_text(moves@[i as int]));
            } else {
                assert(text@ =~= move_text(moves@[i as int]));
            }
        }
        i += 1;
    }
    proof {
        assert(moves@.take(moves.len() as int) =~= moves@);
    }
    text
}

/// Reads an algorithm from text. Gives nothing if the text is not the text
/// of an algorithm: if a letter is not the letter of a face, or a move is
/// not followed by a space or the end of the text.
pub fn parse_alg(text: &[u8]) -> (moves: Option<Vec<Move>>)
    ensures
        match moves {
            Some(moves) => Some(moves@),
            None => None,
        } == parsed(text@),
{
    let mut moves: Vec<Move> = Vec::new();
    let mut at: usize = 0;
    while at < text.len()
        invariant
            at <= text.len(),
            parsed(text@) == match parsed_from(text@, at as int) {
                Some(rest) => Some(moves@ + rest),
                None => None,
            },
        decreases text.len() - at,
    {
        if text[at] == SPACE {
            at += 1;
        } else {
            let face = match face_named(text[at]) {
                Some(face) => face,
                None => {
                    return None;
                },
            };
            let amount = if at + 1 < text.len() && text[at + 1] == TWO {
                Amount::Double
            } else if at + 1 < text.len() && text[at + 1] == PRIME {
                Amount::Reverse
            } else {
                Amount::Single
            };
            let end = match amount {
                Amount::Single => at + 1,
                _ => at + 2,
            };
            if end < text.len() && text[end] != SPACE {
                return None;
            }
            let ghost before = moves@;
            moves.push(Move::new(face, amount));
            proof {
                match parsed_from(text@, end as int) {
                    Some(rest) => {
                        assert(before + (seq![Move::spec_new(face, amount)] + rest) =~= moves@
                            + rest);
                    },
                    None => {},
                }
            }
            at = end;
        }
    }
    proof {
        assert(moves@ + Seq::<Move>::empty() =~= moves@);
    }
    Some(moves)
}

/// What a text stands for from some place on depends on the text from there on only.
proof fn lemma_parsed_skip(text: Seq<u8>, at: int)
    requires
        0 <= at <= text.len(),
    ensures
        parsed_from(text, at) == parsed_from(text.skip(at), 0),
    decreases text.len() - at,
{
    lemma_parsed_shift(text, at, 0);
}

/// What a text stands for from some place on depends on the text from there on only.
proof fn lemma_parsed_shift(text: Seq<u8>, by: int, at: int)
    requires
        0 <= by <= text.len(),
        0 <= at,
    ensures
        parsed_from(text, by + at) == parsed_from(text.skip(by), at),
    decreases text.len() - by - at,
{
    let tail = text.skip(by);
    if at < tail.len() {
        assert(tail[at] == text[by + at]);
        if tail[at] == SPACE {
            lemma_parsed_shift(text, by, at + 1);
        } else {
            if at + 1 < tail.len() {
                assert(tail[at + 1] == text[by + at + 1]);
            }
            assert(amount_at(tail, at) == amount_at(text, by + at));
            let end = end_at(tail, at);
            assert(end_at(text, by + at) == by + end);
            if end < tail.len() {
                assert(tail[end] == text[by + end]);
            }
            if end <= tail.len() {
                lemma_parsed_shift(text, by, end);
            }
        }
    }
}

/// Reading the text of an algorithm gives the algorithm.
pub proof fn lemma_parse_of_text(moves: Seq<Move>)
    requires
        forall|i: int| 0 <= i < moves.len() ==> (#[trigger] moves[i]).wf(),
    ensures
        parsed(alg_text(moves)) == Some(moves),
    decreases moves.len(),
{
    let text = alg_text(moves);
    if moves.len() == 0 {
        assert(parsed(text) == Some(Seq::<Move>::empty()));
        assert(moves =~= Seq::<Move>::empty());
    } else {
        let first = moves[0];
        let rest = moves.drop_first();
        Move::lemma_determined(first);
        let own = move_text(first);
        assert(text[0] == face_byte(first.face()));
        assert(face_of_byte(text[0]) == Some(first.face()));
        if moves.len() == 1 {
            assert(text =~= own);
            assert(amount_at(text, 0) == first.amount());
            assert(parsed_from(text, end_at(text, 0)) == Some(Seq::<Move>::empty()));
            assert(seq![first] + Seq::<Move>::empty() =~= moves);
        } else {
            assert forall|i: int| 0 <= i < rest.len() implies (#[trigger] rest[i]).wf() by {
                assert(rest[i] == moves[i + 1]);
            }
            lemma_parse_of_text(rest);
            let tail = alg_text(rest);
            assert(text =~= own + seq![SPACE] + tail);
            let end = own.len() as int;
            assert(text[end] == SPACE);
            assert(amount_at(text, 0) == first.amount());
            assert(end_at(text, 0) == end);
            assert(text.skip(end + 1) =~= tail);
            lemma_parsed_skip(text, end + 1);
            assert(parsed_from(text, end) == parsed_from(text, end + 1));
            assert(seq![first] + rest =~= moves);
        }
    }
}

} // verus!
