use vstd::prelude::*;
use crate::cursor::{sp_byte, sp_int, sp_string, sp_ulong, sp_varint, ParseError, Step};
use crate::data::{atom_map, Atom, Bond, BondType, HexIndex};
use crate::decode::{sp_list, Decoder};
use crate::molecule::{bond_type_of, sp_bond_type};
use crate::puzzle::{spec_puzzle, PUZZLE_VERSION};
use crate::solution::{inc_wrap, sp_part_tail, spec_solution, sp_hexes_if, SOLUTION_VERSION};

verus! {

/// A fixed-width field that runs past the end of the buffer fails with `UnexpectedEof`; so does
/// a variable-length field with no byte left, and a string whose declared length runs past the end.
pub proof fn lemma_short_field_fails(d: Seq<u8>, i: int)
    requires
        0 <= i <= d.len(),
    ensures
        i + 1 > d.len() ==> sp_byte(d, i) == Step::<u8>::Err(ParseError::UnexpectedEof),
        i + 4 > d.len() ==> sp_int(d, i) == Step::<i32>::Err(ParseError::UnexpectedEof),
        i + 8 > d.len() ==> sp_ulong(d, i) == Step::<u64>::Err(ParseError::UnexpectedEof),
        i == d.len() ==> sp_varint(d, i) == Step::<u64>::Err(ParseError::UnexpectedEof),
        i == d.len() ==> sp_string(d, i) == Step::<Seq<char>>::Err(ParseError::UnexpectedEof),
        sp_varint(d, i) matches Ok((n, j)) && j + n > d.len() ==> sp_string(d, i)
            == Step::<Seq<char>>::Err(ParseError::UnexpectedEof),
{
}

/// A buffer too short to hold the version fails with `UnexpectedEof`, for both formats.
pub proof fn lemma_short_buffer_fails(d: Seq<u8>)
    requires
        d.len() < 4,
    ensures
        spec_puzzle(d) == Result::<crate::data::PuzzleView, ParseError>::Err(ParseError::UnexpectedEof),
        spec_solution(d) == Result::<crate::data::SolutionView, ParseError>::Err(ParseError::UnexpectedEof),
{
}

/// Decoding depends on the bytes alone: equal buffers decode to equal results.
pub proof fn lemma_decode_deterministic(d1: Seq<u8>, d2: Seq<u8>)
    requires
        d1 == d2,
    ensures
        spec_puzzle(d1) == spec_puzzle(d2),
        spec_solution(d1) == spec_solution(d2),
{
}

/// A list whose count is zero is empty and ends right after the count, whatever the
/// element decoder would do.
pub proof fn lemma_empty_list<D: Decoder>(dec: D, d: Seq<u8>, i: int)
    requires
        sp_int(d, i) matches Ok((n, _)) && n == 0,
    ensures
        sp_list(dec, d, i) == Step::<Seq<<D::Out as View>::V>>::Ok((Seq::empty(), i + 4)),
{
}

/// Of two atoms placed on the same cell, the later one stays.
pub proof fn lemma_later_atom_wins(s: Seq<(HexIndex, Atom)>, h: HexIndex, a1: Atom, a2: Atom)
    ensures
        atom_map(s.push((h, a1)).push((h, a2))) == atom_map(s).insert(h, a2),
        atom_map(s.push((h, a1)).push((h, a2)))[h] == a2,
{
    let s1 = s.push((h, a1));
    let s2 = s1.push((h, a2));
    assert(s2.drop_last() =~= s1);
    assert(s1.drop_last() =~= s);
    assert(atom_map(s2) == atom_map(s1).insert(h, a2));
    assert(atom_map(s1) == atom_map(s).insert(h, a1));
    assert(atom_map(s2) =~= atom_map(s).insert(h, a2));
}

/// A bond listed twice in a row is in the bond set once, as if listed once.
pub proof fn lemma_duplicate_bond_collapses(s: Seq<Bond>, b: Bond)
    ensures
        s.push(b).push(b).to_set() == s.push(b).to_set(),
{
    let s1 = s.push(b);
    let s2 = s1.push(b);
    assert forall|x: Bond| s2.contains(x) <==> s1.contains(x) by {
        if s2.contains(x) {
            let t = choose|t: int| 0 <= t < s2.len() && s2[t] == x;
            if t == s1.len() {
                assert(s1[s1.len() - 1] == x);
            } else {
                assert(s1[t] == x);
            }
        }
        if s1.contains(x) {
            let t = choose|t: int| 0 <= t < s1.len() && s1[t] == x;
            assert(s2[t] == x);
        }
    }
    assert(s2.to_set() =~= s1.to_set());
}

/// A bond-type byte other than `1` with a bit outside the three colour bits is rejected.
pub proof fn lemma_illegal_bond_type(d: Seq<u8>, i: int)
    requires
        0 <= i < d.len(),
        d[i] != 1,
        d[i] & 0xf1 != 0,
    ensures
        bond_type_of(d[i]) is None,
        sp_bond_type(d, i) == Step::<BondType>::Err(ParseError::InvalidBondType),
{
}

/// A puzzle whose version is not the supported one fails with `FormatVersionMismatch`,
/// whatever follows the version; likewise a solution.
pub proof fn lemma_version_mismatch(d1: Seq<u8>, d2: Seq<u8>)
    requires
        d1.len() >= 4,
        d2.len() >= 4,
        d1.take(4) == d2.take(4),
    ensures
        sp_int(d1, 0) == sp_int(d2, 0),
        sp_int(d1, 0) matches Ok((v, _)) && v != PUZZLE_VERSION ==> spec_puzzle(d1)
            == Result::<crate::data::PuzzleView, ParseError>::Err(ParseError::FormatVersionMismatch)
            && spec_puzzle(d2) == spec_puzzle(d1),
        sp_int(d1, 0) matches Ok((v, _)) && v != SOLUTION_VERSION ==> spec_solution(d1)
            == Result::<crate::data::SolutionView, ParseError>::Err(ParseError::FormatVersionMismatch)
            && spec_solution(d2) == spec_solution(d1),
{
    reveal_with_fuel(crate::cursor::le_value, 5);
    assert(d1[0] == d1.take(4)[0] && d1[1] == d1.take(4)[1]);
    assert(d1[2] == d1.take(4)[2] && d1[3] == d1.take(4)[3]);
    assert(d2[0] == d2.take(4)[0] && d2[1] == d2.take(4)[1]);
    assert(d2[2] == d2.take(4)[2] && d2[3] == d2.take(4)[3]);
}

/// The track path is read only for a part named "track": for any other name nothing is
/// consumed for it and it is empty. The conduit fields likewise belong to "pipe" alone.
pub proof fn lemma_track_only_for_track(name: Seq<char>, d: Seq<u8>, i: int)
    ensures
        name != "track"@ ==> sp_hexes_if(name == "track"@, d, i) == Step::<Seq<HexIndex>>::Ok((Seq::empty(), i)),
        name != "track"@ && name != "pipe"@ ==> sp_part_tail(name, d, i) == match sp_int(d, i) {
            Ok((arm, j)) => Ok(((Seq::<HexIndex>::empty(), inc_wrap(arm), 0i32, Seq::<HexIndex>::empty()), j)),
            Err(e) => Step::<(Seq<HexIndex>, i32, i32, Seq<HexIndex>)>::Err(e),
        },
{
}

} // verus!
