use vstd::prelude::*;
use crate::cursor::{
    le_value, lemma_varint_sum_mono, sp_byte, sp_int, sp_string, sp_varint, varint_len, varint_sum,
    ParseError, Step,
};
use crate::decode::{sp_items, sp_list, Decoder};
use crate::cursor::sp_ulong;
use crate::data::chamber_of;
use crate::molecule::{
    sp_atom_entry, sp_b_hex, sp_bond, sp_i_hex, sp_molecule, AtomEntryDecoder, BondDecoder,
    MoleculeDecoder, NarrowHexDecoder, WideHexDecoder,
};
use crate::puzzle::{
    sp_chamber, sp_conduit, sp_production, sp_puzzle, spec_puzzle,
    ChamberDecoder, ConduitDecoder,
};
use crate::solution::{
    sp_hexes_if, sp_instruction, sp_metrics, sp_part, sp_part_head, sp_part_tail, sp_solution,
    spec_solution, InstructionDecoder, PartDecoder,
};

verus! {

/// Every successful decode by `dec` ends within the buffer, not before where it started.
pub open spec fn in_bounds<D: Decoder>(dec: D) -> bool {
    forall|d: Seq<u8>, i: int|
        #![trigger dec.spec_decode(d, i)]
        0 <= i && dec.spec_decode(d, i) is Ok ==> i <= dec.spec_decode(d, i)->Ok_0.1 <= d.len()
}

/// A successful decode by `dec` reads nothing past where it ends.
pub open spec fn framed<D: Decoder>(dec: D) -> bool {
    forall|d: Seq<u8>, i: int, k: int|
        #![trigger dec.spec_decode(d.take(k), i), dec.spec_decode(d, i)]
        0 <= i && dec.spec_decode(d, i) is Ok && dec.spec_decode(d, i)->Ok_0.1 <= k <= d.len()
            ==> dec.spec_decode(d.take(k), i) == dec.spec_decode(d, i)
}

/// Cutting the buffer inside a record that `dec` reads makes it fail with `UnexpectedEof`.
pub open spec fn cut_fails<D: Decoder>(dec: D) -> bool {
    forall|d: Seq<u8>, i: int, k: int|
        #![trigger dec.spec_decode(d.take(k), i), dec.spec_decode(d, i)]
        0 <= i <= k && dec.spec_decode(d, i) is Ok && k < dec.spec_decode(d, i)->Ok_0.1
            ==> dec.spec_decode(d.take(k), i) == Step::<<D::Out as View>::V>::Err(ParseError::UnexpectedEof)
}

pub proof fn lemma_le_value_frame(d1: Seq<u8>, d2: Seq<u8>, i: int, n: nat)
    requires
        0 <= i,
        i + n <= d1.len(),
        i + n <= d2.len(),
        forall|t: int| i <= t < i + n ==> d1[t] == d2[t],
    ensures
        le_value(d1, i, n) == le_value(d2, i, n),
    decreases n,
{
    if n > 0 {
        lemma_le_value_frame(d1, d2, i + 1, (n - 1) as nat);
    }
}

/// The 32-bit integer field: framed, and failing when cut.
pub proof fn lemma_int_cut(d: Seq<u8>, i: int, k: int)
    requires
        0 <= i,
        0 <= k <= d.len(),
        sp_int(d, i) is Ok,
    ensures
        k < i + 4 ==> sp_int(d.take(k), i) == Step::<i32>::Err(ParseError::UnexpectedEof),
        i + 4 <= k ==> sp_int(d.take(k), i) == sp_int(d, i),
{
    if i + 4 <= k {
        lemma_le_value_frame(d, d.take(k), i, 4);
    }
}

/// The byte field: framed, and failing when cut.
pub proof fn lemma_byte_cut(d: Seq<u8>, i: int, k: int)
    requires
        0 <= i,
        0 <= k <= d.len(),
        sp_byte(d, i) is Ok,
    ensures
        k < i + 1 ==> sp_byte(d.take(k), i) == Step::<u8>::Err(ParseError::UnexpectedEof),
        i + 1 <= k ==> sp_byte(d.take(k), i) == sp_byte(d, i),
{
}

/// A run of records ends within the buffer, not before where it started.
pub proof fn lemma_items_bounds<D: Decoder>(dec: D, d: Seq<u8>, i: int, n: nat)
    requires
        in_bounds(dec),
        0 <= i <= d.len(),
    ensures
        sp_items(dec, d, i, n) is Ok ==> i <= sp_items(dec, d, i, n)->Ok_0.1 <= d.len(),
    decreases n,
{
    if n > 0 {
        lemma_items_bounds(dec, d, i, (n - 1) as nat);
        if let Ok((_, j)) = sp_items(dec, d, i, (n - 1) as nat) {
            assert(dec.spec_decode(d, j) is Ok ==> j <= dec.spec_decode(d, j)->Ok_0.1 <= d.len());
        }
    }
}

/// A run of records reads nothing past where it ends.
pub proof fn lemma_items_frame<D: Decoder>(dec: D, d: Seq<u8>, i: int, n: nat, k: int)
    requires
        in_bounds(dec),
        framed(dec),
        0 <= i <= d.len(),
        sp_items(dec, d, i, n) is Ok,
        sp_items(dec, d, i, n)->Ok_0.1 <= k <= d.len(),
    ensures
        sp_items(dec, d.take(k), i, n) == sp_items(dec, d, i, n),
    decreases n,
{
    if n > 0 {
        let prev = sp_items(dec, d, i, (n - 1) as nat);
        lemma_items_bounds(dec, d, i, (n - 1) as nat);
        let j = prev->Ok_0.1;
        assert(dec.spec_decode(d, j) is Ok ==> j <= dec.spec_decode(d, j)->Ok_0.1 <= d.len());
        lemma_items_frame(dec, d, i, (n - 1) as nat, k);
        assert(dec.spec_decode(d.take(k), j) == dec.spec_decode(d, j));
    }
}

/// Cutting the buffer inside a run of records makes it fail with `UnexpectedEof`.
pub proof fn lemma_items_cut<D: Decoder>(dec: D, d: Seq<u8>, i: int, n: nat, k: int)
    requires
        in_bounds(dec),
        framed(dec),
        cut_fails(dec),
        0 <= i <= k,
        i <= d.len(),
        sp_items(dec, d, i, n) is Ok,
        k < sp_items(dec, d, i, n)->Ok_0.1,
    ensures
        sp_items(dec, d.take(k), i, n) == Step::<Seq<<D::Out as View>::V>>::Err(ParseError::UnexpectedEof),
    decreases n,
{
    lemma_items_bounds(dec, d, i, n);
    if n > 0 {
        let prev = sp_items(dec, d, i, (n - 1) as nat);
        lemma_items_bounds(dec, d, i, (n - 1) as nat);
        let j = prev->Ok_0.1;
        if k < j {
            lemma_items_cut(dec, d, i, (n - 1) as nat, k);
        } else {
            lemma_items_frame(dec, d, i, (n - 1) as nat, k);
            assert(dec.spec_decode(d.take(k), j) == Step::<<D::Out as View>::V>::Err(ParseError::UnexpectedEof));
        }
    }
}

/// A list ends within the buffer, reads nothing past its end, and fails with
/// `UnexpectedEof` when the buffer is cut inside it.
pub proof fn lemma_list_cut<D: Decoder>(dec: D, d: Seq<u8>, i: int, k: int)
    requires
        in_bounds(dec),
        framed(dec),
        cut_fails(dec),
        0 <= i,
        0 <= k <= d.len(),
        sp_list(dec, d, i) is Ok,
    ensures
        i <= sp_list(dec, d, i)->Ok_0.1 <= d.len(),
        k < sp_list(dec, d, i)->Ok_0.1 ==> sp_list(dec, d.take(k), i)
            == Step::<Seq<<D::Out as View>::V>>::Err(ParseError::UnexpectedEof),
        sp_list(dec, d, i)->Ok_0.1 <= k ==> sp_list(dec, d.take(k), i) == sp_list(dec, d, i),
{
    lemma_int_cut(d, i, k);
    let (n, j) = sp_int(d, i)->Ok_0;
    lemma_items_bounds(dec, d, j, n as nat);
    if j <= k {
        if k < sp_list(dec, d, i)->Ok_0.1 {
            lemma_items_cut(dec, d, j, n as nat, k);
        } else {
            lemma_items_frame(dec, d, j, n as nat, k);
        }
    }
}

/// The group count of a variable-length integer, on a buffer cut at `k`: unchanged when the
/// integer ends by `k`, else it runs to the cut.
pub proof fn lemma_varint_len_cut(d: Seq<u8>, t: int, k: int)
    requires
        0 <= t <= k <= d.len(),
    ensures
        t + varint_len(d, t) <= k ==> varint_len(d.take(k), t) == varint_len(d, t),
        k < t + varint_len(d, t) ==> varint_len(d.take(k), t) == k - t,
    decreases d.len() - t,
{
    if t < k {
        assert(d.take(k)[t] == d[t]);
        if d[t] >= 128 {
            lemma_varint_len_cut(d, t + 1, k);
        }
    }
}

pub proof fn lemma_varint_sum_frame(d: Seq<u8>, i: int, m: nat, k: int)
    requires
        0 <= i,
        i + m <= k <= d.len(),
    ensures
        varint_sum(d.take(k), i, m) == varint_sum(d, i, m),
    decreases m,
{
    if m > 0 {
        lemma_varint_sum_frame(d, i, (m - 1) as nat, k);
        assert(d.take(k)[i + m - 1] == d[i + m - 1]);
    }
}

/// A string field on a buffer cut at `k`: unchanged when it ends by `k`; otherwise it fails
/// with `UnexpectedEof`, or, where the cut falls inside its length prefix, reads as the empty
/// string ending at the cut.
pub proof fn lemma_string_cut(d: Seq<u8>, i: int, k: int)
    requires
        0 <= i,
        0 <= k <= d.len(),
        sp_string(d, i) is Ok,
    ensures
        sp_string(d, i)->Ok_0.1 <= k ==> sp_string(d.take(k), i) == sp_string(d, i),
        k < sp_string(d, i)->Ok_0.1 ==> sp_string(d.take(k), i) == Step::<Seq<char>>::Err(ParseError::UnexpectedEof)
            || (i < k && sp_string(d.take(k), i) == Step::<Seq<char>>::Ok((Seq::empty(), k))),
{
    let dk = d.take(k);
    let (n, j1) = sp_varint(d, i)->Ok_0;
    let m = varint_len(d, i);
    if i < k {
        lemma_varint_len_cut(d, i, k);
        if j1 <= k {
            lemma_varint_sum_frame(d, i, m, k);
            assert(sp_varint(dk, i) == sp_varint(d, i));
            if j1 + n <= k {
                assert(dk.subrange(j1, j1 + n) =~= d.subrange(j1, j1 + n));
            }
        } else {
            let m2 = (k - i) as nat;
            lemma_varint_sum_frame(d, i, m2, k);
            lemma_varint_sum_mono(d, i, m2, m);
            let (n2, j2) = sp_varint(dk, i)->Ok_0;
            assert(j2 == k);
            if n2 == 0 {
                assert(dk.subrange(k, k) =~= Seq::<u8>::empty());
                assert(vstd::utf8::valid_utf8(Seq::<u8>::empty()));
                assert(vstd::utf8::decode_utf8(Seq::<u8>::empty()) =~= Seq::<char>::empty());
            }
        }
    }
}

/// A wide cell field on a buffer cut at `k`.
pub proof fn lemma_i_hex_cut(d: Seq<u8>, i: int, k: int)
    requires
        0 <= i,
        0 <= k <= d.len(),
        sp_i_hex(d, i) is Ok,
    ensures
        i + 8 <= d.len(),
        sp_i_hex(d, i)->Ok_0.1 == i + 8,
        k < i + 8 ==> sp_i_hex(d.take(k), i) == Step::<crate::data::HexIndex>::Err(ParseError::UnexpectedEof),
        i + 8 <= k ==> sp_i_hex(d.take(k), i) == sp_i_hex(d, i),
{
    lemma_int_cut(d, i, k);
    lemma_int_cut(d, i + 4, k);
}

pub proof fn lemma_wide_hex_laws()
    ensures
        in_bounds(WideHexDecoder),
        framed(WideHexDecoder),
        cut_fails(WideHexDecoder),
{
    assert forall|d: Seq<u8>, i: int, k: int|
        0 <= i && sp_i_hex(d, i) is Ok && 0 <= k <= d.len() implies
            (k < i + 8 ==> sp_i_hex(d.take(k), i) == Step::<crate::data::HexIndex>::Err(ParseError::UnexpectedEof))
            && (i + 8 <= k ==> sp_i_hex(d.take(k), i) == sp_i_hex(d, i)) by {
        lemma_i_hex_cut(d, i, k);
    }
}

pub proof fn lemma_instruction_laws()
    ensures
        in_bounds(InstructionDecoder),
        framed(InstructionDecoder),
        cut_fails(InstructionDecoder),
{
    assert forall|d: Seq<u8>, i: int, k: int|
        0 <= i && sp_instruction(d, i) is Ok && 0 <= k <= d.len() implies
            (k < i + 5 ==> sp_instruction(d.take(k), i) == Step::<(crate::data::Instruction, i32)>::Err(ParseError::UnexpectedEof))
            && (i + 5 <= k ==> sp_instruction(d.take(k), i) == sp_instruction(d, i)) by {
        lemma_int_cut(d, i, k);
        lemma_byte_cut(d, i + 4, k);
    }
}

/// The fixed fields and tape of a part on a buffer cut at `k`.
pub proof fn lemma_part_head_cut(d: Seq<u8>, i: int, k: int)
    requires
        0 <= i,
        0 <= k <= d.len(),
        sp_part_head(d, i) is Ok,
    ensures
        i <= sp_part_head(d, i)->Ok_0.1 <= d.len(),
        k < sp_part_head(d, i)->Ok_0.1 ==> sp_part_head(d.take(k), i) is Err && sp_part_head(d.take(k), i)->Err_0 == ParseError::UnexpectedEof,
        sp_part_head(d, i)->Ok_0.1 <= k ==> sp_part_head(d.take(k), i) == sp_part_head(d, i),
{
    lemma_instruction_laws();
    lemma_byte_cut(d, i, k);
    lemma_i_hex_cut(d, i + 1, k);
    lemma_int_cut(d, i + 9, k);
    lemma_int_cut(d, i + 13, k);
    lemma_int_cut(d, i + 17, k);
    lemma_list_cut(InstructionDecoder, d, i + 21, k);
}

/// The trailing fields of a part on a buffer cut at `k`.
pub proof fn lemma_part_tail_cut(name: Seq<char>, d: Seq<u8>, i: int, k: int)
    requires
        0 <= i,
        0 <= k <= d.len(),
        sp_part_tail(name, d, i) is Ok,
    ensures
        i <= sp_part_tail(name, d, i)->Ok_0.1 <= d.len(),
        k < sp_part_tail(name, d, i)->Ok_0.1 ==> sp_part_tail(name, d.take(k), i) is Err
            && sp_part_tail(name, d.take(k), i)->Err_0 == ParseError::UnexpectedEof,
        sp_part_tail(name, d, i)->Ok_0.1 <= k ==> sp_part_tail(name, d.take(k), i) == sp_part_tail(name, d, i),
{
    lemma_wide_hex_laws();
    let track = name == "track"@;
    if track {
        lemma_list_cut(WideHexDecoder, d, i, k);
    }
    let j1 = sp_hexes_if(track, d, i)->Ok_0.1;
    lemma_int_cut(d, j1, k);
    if name == "pipe"@ {
        lemma_int_cut(d, j1 + 4, k);
        lemma_list_cut(WideHexDecoder, d, j1 + 8, k);
    }
}

/// A part record on a buffer cut at `k`.
pub proof fn lemma_part_cut(d: Seq<u8>, i: int, k: int)
    requires
        0 <= i,
        0 <= k <= d.len(),
        sp_part(d, i) is Ok,
    ensures
        i <= sp_part(d, i)->Ok_0.1 <= d.len(),
        k < sp_part(d, i)->Ok_0.1 ==> sp_part(d.take(k), i) == Step::<crate::data::PartView>::Err(ParseError::UnexpectedEof),
        sp_part(d, i)->Ok_0.1 <= k ==> sp_part(d.take(k), i) == sp_part(d, i),
{
    lemma_string_cut(d, i, k);
    let (name, j1) = sp_string(d, i)->Ok_0;
    lemma_part_head_cut(d, j1, k);
    let j2 = sp_part_head(d, j1)->Ok_0.1;
    lemma_part_tail_cut(name, d, j2, k);
}

pub proof fn lemma_part_laws()
    ensures
        in_bounds(PartDecoder),
        framed(PartDecoder),
        cut_fails(PartDecoder),
{
    assert forall|d: Seq<u8>, i: int, k: int|
        0 <= i && sp_part(d, i) is Ok && 0 <= k <= d.len() implies
            i <= sp_part(d, i)->Ok_0.1 <= d.len()
            && (k < sp_part(d, i)->Ok_0.1 ==> sp_part(d.take(k), i) == Step::<crate::data::PartView>::Err(ParseError::UnexpectedEof))
            && (sp_part(d, i)->Ok_0.1 <= k ==> sp_part(d.take(k), i) == sp_part(d, i)) by {
        lemma_part_cut(d, i, k);
    }
    assert forall|d: Seq<u8>, i: int| 0 <= i && sp_part(d, i) is Ok implies i <= sp_part(d, i)->Ok_0.1 <= d.len() by {
        lemma_part_cut(d, i, d.len() as int);
    }
}

/// The metrics on a buffer cut at `k`.
pub proof fn lemma_metrics_cut(d: Seq<u8>, i: int, k: int)
    requires
        0 <= i,
        0 <= k <= d.len(),
        sp_metrics(d, i) is Ok,
    ensures
        i <= sp_metrics(d, i)->Ok_0.1 <= d.len(),
        k < sp_metrics(d, i)->Ok_0.1 ==> sp_metrics(d.take(k), i) is Err && sp_metrics(d.take(k), i)->Err_0 == ParseError::UnexpectedEof,
        sp_metrics(d, i)->Ok_0.1 <= k ==> sp_metrics(d.take(k), i) == sp_metrics(d, i),
{
    lemma_int_cut(d, i, k);
    if sp_int(d, i)->Ok_0.0 == 4 {
        lemma_int_cut(d, i + 4, k);
        lemma_int_cut(d, i + 8, k);
        lemma_int_cut(d, i + 12, k);
        lemma_int_cut(d, i + 16, k);
        lemma_int_cut(d, i + 20, k);
        lemma_int_cut(d, i + 24, k);
        lemma_int_cut(d, i + 28, k);
        lemma_int_cut(d, i + 32, k);
    }
}

/// Truncating a solution buffer anywhere before the end of its record makes decoding fail
/// with `UnexpectedEof`; bytes after the record are never read.
pub proof fn lemma_solution_truncated(d: Seq<u8>, k: int)
    requires
        sp_solution(d, 0) is Ok,
        0 <= k <= d.len(),
    ensures
        sp_solution(d, 0)->Ok_0.1 <= d.len(),
        k < sp_solution(d, 0)->Ok_0.1 ==> spec_solution(d.take(k))
            == Result::<crate::data::SolutionView, ParseError>::Err(ParseError::UnexpectedEof),
        sp_solution(d, 0)->Ok_0.1 <= k ==> spec_solution(d.take(k)) == spec_solution(d),
{
    lemma_part_laws();
    lemma_int_cut(d, 0, k);
    lemma_string_cut(d, 4, k);
    let j1 = sp_string(d, 4)->Ok_0.1;
    lemma_string_cut(d, j1, k);
    let j2 = sp_string(d, j1)->Ok_0.1;
    lemma_metrics_cut(d, j2, k);
    let j3 = sp_metrics(d, j2)->Ok_0.1;
    lemma_list_cut(PartDecoder, d, j3, k);
}

/// Cutting the buffer inside a record that `dec` reads makes it fail, with `UnexpectedEof`
/// or `InvalidEnumValue`.
pub open spec fn cut_rejected<D: Decoder>(dec: D) -> bool {
    forall|d: Seq<u8>, i: int, k: int|
        #![trigger dec.spec_decode(d.take(k), i), dec.spec_decode(d, i)]
        0 <= i <= k && dec.spec_decode(d, i) is Ok && k < dec.spec_decode(d, i)->Ok_0.1
            ==> dec.spec_decode(d.take(k), i) is Err && (dec.spec_decode(d.take(k), i)->Err_0
            == ParseError::UnexpectedEof || dec.spec_decode(d.take(k), i)->Err_0 == ParseError::InvalidEnumValue)
}

/// The 64-bit unsigned field: framed, and failing when cut.
pub proof fn lemma_ulong_cut(d: Seq<u8>, i: int, k: int)
    requires
        0 <= i,
        0 <= k <= d.len(),
        sp_ulong(d, i) is Ok,
    ensures
        k < i + 8 ==> sp_ulong(d.take(k), i) == Step::<u64>::Err(ParseError::UnexpectedEof),
        i + 8 <= k ==> sp_ulong(d.take(k), i) == sp_ulong(d, i),
{
    if i + 8 <= k {
        lemma_le_value_frame(d, d.take(k), i, 8);
    }
}

/// A narrow cell field on a buffer cut at `k`.
pub proof fn lemma_b_hex_cut(d: Seq<u8>, i: int, k: int)
    requires
        0 <= i,
        0 <= k <= d.len(),
        sp_b_hex(d, i) is Ok,
    ensures
        i + 2 <= d.len(),
        sp_b_hex(d, i)->Ok_0.1 == i + 2,
        k < i + 2 ==> sp_b_hex(d.take(k), i) == Step::<crate::data::HexIndex>::Err(ParseError::UnexpectedEof),
        i + 2 <= k ==> sp_b_hex(d.take(k), i) == sp_b_hex(d, i),
{
    lemma_byte_cut(d, i, k);
    lemma_byte_cut(d, i + 1, k);
}

pub proof fn lemma_narrow_hex_laws()
    ensures
        in_bounds(NarrowHexDecoder),
        framed(NarrowHexDecoder),
        cut_fails(NarrowHexDecoder),
{
    assert forall|d: Seq<u8>, i: int, k: int|
        0 <= i && sp_b_hex(d, i) is Ok && 0 <= k <= d.len() implies
            (k < i + 2 ==> sp_b_hex(d.take(k), i) == Step::<crate::data::HexIndex>::Err(ParseError::UnexpectedEof))
            && (i + 2 <= k ==> sp_b_hex(d.take(k), i) == sp_b_hex(d, i)) by {
        lemma_b_hex_cut(d, i, k);
    }
}

pub proof fn lemma_atom_entry_laws()
    ensures
        in_bounds(AtomEntryDecoder),
        framed(AtomEntryDecoder),
        cut_fails(AtomEntryDecoder),
{
    assert forall|d: Seq<u8>, i: int, k: int|
        0 <= i && sp_atom_entry(d, i) is Ok && 0 <= k <= d.len() implies
            (k < i + 3 ==> sp_atom_entry(d.take(k), i) == Step::<(crate::data::HexIndex, crate::data::Atom)>::Err(ParseError::UnexpectedEof))
            && (i + 3 <= k ==> sp_atom_entry(d.take(k), i) == sp_atom_entry(d, i)) by {
        lemma_byte_cut(d, i, k);
        lemma_b_hex_cut(d, i + 1, k);
    }
}

pub proof fn lemma_bond_laws()
    ensures
        in_bounds(BondDecoder),
        framed(BondDecoder),
        cut_fails(BondDecoder),
{
    assert forall|d: Seq<u8>, i: int, k: int|
        0 <= i && sp_bond(d, i) is Ok && 0 <= k <= d.len() implies
            (k < i + 5 ==> sp_bond(d.take(k), i) == Step::<crate::data::Bond>::Err(ParseError::UnexpectedEof))
            && (i + 5 <= k ==> sp_bond(d.take(k), i) == sp_bond(d, i)) by {
        lemma_byte_cut(d, i, k);
        lemma_b_hex_cut(d, i + 1, k);
        lemma_b_hex_cut(d, i + 3, k);
    }
}

pub proof fn lemma_molecule_laws()
    ensures
        in_bounds(MoleculeDecoder),
        framed(MoleculeDecoder),
        cut_fails(MoleculeDecoder),
{
    lemma_atom_entry_laws();
    lemma_bond_laws();
    assert forall|d: Seq<u8>, i: int, k: int|
        0 <= i && sp_molecule(d, i) is Ok && 0 <= k <= d.len() implies
            i <= sp_molecule(d, i)->Ok_0.1 <= d.len()
            && (k < sp_molecule(d, i)->Ok_0.1 ==> sp_molecule(d.take(k), i) == Step::<crate::data::MoleculeView>::Err(ParseError::UnexpectedEof))
            && (sp_molecule(d, i)->Ok_0.1 <= k ==> sp_molecule(d.take(k), i) == sp_molecule(d, i)) by {
        lemma_list_cut(AtomEntryDecoder, d, i, k);
        let j = sp_list(AtomEntryDecoder, d, i)->Ok_0.1;
        lemma_list_cut(BondDecoder, d, j, k);
    }
    assert forall|d: Seq<u8>, i: int| 0 <= i && sp_molecule(d, i) is Ok implies i <= sp_molecule(d, i)->Ok_0.1 <= d.len() by {
        lemma_list_cut(AtomEntryDecoder, d, i, d.len() as int);
        let j = sp_list(AtomEntryDecoder, d, i)->Ok_0.1;
        lemma_list_cut(BondDecoder, d, j, d.len() as int);
    }
}

pub proof fn lemma_conduit_laws()
    ensures
        in_bounds(ConduitDecoder),
        framed(ConduitDecoder),
        cut_fails(ConduitDecoder),
{
    lemma_narrow_hex_laws();
    assert forall|d: Seq<u8>, i: int, k: int|
        0 <= i && sp_conduit(d, i) is Ok && 0 <= k <= d.len() implies
            i <= sp_conduit(d, i)->Ok_0.1 <= d.len()
            && (k < sp_conduit(d, i)->Ok_0.1 ==> sp_conduit(d.take(k), i) == Step::<crate::data::ConduitView>::Err(ParseError::UnexpectedEof))
            && (sp_conduit(d, i)->Ok_0.1 <= k ==> sp_conduit(d.take(k), i) == sp_conduit(d, i)) by {
        lemma_b_hex_cut(d, i, k);
        lemma_b_hex_cut(d, i + 2, k);
        lemma_list_cut(NarrowHexDecoder, d, i + 4, k);
    }
    assert forall|d: Seq<u8>, i: int| 0 <= i && sp_conduit(d, i) is Ok implies i <= sp_conduit(d, i)->Ok_0.1 <= d.len() by {
        lemma_b_hex_cut(d, i, d.len() as int);
        lemma_b_hex_cut(d, i + 2, d.len() as int);
        lemma_list_cut(NarrowHexDecoder, d, i + 4, d.len() as int);
    }
}

pub proof fn lemma_chamber_laws()
    ensures
        in_bounds(ChamberDecoder),
        framed(ChamberDecoder),
        cut_rejected(ChamberDecoder),
{
    assert(chamber_of(Seq::<char>::empty()) is None) by {
        reveal_strlit("Small");
        reveal_strlit("SmallWide");
        reveal_strlit("SmallWider");
        reveal_strlit("Medium");
        reveal_strlit("MediumWide");
        reveal_strlit("Large");
    }
    assert forall|d: Seq<u8>, i: int, k: int|
        0 <= i && sp_chamber(d, i) is Ok && 0 <= k <= d.len() implies
            i <= sp_chamber(d, i)->Ok_0.1 <= d.len()
            && (i <= k < sp_chamber(d, i)->Ok_0.1 ==> sp_chamber(d.take(k), i) is Err && (sp_chamber(d.take(k), i)->Err_0
                == ParseError::UnexpectedEof || sp_chamber(d.take(k), i)->Err_0 == ParseError::InvalidEnumValue))
            && (sp_chamber(d, i)->Ok_0.1 <= k ==> sp_chamber(d.take(k), i) == sp_chamber(d, i)) by {
        lemma_b_hex_cut(d, i, k);
        lemma_string_cut(d, i + 2, k);
        lemma_string_cut(d, i + 2, d.len() as int);
    }
    assert forall|d: Seq<u8>, i: int| 0 <= i && sp_chamber(d, i) is Ok implies i <= sp_chamber(d, i)->Ok_0.1 <= d.len() by {
        lemma_b_hex_cut(d, i, d.len() as int);
        lemma_string_cut(d, i + 2, d.len() as int);
    }
}

/// Cutting the buffer inside a run of records whose cuts are rejected rejects the run.
pub proof fn lemma_items_cut_rejected<D: Decoder>(dec: D, d: Seq<u8>, i: int, n: nat, k: int)
    requires
        in_bounds(dec),
        framed(dec),
        cut_rejected(dec),
        0 <= i <= k,
        i <= d.len(),
        sp_items(dec, d, i, n) is Ok,
        k < sp_items(dec, d, i, n)->Ok_0.1,
    ensures
        sp_items(dec, d.take(k), i, n) is Err,
        sp_items(dec, d.take(k), i, n)->Err_0 == ParseError::UnexpectedEof
            || sp_items(dec, d.take(k), i, n)->Err_0 == ParseError::InvalidEnumValue,
    decreases n,
{
    lemma_items_bounds(dec, d, i, n);
    if n > 0 {
        let prev = sp_items(dec, d, i, (n - 1) as nat);
        lemma_items_bounds(dec, d, i, (n - 1) as nat);
        let j = prev->Ok_0.1;
        if k < j {
            lemma_items_cut_rejected(dec, d, i, (n - 1) as nat, k);
        } else {
            lemma_items_frame(dec, d, i, (n - 1) as nat, k);
            assert(dec.spec_decode(d.take(k), j) is Err);
        }
    }
}

/// A list whose records' cuts are rejected: it ends within the buffer, reads nothing past
/// its end, and is rejected when the buffer is cut inside it.
pub proof fn lemma_list_cut_rejected<D: Decoder>(dec: D, d: Seq<u8>, i: int, k: int)
    requires
        in_bounds(dec),
        framed(dec),
        cut_rejected(dec),
        0 <= i,
        0 <= k <= d.len(),
        sp_list(dec, d, i) is Ok,
    ensures
        i <= sp_list(dec, d, i)->Ok_0.1 <= d.len(),
        k < sp_list(dec, d, i)->Ok_0.1 ==> sp_list(dec, d.take(k), i) is Err && (sp_list(dec, d.take(k), i)->Err_0
            == ParseError::UnexpectedEof || sp_list(dec, d.take(k), i)->Err_0 == ParseError::InvalidEnumValue),
        sp_list(dec, d, i)->Ok_0.1 <= k ==> sp_list(dec, d.take(k), i) == sp_list(dec, d, i),
{
    lemma_int_cut(d, i, k);
    let (n, j) = sp_int(d, i)->Ok_0;
    lemma_items_bounds(dec, d, j, n as nat);
    if j <= k {
        if k < sp_list(dec, d, i)->Ok_0.1 {
            lemma_items_cut_rejected(dec, d, j, n as nat, k);
        } else {
            lemma_items_frame(dec, d, j, n as nat, k);
        }
    }
}

/// Production info on a buffer cut at `k`.
pub proof fn lemma_production_cut(d: Seq<u8>, i: int, k: int)
    requires
        0 <= i,
        0 <= k <= d.len(),
        sp_production(d, i) is Ok,
    ensures
        i <= sp_production(d, i)->Ok_0.1 <= d.len(),
        k < sp_production(d, i)->Ok_0.1 ==> sp_production(d.take(k), i) is Err && (sp_production(d.take(k), i)->Err_0
            == ParseError::UnexpectedEof || sp_production(d.take(k), i)->Err_0 == ParseError::InvalidEnumValue),
        sp_production(d, i)->Ok_0.1 <= k ==> sp_production(d.take(k), i) == sp_production(d, i),
{
    lemma_chamber_laws();
    lemma_conduit_laws();
    lemma_byte_cut(d, i, k);
    if sp_byte(d, i)->Ok_0.0 != 0 {
        lemma_byte_cut(d, i + 1, k);
        lemma_byte_cut(d, i + 2, k);
        lemma_byte_cut(d, i + 3, k);
        lemma_list_cut_rejected(ChamberDecoder, d, i + 4, k);
        let j = sp_list(ChamberDecoder, d, i + 4)->Ok_0.1;
        lemma_list_cut(ConduitDecoder, d, j, k);
    }
}

/// Truncating a puzzle buffer anywhere before the end of its record makes decoding fail, with
/// `UnexpectedEof` or `InvalidEnumValue`; bytes after the record are never read.
pub proof fn lemma_puzzle_truncated(d: Seq<u8>, k: int)
    requires
        sp_puzzle(d, 0) is Ok,
        0 <= k <= d.len(),
    ensures
        sp_puzzle(d, 0)->Ok_0.1 <= d.len(),
        k < sp_puzzle(d, 0)->Ok_0.1 ==> spec_puzzle(d.take(k)) is Err && (spec_puzzle(d.take(k))->Err_0
            == ParseError::UnexpectedEof || spec_puzzle(d.take(k))->Err_0 == ParseError::InvalidEnumValue),
        sp_puzzle(d, 0)->Ok_0.1 <= k ==> spec_puzzle(d.take(k)) == spec_puzzle(d),
{
    lemma_molecule_laws();
    lemma_int_cut(d, 0, k);
    lemma_string_cut(d, 4, k);
    let j1 = sp_string(d, 4)->Ok_0.1;
    lemma_ulong_cut(d, j1, k);
    lemma_ulong_cut(d, j1 + 8, k);
    lemma_list_cut(MoleculeDecoder, d, j1 + 16, k);
    let j4 = sp_list(MoleculeDecoder, d, j1 + 16)->Ok_0.1;
    lemma_list_cut(MoleculeDecoder, d, j4, k);
    let j5 = sp_list(MoleculeDecoder, d, j4)->Ok_0.1;
    lemma_int_cut(d, j5, k);
    lemma_production_cut(d, j5 + 4, k);
}

} // verus!
