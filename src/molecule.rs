use vstd::prelude::*;
use crate::cursor::{decodes, sp_byte, sp_int, sp_sbyte, BaseParser, ParseError, Step};
use crate::data::{atom_map, atom_of, unique_cells, Atom, Bond, BondType, HexIndex, Molecule, MoleculeView};
use crate::decode::{sp_list, Decoder};

verus! {

/// A cell in the narrow form: two signed bytes.
pub open spec fn sp_b_hex(d: Seq<u8>, i: int) -> Step<HexIndex> {
    match sp_sbyte(d, i) {
        Ok((q, j)) => match sp_sbyte(d, j) {
            Ok((r, k)) => Ok((HexIndex { q: q as i32, r: r as i32 }, k)),
            Err(e) => Err(e),
        },
        Err(e) => Err(e),
    }
}

/// A cell in the wide form: two signed 32-bit integers.
pub open spec fn sp_i_hex(d: Seq<u8>, i: int) -> Step<HexIndex> {
    match sp_int(d, i) {
        Ok((q, j)) => match sp_int(d, j) {
            Ok((r, k)) => Ok((HexIndex { q, r }, k)),
            Err(e) => Err(e),
        },
        Err(e) => Err(e),
    }
}

/// An atom code.
pub open spec fn sp_atom(d: Seq<u8>, i: int) -> Step<Atom> {
    match sp_byte(d, i) {
        Ok((b, j)) => match atom_of(b) {
            Some(a) => Ok((a, j)),
            None => Err(ParseError::InvalidEnumValue),
        },
        Err(e) => Err(e),
    }
}

/// The bond type a byte stands for: `1` is a plain bond; otherwise only the three colour
/// bits (red `0x2`, black `0x4`, yellow `0x8`) may be set.
pub open spec fn bond_type_of(b: u8) -> Option<BondType> {
    if b == 1 {
        Some(BondType::Normal)
    } else if b & 0xf1 != 0 {
        None
    } else {
        Some(BondType::Triplex { red: b & 0x2 != 0, black: b & 0x4 != 0, yellow: b & 0x8 != 0 })
    }
}

/// A bond-type byte.
pub open spec fn sp_bond_type(d: Seq<u8>, i: int) -> Step<BondType> {
    match sp_byte(d, i) {
        Ok((b, j)) => match bond_type_of(b) {
            Some(t) => Ok((t, j)),
            None => Err(ParseError::InvalidBondType),
        },
        Err(e) => Err(e),
    }
}

/// A bond: its type, then its two endpoints in the narrow form.
pub open spec fn sp_bond(d: Seq<u8>, i: int) -> Step<Bond> {
    match sp_bond_type(d, i) {
        Ok((ty, j)) => match sp_b_hex(d, j) {
            Ok((start, k)) => match sp_b_hex(d, k) {
                Ok((end, l)) => Ok((Bond { start, end, ty }, l)),
                Err(e) => Err(e),
            },
            Err(e) => Err(e),
        },
        Err(e) => Err(e),
    }
}

/// An atom placement: the atom code, then its cell in the narrow form.
pub open spec fn sp_atom_entry(d: Seq<u8>, i: int) -> Step<(HexIndex, Atom)> {
    match sp_atom(d, i) {
        Ok((a, j)) => match sp_b_hex(d, j) {
            Ok((h, k)) => Ok(((h, a), k)),
            Err(e) => Err(e),
        },
        Err(e) => Err(e),
    }
}

/// A molecule: a list of atom placements, then a list of bonds.
pub open spec fn sp_molecule(d: Seq<u8>, i: int) -> Step<MoleculeView> {
    match sp_list(AtomEntryDecoder, d, i) {
        Ok((atoms, j)) => match sp_list(BondDecoder, d, j) {
            Ok((bonds, k)) => Ok((MoleculeView { atoms: atom_map(atoms), bonds: bonds.to_set() }, k)),
            Err(e) => Err(e),
        },
        Err(e) => Err(e),
    }
}

/// Reads cells in the narrow form.
pub struct NarrowHexDecoder;

/// Reads cells in the wide form.
pub struct WideHexDecoder;

/// Reads atom placements.
pub struct AtomEntryDecoder;

/// Reads bonds.
pub struct BondDecoder;

/// Reads molecules.
pub struct MoleculeDecoder;

impl Decoder for NarrowHexDecoder {
    type Out = HexIndex;

    open spec fn spec_decode(&self, d: Seq<u8>, i: int) -> Step<HexIndex> {
        sp_b_hex(d, i)
    }

    open spec fn valid(&self, x: HexIndex) -> bool {
        true
    }

    fn decode(&self, p: &mut BaseParser<'_>) -> (r: Result<HexIndex, ParseError>) {
        p.parse_b_hex_index()
    }
}

impl Decoder for WideHexDecoder {
    type Out = HexIndex;

    open spec fn spec_decode(&self, d: Seq<u8>, i: int) -> Step<HexIndex> {
        sp_i_hex(d, i)
    }

    open spec fn valid(&self, x: HexIndex) -> bool {
        true
    }

    fn decode(&self, p: &mut BaseParser<'_>) -> (r: Result<HexIndex, ParseError>) {
        p.parse_i_hex_index()
    }
}

impl Decoder for AtomEntryDecoder {
    type Out = (HexIndex, Atom);

    open spec fn spec_decode(&self, d: Seq<u8>, i: int) -> Step<(HexIndex, Atom)> {
        sp_atom_entry(d, i)
    }

    open spec fn valid(&self, x: (HexIndex, Atom)) -> bool {
        true
    }

    fn decode(&self, p: &mut BaseParser<'_>) -> (r: Result<(HexIndex, Atom), ParseError>) {
        let atom = p.parse_atom()?;
        let index = p.parse_b_hex_index()?;
        Ok((index, atom))
    }
}

impl Decoder for BondDecoder {
    type Out = Bond;

    open spec fn spec_decode(&self, d: Seq<u8>, i: int) -> Step<Bond> {
        sp_bond(d, i)
    }

    open spec fn valid(&self, x: Bond) -> bool {
        true
    }

    fn decode(&self, p: &mut BaseParser<'_>) -> (r: Result<Bond, ParseError>) {
        p.parse_bond()
    }
}

impl Decoder for MoleculeDecoder {
    type Out = Molecule;

    open spec fn spec_decode(&self, d: Seq<u8>, i: int) -> Step<MoleculeView> {
        sp_molecule(d, i)
    }

    open spec fn valid(&self, x: Molecule) -> bool {
        x.wf()
    }

    fn decode(&self, p: &mut BaseParser<'_>) -> (r: Result<Molecule, ParseError>) {
        p.parse_molecule()
    }
}

impl<'a> BaseParser<'a> {
    /// A cell in the narrow form; see `sp_b_hex`.
    pub fn parse_b_hex_index(&mut self) -> (r: Result<HexIndex, ParseError>)
        requires
            old(self).wf(),
        ensures
            final(self).wf(),
            final(self).data@ == old(self).data@,
            decodes(r, sp_b_hex(old(self).data@, old(self).pos as int), final(self).pos as int),
    {
        let q = self.parse_sbyte()?;
        let r = self.parse_sbyte()?;
        Ok(HexIndex { q: q as i32, r: r as i32 })
    }

    /// A cell in the wide form; see `sp_i_hex`.
    pub fn parse_i_hex_index(&mut self) -> (r: Result<HexIndex, ParseError>)
        requires
            old(self).wf(),
        ensures
            final(self).wf(),
            final(self).data@ == old(self).data@,
            decodes(r, sp_i_hex(old(self).data@, old(self).pos as int), final(self).pos as int),
    {
        let q = self.parse_int()?;
        let r = self.parse_int()?;
        Ok(HexIndex { q, r })
    }

    /// An atom code; see `sp_atom`.
    pub fn parse_atom(&mut self) -> (r: Result<Atom, ParseError>)
        requires
            old(self).wf(),
        ensures
            final(self).wf(),
            final(self).data@ == old(self).data@,
            decodes(r, sp_atom(old(self).data@, old(self).pos as int), final(self).pos as int),
    {
        match Atom::from_id(self.parse_byte()?) {
            Some(a) => Ok(a),
            None => Err(ParseError::InvalidEnumValue),
        }
    }

    /// A bond-type byte; see `bond_type_of`.
    pub fn parse_bond_type(&mut self) -> (r: Result<BondType, ParseError>)
        requires
            old(self).wf(),
        ensures
            final(self).wf(),
            final(self).data@ == old(self).data@,
            decodes(r, sp_bond_type(old(self).data@, old(self).pos as int), final(self).pos as int),
    {
        let ty = self.parse_byte()?;
        if ty == 1 {
            Ok(BondType::Normal)
        } else if ty & 0xf1 != 0 {
            Err(ParseError::InvalidBondType)
        } else {
            Ok(BondType::Triplex { red: ty & 0x2 != 0, black: ty & 0x4 != 0, yellow: ty & 0x8 != 0 })
        }
    }

    /// A bond; see `sp_bond`.
    pub fn parse_bond(&mut self) -> (r: Result<Bond, ParseError>)
        requires
            old(self).wf(),
        ensures
            final(self).wf(),
            final(self).data@ == old(self).data@,
            decodes(r, sp_bond(old(self).data@, old(self).pos as int), final(self).pos as int),
    {
        let ty = self.parse_bond_type()?;
        let start = self.parse_b_hex_index()?;
        let end = self.parse_b_hex_index()?;
        Ok(Bond { start, end, ty })
    }

    /// A molecule; see `sp_molecule`.
    pub fn parse_molecule(&mut self) -> (r: Result<Molecule, ParseError>)
        requires
            old(self).wf(),
        ensures
            final(self).wf(),
            final(self).data@ == old(self).data@,
            decodes(r, sp_molecule(old(self).data@, old(self).pos as int), final(self).pos as int),
            r is Ok ==> r->Ok_0.wf(),
    {
        let entries = self.parse_list(&AtomEntryDecoder)?;
        let bonds = self.parse_list(&BondDecoder)?;
        proof {
            assert(entries@ =~= crate::data::views(entries@));
            assert(bonds@ =~= crate::data::views(bonds@));
        }
        Ok(Molecule { atoms: place_atoms(&entries), bonds: distinct_bonds(&bonds) })
    }
}

/// Overwriting the atom on a cell that occurs once is inserting into the map.
pub proof fn lemma_atom_map_update(s: Seq<(HexIndex, Atom)>, j: int, a: Atom)
    requires
        unique_cells(s),
        0 <= j < s.len(),
    ensures
        atom_map(s.update(j, (s[j].0, a))) == atom_map(s).insert(s[j].0, a),
    decreases s.len(),
{
    let t = s.update(j, (s[j].0, a));
    if j == s.len() - 1 {
        assert(t.drop_last() =~= s.drop_last());
        assert(atom_map(t) =~= atom_map(s).insert(s[j].0, a));
    } else {
        assert(t.drop_last() =~= s.drop_last().update(j, (s[j].0, a)));
        lemma_atom_map_update(s.drop_last(), j, a);
        assert(s.last().0 != s[j].0);
        assert(atom_map(t) =~= atom_map(s).insert(s[j].0, a));
    }
}

/// The placements with one per cell, the last for each cell winning.
fn place_atoms(entries: &Vec<(HexIndex, Atom)>) -> (r: Vec<(HexIndex, Atom)>)
    ensures
        unique_cells(r@),
        atom_map(r@) == atom_map(entries@),
{
    let mut out: Vec<(HexIndex, Atom)> = Vec::new();
    let mut k: usize = 0;
    while k < entries.len()
        invariant
            k <= entries@.len(),
            unique_cells(out@),
            atom_map(out@) == atom_map(entries@.take(k as int)),
        decreases entries@.len() - k,
    {
        let e = entries[k];
        let mut j: usize = 0;
        while j < out.len() && out[j].0 != e.0
            invariant
                j <= out@.len(),
                forall|t: int| 0 <= t < j ==> out@[t].0 != e.0,
            decreases out@.len() - j,
        {
            j = j + 1;
        }
        assert(entries@.take(k + 1).drop_last() =~= entries@.take(k as int));
        if j < out.len() {
            proof {
                lemma_atom_map_update(out@, j as int, e.1);
            }
            out.set(j, e);
            assert(out@[j as int] == e);
        } else {
            assert(out@.push(e).drop_last() =~= out@);
            out.push(e);
        }
        k = k + 1;
    }
    assert(entries@.take(k as int) =~= entries@);
    out
}

/// The bonds with each distinct bond once.
fn distinct_bonds(bonds: &Vec<Bond>) -> (r: Vec<Bond>)
    ensures
        r@.no_duplicates(),
        r@.to_set() == bonds@.to_set(),
{
    let mut out: Vec<Bond> = Vec::new();
    let mut k: usize = 0;
    while k < bonds.len()
        invariant
            k <= bonds@.len(),
            out@.no_duplicates(),
            out@.to_set() == bonds@.take(k as int).to_set(),
        decreases bonds@.len() - k,
    {
        let b = bonds[k];
        let mut j: usize = 0;
        while j < out.len() && out[j] != b
            invariant
                j <= out@.len(),
                forall|t: int| 0 <= t < j ==> out@[t] != b,
            decreases out@.len() - j,
        {
            j = j + 1;
        }
        assert(bonds@.take(k + 1) =~= bonds@.take(k as int).push(b));
        assert(bonds@.take(k + 1).to_set() =~= bonds@.take(k as int).to_set().insert(b)) by {
            assert(forall|x: Bond| bonds@.take(k + 1).contains(x) <==> (bonds@.take(k as int).contains(x) || x == b)) by {
                assert(forall|t: int| 0 <= t < k ==> bonds@.take(k + 1)[t] == bonds@.take(k as int)[t]);
                assert(bonds@.take(k + 1)[k as int] == b);
            }
        }
        if j == out.len() {
            assert(out@.push(b).to_set() =~= out@.to_set().insert(b)) by {
                assert(forall|x: Bond| out@.push(b).contains(x) <==> (out@.contains(x) || x == b)) by {
                    assert(forall|t: int| 0 <= t < out@.len() ==> out@.push(b)[t] == out@[t]);
                    assert(out@.push(b)[out@.len() as int] == b);
                }
            }
            out.push(b);
        } else {
            assert(out@.to_set().contains(b)) by {
                assert(out@[j as int] == b);
            }
            assert(out@.to_set().insert(b) =~= out@.to_set());
        }
        k = k + 1;
    }
    assert(bonds@.take(k as int) =~= bonds@);
    out
}

} // verus!
