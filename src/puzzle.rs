use vstd::prelude::*;
use crate::cursor::{sp_bool, sp_int, sp_string, sp_ulong, BaseParser, ParseError, Step};
use crate::data::{
    chamber_of, Chamber, ChamberType, Conduit, ConduitView, Permissions, ProductionInfo,
    ProductionInfoView, Puzzle, PuzzleView,
};
use crate::decode::{sp_list, Decoder};
use crate::molecule::{sp_b_hex, MoleculeDecoder, NarrowHexDecoder};

verus! {

/// The puzzle format version this library reads.
pub const PUZZLE_VERSION: i32 = 3;

/// A chamber: its cell in the narrow form, then the name of its type.
pub open spec fn sp_chamber(d: Seq<u8>, i: int) -> Step<Chamber> {
    match sp_b_hex(d, i) {
        Ok((pos, j)) => match sp_string(d, j) {
            Ok((name, k)) => match chamber_of(name) {
                Some(ty) => Ok((Chamber { pos, ty }, k)),
                None => Err(ParseError::InvalidEnumValue),
            },
            Err(e) => Err(e),
        },
        Err(e) => Err(e),
    }
}

/// A conduit: two endpoints in the narrow form, then a list of path cells.
pub open spec fn sp_conduit(d: Seq<u8>, i: int) -> Step<ConduitView> {
    match sp_b_hex(d, i) {
        Ok((pos_a, j)) => match sp_b_hex(d, j) {
            Ok((pos_b, k)) => match sp_list(NarrowHexDecoder, d, k) {
                Ok((hexes, l)) => Ok((ConduitView { pos_a, pos_b, hexes }, l)),
                Err(e) => Err(e),
            },
            Err(e) => Err(e),
        },
        Err(e) => Err(e),
    }
}

/// The body of production info: two visual flags that are skipped, the isolation flag,
/// then the chambers and the conduits.
pub open spec fn sp_production_body(d: Seq<u8>, i: int) -> Step<ProductionInfoView> {
    match sp_bool(d, i) {
        Ok((_, j1)) => match sp_bool(d, j1) {
            Ok((_, j2)) => match sp_bool(d, j2) {
                Ok((isolation, j3)) => match sp_list(ChamberDecoder, d, j3) {
                    Ok((chambers, j4)) => match sp_list(ConduitDecoder, d, j4) {
                        Ok((conduits, j5)) => Ok((ProductionInfoView { isolation, chambers, conduits }, j5)),
                        Err(e) => Err(e),
                    },
                    Err(e) => Err(e),
                },
                Err(e) => Err(e),
            },
            Err(e) => Err(e),
        },
        Err(e) => Err(e),
    }
}

/// Optional production info, behind a presence flag.
pub open spec fn sp_production(d: Seq<u8>, i: int) -> Step<Option<ProductionInfoView>> {
    match sp_bool(d, i) {
        Ok((present, j)) => if present {
            match sp_production_body(d, j) {
                Ok((p, k)) => Ok((Some(p), k)),
                Err(e) => Err(e),
            }
        } else {
            Ok((None, j))
        },
        Err(e) => Err(e),
    }
}

/// The fields of a puzzle after its version.
pub open spec fn sp_puzzle_fields(d: Seq<u8>, i: int) -> Step<PuzzleView> {
    match sp_string(d, i) {
        Ok((name, j1)) => match sp_ulong(d, j1) {
            Ok((creator_id, j2)) => match sp_ulong(d, j2) {
                Ok((bits, j3)) => match sp_list(MoleculeDecoder, d, j3) {
                    Ok((reagents, j4)) => match sp_list(MoleculeDecoder, d, j4) {
                        Ok((products, j5)) => match sp_int(d, j5) {
                            Ok((product_multiplier, j6)) => match sp_production(d, j6) {
                                Ok((production_info, j7)) => Ok((
                                    PuzzleView {
                                        name,
                                        creator_id,
                                        reagents,
                                        products,
                                        product_multiplier,
                                        permissions: Permissions { bits },
                                        production_info,
                                    },
                                    j7,
                                )),
                                Err(e) => Err(e),
                            },
                            Err(e) => Err(e),
                        },
                        Err(e) => Err(e),
                    },
                    Err(e) => Err(e),
                },
                Err(e) => Err(e),
            },
            Err(e) => Err(e),
        },
        Err(e) => Err(e),
    }
}

/// A puzzle record: the version, which must be `PUZZLE_VERSION`, then the fields.
pub open spec fn sp_puzzle(d: Seq<u8>, i: int) -> Step<PuzzleView> {
    match sp_int(d, i) {
        Ok((version, j)) => if version != PUZZLE_VERSION {
            Err(ParseError::FormatVersionMismatch)
        } else {
            sp_puzzle_fields(d, j)
        },
        Err(e) => Err(e),
    }
}

/// A whole puzzle file: a puzzle record at its start; bytes after it are not read.
pub open spec fn spec_puzzle(d: Seq<u8>) -> Result<PuzzleView, ParseError> {
    match sp_puzzle(d, 0) {
        Ok((v, _)) => Ok(v),
        Err(e) => Err(e),
    }
}

/// Reads chambers.
pub struct ChamberDecoder;

/// Reads conduits.
pub struct ConduitDecoder;

impl Decoder for ChamberDecoder {
    type Out = Chamber;

    open spec fn spec_decode(&self, d: Seq<u8>, i: int) -> Step<Chamber> {
        sp_chamber(d, i)
    }

    open spec fn valid(&self, x: Chamber) -> bool {
        true
    }

    fn decode(&self, p: &mut BaseParser<'_>) -> (r: Result<Chamber, ParseError>) {
        let pos = p.parse_b_hex_index()?;
        let name = p.parse_string()?;
        match ChamberType::from_name(name.as_str()) {
            Some(ty) => Ok(Chamber { pos, ty }),
            None => Err(ParseError::InvalidEnumValue),
        }
    }
}

impl Decoder for ConduitDecoder {
    type Out = Conduit;

    open spec fn spec_decode(&self, d: Seq<u8>, i: int) -> Step<ConduitView> {
        sp_conduit(d, i)
    }

    open spec fn valid(&self, x: Conduit) -> bool {
        true
    }

    fn decode(&self, p: &mut BaseParser<'_>) -> (r: Result<Conduit, ParseError>) {
        let pos_a = p.parse_b_hex_index()?;
        let pos_b = p.parse_b_hex_index()?;
        let hexes = p.parse_list(&NarrowHexDecoder)?;
        proof {
            assert(hexes@ =~= crate::data::views(hexes@));
        }
        Ok(Conduit { pos_a, pos_b, hexes })
    }
}

/// Optional production info; see `sp_production`.
fn parse_production(p: &mut BaseParser<'_>) -> (r: Result<Option<ProductionInfo>, ParseError>)
    requires
        old(p).wf(),
    ensures
        final(p).wf(),
        final(p).data@ == old(p).data@,
        match sp_production(old(p).data@, old(p).pos as int) {
            Ok((v, j)) => r is Ok && crate::data::opt_view(r->Ok_0) == v && final(p).pos == j,
            Err(e) => r == Result::<Option<ProductionInfo>, ParseError>::Err(e),
        },
{
    if !p.parse_bool()? {
        return Ok(None);
    }
    let _shrink_left = p.parse_bool()?;
    let _shrink_right = p.parse_bool()?;
    let isolation = p.parse_bool()?;
    let chambers = p.parse_list(&ChamberDecoder)?;
    let conduits = p.parse_list(&ConduitDecoder)?;
    proof {
        assert(chambers@ =~= crate::data::views(chambers@));
    }
    Ok(Some(ProductionInfo { isolation, chambers, conduits }))
}

/// Decodes a puzzle file. The result is exactly what `spec_puzzle` gives for the bytes:
/// the puzzle, or the first error met. Every molecule holds each cell and each bond once.
pub fn parse_puzzle(data: &[u8]) -> (r: Result<Puzzle, ParseError>)
    ensures
        match spec_puzzle(data@) {
            Ok(v) => r is Ok && r->Ok_0@ == v,
            Err(e) => r == Result::<Puzzle, ParseError>::Err(e),
        },
        r is Ok ==> forall|t: int| 0 <= t < r->Ok_0.reagents@.len() ==> #[trigger] r->Ok_0.reagents@[t].wf(),
        r is Ok ==> forall|t: int| 0 <= t < r->Ok_0.products@.len() ==> #[trigger] r->Ok_0.products@[t].wf(),
{
    let mut parser = BaseParser::new(data);
    if parser.parse_int()? != PUZZLE_VERSION {
        return Err(ParseError::FormatVersionMismatch);
    }
    let name = parser.parse_string()?;
    let creator_id = parser.parse_ulong()?;
    let permissions = Permissions::from_bits_retain(parser.parse_ulong()?);
    let reagents = parser.parse_list(&MoleculeDecoder)?;
    let products = parser.parse_list(&MoleculeDecoder)?;
    let product_multiplier = parser.parse_int()?;
    let production_info = parse_production(&mut parser)?;
    Ok(Puzzle { name, creator_id, reagents, products, product_multiplier, permissions, production_info })
}

} // verus!
