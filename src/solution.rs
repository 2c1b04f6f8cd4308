use vstd::prelude::*;
use crate::cursor::{decodes, sp_byte, sp_int, sp_string, BaseParser, ParseError, Step};
use crate::data::{
    instruction_of, part_type_of, str_eq, HexIndex, Instruction, Metrics, Part, PartType, PartView,
    Solution, SolutionView,
};
use crate::decode::{sp_list, Decoder};
use crate::molecule::WideHexDecoder;

verus! {

/// The solution format version this library reads.
pub const SOLUTION_VERSION: i32 = 7;

/// One step of an instruction tape: the cycle index, then the instruction code.
pub open spec fn sp_instruction(d: Seq<u8>, i: int) -> Step<(Instruction, i32)> {
    match sp_int(d, i) {
        Ok((idx, j)) => match sp_byte(d, j) {
            Ok((code, k)) => match instruction_of(code) {
                Some(ins) => Ok(((ins, idx), k)),
                None => Err(ParseError::InvalidEnumValue),
            },
            Err(e) => Err(e),
        },
        Err(e) => Err(e),
    }
}

/// A list of wide cells where `present` holds; nothing read, and no cells, where it does not.
pub open spec fn sp_hexes_if(present: bool, d: Seq<u8>, i: int) -> Step<Seq<HexIndex>> {
    if present {
        sp_list(WideHexDecoder, d, i)
    } else {
        Ok((Seq::empty(), i))
    }
}

/// `x + 1`, wrapping past the largest 32-bit value.
pub open spec fn inc_wrap(x: i32) -> i32 {
    if x == i32::MAX {
        i32::MIN
    } else {
        (x + 1) as i32
    }
}

/// What follows a part's instruction tape: its track path (only for a track), its 0-based
/// arm number, and its conduit index and path (only for a pipe).
pub open spec fn sp_part_tail(name: Seq<char>, d: Seq<u8>, i: int) -> Step<(Seq<HexIndex>, i32, i32, Seq<HexIndex>)> {
    match sp_hexes_if(name == "track"@, d, i) {
        Ok((track, j1)) => match sp_int(d, j1) {
            Ok((arm, j2)) => if name == "pipe"@ {
                match sp_int(d, j2) {
                    Ok((ci, j3)) => match sp_list(WideHexDecoder, d, j3) {
                        Ok((ch, j4)) => Ok(((track, inc_wrap(arm), ci, ch), j4)),
                        Err(e) => Err(e),
                    },
                    Err(e) => Err(e),
                }
            } else {
                Ok(((track, inc_wrap(arm), 0i32, Seq::empty()), j2))
            },
            Err(e) => Err(e),
        },
        Err(e) => Err(e),
    }
}

/// The fixed fields of a part after its name: the marker byte `1`, the position, arm length,
/// rotation and index, then the instruction tape.
pub open spec fn sp_part_head(d: Seq<u8>, i: int) -> Step<(HexIndex, i32, i32, i32, Seq<(Instruction, i32)>)> {
    match sp_byte(d, i) {
        Ok((marker, j0)) => if marker != 1 {
            Err(ParseError::StructuralSentinelMismatch)
        } else {
            match crate::molecule::sp_i_hex(d, j0) {
                Ok((pos, j1)) => match sp_int(d, j1) {
                    Ok((arm_length, j2)) => match sp_int(d, j2) {
                        Ok((rotation, j3)) => match sp_int(d, j3) {
                            Ok((index, j4)) => match sp_list(InstructionDecoder, d, j4) {
                                Ok((tape, j5)) => Ok(((pos, arm_length, rotation, index, tape), j5)),
                                Err(e) => Err(e),
                            },
                            Err(e) => Err(e),
                        },
                        Err(e) => Err(e),
                    },
                    Err(e) => Err(e),
                },
                Err(e) => Err(e),
            }
        },
        Err(e) => Err(e),
    }
}

/// A part record. Its name decides which trailing fields are present; a name that is no
/// part type is rejected once the whole record has been read.
pub open spec fn sp_part(d: Seq<u8>, i: int) -> Step<PartView> {
    match sp_string(d, i) {
        Ok((name, j1)) => match sp_part_head(d, j1) {
            Ok(((pos, arm_length, rotation, index, instructions), j2)) => match sp_part_tail(name, d, j2) {
                Ok(((track_hexes, arm_number, conduit_index, conduit_hexes), j3)) => match part_type_of(name) {
                    Some(ty) => Ok(
                        (
                            PartView {
                                ty,
                                pos,
                                rotation,
                                arm_number,
                                arm_length,
                                index,
                                conduit_index,
                                track_hexes,
                                conduit_hexes,
                                instructions,
                            },
                            j3,
                        ),
                    ),
                    None => Err(ParseError::InvalidEnumValue),
                },
                Err(e) => Err(e),
            },
            Err(e) => Err(e),
        },
        Err(e) => Err(e),
    }
}

/// A metric value behind its sentinel, which must read `tag`.
pub open spec fn sp_tagged(d: Seq<u8>, i: int, tag: i32) -> Step<i32> {
    match sp_int(d, i) {
        Ok((t, j)) => if t != tag {
            Err(ParseError::StructuralSentinelMismatch)
        } else {
            sp_int(d, j)
        },
        Err(e) => Err(e),
    }
}

/// The four metrics, behind the sentinels `0`, `1`, `2`, `3` in order.
pub open spec fn sp_metrics_body(d: Seq<u8>, i: int) -> Step<Metrics> {
    match sp_tagged(d, i, 0) {
        Ok((cycles, j1)) => match sp_tagged(d, j1, 1) {
            Ok((cost, j2)) => match sp_tagged(d, j2, 2) {
                Ok((area, j3)) => match sp_tagged(d, j3, 3) {
                    Ok((instructions, j4)) => Ok((Metrics { cycles, cost, area, instructions }, j4)),
                    Err(e) => Err(e),
                },
                Err(e) => Err(e),
            },
            Err(e) => Err(e),
        },
        Err(e) => Err(e),
    }
}

/// Optional metrics: the tag `0` for none, `4` for four metrics; any other tag is rejected.
pub open spec fn sp_metrics(d: Seq<u8>, i: int) -> Step<Option<Metrics>> {
    match sp_int(d, i) {
        Ok((tag, j)) => if tag == 0 {
            Ok((None, j))
        } else if tag == 4 {
            match sp_metrics_body(d, j) {
                Ok((m, k)) => Ok((Some(m), k)),
                Err(e) => Err(e),
            }
        } else {
            Err(ParseError::FormatVersionMismatch)
        },
        Err(e) => Err(e),
    }
}

/// A solution record: the version, which must be `SOLUTION_VERSION`, the puzzle name, the
/// solution name, the metrics and the parts.
pub open spec fn sp_solution(d: Seq<u8>, i: int) -> Step<SolutionView> {
    match sp_int(d, i) {
        Ok((version, j)) => if version != SOLUTION_VERSION {
            Err(ParseError::FormatVersionMismatch)
        } else {
            match sp_string(d, j) {
                Ok((puzzle_name, j1)) => match sp_string(d, j1) {
                    Ok((name, j2)) => match sp_metrics(d, j2) {
                        Ok((metrics, j3)) => match sp_list(PartDecoder, d, j3) {
                            Ok((parts, j4)) => Ok((SolutionView { puzzle_name, name, metrics, parts }, j4)),
                            Err(e) => Err(e),
                        },
                        Err(e) => Err(e),
                    },
                    Err(e) => Err(e),
                },
                Err(e) => Err(e),
            }
        },
        Err(e) => Err(e),
    }
}

/// A whole solution file: a solution record at its start; bytes after it are not read.
pub open spec fn spec_solution(d: Seq<u8>) -> Result<SolutionView, ParseError> {
    match sp_solution(d, 0) {
        Ok((v, _)) => Ok(v),
        Err(e) => Err(e),
    }
}

/// Reads instruction tape steps.
pub struct InstructionDecoder;

/// Reads part records.
pub struct PartDecoder;

impl Decoder for InstructionDecoder {
    type Out = (Instruction, i32);

    open spec fn spec_decode(&self, d: Seq<u8>, i: int) -> Step<(Instruction, i32)> {
        sp_instruction(d, i)
    }

    open spec fn valid(&self, x: (Instruction, i32)) -> bool {
        true
    }

    fn decode(&self, p: &mut BaseParser<'_>) -> (r: Result<(Instruction, i32), ParseError>) {
        let idx = p.parse_int()?;
        let code = p.parse_byte()?;
        match Instruction::from_id(code) {
            Some(ins) => {
                let r = (ins, idx);
                assert(r@ == (ins, idx));
                Ok(r)
            },
            None => Err(ParseError::InvalidEnumValue),
        }
    }
}

impl Decoder for PartDecoder {
    type Out = Part;

    open spec fn spec_decode(&self, d: Seq<u8>, i: int) -> Step<PartView> {
        sp_part(d, i)
    }

    open spec fn valid(&self, x: Part) -> bool {
        true
    }

    fn decode(&self, p: &mut BaseParser<'_>) -> (r: Result<Part, ParseError>) {
        parse_part(p)
    }
}

/// A list of wide cells if `present`; see `sp_hexes_if`.
fn parse_hexes_if(p: &mut BaseParser<'_>, present: bool) -> (r: Result<Vec<HexIndex>, ParseError>)
    requires
        old(p).wf(),
    ensures
        final(p).wf(),
        final(p).data@ == old(p).data@,
        decodes(r, sp_hexes_if(present, old(p).data@, old(p).pos as int), final(p).pos as int),
{
    if present {
        let v = p.parse_list(&WideHexDecoder)?;
        proof {
            assert(v@ =~= crate::data::views(v@));
        }
        Ok(v)
    } else {
        let v: Vec<HexIndex> = Vec::new();
        assert(v@ =~= Seq::<HexIndex>::empty());
        Ok(v)
    }
}

/// A part record; see `sp_part`.
fn parse_part(p: &mut BaseParser<'_>) -> (r: Result<Part, ParseError>)
    requires
        old(p).wf(),
    ensures
        final(p).wf(),
        final(p).data@ == old(p).data@,
        decodes(r, sp_part(old(p).data@, old(p).pos as int), final(p).pos as int),
{
    let part_name = p.parse_string()?;
    let ghost j1 = p.pos as int;
    if p.parse_byte()? != 1 {
        return Err(ParseError::StructuralSentinelMismatch);
    }
    let pos = p.parse_i_hex_index()?;
    let arm_length = p.parse_int()?;
    let rotation = p.parse_int()?;
    let index = p.parse_int()?;
    let instructions = p.parse_list(&InstructionDecoder)?;
    proof {
        assert(instructions@ =~= crate::data::views(instructions@));
    }
    let is_track = str_eq(part_name.as_str(), "track");
    let track_hexes = parse_hexes_if(p, is_track)?;
    let raw_arm = p.parse_int()?;
    let arm_number = if raw_arm == i32::MAX {
        i32::MIN
    } else {
        raw_arm + 1
    };
    let is_pipe = str_eq(part_name.as_str(), "pipe");
    let conduit_index = if is_pipe {
        p.parse_int()?
    } else {
        0
    };
    let conduit_hexes = parse_hexes_if(p, is_pipe)?;
    match PartType::from_name(part_name.as_str()) {
        Some(ty) => Ok(
            Part {
                ty,
                pos,
                rotation,
                arm_number,
                arm_length,
                index,
                conduit_index,
                track_hexes,
                conduit_hexes,
                instructions,
            },
        ),
        None => Err(ParseError::InvalidEnumValue),
    }
}

/// Optional metrics; see `sp_metrics`.
fn parse_metrics(p: &mut BaseParser<'_>) -> (r: Result<Option<Metrics>, ParseError>)
    requires
        old(p).wf(),
    ensures
        final(p).wf(),
        final(p).data@ == old(p).data@,
        match sp_metrics(old(p).data@, old(p).pos as int) {
            Ok((v, j)) => r == Result::<Option<Metrics>, ParseError>::Ok(v) && final(p).pos == j,
            Err(e) => r == Result::<Option<Metrics>, ParseError>::Err(e),
        },
{
    let tag = p.parse_int()?;
    if tag == 0 {
        return Ok(None);
    }
    if tag != 4 {
        return Err(ParseError::FormatVersionMismatch);
    }
    if p.parse_int()? != 0 {
        return Err(ParseError::StructuralSentinelMismatch);
    }
    let cycles = p.parse_int()?;
    if p.parse_int()? != 1 {
        return Err(ParseError::StructuralSentinelMismatch);
    }
    let cost = p.parse_int()?;
    if p.parse_int()? != 2 {
        return Err(ParseError::StructuralSentinelMismatch);
    }
    let area = p.parse_int()?;
    if p.parse_int()? != 3 {
        return Err(ParseError::StructuralSentinelMismatch);
    }
    let instructions = p.parse_int()?;
    Ok(Some(Metrics { cycles, cost, area, instructions }))
}

/// Decodes a solution file. The result is exactly what `spec_solution` gives for the bytes:
/// the solution, or the first error met.
pub fn parse_solution(data: &[u8]) -> (r: Result<Solution, ParseError>)
    ensures
        match spec_solution(data@) {
            Ok(v) => r is Ok && r->Ok_0@ == v,
            Err(e) => r == Result::<Solution, ParseError>::Err(e),
        },
{
    let mut parser = BaseParser::new(data);
    if parser.parse_int()? != SOLUTION_VERSION {
        return Err(ParseError::FormatVersionMismatch);
    }
    let puzzle_name = parser.parse_string()?;
    let name = parser.parse_string()?;
    let metrics = parse_metrics(&mut parser)?;
    let parts = parser.parse_list(&PartDecoder)?;
    Ok(Solution { puzzle_name, name, metrics, parts })
}

} // verus!
