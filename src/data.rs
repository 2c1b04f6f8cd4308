use vstd::prelude::*;
use vstd::utf8::encode_utf8_decode_utf8;

verus! {

/// A cell of the hex grid, in axial coordinates.
#[derive(Copy, Clone, Debug, Default, PartialEq, Eq, Hash, Structural)]
pub struct HexIndex {
    pub q: i32,
    pub r: i32,
}

/// The six sizes of production chamber.
#[derive(Copy, Clone, Debug, PartialEq, Eq, Hash, Structural)]
pub enum ChamberType {
    Small,
    SmallWide,
    SmallWider,
    Medium,
    MediumWide,
    Large,
}

/// The chamber type a name stands for, if any.
pub open spec fn chamber_of(s: Seq<char>) -> Option<ChamberType> {
    if s == "Small"@ {
        Some(ChamberType::Small)
    } else if s == "SmallWide"@ {
        Some(ChamberType::SmallWide)
    } else if s == "SmallWider"@ {
        Some(ChamberType::SmallWider)
    } else if s == "Medium"@ {
        Some(ChamberType::Medium)
    } else if s == "MediumWide"@ {
        Some(ChamberType::MediumWide)
    } else if s == "Large"@ {
        Some(ChamberType::Large)
    } else {
        None
    }
}

/// Equality of two strings, by their UTF-8 bytes.
pub fn str_eq(a: &str, b: &str) -> (r: bool)
    ensures
        r == (a@ == b@),
{
    let x = a.as_bytes();
    let y = b.as_bytes();
    proof {
        encode_utf8_decode_utf8(a@);
        encode_utf8_decode_utf8(b@);
    }
    if x.len() != y.len() {
        return false;
    }
    let mut i: usize = 0;
    while i < x.len()
        invariant
            x@ == vstd::utf8::encode_utf8(a@),
            y@ == vstd::utf8::encode_utf8(b@),
            x@.len() == y@.len(),
            i <= x@.len(),
            x@.subrange(0, i as int) == y@.subrange(0, i as int),
        decreases x@.len() - i,
    {
        if x[i] != y[i] {
            assert(x@[i as int] != y@[i as int]);
            return false;
        }
        assert(x@.subrange(0, i + 1) =~= x@.subrange(0, i as int).push(x@[i as int]));
        assert(y@.subrange(0, i + 1) =~= y@.subrange(0, i as int).push(y@[i as int]));
        i = i + 1;
    }
    assert(x@ =~= x@.subrange(0, i as int));
    assert(y@ =~= y@.subrange(0, i as int));
    true
}

impl ChamberType {
    /// Looks a chamber type up by its exact name.
    pub fn from_name(name: &str) -> (r: Option<ChamberType>)
        ensures
            r == chamber_of(name@),
    {
        if str_eq(name, "Small") {
            Some(ChamberType::Small)
        } else if str_eq(name, "SmallWide") {
            Some(ChamberType::SmallWide)
        } else if str_eq(name, "SmallWider") {
            Some(ChamberType::SmallWider)
        } else if str_eq(name, "Medium") {
            Some(ChamberType::Medium)
        } else if str_eq(name, "MediumWide") {
            Some(ChamberType::MediumWide)
        } else if str_eq(name, "Large") {
            Some(ChamberType::Large)
        } else {
            None
        }
    }
}


/// The elements and materials an atom can be made of.
#[derive(Copy, Clone, Debug, Default, PartialEq, Eq, Hash, Structural)]
pub enum Atom {
    #[default]
    Salt, Air, Earth, Fire, Water,
    Quicksilver, Vitae, Mors,
    Lead, Tin, Iron, Copper, Silver, Gold,
    Quintessence,
    Repeat,
}

/// The atom a code of the byte stream stands for, if any.
pub open spec fn atom_of(id: u8) -> Option<Atom> {
    if id == 1 {
        Some(Atom::Salt)
    } else if id == 2 {
        Some(Atom::Air)
    } else if id == 3 {
        Some(Atom::Earth)
    } else if id == 4 {
        Some(Atom::Fire)
    } else if id == 5 {
        Some(Atom::Water)
    } else if id == 6 {
        Some(Atom::Quicksilver)
    } else if id == 7 {
        Some(Atom::Gold)
    } else if id == 8 {
        Some(Atom::Silver)
    } else if id == 9 {
        Some(Atom::Copper)
    } else if id == 10 {
        Some(Atom::Iron)
    } else if id == 11 {
        Some(Atom::Tin)
    } else if id == 12 {
        Some(Atom::Lead)
    } else if id == 13 {
        Some(Atom::Vitae)
    } else if id == 14 {
        Some(Atom::Mors)
    } else if id == 15 {
        Some(Atom::Repeat)
    } else if id == 16 {
        Some(Atom::Quintessence)
    } else {
        None
    }
}

impl Atom {
    /// Looks an atom up by its code.
    pub fn from_id(id: u8) -> (r: Option<Atom>)
        ensures
            r == atom_of(id),
    {
        if id == 1 {
            Some(Atom::Salt)
        } else if id == 2 {
            Some(Atom::Air)
        } else if id == 3 {
            Some(Atom::Earth)
        } else if id == 4 {
            Some(Atom::Fire)
        } else if id == 5 {
            Some(Atom::Water)
        } else if id == 6 {
            Some(Atom::Quicksilver)
        } else if id == 7 {
            Some(Atom::Gold)
        } else if id == 8 {
            Some(Atom::Silver)
        } else if id == 9 {
            Some(Atom::Copper)
        } else if id == 10 {
            Some(Atom::Iron)
        } else if id == 11 {
            Some(Atom::Tin)
        } else if id == 12 {
            Some(Atom::Lead)
        } else if id == 13 {
            Some(Atom::Vitae)
        } else if id == 14 {
            Some(Atom::Mors)
        } else if id == 15 {
            Some(Atom::Repeat)
        } else if id == 16 {
            Some(Atom::Quintessence)
        } else {
            None
        }
    }
}

/// The kinds of part a solution can place.
#[derive(Copy, Clone, Debug, PartialEq, Eq, Hash, Structural)]
pub enum PartType {
    Input, Output, PolymerOutput,
    Arm, BiArm, TriArm, HexArm, PistonArm,
    Track, Berlo,
    Equilibrium, Bonding, MultiBonding, Debonding, Calcification,
    Projection, Purification,
    Duplication, Animismus,
    Unification, Dispersion,
    TriplexBonding,
    Disposal,
    Conduit,
}

/// The part type a name stands for, if any.
pub open spec fn part_type_of(s: Seq<char>) -> Option<PartType> {
    if s == "input"@ {
        Some(PartType::Input)
    } else if s == "out-std"@ {
        Some(PartType::Output)
    } else if s == "out-rep"@ {
        Some(PartType::PolymerOutput)
    } else if s == "arm1"@ {
        Some(PartType::Arm)
    } else if s == "arm2"@ {
        Some(PartType::BiArm)
    } else if s == "arm3"@ {
        Some(PartType::TriArm)
    } else if s == "arm6"@ {
        Some(PartType::HexArm)
    } else if s == "piston"@ {
        Some(PartType::PistonArm)
    } else if s == "track"@ {
        Some(PartType::Track)
    } else if s == "baron"@ {
        Some(PartType::Berlo)
    } else if s == "glyph-marker"@ {
        Some(PartType::Equilibrium)
    } else if s == "bonder"@ {
        Some(PartType::Bonding)
    } else if s == "bonder-speed"@ {
        Some(PartType::MultiBonding)
    } else if s == "unbonder"@ {
        Some(PartType::Debonding)
    } else if s == "glyph-calcification"@ {
        Some(PartType::Calcification)
    } else if s == "glyph-projection"@ {
        Some(PartType::Projection)
    } else if s == "glyph-purification"@ {
        Some(PartType::Purification)
    } else if s == "glyph-duplication"@ {
        Some(PartType::Duplication)
    } else if s == "glyph-life-and-death"@ {
        Some(PartType::Animismus)
    } else if s == "glyph-unification"@ {
        Some(PartType::Unification)
    } else if s == "glyph-dispersion"@ {
        Some(PartType::Dispersion)
    } else if s == "bonder-prisma"@ {
        Some(PartType::TriplexBonding)
    } else if s == "glyph-disposal"@ {
        Some(PartType::Disposal)
    } else if s == "pipe"@ {
        Some(PartType::Conduit)
    } else {
        None
    }
}

impl PartType {
    /// Looks a part type up by its exact name.
    pub fn from_name(name: &str) -> (r: Option<PartType>)
        ensures
            r == part_type_of(name@),
    {
        if str_eq(name, "input") {
            Some(PartType::Input)
        } else if str_eq(name, "out-std") {
            Some(PartType::Output)
        } else if str_eq(name, "out-rep") {
            Some(PartType::PolymerOutput)
        } else if str_eq(name, "arm1") {
            Some(PartType::Arm)
        } else if str_eq(name, "arm2") {
            Some(PartType::BiArm)
        } else if str_eq(name, "arm3") {
            Some(PartType::TriArm)
        } else if str_eq(name, "arm6") {
            Some(PartType::HexArm)
        } else if str_eq(name, "piston") {
            Some(PartType::PistonArm)
        } else if str_eq(name, "track") {
            Some(PartType::Track)
        } else if str_eq(name, "baron") {
            Some(PartType::Berlo)
        } else if str_eq(name, "glyph-marker") {
            Some(PartType::Equilibrium)
        } else if str_eq(name, "bonder") {
            Some(PartType::Bonding)
        } else if str_eq(name, "bonder-speed") {
            Some(PartType::MultiBonding)
        } else if str_eq(name, "unbonder") {
            Some(PartType::Debonding)
        } else if str_eq(name, "glyph-calcification") {
            Some(PartType::Calcification)
        } else if str_eq(name, "glyph-projection") {
            Some(PartType::Projection)
        } else if str_eq(name, "glyph-purification") {
            Some(PartType::Purification)
        } else if str_eq(name, "glyph-duplication") {
            Some(PartType::Duplication)
        } else if str_eq(name, "glyph-life-and-death") {
            Some(PartType::Animismus)
        } else if str_eq(name, "glyph-unification") {
            Some(PartType::Unification)
        } else if str_eq(name, "glyph-dispersion") {
            Some(PartType::Dispersion)
        } else if str_eq(name, "bonder-prisma") {
            Some(PartType::TriplexBonding)
        } else if str_eq(name, "glyph-disposal") {
            Some(PartType::Disposal)
        } else if str_eq(name, "pipe") {
            Some(PartType::Conduit)
        } else {
            None
        }
    }
}

/// The actions an arm can take in one cycle.
#[derive(Copy, Clone, Debug, Default, PartialEq, Eq, Hash, Structural)]
pub enum Instruction {
    #[default]
    Blank,
    Grab, Drop,
    RotateClockwise, RotateAnticlockwise,
    Extend, Retract,
    PivotClockwise, PivotAnticlockwise,
    Advance, Retreat,
    PeriodOverride, Reset, Repeat,
}

/// The instruction a code of the byte stream stands for, if any.
pub open spec fn instruction_of(id: u8) -> Option<Instruction> {
    if id == 32 {
        Some(Instruction::Blank)
    } else if id == 71 {
        Some(Instruction::Grab)
    } else if id == 103 {
        Some(Instruction::Drop)
    } else if id == 82 {
        Some(Instruction::RotateClockwise)
    } else if id == 114 {
        Some(Instruction::RotateAnticlockwise)
    } else if id == 69 {
        Some(Instruction::Extend)
    } else if id == 101 {
        Some(Instruction::Retract)
    } else if id == 80 {
        Some(Instruction::PivotClockwise)
    } else if id == 112 {
        Some(Instruction::PivotAnticlockwise)
    } else if id == 65 {
        Some(Instruction::Advance)
    } else if id == 97 {
        Some(Instruction::Retreat)
    } else if id == 79 {
        Some(Instruction::PeriodOverride)
    } else if id == 88 {
        Some(Instruction::Reset)
    } else if id == 67 {
        Some(Instruction::Repeat)
    } else {
        None
    }
}

impl Instruction {
    /// Looks an instruction up by its code, an ASCII letter or a space.
    pub fn from_id(id: u8) -> (r: Option<Instruction>)
        ensures
            r == instruction_of(id),
    {
        if id == 32u8 {
            Some(Instruction::Blank)
        } else if id == 71u8 {
            Some(Instruction::Grab)
        } else if id == 103u8 {
            Some(Instruction::Drop)
        } else if id == 82u8 {
            Some(Instruction::RotateClockwise)
        } else if id == 114u8 {
            Some(Instruction::RotateAnticlockwise)
        } else if id == 69u8 {
            Some(Instruction::Extend)
        } else if id == 101u8 {
            Some(Instruction::Retract)
        } else if id == 80u8 {
            Some(Instruction::PivotClockwise)
        } else if id == 112u8 {
            Some(Instruction::PivotAnticlockwise)
        } else if id == 65u8 {
            Some(Instruction::Advance)
        } else if id == 97u8 {
            Some(Instruction::Retreat)
        } else if id == 79u8 {
            Some(Instruction::PeriodOverride)
        } else if id == 88u8 {
            Some(Instruction::Reset)
        } else if id == 67u8 {
            Some(Instruction::Repeat)
        } else {
            None
        }
    }
}


impl View for HexIndex {
    type V = HexIndex;

    open spec fn view(&self) -> HexIndex {
        *self
    }
}

impl View for Atom {
    type V = Atom;

    open spec fn view(&self) -> Atom {
        *self
    }
}

impl View for Instruction {
    type V = Instruction;

    open spec fn view(&self) -> Instruction {
        *self
    }
}

/// A plain bond, or a triplex bond with its three colour flags.
#[derive(Copy, Clone, Debug, Default, PartialEq, Eq, Hash, Structural)]
pub enum BondType {
    #[default]
    Normal,
    Triplex { red: bool, black: bool, yellow: bool },
}

impl View for BondType {
    type V = BondType;

    open spec fn view(&self) -> BondType {
        *self
    }
}

/// A typed edge between two cells.
#[derive(Copy, Clone, Debug, PartialEq, Eq, Hash, Structural)]
pub struct Bond {
    pub start: HexIndex,
    pub end: HexIndex,
    pub ty: BondType,
}

impl View for Bond {
    type V = Bond;

    open spec fn view(&self) -> Bond {
        *self
    }
}

/// The atom map built from placements in order: a later placement on a cell replaces an earlier one.
pub open spec fn atom_map(s: Seq<(HexIndex, Atom)>) -> Map<HexIndex, Atom>
    decreases s.len(),
{
    if s.len() == 0 {
        Map::empty()
    } else {
        atom_map(s.drop_last()).insert(s.last().0, s.last().1)
    }
}

/// No cell appears twice among the placements.
pub open spec fn unique_cells(s: Seq<(HexIndex, Atom)>) -> bool {
    forall|i: int, j: int| 0 <= i < s.len() && 0 <= j < s.len() && i != j ==> s[i].0 != s[j].0
}

/// A molecule as a map from cells to atoms and a set of bonds.
pub struct MoleculeView {
    pub atoms: Map<HexIndex, Atom>,
    pub bonds: Set<Bond>,
}

/// Atoms on cells, one per cell, and the bonds between them, each once.
#[derive(Clone, Debug, PartialEq, Eq)]
pub struct Molecule {
    pub atoms: Vec<(HexIndex, Atom)>,
    pub bonds: Vec<Bond>,
}

impl Molecule {
    pub open spec fn wf(&self) -> bool {
        unique_cells(self.atoms@) && self.bonds@.no_duplicates()
    }
}

impl View for Molecule {
    type V = MoleculeView;

    open spec fn view(&self) -> MoleculeView {
        MoleculeView { atoms: atom_map(self.atoms@), bonds: self.bonds@.to_set() }
    }
}

/// The capabilities a puzzle allows, as a 64-bit mask. Bits without a name are kept as they are.
#[derive(Copy, Clone, Debug, PartialEq, Eq, Hash, Structural)]
pub struct Permissions {
    pub bits: u64,
}

impl View for Permissions {
    type V = Permissions;

    open spec fn view(&self) -> Permissions {
        *self
    }
}

impl Permissions {
    pub const SIMPLE_ARM: u64 = 0x1;
    pub const MULTI_ARMS: u64 = 0x2;
    pub const PISTON_ARM: u64 = 0x4;
    pub const TRACK: u64 = 0x8;
    pub const BONDER: u64 = 0x100;
    pub const UNBONDER: u64 = 0x200;
    pub const MULTI_BONDER: u64 = 0x400;
    pub const TRIPLEX_BONDER: u64 = 0x800;
    pub const CALCIFICATION: u64 = 0x1000;
    pub const DUPLICATION: u64 = 0x2000;
    pub const PROJECTION: u64 = 0x4000;
    pub const PURIFICATION: u64 = 0x8000;
    pub const ANIMISMUS: u64 = 0x10000;
    pub const DISPOSAL: u64 = 0x20000;
    pub const QUINTESSENCE: u64 = 0x40000;
    pub const GRAB_TURN_INSTRUCTIONS: u64 = 0x400000;
    pub const DROP_INSTRUCTION: u64 = 0x800000;
    pub const RESET_INSTRUCTION: u64 = 0x1000000;
    pub const REPEAT_INSTRUCTION: u64 = 0x2000000;
    pub const PIVOT_INSTRUCTIONS: u64 = 0x4000000;
    pub const BERLO: u64 = 0x10000000;
    pub const DEFAULT_PERMISSIONS: u64 = 0x1 | 0x2 | 0x4 | 0x8 | 0x100 | 0x200 | 0x400 | 0x1000
        | 0x400000 | 0x800000 | 0x1000000 | 0x2000000 | 0x4000000;

    /// The mask exactly as given, unknown bits included.
    pub fn from_bits_retain(bits: u64) -> (r: Permissions)
        ensures
            r.bits == bits,
    {
        Permissions { bits }
    }

    /// The raw mask.
    pub fn bits(&self) -> (r: u64)
        ensures
            r == self.bits,
    {
        self.bits
    }

    /// Whether every bit of `flags` is set.
    pub fn contains(&self, flags: u64) -> (r: bool)
        ensures
            r == (self.bits & flags == flags),
    {
        self.bits & flags == flags
    }
}

/// Performance summary of a solution.
#[derive(Copy, Clone, Debug, Default, PartialEq, Eq, Structural)]
pub struct Metrics {
    pub cycles: i32,
    pub cost: i32,
    pub area: i32,
    pub instructions: i32,
}

impl View for Metrics {
    type V = Metrics;

    open spec fn view(&self) -> Metrics {
        *self
    }
}

/// A production chamber: where it stands and its size.
#[derive(Copy, Clone, Debug, PartialEq, Eq, Hash, Structural)]
pub struct Chamber {
    pub pos: HexIndex,
    pub ty: ChamberType,
}

impl View for Chamber {
    type V = Chamber;

    open spec fn view(&self) -> Chamber {
        *self
    }
}

pub struct ConduitView {
    pub pos_a: HexIndex,
    pub pos_b: HexIndex,
    pub hexes: Seq<HexIndex>,
}

/// A conduit between two endpoints, with the cells of its path in order.
#[derive(Clone, Debug, PartialEq, Eq)]
pub struct Conduit {
    pub pos_a: HexIndex,
    pub pos_b: HexIndex,
    pub hexes: Vec<HexIndex>,
}

impl View for Conduit {
    type V = ConduitView;

    open spec fn view(&self) -> ConduitView {
        ConduitView { pos_a: self.pos_a, pos_b: self.pos_b, hexes: self.hexes@ }
    }
}

/// The views of a sequence's items.
pub open spec fn views<T: View>(s: Seq<T>) -> Seq<T::V> {
    s.map_values(|x: T| x@)
}

pub struct ProductionInfoView {
    pub isolation: bool,
    pub chambers: Seq<Chamber>,
    pub conduits: Seq<ConduitView>,
}

/// Chambers and conduits of a puzzle that uses production.
#[derive(Clone, Debug, PartialEq, Eq)]
pub struct ProductionInfo {
    pub isolation: bool,
    pub chambers: Vec<Chamber>,
    pub conduits: Vec<Conduit>,
}

impl View for ProductionInfo {
    type V = ProductionInfoView;

    open spec fn view(&self) -> ProductionInfoView {
        ProductionInfoView {
            isolation: self.isolation,
            chambers: self.chambers@,
            conduits: views(self.conduits@),
        }
    }
}

pub struct PuzzleView {
    pub name: Seq<char>,
    pub creator_id: u64,
    pub reagents: Seq<MoleculeView>,
    pub products: Seq<MoleculeView>,
    pub product_multiplier: i32,
    pub permissions: Permissions,
    pub production_info: Option<ProductionInfoView>,
}

/// A puzzle definition.
#[derive(Clone, Debug, PartialEq, Eq)]
pub struct Puzzle {
    pub name: String,
    pub creator_id: u64,
    pub reagents: Vec<Molecule>,
    pub products: Vec<Molecule>,
    pub product_multiplier: i32,
    pub permissions: Permissions,
    pub production_info: Option<ProductionInfo>,
}

/// The view of an optional value.
pub open spec fn opt_view<T: View>(o: Option<T>) -> Option<T::V> {
    match o {
        Some(x) => Some(x@),
        None => None,
    }
}

impl View for Puzzle {
    type V = PuzzleView;

    open spec fn view(&self) -> PuzzleView {
        PuzzleView {
            name: self.name@,
            creator_id: self.creator_id,
            reagents: views(self.reagents@),
            products: views(self.products@),
            product_multiplier: self.product_multiplier,
            permissions: self.permissions,
            production_info: opt_view(self.production_info),
        }
    }
}

pub struct PartView {
    pub ty: PartType,
    pub pos: HexIndex,
    pub rotation: i32,
    pub arm_number: i32,
    pub arm_length: i32,
    pub index: i32,
    pub conduit_index: i32,
    pub track_hexes: Seq<HexIndex>,
    pub conduit_hexes: Seq<HexIndex>,
    pub instructions: Seq<(Instruction, i32)>,
}

/// A placed mechanism or glyph with its geometry and instruction tape.
#[derive(Clone, Debug, PartialEq, Eq, Hash)]
pub struct Part {
    pub ty: PartType,
    pub pos: HexIndex,
    pub rotation: i32,
    pub arm_number: i32,
    pub arm_length: i32,
    pub index: i32,
    pub conduit_index: i32,
    pub track_hexes: Vec<HexIndex>,
    pub conduit_hexes: Vec<HexIndex>,
    pub instructions: Vec<(Instruction, i32)>,
}

impl View for Part {
    type V = PartView;

    open spec fn view(&self) -> PartView {
        PartView {
            ty: self.ty,
            pos: self.pos,
            rotation: self.rotation,
            arm_number: self.arm_number,
            arm_length: self.arm_length,
            index: self.index,
            conduit_index: self.conduit_index,
            track_hexes: self.track_hexes@,
            conduit_hexes: self.conduit_hexes@,
            instructions: self.instructions@,
        }
    }
}

pub struct SolutionView {
    pub puzzle_name: Seq<char>,
    pub name: Seq<char>,
    pub metrics: Option<Metrics>,
    pub parts: Seq<PartView>,
}

/// A solution: the puzzle it solves, its own name, its metrics if recorded, and its parts.
#[derive(Clone, Debug, PartialEq, Eq)]
pub struct Solution {
    pub puzzle_name: String,
    pub name: String,
    pub metrics: Option<Metrics>,
    pub parts: Vec<Part>,
}

impl View for Solution {
    type V = SolutionView;

    open spec fn view(&self) -> SolutionView {
        SolutionView {
            puzzle_name: self.puzzle_name@,
            name: self.name@,
            metrics: self.metrics,
            parts: views(self.parts@),
        }
    }
}

} // verus!
