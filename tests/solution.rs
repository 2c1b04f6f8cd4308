use opus_parse::{parse_solution, HexIndex, Instruction, Metrics, ParseError, PartType};

fn put_i32(b: &mut Vec<u8>, v: i32) {
    b.extend_from_slice(&v.to_le_bytes());
}

fn put_str(b: &mut Vec<u8>, s: &str) {
    assert!(s.len() < 128);
    b.push(s.len() as u8);
    b.extend_from_slice(s.as_bytes());
}

fn wide(b: &mut Vec<u8>, q: i32, r: i32) {
    put_i32(b, q);
    put_i32(b, r);
}

fn head(b: &mut Vec<u8>) {
    put_i32(b, 7);
    put_str(b, "Puzzle A");
    put_str(b, "my solution");
}

/// The fixed fields of a part and a two-step tape, ending before the trailing fields.
fn part_head(b: &mut Vec<u8>, name: &str) {
    put_str(b, name);
    b.push(1);
    wide(b, 3, -2);
    put_i32(b, 2);
    put_i32(b, 5);
    put_i32(b, 9);
    put_i32(b, 2);
    put_i32(b, 0);
    b.push(b'G');
    put_i32(b, 4);
    b.push(b'r');
}

fn one_part(name: &str, tail: &[u8]) -> Vec<u8> {
    let mut b = Vec::new();
    head(&mut b);
    put_i32(&mut b, 0);
    put_i32(&mut b, 1);
    part_head(&mut b, name);
    b.extend_from_slice(tail);
    b
}

fn hex_list(cells: &[(i32, i32)]) -> Vec<u8> {
    let mut b = Vec::new();
    put_i32(&mut b, cells.len() as i32);
    for &(q, r) in cells {
        wide(&mut b, q, r);
    }
    b
}

fn metrics_buffer(pairs: &[(i32, i32)]) -> Vec<u8> {
    let mut b = Vec::new();
    head(&mut b);
    put_i32(&mut b, 4);
    for &(s, v) in pairs {
        put_i32(&mut b, s);
        put_i32(&mut b, v);
    }
    put_i32(&mut b, 0);
    b
}

#[test]
fn metrics_are_decoded_in_order() {
    let s = parse_solution(&metrics_buffer(&[(0, 120), (1, 45), (2, 9), (3, 30)])).unwrap();
    assert_eq!(s.puzzle_name, "Puzzle A");
    assert_eq!(s.name, "my solution");
    assert_eq!(s.metrics, Some(Metrics { cycles: 120, cost: 45, area: 9, instructions: 30 }));
    assert!(s.parts.is_empty());
}

#[test]
fn out_of_order_sentinels_are_rejected() {
    let r = parse_solution(&metrics_buffer(&[(1, 120), (0, 45), (2, 9), (3, 30)]));
    assert_eq!(r, Err(ParseError::StructuralSentinelMismatch));
    let r = parse_solution(&metrics_buffer(&[(0, 120), (1, 45), (2, 9), (4, 30)]));
    assert_eq!(r, Err(ParseError::StructuralSentinelMismatch));
}

#[test]
fn missing_metrics_are_none() {
    let mut b = Vec::new();
    head(&mut b);
    put_i32(&mut b, 0);
    put_i32(&mut b, 0);
    let s = parse_solution(&b).unwrap();
    assert_eq!(s.metrics, None);
}

#[test]
fn unsupported_metrics_tag_is_rejected() {
    let mut b = Vec::new();
    head(&mut b);
    put_i32(&mut b, 3);
    assert_eq!(parse_solution(&b), Err(ParseError::FormatVersionMismatch));
}

#[test]
fn wrong_solution_version_is_rejected() {
    let mut b = one_part("arm1", &[0, 0, 0, 0]);
    b[0] = 6;
    assert_eq!(parse_solution(&b), Err(ParseError::FormatVersionMismatch));
}

#[test]
fn plain_part_is_decoded() {
    let s = parse_solution(&one_part("arm1", &[0, 0, 0, 0])).unwrap();
    assert_eq!(s.parts.len(), 1);
    let p = &s.parts[0];
    assert_eq!(p.ty, PartType::Arm);
    assert_eq!(p.pos, HexIndex { q: 3, r: -2 });
    assert_eq!(p.arm_length, 2);
    assert_eq!(p.rotation, 5);
    assert_eq!(p.index, 9);
    assert_eq!(p.arm_number, 1);
    assert_eq!(p.conduit_index, 0);
    assert!(p.track_hexes.is_empty());
    assert!(p.conduit_hexes.is_empty());
    assert_eq!(p.instructions, vec![(Instruction::Grab, 0), (Instruction::RotateAnticlockwise, 4)]);
}

#[test]
fn track_part_reads_its_path_and_others_do_not() {
    let mut tail = hex_list(&[(1, 0), (2, 0), (2, 1)]);
    put_i32(&mut tail, 0);
    let s = parse_solution(&one_part("track", &tail)).unwrap();
    assert_eq!(s.parts[0].ty, PartType::Track);
    assert_eq!(s.parts[0].track_hexes, vec![HexIndex { q: 1, r: 0 }, HexIndex { q: 2, r: 0 }, HexIndex { q: 2, r: 1 }]);

    let mut arm_tail = Vec::new();
    put_i32(&mut arm_tail, 2);
    let s = parse_solution(&one_part("arm2", &arm_tail)).unwrap();
    assert_eq!(s.parts[0].ty, PartType::BiArm);
    assert!(s.parts[0].track_hexes.is_empty());
    assert_eq!(s.parts[0].arm_number, 3);
}

#[test]
fn pipe_part_reads_conduit_fields() {
    let mut tail = Vec::new();
    put_i32(&mut tail, 0);
    put_i32(&mut tail, 100);
    tail.extend_from_slice(&hex_list(&[(0, 0), (-1, 1)]));
    let s = parse_solution(&one_part("pipe", &tail)).unwrap();
    let p = &s.parts[0];
    assert_eq!(p.ty, PartType::Conduit);
    assert_eq!(p.conduit_index, 100);
    assert_eq!(p.conduit_hexes, vec![HexIndex { q: 0, r: 0 }, HexIndex { q: -1, r: 1 }]);
    assert!(p.track_hexes.is_empty());
}

#[test]
fn arm_number_wraps_at_the_largest_value() {
    let s = parse_solution(&one_part("arm1", &i32::MAX.to_le_bytes())).unwrap();
    assert_eq!(s.parts[0].arm_number, i32::MIN);
}

#[test]
fn bad_part_marker_is_rejected() {
    let mut b = one_part("arm1", &[0, 0, 0, 0]);
    let at = b.windows(4).position(|w| w == b"arm1").unwrap() + 4;
    b[at] = 2;
    assert_eq!(parse_solution(&b), Err(ParseError::StructuralSentinelMismatch));
}

#[test]
fn unknown_part_name_is_rejected() {
    assert_eq!(parse_solution(&one_part("arm7", &[0, 0, 0, 0])), Err(ParseError::InvalidEnumValue));
}

#[test]
fn unknown_part_name_is_checked_after_the_record() {
    assert_eq!(parse_solution(&one_part("arm7", &[0, 0])), Err(ParseError::UnexpectedEof));
}

#[test]
fn unknown_instruction_is_rejected() {
    let mut b = one_part("arm1", &[0, 0, 0, 0]);
    let at = b.iter().rposition(|&c| c == b'r').unwrap();
    b[at] = b'Z';
    assert_eq!(parse_solution(&b), Err(ParseError::InvalidEnumValue));
}

#[test]
fn truncated_solution_is_unexpected_eof() {
    let mut tail = hex_list(&[(1, 0)]);
    put_i32(&mut tail, 0);
    let full = one_part("track", &tail);
    assert!(parse_solution(&full).is_ok());
    for n in 0..full.len() {
        assert_eq!(parse_solution(&full[..n]), Err(ParseError::UnexpectedEof), "prefix of {}", n);
    }
}

#[test]
fn part_names_are_looked_up_exactly() {
    assert_eq!(PartType::from_name("input"), Some(PartType::Input));
    assert_eq!(PartType::from_name("out-rep"), Some(PartType::PolymerOutput));
    assert_eq!(PartType::from_name("baron"), Some(PartType::Berlo));
    assert_eq!(PartType::from_name("glyph-life-and-death"), Some(PartType::Animismus));
    assert_eq!(PartType::from_name("bonder-prisma"), Some(PartType::TriplexBonding));
    assert_eq!(PartType::from_name("pipe"), Some(PartType::Conduit));
    assert_eq!(PartType::from_name("Pipe"), None);
    assert_eq!(PartType::from_name("track "), None);
}

#[test]
fn instruction_codes_are_looked_up() {
    assert_eq!(Instruction::from_id(b' '), Some(Instruction::Blank));
    assert_eq!(Instruction::from_id(b'g'), Some(Instruction::Drop));
    assert_eq!(Instruction::from_id(b'P'), Some(Instruction::PivotClockwise));
    assert_eq!(Instruction::from_id(b'a'), Some(Instruction::Retreat));
    assert_eq!(Instruction::from_id(b'O'), Some(Instruction::PeriodOverride));
    assert_eq!(Instruction::from_id(b'X'), Some(Instruction::Reset));
    assert_eq!(Instruction::from_id(b'C'), Some(Instruction::Repeat));
    assert_eq!(Instruction::from_id(b'x'), None);
    assert_eq!(Instruction::from_id(0), None);
}
