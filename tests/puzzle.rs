use opus_parse::{parse_puzzle, Atom, Bond, BondType, ChamberType, HexIndex, ParseError, Permissions};

fn put_i32(b: &mut Vec<u8>, v: i32) {
    b.extend_from_slice(&v.to_le_bytes());
}

fn put_u64(b: &mut Vec<u8>, v: u64) {
    b.extend_from_slice(&v.to_le_bytes());
}

fn put_str(b: &mut Vec<u8>, s: &str) {
    assert!(s.len() < 128);
    b.push(s.len() as u8);
    b.extend_from_slice(s.as_bytes());
}

fn hex(b: &mut Vec<u8>, q: i8, r: i8) {
    b.push(q as u8);
    b.push(r as u8);
}

fn header(b: &mut Vec<u8>, perms: u64) {
    put_i32(b, 3);
    put_str(b, "abc");
    put_u64(b, 0x1122_3344_5566_7788);
    put_u64(b, perms);
}

/// A puzzle with no reagents, one product of two atoms and one bond, and production info.
fn sample() -> Vec<u8> {
    let mut b = Vec::new();
    header(&mut b, Permissions::DEFAULT_PERMISSIONS | (1 << 63));
    put_i32(&mut b, 0);
    put_i32(&mut b, 1);
    put_i32(&mut b, 2);
    b.push(1);
    hex(&mut b, 0, 0);
    b.push(16);
    hex(&mut b, 1, -1);
    put_i32(&mut b, 1);
    b.push(0b1010);
    hex(&mut b, 0, 0);
    hex(&mut b, 1, -1);
    put_i32(&mut b, 6);
    b.push(1);
    b.push(0);
    b.push(1);
    b.push(1);
    put_i32(&mut b, 1);
    hex(&mut b, 2, 3);
    put_str(&mut b, "MediumWide");
    put_i32(&mut b, 1);
    hex(&mut b, 0, 1);
    hex(&mut b, -5, 4);
    put_i32(&mut b, 2);
    hex(&mut b, 1, 1);
    hex(&mut b, 2, 2);
    b
}

fn plain(atoms: &[(u8, i8, i8)], bonds: &[(u8, i8, i8, i8, i8)]) -> Vec<u8> {
    let mut b = Vec::new();
    header(&mut b, 0);
    put_i32(&mut b, 0);
    put_i32(&mut b, 1);
    put_i32(&mut b, atoms.len() as i32);
    for &(a, q, r) in atoms {
        b.push(a);
        hex(&mut b, q, r);
    }
    put_i32(&mut b, bonds.len() as i32);
    for &(t, q1, r1, q2, r2) in bonds {
        b.push(t);
        hex(&mut b, q1, r1);
        hex(&mut b, q2, r2);
    }
    put_i32(&mut b, 1);
    b.push(0);
    b
}

#[test]
fn decodes_sample_puzzle() {
    let p = parse_puzzle(&sample()).unwrap();
    assert_eq!(p.name, "abc");
    assert_eq!(p.creator_id, 0x1122_3344_5566_7788);
    assert!(p.reagents.is_empty());
    assert_eq!(p.products.len(), 1);
    let m = &p.products[0];
    assert_eq!(m.atoms, vec![(HexIndex { q: 0, r: 0 }, Atom::Salt), (HexIndex { q: 1, r: -1 }, Atom::Quintessence)]);
    assert_eq!(
        m.bonds,
        vec![Bond {
            start: HexIndex { q: 0, r: 0 },
            end: HexIndex { q: 1, r: -1 },
            ty: BondType::Triplex { red: true, black: false, yellow: true },
        }]
    );
    assert_eq!(p.product_multiplier, 6);
    let info = p.production_info.unwrap();
    assert!(info.isolation);
    assert_eq!(info.chambers.len(), 1);
    assert_eq!(info.chambers[0].pos, HexIndex { q: 2, r: 3 });
    assert_eq!(info.chambers[0].ty, ChamberType::MediumWide);
    assert_eq!(info.conduits.len(), 1);
    assert_eq!(info.conduits[0].pos_a, HexIndex { q: 0, r: 1 });
    assert_eq!(info.conduits[0].pos_b, HexIndex { q: -5, r: 4 });
    assert_eq!(info.conduits[0].hexes, vec![HexIndex { q: 1, r: 1 }, HexIndex { q: 2, r: 2 }]);
}

#[test]
fn every_truncation_is_unexpected_eof() {
    let full = sample();
    for n in 0..full.len() {
        assert_eq!(parse_puzzle(&full[..n]), Err(ParseError::UnexpectedEof), "prefix of {}", n);
    }
}

#[test]
fn decoding_twice_gives_equal_results() {
    let data = sample();
    assert_eq!(parse_puzzle(&data), parse_puzzle(&data));
}

#[test]
fn zero_count_lists_are_empty() {
    let p = parse_puzzle(&plain(&[], &[])).unwrap();
    assert!(p.products[0].atoms.is_empty());
    assert!(p.products[0].bonds.is_empty());
    assert!(p.production_info.is_none());
}

#[test]
fn later_atom_on_same_cell_wins() {
    let p = parse_puzzle(&plain(&[(2, 1, 1), (3, 0, 0), (4, 1, 1)], &[])).unwrap();
    assert_eq!(p.products[0].atoms.len(), 2);
    assert!(p.products[0].atoms.contains(&(HexIndex { q: 1, r: 1 }, Atom::Fire)));
    assert!(p.products[0].atoms.contains(&(HexIndex { q: 0, r: 0 }, Atom::Earth)));
}

#[test]
fn identical_bonds_collapse() {
    let p = parse_puzzle(&plain(&[], &[(1, 0, 0, 1, 0), (1, 0, 0, 1, 0), (2, 0, 0, 1, 0)])).unwrap();
    assert_eq!(p.products[0].bonds.len(), 2);
    assert!(p.products[0].bonds.contains(&Bond {
        start: HexIndex { q: 0, r: 0 },
        end: HexIndex { q: 1, r: 0 },
        ty: BondType::Normal,
    }));
    assert!(p.products[0].bonds.contains(&Bond {
        start: HexIndex { q: 0, r: 0 },
        end: HexIndex { q: 1, r: 0 },
        ty: BondType::Triplex { red: true, black: false, yellow: false },
    }));
}

#[test]
fn unknown_permission_bits_are_kept() {
    let p = parse_puzzle(&sample()).unwrap();
    assert!(p.permissions.contains(1 << 63));
    assert_eq!(p.permissions.bits(), Permissions::DEFAULT_PERMISSIONS | (1 << 63));
    assert!(p.permissions.contains(Permissions::TRACK | Permissions::BONDER));
    assert!(!p.permissions.contains(Permissions::QUINTESSENCE));
    assert_eq!(Permissions::from_bits_retain(u64::MAX).bits(), u64::MAX);
}

#[test]
fn wrong_puzzle_version_is_rejected() {
    let mut data = sample();
    data[0] = 2;
    assert_eq!(parse_puzzle(&data), Err(ParseError::FormatVersionMismatch));
    assert_eq!(parse_puzzle(&[2, 0, 0, 0]), Err(ParseError::FormatVersionMismatch));
}

#[test]
fn illegal_bond_type_bits_are_rejected() {
    for t in [0x10u8, 0x11, 0x80, 0x03, 0xff] {
        assert_eq!(parse_puzzle(&plain(&[], &[(t, 0, 0, 1, 0)])), Err(ParseError::InvalidBondType));
    }
    let p = parse_puzzle(&plain(&[], &[(0, 0, 0, 1, 0), (0b1110, 0, 0, 1, 0)])).unwrap();
    assert_eq!(p.products[0].bonds[0].ty, BondType::Triplex { red: false, black: false, yellow: false });
    assert_eq!(p.products[0].bonds[1].ty, BondType::Triplex { red: true, black: true, yellow: true });
}

#[test]
fn unknown_atom_code_is_rejected() {
    assert_eq!(parse_puzzle(&plain(&[(0, 0, 0)], &[])), Err(ParseError::InvalidEnumValue));
    assert_eq!(parse_puzzle(&plain(&[(17, 0, 0)], &[])), Err(ParseError::InvalidEnumValue));
}

#[test]
fn negative_list_count_is_rejected() {
    let mut b = Vec::new();
    header(&mut b, 0);
    put_i32(&mut b, -1);
    assert_eq!(parse_puzzle(&b), Err(ParseError::InvalidEncoding));
}

#[test]
fn unknown_chamber_name_is_rejected() {
    let mut data = sample();
    let at = data.windows(10).position(|w| w == b"MediumWide").unwrap();
    data[at] = b'X';
    assert_eq!(parse_puzzle(&data), Err(ParseError::InvalidEnumValue));
}

#[test]
fn malformed_utf8_name_is_rejected() {
    let mut b = Vec::new();
    put_i32(&mut b, 3);
    b.push(2);
    b.push(0xc3);
    b.push(0x28);
    assert_eq!(parse_puzzle(&b), Err(ParseError::InvalidEncoding));
}

#[test]
fn utf8_name_keeps_its_characters() {
    let mut b = Vec::new();
    put_i32(&mut b, 3);
    put_str(&mut b, "Caf\u{e9}");
    put_u64(&mut b, 1);
    put_u64(&mut b, 0);
    put_i32(&mut b, 0);
    put_i32(&mut b, 0);
    put_i32(&mut b, 1);
    b.push(0);
    let p = parse_puzzle(&b).unwrap();
    assert_eq!(p.name, "Caf\u{e9}");
    assert_eq!(p.name.chars().count(), 4);
}

#[test]
fn long_name_uses_multibyte_length() {
    let name = "n".repeat(300);
    let mut b = Vec::new();
    put_i32(&mut b, 3);
    b.push(0x80 | (300 % 128) as u8);
    b.push((300 / 128) as u8);
    b.extend_from_slice(name.as_bytes());
    put_u64(&mut b, 1);
    put_u64(&mut b, 0);
    put_i32(&mut b, 0);
    put_i32(&mut b, 0);
    put_i32(&mut b, 1);
    b.push(0);
    let p = parse_puzzle(&b).unwrap();
    assert_eq!(p.name, name);
}

#[test]
fn oversized_length_is_rejected() {
    let mut b = Vec::new();
    put_i32(&mut b, 3);
    b.extend_from_slice(&[0xff; 9]);
    b.push(0x7f);
    assert_eq!(parse_puzzle(&b), Err(ParseError::InvalidEncoding));
}

#[test]
fn chamber_names_are_looked_up_exactly() {
    assert_eq!(ChamberType::from_name("Small"), Some(ChamberType::Small));
    assert_eq!(ChamberType::from_name("SmallWider"), Some(ChamberType::SmallWider));
    assert_eq!(ChamberType::from_name("Large"), Some(ChamberType::Large));
    assert_eq!(ChamberType::from_name("large"), None);
    assert_eq!(ChamberType::from_name(""), None);
}

#[test]
fn atom_codes_are_looked_up() {
    assert_eq!(Atom::from_id(1), Some(Atom::Salt));
    assert_eq!(Atom::from_id(7), Some(Atom::Gold));
    assert_eq!(Atom::from_id(12), Some(Atom::Lead));
    assert_eq!(Atom::from_id(15), Some(Atom::Repeat));
    assert_eq!(Atom::from_id(16), Some(Atom::Quintessence));
    assert_eq!(Atom::from_id(0), None);
    assert_eq!(Atom::from_id(200), None);
}

#[test]
fn cut_inside_chamber_name_length_is_rejected() {
    let mut b = Vec::new();
    header(&mut b, 0);
    put_i32(&mut b, 0);
    put_i32(&mut b, 0);
    put_i32(&mut b, 1);
    b.push(1);
    b.push(0);
    b.push(0);
    b.push(0);
    put_i32(&mut b, 1);
    hex(&mut b, 0, 0);
    let cut = b.len() + 1;
    b.push(0x80);
    b.push(0x01);
    b.extend_from_slice(&[b'a'; 128]);
    put_i32(&mut b, 0);
    assert_eq!(parse_puzzle(&b), Err(ParseError::InvalidEnumValue));
    assert_eq!(parse_puzzle(&b[..cut]), Err(ParseError::InvalidEnumValue));
    assert_eq!(parse_puzzle(&b[..cut - 1]), Err(ParseError::UnexpectedEof));
}

#[test]
fn bytes_after_the_record_are_not_read() {
    let mut data = sample();
    let p = parse_puzzle(&data).unwrap();
    data.extend_from_slice(&[0xff, 0xff, 0xff]);
    assert_eq!(parse_puzzle(&data), Ok(p));
}
