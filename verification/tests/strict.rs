use op2mapviewer::error::MapLoadError;
use op2mapviewer::loader::{coordinate_of, load_form2_map, load_original_map_format};
use op2mapviewer::types::{CellType, Position, TileMap};

fn strict_stream(
    version: u16,
    width: u32,
    height: u32,
    name: &[u8],
    description: &[u8],
    records: &[[u8; 4]],
) -> Vec<u8> {
    let mut s = Vec::new();
    s.extend_from_slice(b"FORM2");
    s.push(0);
    s.extend_from_slice(&version.to_le_bytes());
    s.extend_from_slice(&width.to_le_bytes());
    s.extend_from_slice(&height.to_le_bytes());
    s.push(name.len() as u8);
    s.extend_from_slice(name);
    s.extend_from_slice(&(description.len() as u16).to_le_bytes());
    s.extend_from_slice(description);
    for r in records {
        s.extend_from_slice(r);
    }
    s
}

fn decoded(bytes: &[u8]) -> TileMap {
    match load_form2_map(bytes) {
        Ok(map) => map,
        Err(e) => panic!("the stream should decode: {:?}", e),
    }
}

fn failure(bytes: &[u8]) -> MapLoadError {
    match load_form2_map(bytes) {
        Ok(_) => panic!("the stream should not decode"),
        Err(e) => e,
    }
}

fn is_unexpected_eof(e: &MapLoadError) -> bool {
    match e {
        MapLoadError::IoError(io) => io.kind() == std::io::ErrorKind::UnexpectedEof,
        _ => false,
    }
}

fn invalid_format_text(e: &MapLoadError) -> String {
    match e {
        MapLoadError::InvalidFormat(text) => text.clone(),
        other => panic!("not an invalid format error: {:?}", other),
    }
}

#[test]
fn strict_two_by_two_of_normal_ground() {
    let bytes = strict_stream(1, 2, 2, b"T", b"", &[[0, 0, 5, 0]; 4]);
    let map = decoded(&bytes);
    assert_eq!(map.info.width, 2);
    assert_eq!(map.info.height, 2);
    assert_eq!(map.info.name, "T");
    assert_eq!(map.info.description, "");
    assert_eq!(map.info.author, "");
    assert!(map.info.requirements.is_empty());
    assert!(map.tileset_cache.is_none());
    assert_eq!(map.cells.len(), 2);
    for y in 0..2 {
        assert_eq!(map.cells[y as usize].len(), 2);
        for x in 0..2 {
            let cell = map.get_cell(x, y).unwrap();
            assert_eq!(cell.position, Position { x, y });
            assert_eq!(cell.cell_type, CellType::Normal);
            assert_eq!(cell.height, 5);
            assert!(!cell.has_wreckage);
            assert!(!cell.has_unit);
            let tile = cell.tile_info.as_ref().unwrap();
            assert_eq!(tile.tileset_name, "well0005");
            assert_eq!(tile.tile_index, 0);
        }
    }
}

#[test]
fn strict_version_2_is_unsupported() {
    let bytes = strict_stream(2, 2, 2, b"T", b"", &[[0, 0, 5, 0]; 4]);
    assert!(matches!(failure(&bytes), MapLoadError::UnsupportedVersion(2)));
    let header_only = &bytes[..8];
    assert!(matches!(failure(header_only), MapLoadError::UnsupportedVersion(2)));
    let bad_cells = strict_stream(2, 1, 1, b"", b"", &[[9, 0, 0, 0]]);
    assert!(matches!(failure(&bad_cells), MapLoadError::UnsupportedVersion(2)));
}

#[test]
fn strict_version_is_a_16_bit_number() {
    let bytes = strict_stream(0x0201, 0, 0, b"", b"", &[]);
    assert!(matches!(failure(&bytes), MapLoadError::UnsupportedVersion(513)));
    let bytes = strict_stream(0, 0, 0, b"", b"", &[]);
    assert!(matches!(failure(&bytes), MapLoadError::UnsupportedVersion(0)));
    let bytes = strict_stream(0x0100, 0, 0, b"", b"", &[]);
    assert!(matches!(failure(&bytes), MapLoadError::UnsupportedVersion(256)));
    let bytes = strict_stream(65535, 0, 0, b"", b"", &[]);
    assert!(matches!(failure(&bytes), MapLoadError::UnsupportedVersion(65535)));
}

#[test]
fn strict_wrong_magic_is_invalid_format() {
    let mut bytes = strict_stream(1, 1, 1, b"", b"", &[[0, 0, 0, 0]]);
    bytes[4] = b'3';
    assert_eq!(invalid_format_text(&failure(&bytes)), "Not a FORM2 map file");
    let mut bytes = strict_stream(7, 1, 1, b"", b"", &[[0, 0, 0, 0]]);
    bytes[0] = b'f';
    assert_eq!(invalid_format_text(&failure(&bytes)), "Not a FORM2 map file");
}

#[test]
fn strict_reserved_byte_is_not_looked_at() {
    let mut bytes = strict_stream(1, 1, 1, b"", b"", &[[3, 9, 1, 0]]);
    bytes[5] = 0xEE;
    let map = decoded(&bytes);
    assert_eq!(map.get_cell(0, 0).unwrap().cell_type, CellType::Microbe(9));
}

#[test]
fn strict_kind_byte_beyond_7_is_invalid_format() {
    let bytes = strict_stream(1, 2, 1, b"", b"", &[[0, 0, 0, 0], [8, 0, 0, 0]]);
    assert_eq!(invalid_format_text(&failure(&bytes)), "Invalid cell type: 8");
    let bytes = strict_stream(1, 2, 1, b"", b"", &[[255, 0, 0, 0], [9, 0, 0, 0]]);
    assert_eq!(invalid_format_text(&failure(&bytes)), "Invalid cell type: 255");
}

#[test]
fn strict_short_streams_are_io_errors() {
    let full = strict_stream(1, 2, 2, b"name", b"text", &[[0, 0, 5, 0]; 4]);
    assert!(load_form2_map(&full).is_ok());
    for cut in 8..full.len() {
        let e = failure(&full[..cut]);
        assert!(is_unexpected_eof(&e), "cut at {}", cut);
    }
    for cut in 0..8 {
        let e = failure(&full[..cut]);
        assert!(is_unexpected_eof(&e), "cut at {}", cut);
    }
}

#[test]
fn strict_first_fault_in_reading_order_wins() {
    let mut bytes = strict_stream(1, 3, 1, b"", b"", &[[0, 0, 0, 0], [9, 0, 0, 0]]);
    assert_eq!(invalid_format_text(&failure(&bytes)), "Invalid cell type: 9");
    bytes.truncate(bytes.len() - 1);
    assert!(is_unexpected_eof(&failure(&bytes)));
    let bytes = strict_stream(1, 3, 1, b"", b"", &[[0, 0, 0, 0]]);
    assert!(is_unexpected_eof(&failure(&bytes)));
}

#[test]
fn strict_trailing_bytes_are_ignored() {
    let mut bytes = strict_stream(1, 1, 1, b"", b"", &[[5, 1, 2, 3]]);
    bytes.extend_from_slice(&[9, 9, 9, 9, 9]);
    let map = decoded(&bytes);
    let cell = map.get_cell(0, 0).unwrap();
    assert_eq!(cell.cell_type, CellType::Rock(1));
    assert_eq!(cell.height, 2);
    assert!(cell.has_wreckage);
    assert!(cell.has_unit);
}

#[test]
fn strict_kinds_heights_and_flags() {
    let records = [
        [0, 77, 1, 0],
        [1, 77, 2, 1],
        [2, 77, 3, 2],
        [3, 77, 4, 3],
        [4, 0, 5, 4],
        [4, 77, 6, 0xFC],
        [5, 77, 7, 0xFD],
        [6, 77, 8, 0xFE],
        [7, 77, 255, 0xFF],
    ];
    let bytes = strict_stream(1, 3, 3, b"kinds", b"all of them", &records);
    let map = decoded(&bytes);
    assert_eq!(map.info.name, "kinds");
    assert_eq!(map.info.description, "all of them");
    let expected = [
        (CellType::Normal, 1u8, false, false, "well0005", 0u32),
        (CellType::Dirt(77), 2, true, false, "well0002", 2),
        (CellType::Lava(77), 3, false, true, "well0004", 2),
        (CellType::Microbe(77), 4, true, true, "well0003", 2),
        (CellType::Mine(false), 5, false, false, "well0000", 0),
        (CellType::Mine(true), 6, false, false, "well0000", 1),
        (CellType::Rock(77), 7, true, false, "well0001", 2),
        (CellType::Tube(77), 8, false, true, "well0012", 1),
        (CellType::Wall(77), 255, true, true, "well0006", 3),
    ];
    for k in 0..9 {
        let x = (k % 3) as i32;
        let y = (k / 3) as i32;
        let cell = map.get_cell(x, y).unwrap();
        let e = &expected[k];
        assert_eq!(cell.position, Position { x, y });
        assert_eq!(cell.cell_type, e.0);
        assert_eq!(cell.height, e.1);
        assert_eq!(cell.has_wreckage, e.2);
        assert_eq!(cell.has_unit, e.3);
        let tile = cell.tile_info.as_ref().unwrap();
        assert_eq!(tile.tileset_name, e.4);
        assert_eq!(tile.tile_index, e.5);
    }
}

#[test]
fn strict_rows_are_read_one_after_the_other() {
    let records = [[1, 0, 10, 0], [1, 1, 11, 0], [1, 2, 12, 0], [2, 0, 20, 0], [2, 1, 21, 0], [2, 2, 22, 0]];
    let map = decoded(&strict_stream(1, 3, 2, b"", b"", &records));
    assert_eq!(map.cells.len(), 2);
    assert_eq!(map.get_cell(0, 0).unwrap().height, 10);
    assert_eq!(map.get_cell(2, 0).unwrap().height, 12);
    assert_eq!(map.get_cell(0, 1).unwrap().height, 20);
    assert_eq!(map.get_cell(2, 1).unwrap().cell_type, CellType::Lava(2));
    let map = decoded(&strict_stream(1, 2, 3, b"", b"", &records));
    assert_eq!(map.cells.len(), 3);
    assert_eq!(map.get_cell(1, 0).unwrap().height, 11);
    assert_eq!(map.get_cell(0, 1).unwrap().height, 12);
    assert_eq!(map.get_cell(1, 2).unwrap().height, 22);
}

#[test]
fn strict_texts_are_read_leniently() {
    let bytes = strict_stream(1, 0, 0, &[b'a', 0xFF, b'b'], &[0xC3, 0xA9, 0x80], &[]);
    let map = decoded(&bytes);
    assert_eq!(map.info.name, "a\u{FFFD}b");
    assert_eq!(map.info.description, "\u{e9}\u{FFFD}");
}

#[test]
fn strict_long_texts() {
    let name = vec![b'n'; 255];
    let description = vec![b'd'; 300];
    let bytes = strict_stream(1, 1, 1, &name, &description, &[[6, 5, 4, 2]]);
    let map = decoded(&bytes);
    assert_eq!(map.info.name.len(), 255);
    assert_eq!(map.info.description.len(), 300);
    assert!(map.info.description.chars().all(|c| c == 'd'));
    let cell = map.get_cell(0, 0).unwrap();
    assert_eq!(cell.cell_type, CellType::Tube(5));
    assert!(cell.has_unit);
    assert!(!cell.has_wreckage);
}

#[test]
fn strict_empty_grids() {
    let map = decoded(&strict_stream(1, 0, 0, b"", b"", &[]));
    assert_eq!(map.info.width, 0);
    assert!(map.cells.is_empty());
    let map = decoded(&strict_stream(1, 0, 4, b"", b"", &[]));
    assert_eq!(map.cells.len(), 4);
    assert!(map.cells.iter().all(|row| row.is_empty()));
    let map = decoded(&strict_stream(1, 4, 0, b"", b"", &[]));
    assert_eq!(map.info.width, 4);
    assert!(map.cells.is_empty());
}

#[test]
fn strict_grid_without_rows_may_be_as_wide_as_it_likes() {
    let map = decoded(&strict_stream(1, 0x8000_0000, 0, b"", b"", &[[9, 9, 9, 9]]));
    assert_eq!(map.info.width, 0x8000_0000);
    assert_eq!(map.info.height, 0);
    assert!(map.cells.is_empty());
    let map = decoded(&strict_stream(1, u32::MAX, 0, b"", b"", &[]));
    assert_eq!(map.info.width, u32::MAX);
    assert!(map.cells.is_empty());
}

#[test]
fn strict_huge_dimensions_on_a_short_stream_are_io_errors() {
    let bytes = strict_stream(1, 0x8000_0000, 1, b"", b"", &[]);
    assert_eq!(bytes.len(), 19);
    assert!(is_unexpected_eof(&failure(&bytes)));
    let bytes = strict_stream(1, 1, 0x8000_0000, b"", b"", &[]);
    assert!(is_unexpected_eof(&failure(&bytes)));
    let bytes = strict_stream(1, u32::MAX, u32::MAX, b"", b"", &[[0, 0, 0, 0]; 3]);
    assert!(is_unexpected_eof(&failure(&bytes)));
    let mut bytes = strict_stream(1, 0x8000_0001, 2, b"wide", b"", &[[1, 2, 3, 0], [7, 0, 0, 0]]);
    bytes.truncate(bytes.len() - 1);
    assert!(is_unexpected_eof(&failure(&bytes)));
}

#[test]
fn strict_huge_dimensions_do_not_excuse_a_bad_kind_byte() {
    let bytes = strict_stream(1, 0x8000_0000, 1, b"", b"", &[[0, 0, 0, 0], [8, 0, 0, 0]]);
    assert_eq!(invalid_format_text(&failure(&bytes)), "Invalid cell type: 8");
    let bytes = strict_stream(1, u32::MAX, u32::MAX, b"", b"", &[[200, 0, 0, 0]]);
    assert_eq!(invalid_format_text(&failure(&bytes)), "Invalid cell type: 200");
}

#[test]
fn coordinates_stop_at_the_last_that_a_position_holds() {
    assert_eq!(coordinate_of(0), 0);
    assert_eq!(coordinate_of(1023), 1023);
    assert_eq!(coordinate_of(0x7FFF_FFFF), i32::MAX);
    assert_eq!(coordinate_of(0x8000_0000), i32::MAX);
    assert_eq!(coordinate_of(u32::MAX), i32::MAX);
}

#[test]
fn short_stream_error_reads_as_the_standard_one() {
    let e = failure(b"FORM2\0\x01\0");
    assert!(is_unexpected_eof(&e));
    match e {
        MapLoadError::IoError(io) => assert_eq!(io.to_string(), "failed to fill whole buffer"),
        _ => unreachable!(),
    }
}

#[test]
fn first_stage_reads_the_strict_format_by_its_magic() {
    let bytes = strict_stream(1, 1, 1, b"one", b"", &[[7, 1, 0, 0]]);
    let map = load_original_map_format(&bytes).unwrap();
    assert_eq!(map.info.name, "one");
    assert_eq!(map.get_cell(0, 0).unwrap().cell_type, CellType::Wall(1));
    let bytes = strict_stream(3, 1, 1, b"one", b"", &[[7, 1, 0, 0]]);
    assert!(matches!(
        load_original_map_format(&bytes).err().unwrap(),
        MapLoadError::UnsupportedVersion(3)
    ));
    assert!(is_unexpected_eof(&load_original_map_format(b"FORM2").err().unwrap()));
    assert!(is_unexpected_eof(&load_original_map_format(b"").err().unwrap()));
}
