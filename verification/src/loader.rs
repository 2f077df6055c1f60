//! The map decoders: the strict decoder of the versioned format, the decoder
//! of the older sample format, and the choice between them.

use crate::classify::{classified, classify, tile_of, ClassifyPolicy};
use crate::error::{unexpected_eof, Fault, MapLoadError};
use crate::text::{decimal, push_decimal};
use crate::types::{
    grid_view, Cell, CellModel, MapInfo, MapInfoModel, MapModel, Position, TileMap,
};
use vstd::prelude::*;
use vstd::slice::slice_subrange;
use vstd::string::StringExecFns;

verus! {

/// The little-endian 16-bit number at `at`.
pub open spec fn le_u16(s: Seq<u8>, at: int) -> int {
    s[at] as int + 256 * (s[at + 1] as int)
}

/// The little-endian 32-bit number at `at`.
pub open spec fn le_u32(s: Seq<u8>, at: int) -> int {
    s[at] as int + 256 * (s[at + 1] as int) + 65536 * (s[at + 2] as int) + 16777216 * (s[at
        + 3] as int)
}

/// The stream begins with the five characters of the magic tag, `FORM2`.
pub open spec fn has_form2_magic(s: Seq<u8>) -> bool {
    &&& s.len() >= 5
    &&& s[0] == 70
    &&& s[1] == 79
    &&& s[2] == 82
    &&& s[3] == 77
    &&& s[4] == 50
}

/// The coordinate of column or row `i` of a grid. A position holds signed
/// 32-bit coordinates: a column or row beyond their range bears the last
/// coordinate that they can hold.
pub open spec fn coordinate(i: int) -> i32 {
    if i <= i32::MAX {
        i as i32
    } else {
        i32::MAX
    }
}

/// The coordinate of column or row `i` of a grid.
pub fn coordinate_of(i: u32) -> (c: i32)
    ensures
        c == coordinate(i as int),
{
    if i <= i32::MAX as u32 {
        i as i32
    } else {
        i32::MAX
    }
}

/// The cell that the four-byte record at `at` stands for, as the cell at
/// `(x, y)`: kind byte, sub-type byte, height, flags.
pub open spec fn record_cell(s: Seq<u8>, at: int, x: int, y: int, policy: ClassifyPolicy) -> CellModel
    recommends
        0 <= at,
        at + 4 <= s.len(),
        classified(policy, s[at], s[at + 1]) is Some,
{
    let cell_type = classified(policy, s[at], s[at + 1])->0;
    CellModel {
        position: Position { x: coordinate(x), y: coordinate(y) },
        cell_type,
        height: s[at + 2],
        has_wreckage: s[at + 3] & 1 != 0,
        has_unit: s[at + 3] & 2 != 0,
        tile_info: Some(tile_of(cell_type)),
    }
}

/// The fault of record `k` taken alone, in a run of records that starts at
/// `cells_at`: it is cut short by the end of the stream, or its kind byte has
/// no kind under `policy`.
pub open spec fn record_fault(s: Seq<u8>, cells_at: int, k: int, policy: ClassifyPolicy) -> Option<
    Fault,
> {
    let at = cells_at + 4 * k;
    if s.len() < at + 4 {
        Some(Fault::Truncated)
    } else if classified(policy, s[at], s[at + 1]) is None {
        Some(Fault::BadCellType(s[at]))
    } else {
        None
    }
}

/// Record `k` is the first of `count` records that has a fault.
pub open spec fn is_first_fault(
    s: Seq<u8>,
    cells_at: int,
    count: int,
    policy: ClassifyPolicy,
    k: int,
) -> bool {
    &&& 0 <= k < count
    &&& record_fault(s, cells_at, k, policy) is Some
    &&& forall|j: int| 0 <= j < k ==> record_fault(s, cells_at, j, policy) is None
}

/// The fault of a run of `count` records: that of the first record with a
/// fault, none where every record is sound.
pub open spec fn records_fault(s: Seq<u8>, cells_at: int, count: int, policy: ClassifyPolicy) -> Option<
    Fault,
> {
    if exists|k: int| is_first_fault(s, cells_at, count, policy, k) {
        record_fault(
            s,
            cells_at,
            choose|k: int| is_first_fault(s, cells_at, count, policy, k),
            policy,
        )
    } else {
        None
    }
}

/// The number of records of a grid of the given dimensions: one for each
/// cell.
pub open spec fn record_count(width: u32, height: u32) -> int {
    width * height
}

/// The grid of a decoded map: row `y`, column `x` holds the cell of record
/// `y * width + x`.
pub open spec fn decoded_grid(
    s: Seq<u8>,
    cells_at: int,
    width: u32,
    height: u32,
    policy: ClassifyPolicy,
) -> Seq<Seq<CellModel>> {
    Seq::new(
        height as nat,
        |y: int|
            Seq::new(
                width as nat,
                |x: int| record_cell(s, cells_at + 4 * (y * width + x), x, y, policy),
            ),
    )
}

/// Two records cannot both be the first with a fault.
proof fn lemma_first_fault_unique(
    s: Seq<u8>,
    cells_at: int,
    count: int,
    policy: ClassifyPolicy,
    k: int,
)
    requires
        is_first_fault(s, cells_at, count, policy, k),
    ensures
        records_fault(s, cells_at, count, policy) == record_fault(s, cells_at, k, policy),
{
    let chosen = choose|j: int| is_first_fault(s, cells_at, count, policy, j);
    assert(is_first_fault(s, cells_at, count, policy, chosen));
    if chosen < k {
        assert(record_fault(s, cells_at, chosen, policy) is None);
    } else if k < chosen {
        assert(record_fault(s, cells_at, k, policy) is None);
    }
}

/// The text of the error for a kind byte that has no kind.
fn bad_cell_type(type_byte: u8) -> (e: MapLoadError)
    ensures
        e.reports(Fault::BadCellType(type_byte)),
{
    let mut detail = String::from_str("Invalid cell type: ");
    push_decimal(&mut detail, type_byte as u64);
    MapLoadError::InvalidFormat(detail)
}

/// Reads `width * height` records from `cells_at` on, row by row, and gives
/// the rows of cells. It stops at the first record with a fault.
fn read_cells(
    bytes: &[u8],
    cells_at: usize,
    width: u32,
    height: u32,
    policy: ClassifyPolicy,
) -> (r: Result<Vec<Vec<Cell>>, MapLoadError>)
    requires
        cells_at <= bytes@.len(),
    ensures
        match records_fault(bytes@, cells_at as int, record_count(width, height), policy) {
            Some(f) => r matches Err(e) && e.reports(f),
            None => r matches Ok(rows) && grid_view(rows@) == decoded_grid(
                bytes@,
                cells_at as int,
                width,
                height,
                policy,
            ) && rows@.len() == height && forall|y: int|
                0 <= y < height ==> (#[trigger] rows@[y])@.len() == width,
        },
{
    let ghost s = bytes@;
    let ghost w = width as int;
    let ghost count = width * height;
    let mut rows: Vec<Vec<Cell>> = Vec::new();
    let mut at: usize = cells_at;
    let mut y: u32 = 0;
    let ghost mut done: int = 0;
    while y < height
        invariant
            s == bytes@,
            w == width as int,
            count == width * height,
            y <= height,
            done == y * w,
            at == cells_at + 4 * done,
            at <= s.len(),
            rows@.len() == y,
            forall|j: int| 0 <= j < done ==> record_fault(s, cells_at as int, j, policy) is None,
            forall|yy: int| 0 <= yy < y ==> (#[trigger] rows@[yy])@.len() == w,
            forall|yy: int, xx: int|
                0 <= yy < y && 0 <= xx < w ==> (#[trigger] rows@[yy]@[xx])@ == record_cell(
                    s,
                    cells_at + 4 * (yy * w + xx),
                    xx,
                    yy,
                    policy,
                ),
        decreases height - y,
    {
        let mut row: Vec<Cell> = Vec::new();
        let mut x: u32 = 0;
        let ghost row_start = done;
        while x < width
            invariant
                s == bytes@,
                w == width as int,
                count == width * height,
                y < height,
                x <= width,
                row_start == y * w,
                done == row_start + x,
                at == cells_at + 4 * done,
                at <= s.len(),
                row@.len() == x,
                forall|j: int| 0 <= j < done ==> record_fault(s, cells_at as int, j, policy) is None,
                forall|xx: int|
                    0 <= xx < x ==> (#[trigger] row@[xx])@ == record_cell(
                        s,
                        cells_at + 4 * (y * w + xx),
                        xx,
                        y as int,
                        policy,
                    ),
            decreases width - x,
        {
            proof {
                assert(done < count) by (nonlinear_arith)
                    requires
                        done == y * w + x,
                        0 <= x < w,
                        0 <= y < height,
                        count == w * height,
                ;
            }
            if bytes.len() - at < 4 {
                proof {
                    assert(is_first_fault(s, cells_at as int, count, policy, done));
                    lemma_first_fault_unique(s, cells_at as int, count, policy, done);
                }
                return Err(MapLoadError::IoError(unexpected_eof()));
            }
            let type_byte = bytes[at];
            let subtype_byte = bytes[at + 1];
            let cell_height = bytes[at + 2];
            let flags = bytes[at + 3];
            match classify(policy, type_byte, subtype_byte) {
                None => {
                    proof {
                        assert(is_first_fault(s, cells_at as int, count, policy, done));
                        lemma_first_fault_unique(s, cells_at as int, count, policy, done);
                    }
                    return Err(bad_cell_type(type_byte));
                },
                Some(pair) => {
                    let cell = Cell {
                        position: Position::new(coordinate_of(x), coordinate_of(y)),
                        cell_type: pair.0,
                        height: cell_height,
                        has_wreckage: (flags & 1) != 0,
                        has_unit: (flags & 2) != 0,
                        tile_info: Some(pair.1),
                    };
                    assert(cell@ == record_cell(s, at as int, x as int, y as int, policy));
                    row.push(cell);
                },
            }
            proof {
                assert(record_fault(s, cells_at as int, done, policy) is None);
                done = done + 1;
            }
            at = at + 4;
            x = x + 1;
        }
        rows.push(row);
        proof {
            assert(done == (y + 1) * w) by (nonlinear_arith)
                requires
                    done == y * w + w,
            ;
        }
        y = y + 1;
    }
    proof {
        assert(done == count) by (nonlinear_arith)
            requires
                done == y * w,
                y == height,
                count == w * height,
        ;
        assert forall|k: int| !is_first_fault(s, cells_at as int, count, policy, k) by {
            if 0 <= k < count {
                assert(record_fault(s, cells_at as int, k, policy) is None);
            }
        }
        assert(grid_view(rows@) =~~= decoded_grid(s, cells_at as int, width, height, policy));
    }
    Ok(rows)
}

/// The text that `String::from_utf8_lossy` makes of bytes that are not valid
/// UTF-8.
pub uninterp spec fn utf8_lossy(bytes: Seq<u8>) -> Seq<char>;

/// The text of `bytes`, read leniently: the text that they encode where they
/// are valid UTF-8; otherwise that text with each invalid sequence replaced
/// by U+FFFD.
pub open spec fn lenient_text(bytes: Seq<u8>) -> Seq<char> {
    if vstd::utf8::valid_utf8(bytes) {
        vstd::utf8::decode_utf8(bytes)
    } else {
        utf8_lossy(bytes)
    }
}

/// The characters of bytes that are all ASCII, one for each byte.
pub open spec fn ascii_text(bytes: Seq<u8>) -> Seq<char> {
    Seq::new(bytes.len(), |i: int| bytes[i] as char)
}

/// Bytes that are all ASCII are read as they stand: the text has one
/// character for each byte, the one that the byte numbers.
pub proof fn lemma_ascii_text(bytes: Seq<u8>)
    requires
        forall|i: int| 0 <= i < bytes.len() ==> bytes[i] < 128,
    ensures
        lenient_text(bytes) == ascii_text(bytes),
{
    let chars = ascii_text(bytes);
    assert(vstd::utf8::is_ascii_chars(chars));
    vstd::utf8::is_ascii_chars_encode_utf8(chars);
    assert(vstd::utf8::encode_utf8(chars) =~= bytes) by {
        assert forall|i: int| 0 <= i < bytes.len() implies vstd::utf8::encode_utf8(chars)[i]
            == bytes[i] by {
            assert(chars[i] as u8 == vstd::utf8::encode_utf8(chars)[i]);
            assert(chars[i] == bytes[i] as char);
        }
    }
    vstd::utf8::encode_utf8_valid_utf8(chars);
    vstd::utf8::encode_utf8_decode_utf8(chars);
}

/// `String::from_utf8_lossy`: the text of `bytes`, with each invalid sequence
/// replaced by U+FFFD. Bytes that are valid UTF-8 give the text they encode.
#[verifier::external_body]
fn lossy_text(bytes: &[u8]) -> (text: String)
    ensures
        vstd::utf8::valid_utf8(bytes@) ==> text@ == vstd::utf8::decode_utf8(bytes@),
        !vstd::utf8::valid_utf8(bytes@) ==> text@ == utf8_lossy(bytes@),
{
    String::from_utf8_lossy(bytes).into_owned()
}

/// Reads the little-endian 16-bit number at `at`.
fn read_u16_le(bytes: &[u8], at: usize) -> (v: u16)
    requires
        at + 2 <= bytes@.len(),
    ensures
        v == le_u16(bytes@, at as int),
{
    bytes[at] as u16 + 256 * (bytes[at + 1] as u16)
}

/// Reads the little-endian 32-bit number at `at`.
fn read_u32_le(bytes: &[u8], at: usize) -> (v: u32)
    requires
        at + 4 <= bytes@.len(),
    ensures
        v == le_u32(bytes@, at as int),
{
    bytes[at] as u32 + 256 * (bytes[at + 1] as u32) + 65536 * (bytes[at + 2] as u32) + 16777216
        * (bytes[at + 3] as u32)
}

/// Where the description's length stands in a stream of the strict format:
/// behind the header, the dimensions, the name's length and the name.
pub open spec fn strict_description_at(s: Seq<u8>) -> int {
    17 + s[16] as int
}

/// Where the cell records of a stream of the strict format begin: behind the
/// description.
pub open spec fn strict_cells_at(s: Seq<u8>) -> int {
    strict_description_at(s) + 2 + le_u16(s, strict_description_at(s))
}

/// The fault in what stands before the cell records of a stream of the strict
/// format, if there is one: the header is cut short, the magic tag is wrong,
/// the version is not 1, or the stream ends inside the dimensions or texts.
pub open spec fn strict_header_fault(s: Seq<u8>) -> Option<Fault> {
    if s.len() < 8 {
        Some(Fault::Truncated)
    } else if !has_form2_magic(s) {
        Some(Fault::NotForm2)
    } else if le_u16(s, 6) != 1 {
        Some(Fault::UnsupportedVersion(le_u16(s, 6) as u32))
    } else if s.len() < 17 || s.len() < strict_description_at(s) + 2 || s.len() < strict_cells_at(
        s,
    ) {
        Some(Fault::Truncated)
    } else {
        None
    }
}

/// The dimensions and texts that a stream of the strict format declares. The
/// texts are read leniently.
pub open spec fn strict_info(s: Seq<u8>) -> MapInfoModel {
    MapInfoModel {
        width: le_u32(s, 8) as u32,
        height: le_u32(s, 12) as u32,
        name: lenient_text(s.subrange(17, strict_description_at(s))),
        description: lenient_text(s.subrange(strict_description_at(s) + 2, strict_cells_at(s))),
        author: Seq::empty(),
        requirements: Seq::empty(),
    }
}

/// What the strict decoder makes of a stream: the map it holds, or the first
/// fault in reading order.
pub open spec fn strict_decode(s: Seq<u8>) -> Result<MapModel, Fault> {
    let info = strict_info(s);
    match strict_header_fault(s) {
        Some(f) => Err(f),
        None => match records_fault(
            s,
            strict_cells_at(s),
            record_count(info.width, info.height),
            ClassifyPolicy::Exact,
        ) {
            Some(f) => Err(f),
            None => Ok(
                MapModel {
                    info,
                    cells: decoded_grid(
                        s,
                        strict_cells_at(s),
                        info.width,
                        info.height,
                        ClassifyPolicy::Exact,
                    ),
                },
            ),
        },
    }
}

/// A result of a decoder agrees with what the format says of the stream: the
/// same map, well formed and without tile images, or the error that reports
/// the same fault.
pub open spec fn agrees(r: Result<TileMap, MapLoadError>, expected: Result<MapModel, Fault>) -> bool {
    match expected {
        Ok(m) => r matches Ok(map) && map@ == m && map.wf() && map.tileset_cache is None,
        Err(f) => r matches Err(e) && e.reports(f),
    }
}

/// Decodes a stream of the strict format.
pub fn load_form2_map(bytes: &[u8]) -> (r: Result<TileMap, MapLoadError>)
    ensures
        agrees(r, strict_decode(bytes@)),
{
    let len = bytes.len();
    if len < 8 {
        return Err(MapLoadError::IoError(unexpected_eof()));
    }
    if !(bytes[0] == 70 && bytes[1] == 79 && bytes[2] == 82 && bytes[3] == 77 && bytes[4] == 50) {
        return Err(MapLoadError::InvalidFormat(String::from_str("Not a FORM2 map file")));
    }
    let version = read_u16_le(bytes, 6);
    if version != 1 {
        return Err(MapLoadError::UnsupportedVersion(version as u32));
    }
    if len < 17 {
        return Err(MapLoadError::IoError(unexpected_eof()));
    }
    let width = read_u32_le(bytes, 8);
    let height = read_u32_le(bytes, 12);
    let description_at: usize = 17 + bytes[16] as usize;
    if len - 17 < bytes[16] as usize || len - description_at < 2 {
        return Err(MapLoadError::IoError(unexpected_eof()));
    }
    let name = lossy_text(slice_subrange(bytes, 17, description_at));
    let description_len = read_u16_le(bytes, description_at) as usize;
    let text_at: usize = description_at + 2;
    if len - text_at < description_len {
        return Err(MapLoadError::IoError(unexpected_eof()));
    }
    let cells_at: usize = text_at + description_len;
    let description = lossy_text(slice_subrange(bytes, text_at, cells_at));
    let info = MapInfo {
        width,
        height,
        name,
        description,
        author: String::new(),
        requirements: Vec::new(),
    };
    assert(info@.requirements =~= Seq::empty());
    assert(info@ == strict_info(bytes@));
    match read_cells(bytes, cells_at, width, height, ClassifyPolicy::Exact) {
        Ok(cells) => Ok(TileMap { info, cells, tileset_cache: None }),
        Err(e) => Err(e),
    }
}

/// The bound of the sample format on a dimension: more than 0, at most 1024.
pub open spec fn sample_dimension_ok(d: u32) -> bool {
    0 < d <= 1024
}

/// The dimensions and texts of a map of the sample format: the name is fixed,
/// the description tells the size.
pub open spec fn sample_info(s: Seq<u8>) -> MapInfoModel {
    let width = le_u32(s, 8) as u32;
    let height = le_u32(s, 12) as u32;
    MapInfoModel {
        width,
        height,
        name: "Sample Map"@,
        description: size_text(width, height),
        author: Seq::empty(),
        requirements: Seq::empty(),
    }
}

/// The description that tells the size of a map.
pub open spec fn size_text(width: u32, height: u32) -> Seq<char> {
    "Map size: "@ + decimal(width as nat) + "x"@ + decimal(height as nat)
}

/// What the decoder of the sample format makes of a stream. The first eight
/// bytes are not looked at; the dimensions follow; the records begin at byte
/// 32 and are read under the tolerant policy.
pub open spec fn sample_decode(s: Seq<u8>) -> Result<MapModel, Fault> {
    let info = sample_info(s);
    if s.len() < 16 {
        Err(Fault::Truncated)
    } else if !sample_dimension_ok(info.width) || !sample_dimension_ok(info.height) {
        Err(Fault::BadDimensions(info.width, info.height))
    } else {
        match records_fault(s, 32, record_count(info.width, info.height), ClassifyPolicy::Tolerant) {
            Some(f) => Err(f),
            None => Ok(
                MapModel {
                    info,
                    cells: decoded_grid(s, 32, info.width, info.height, ClassifyPolicy::Tolerant),
                },
            ),
        }
    }
}

/// The description that tells the size of a map.
pub(crate) fn size_description(width: u32, height: u32) -> (text: String)
    ensures
        text@ == size_text(width, height),
{
    let mut text = String::from_str("Map size: ");
    push_decimal(&mut text, width as u64);
    text.append("x");
    push_decimal(&mut text, height as u64);
    text
}

/// The error for dimensions that the sample format does not take.
fn bad_dimensions(width: u32, height: u32) -> (e: MapLoadError)
    ensures
        e.reports(Fault::BadDimensions(width, height)),
{
    let mut detail = String::from_str("Invalid map dimensions: ");
    push_decimal(&mut detail, width as u64);
    detail.append("x");
    push_decimal(&mut detail, height as u64);
    MapLoadError::InvalidFormat(detail)
}

/// Decodes a stream of the sample format.
pub fn load_sample_map(bytes: &[u8]) -> (r: Result<TileMap, MapLoadError>)
    ensures
        agrees(r, sample_decode(bytes@)),
{
    let len = bytes.len();
    if len < 16 {
        return Err(MapLoadError::IoError(unexpected_eof()));
    }
    let width = read_u32_le(bytes, 8);
    let height = read_u32_le(bytes, 12);
    if width == 0 || height == 0 || width > 1024 || height > 1024 {
        return Err(bad_dimensions(width, height));
    }
    let ghost count = width * height;
    if len < 32 {
        proof {
            assert(count >= 1) by (nonlinear_arith)
                requires
                    count == width * height,
                    width >= 1,
                    height >= 1,
            ;
            assert(is_first_fault(bytes@, 32, count, ClassifyPolicy::Tolerant, 0));
            lemma_first_fault_unique(bytes@, 32, count, ClassifyPolicy::Tolerant, 0);
        }
        return Err(MapLoadError::IoError(unexpected_eof()));
    }
    let info = MapInfo {
        width,
        height,
        name: String::from_str("Sample Map"),
        description: size_description(width, height),
        author: String::new(),
        requirements: Vec::new(),
    };
    assert(info@.requirements =~= Seq::empty());
    match read_cells(bytes, 32, width, height, ClassifyPolicy::Tolerant) {
        Ok(cells) => Ok(TileMap { info, cells, tileset_cache: None }),
        Err(e) => Err(e),
    }
}

/// What the first stage of loading makes of a stream: it looks at the first
/// eight bytes, and reads the stream in the strict format where they begin
/// with the magic tag, in the sample format where they do not.
pub open spec fn original_decode(s: Seq<u8>) -> Result<MapModel, Fault> {
    if s.len() < 8 {
        Err(Fault::Truncated)
    } else if has_form2_magic(s) {
        strict_decode(s)
    } else {
        sample_decode(s)
    }
}

/// Decodes a stream in the format that its first bytes tell.
pub fn load_original_map_format(bytes: &[u8]) -> (r: Result<TileMap, MapLoadError>)
    ensures
        agrees(r, original_decode(bytes@)),
{
    if bytes.len() < 8 {
        return Err(MapLoadError::IoError(unexpected_eof()));
    }
    if bytes[0] == 70 && bytes[1] == 79 && bytes[2] == 82 && bytes[3] == 77 && bytes[4] == 50 {
        load_form2_map(bytes)
    } else {
        load_sample_map(bytes)
    }
}

/// Where some record has a fault, one of them is the first.
proof fn lemma_first_fault_exists(
    s: Seq<u8>,
    cells_at: int,
    count: int,
    policy: ClassifyPolicy,
    k: int,
)
    requires
        0 <= k < count,
        record_fault(s, cells_at, k, policy) is Some,
    ensures
        exists|j: int| is_first_fault(s, cells_at, count, policy, j),
    decreases k,
{
    if forall|j: int| 0 <= j < k ==> record_fault(s, cells_at, j, policy) is None {
        assert(is_first_fault(s, cells_at, count, policy, k));
    } else {
        let j = choose|j: int| 0 <= j < k && record_fault(s, cells_at, j, policy) is Some;
        lemma_first_fault_exists(s, cells_at, count, policy, j);
    }
}

/// A run of records is without fault exactly where each record is.
pub proof fn lemma_records_sound(s: Seq<u8>, cells_at: int, count: int, policy: ClassifyPolicy)
    ensures
        records_fault(s, cells_at, count, policy) is None <==> forall|k: int|
            0 <= k < count ==> record_fault(s, cells_at, k, policy) is None,
        records_fault(s, cells_at, count, policy) matches Some(f) ==> exists|k: int|
            is_first_fault(s, cells_at, count, policy, k) && record_fault(s, cells_at, k, policy)
                == Some(f),
{
    if exists|k: int| is_first_fault(s, cells_at, count, policy, k) {
        let k = choose|k: int| is_first_fault(s, cells_at, count, policy, k);
        assert(record_fault(s, cells_at, k, policy) is Some);
    } else {
        assert forall|k: int| 0 <= k < count implies record_fault(s, cells_at, k, policy)
            is None by {
            if record_fault(s, cells_at, k, policy) is Some {
                lemma_first_fault_exists(s, cells_at, count, policy, k);
            }
        }
    }
}

/// The stream holds all that the strict format asks for: the dimensions, the
/// texts, and every record of the grid.
pub open spec fn strict_complete(s: Seq<u8>) -> bool {
    &&& s.len() >= 17
    &&& s.len() >= strict_description_at(s) + 2
    &&& s.len() >= strict_cells_at(s) + 4 * record_count(
        le_u32(s, 8) as u32,
        le_u32(s, 12) as u32,
    )
}

/// The kind byte of record `k` of a stream of the strict format.
pub open spec fn strict_kind_byte(s: Seq<u8>, k: int) -> u8 {
    s[strict_cells_at(s) + 4 * k]
}

/// On a stream that holds all that the strict format asks for, the strict
/// decoder succeeds exactly where the magic tag is right, the version is 1
/// and the kind byte of every record is at most 7. A wrong magic tag is
/// reported as such; after a right one, a wrong version is reported with its
/// number, whatever follows the header; after both, a kind byte beyond 7 is
/// reported with its value.
pub proof fn lemma_strict_accepts(s: Seq<u8>)
    requires
        s.len() >= 8,
        has_form2_magic(s) && le_u16(s, 6) == 1 ==> strict_complete(s),
    ensures
        strict_decode(s) is Ok <==> has_form2_magic(s) && le_u16(s, 6) == 1 && forall|k: int|
            0 <= k < record_count(le_u32(s, 8) as u32, le_u32(s, 12) as u32)
                ==> #[trigger] strict_kind_byte(s, k) <= 7,
        !has_form2_magic(s) ==> strict_decode(s) == Err::<MapModel, Fault>(Fault::NotForm2),
        has_form2_magic(s) && le_u16(s, 6) != 1 ==> strict_decode(s) == Err::<MapModel, Fault>(
            Fault::UnsupportedVersion(le_u16(s, 6) as u32),
        ),
        has_form2_magic(s) && le_u16(s, 6) == 1 && strict_decode(s) is Err ==> (strict_decode(s)
            matches Err(Fault::BadCellType(n)) && n > 7),
{
    if has_form2_magic(s) && le_u16(s, 6) == 1 {
        let at = strict_cells_at(s);
        let count = record_count(le_u32(s, 8) as u32, le_u32(s, 12) as u32);
        let exact = ClassifyPolicy::Exact;
        lemma_records_sound(s, at, count, exact);
        assert forall|k: int| 0 <= k < count implies (record_fault(s, at, k, exact) is None
            <==> #[trigger] strict_kind_byte(s, k) <= 7) by {
            assert(s.len() >= at + 4 * k + 4) by (nonlinear_arith)
                requires
                    s.len() >= at + 4 * count,
                    0 <= k < count,
            ;
        }
        if records_fault(s, at, count, exact) is Some {
            let k = choose|k: int|
                is_first_fault(s, at, count, exact, k) && record_fault(s, at, k, exact)
                    == records_fault(s, at, count, exact);
            assert(strict_kind_byte(s, k) > 7);
        }
    }
}

/// A stream of the strict format with the right magic tag and version that
/// ends before the last byte that it declares is reported as truncated,
/// provided that every record that is there in full has a kind byte of at
/// most 7: no map is made of the part that is there.
pub proof fn lemma_strict_truncated(s: Seq<u8>)
    requires
        s.len() >= 8,
        has_form2_magic(s),
        le_u16(s, 6) == 1,
        !strict_complete(s),
        forall|k: int|
            0 <= k && strict_cells_at(s) + 4 * k + 4 <= s.len() ==> #[trigger] strict_kind_byte(
                s,
                k,
            ) <= 7,
    ensures
        strict_decode(s) == Err::<MapModel, Fault>(Fault::Truncated),
{
    if strict_header_fault(s) is None {
        let at = strict_cells_at(s);
        let count = record_count(le_u32(s, 8) as u32, le_u32(s, 12) as u32);
        let exact = ClassifyPolicy::Exact;
        let missing = (s.len() - at) / 4;
        assert(0 <= missing < count && at + 4 * missing <= s.len() < at + 4 * missing + 4);
        assert forall|j: int| 0 <= j < missing implies record_fault(s, at, j, exact) is None by {
            assert(strict_kind_byte(s, j) <= 7);
        }
        assert(is_first_fault(s, at, count, exact, missing));
        lemma_first_fault_unique(s, at, count, exact, missing);
    }
}

/// On a stream of the sample format that holds its dimensions, dimensions
/// beyond the bound are reported as such, whatever follows them; within the
/// bound, the stream is decoded exactly where every record is there, and a
/// stream cut short in its records is reported as truncated.
pub proof fn lemma_sample_accepts(s: Seq<u8>)
    requires
        s.len() >= 16,
    ensures
        ({
            let width = le_u32(s, 8) as u32;
            let height = le_u32(s, 12) as u32;
            if !sample_dimension_ok(width) || !sample_dimension_ok(height) {
                sample_decode(s) == Err::<MapModel, Fault>(Fault::BadDimensions(width, height))
            } else if s.len() < 32 + 4 * (width * height) {
                sample_decode(s) == Err::<MapModel, Fault>(Fault::Truncated)
            } else {
                sample_decode(s) is Ok
            }
        }),
{
    let width = le_u32(s, 8) as u32;
    let height = le_u32(s, 12) as u32;
    if sample_dimension_ok(width) && sample_dimension_ok(height) {
        let count = width * height;
        let tolerant = ClassifyPolicy::Tolerant;
        lemma_records_sound(s, 32, count, tolerant);
        assert(count >= 1) by (nonlinear_arith)
            requires
                count == width * height,
                width >= 1,
                height >= 1,
        ;
        if s.len() < 32 + 4 * count {
            assert(record_fault(s, 32, count - 1, tolerant) is Some);
        } else {
            assert forall|k: int| 0 <= k < count implies record_fault(s, 32, k, tolerant)
                is None by {}
        }
    }
}

} // verus!
