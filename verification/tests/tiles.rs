use image::{DynamicImage, ImageFormat};
use op2mapviewer::error::MapLoadError;
use op2mapviewer::tiles::{decode_tile, load_tilesets, retry_as_bitmap, tileset_key, TilesetCache};
use op2mapviewer::types::{MapInfo, TileMap};
use std::io::{Cursor, Write};
use std::sync::Arc;
use zip::write::FileOptions;
use zip::{CompressionMethod, ZipWriter};

fn encoded(width: u32, height: u32, format: ImageFormat) -> Vec<u8> {
    let image = DynamicImage::new_rgb8(width, height);
    let mut bytes = Vec::new();
    image.write_to(&mut Cursor::new(&mut bytes), format).unwrap();
    bytes
}

fn bitmap(width: u32, height: u32) -> Vec<u8> {
    encoded(width, height, ImageFormat::Bmp)
}

fn archive_of(entries: &[(&str, Vec<u8>)], method: CompressionMethod) -> Vec<u8> {
    let mut writer = ZipWriter::new(Cursor::new(Vec::new()));
    for (name, bytes) in entries {
        writer.start_file(*name, FileOptions::default().compression_method(method)).unwrap();
        writer.write_all(bytes).unwrap();
    }
    writer.finish().unwrap().into_inner()
}

fn loaded(archive: Vec<u8>) -> Arc<TilesetCache> {
    match load_tilesets(archive) {
        Ok(cache) => cache,
        Err(e) => panic!("the archive should load: {:?}", e),
    }
}

fn size_of(cache: &TilesetCache, name: &str) -> Option<(u32, u32)> {
    cache.get_tileset(name).map(|image| (image.width(), image.height()))
}

#[test]
fn key_is_the_name_without_the_bitmap_suffix() {
    assert_eq!(tileset_key("well0001.bmp"), "well0001");
    assert_eq!(tileset_key("tiles/well0001.bmp"), "tiles/well0001");
    assert_eq!(tileset_key("well0001"), "well0001");
    assert_eq!(tileset_key("well0001.BMP"), "well0001.BMP");
    assert_eq!(tileset_key("well0001.bmp.bmp"), "well0001.bmp");
    assert_eq!(tileset_key("well0001.bmp "), "well0001.bmp ");
    assert_eq!(tileset_key(".bmp"), "");
    assert_eq!(tileset_key("bmp"), "bmp");
    assert_eq!(tileset_key(""), "");
    assert_eq!(tileset_key("\u{e9}t\u{e9}.bmp"), "\u{e9}t\u{e9}");
    assert_eq!(tileset_key("a.png"), "a.png");
}

#[test]
fn cache_keeps_what_is_added() {
    let mut cache = TilesetCache::new();
    assert_eq!(cache.len(), 0);
    assert!(cache.get_tileset("well0000").is_none());
    cache.add_tileset(String::from("well0000"), DynamicImage::new_rgb8(4, 2));
    cache.add_tileset(String::from("well0001"), DynamicImage::new_rgb8(8, 2));
    assert_eq!(cache.len(), 2);
    assert_eq!(size_of(&cache, "well0000"), Some((4, 2)));
    assert_eq!(size_of(&cache, "well0001"), Some((8, 2)));
    assert!(cache.get_tileset("well0002").is_none());
    cache.add_tileset(String::from("well0000"), DynamicImage::new_rgb8(1, 1));
    assert_eq!(cache.len(), 2);
    assert_eq!(size_of(&cache, "well0000"), Some((1, 1)));
}

#[test]
fn cache_passes_over_an_entry_without_image() {
    let mut cache = TilesetCache::new();
    cache.add_entry("a.bmp", Some(DynamicImage::new_rgb8(2, 3)));
    cache.add_entry("b.bmp", None);
    cache.add_entry("c", Some(DynamicImage::new_rgb8(5, 6)));
    assert_eq!(cache.len(), 2);
    assert_eq!(size_of(&cache, "a"), Some((2, 3)));
    assert!(cache.get_tileset("a.bmp").is_none());
    assert!(cache.get_tileset("b").is_none());
    assert_eq!(size_of(&cache, "c"), Some((5, 6)));
    cache.add_entry("a", None);
    assert_eq!(size_of(&cache, "a"), Some((2, 3)));
    cache.add_entry("a", Some(DynamicImage::new_rgb8(7, 7)));
    assert_eq!(cache.len(), 2);
    assert_eq!(size_of(&cache, "a"), Some((7, 7)));
}

#[test]
fn decoding_guesses_the_format() {
    let image = decode_tile(&bitmap(3, 5)).unwrap();
    assert_eq!((image.width(), image.height()), (3, 5));
    let image = decode_tile(&encoded(6, 4, ImageFormat::Png)).unwrap();
    assert_eq!((image.width(), image.height()), (6, 4));
    assert!(decode_tile(b"not an image at all").is_none());
    assert!(decode_tile(&[]).is_none());
    let mut cut = bitmap(3, 5);
    cut.truncate(20);
    assert!(decode_tile(&cut).is_none());
}

#[test]
fn loading_caches_every_entry_under_its_key() {
    let archive = archive_of(
        &[
            ("well0000.bmp", bitmap(32, 32)),
            ("well0001.bmp", bitmap(64, 32)),
            ("extra/well0002.bmp", bitmap(96, 32)),
            ("cover.png", encoded(10, 10, ImageFormat::Png)),
        ],
        CompressionMethod::Stored,
    );
    let cache = loaded(archive);
    assert_eq!(cache.len(), 4);
    assert_eq!(size_of(&cache, "well0000"), Some((32, 32)));
    assert_eq!(size_of(&cache, "well0001"), Some((64, 32)));
    assert_eq!(size_of(&cache, "extra/well0002"), Some((96, 32)));
    assert_eq!(size_of(&cache, "cover.png"), Some((10, 10)));
    assert!(cache.get_tileset("well0000.bmp").is_none());
    assert!(cache.get_tileset("cover").is_none());
}

#[test]
fn loading_unpacks_deflated_entries() {
    let archive = archive_of(
        &[("well0003.bmp", bitmap(128, 64)), ("well0004.bmp", bitmap(16, 16))],
        CompressionMethod::Deflated,
    );
    let cache = loaded(archive);
    assert_eq!(cache.len(), 2);
    assert_eq!(size_of(&cache, "well0003"), Some((128, 64)));
    assert_eq!(size_of(&cache, "well0004"), Some((16, 16)));
}

#[test]
fn loading_passes_over_one_corrupt_entry() {
    for n in [1usize, 2, 5, 13] {
        for corrupt_at in [0, n / 2, n] {
            let mut entries: Vec<(String, Vec<u8>)> = Vec::new();
            for k in 0..n {
                if k == corrupt_at {
                    entries.push((String::from("broken.bmp"), vec![0x42, 0x4D, 1, 2, 3]));
                }
                entries.push((format!("well{:04}.bmp", k), bitmap(8 + k as u32, 4)));
            }
            if corrupt_at == n {
                entries.push((String::from("broken.bmp"), vec![0x42, 0x4D, 1, 2, 3]));
            }
            let borrowed: Vec<(&str, Vec<u8>)> =
                entries.iter().map(|(name, bytes)| (name.as_str(), bytes.clone())).collect();
            let cache = loaded(archive_of(&borrowed, CompressionMethod::Stored));
            assert_eq!(cache.len(), n);
            assert!(cache.get_tileset("broken").is_none());
            for k in 0..n {
                assert_eq!(size_of(&cache, &format!("well{:04}", k)), Some((8 + k as u32, 4)));
            }
        }
    }
}

#[test]
fn loading_lets_a_later_entry_replace_an_earlier_one() {
    let archive = archive_of(
        &[("tile.bmp", bitmap(1, 1)), ("other.bmp", bitmap(2, 2)), ("tile", bitmap(3, 3))],
        CompressionMethod::Stored,
    );
    let cache = loaded(archive);
    assert_eq!(cache.len(), 2);
    assert_eq!(size_of(&cache, "tile"), Some((3, 3)));
    assert_eq!(size_of(&cache, "other"), Some((2, 2)));
    let archive = archive_of(
        &[("tile", bitmap(3, 3)), ("tile.bmp", b"broken".to_vec())],
        CompressionMethod::Stored,
    );
    let cache = loaded(archive);
    assert_eq!(cache.len(), 1);
    assert_eq!(size_of(&cache, "tile"), Some((3, 3)));
}

#[test]
fn loading_an_empty_archive_gives_an_empty_cache() {
    let cache = loaded(archive_of(&[], CompressionMethod::Stored));
    assert_eq!(cache.len(), 0);
    let cache = loaded(archive_of(&[("a.bmp", Vec::new())], CompressionMethod::Stored));
    assert_eq!(cache.len(), 0);
}

#[test]
fn loading_fails_on_what_is_no_archive() {
    for bytes in [Vec::new(), b"FORM2 is no archive".to_vec(), bitmap(4, 4)] {
        match load_tilesets(bytes) {
            Err(MapLoadError::ZipError(_)) => {}
            Err(e) => panic!("another error: {:?}", e),
            Ok(_) => panic!("no archive should load"),
        }
    }
}

#[test]
fn loading_fails_on_an_entry_that_cannot_be_read() {
    let payload = bitmap(16, 16);
    let mut archive = archive_of(&[("a.bmp", payload.clone())], CompressionMethod::Stored);
    let at = archive.windows(payload.len()).position(|w| w == payload.as_slice()).unwrap();
    archive[at + 60] ^= 0xFF;
    match load_tilesets(archive) {
        Err(MapLoadError::IoError(_)) => {}
        Err(e) => panic!("another error: {:?}", e),
        Ok(_) => panic!("a damaged entry should not load"),
    }
    let mut archive = archive_of(&[("a.bmp", payload.clone())], CompressionMethod::Stored);
    archive[0] = b'X';
    match load_tilesets(archive) {
        Err(MapLoadError::ZipError(_)) => {}
        Err(e) => panic!("another error: {:?}", e),
        Ok(_) => panic!("an entry without its header should not load"),
    }
}

#[test]
fn map_takes_a_shared_cache() {
    let cache = loaded(archive_of(&[("well0005.bmp", bitmap(32, 32))], CompressionMethod::Stored));
    let info = MapInfo {
        width: 1,
        height: 1,
        name: String::new(),
        description: String::new(),
        author: String::new(),
        requirements: Vec::new(),
    };
    let mut first = TileMap::new(info.clone());
    let mut second = TileMap::new(info);
    assert!(first.tileset_cache.is_none());
    first.set_tileset_cache(cache.clone());
    second.set_tileset_cache(cache.clone());
    assert!(Arc::ptr_eq(first.tileset_cache.as_ref().unwrap(), &cache));
    assert!(Arc::ptr_eq(second.tileset_cache.as_ref().unwrap(), &cache));
    assert_eq!(first.info.width, 1);
    assert_eq!(first.cells.len(), 1);
    assert_eq!(size_of(first.tileset_cache.as_ref().unwrap(), "well0005"), Some((32, 32)));
    let other = loaded(archive_of(&[], CompressionMethod::Stored));
    first.set_tileset_cache(other.clone());
    assert!(Arc::ptr_eq(first.tileset_cache.as_ref().unwrap(), &other));
}

#[test]
fn image_error_carries_what_the_decoder_said() {
    let refused = image::load_from_memory(b"no image").err().unwrap();
    let text = refused.to_string();
    match MapLoadError::ImageError(refused) {
        MapLoadError::ImageError(inner) => assert_eq!(inner.to_string(), text),
        _ => unreachable!(),
    }
    let archive = archive_of(&[("no.bmp", b"no image".to_vec())], CompressionMethod::Stored);
    assert_eq!(loaded(archive).len(), 0);
}

fn refusal() -> image::ImageError {
    image::load_from_memory(b"no image").err().unwrap()
}

#[test]
fn first_attempt_is_kept_where_it_gave_an_image() {
    let image = retry_as_bitmap(Ok(DynamicImage::new_rgb8(2, 3)), b"not looked at").unwrap();
    assert_eq!((image.width(), image.height()), (2, 3));
    let image = retry_as_bitmap(Ok(DynamicImage::new_rgb8(9, 1)), &bitmap(4, 5)).unwrap();
    assert_eq!((image.width(), image.height()), (9, 1));
}

#[test]
fn failed_attempt_is_tried_again_as_a_bitmap() {
    let image = retry_as_bitmap(Err(refusal()), &bitmap(4, 5)).unwrap();
    assert_eq!((image.width(), image.height()), (4, 5));
    assert!(retry_as_bitmap(Err(refusal()), b"no image").is_none());
    assert!(retry_as_bitmap(Err(refusal()), &[]).is_none());
    assert!(retry_as_bitmap(Err(refusal()), &encoded(4, 5, ImageFormat::Png)).is_none());
    let mut cut = bitmap(4, 5);
    cut.truncate(30);
    assert!(retry_as_bitmap(Err(refusal()), &cut).is_none());
}

#[test]
fn bitmap_bytes_always_give_an_image() {
    for (width, height) in [(1, 1), (7, 3), (32, 32), (256, 2)] {
        let image = decode_tile(&bitmap(width, height)).unwrap();
        assert_eq!((image.width(), image.height()), (width, height));
    }
}

fn position_of(haystack: &[u8], needle: &[u8]) -> usize {
    haystack.windows(needle.len()).position(|w| w == needle).unwrap()
}

#[test]
fn first_unreadable_entry_decides_the_error() {
    let first = bitmap(16, 16);
    let second = bitmap(24, 8);
    let entries = [("a.bmp", first.clone()), ("b.bmp", second.clone())];
    let sound = archive_of(&entries, CompressionMethod::Stored);
    assert_eq!(loaded(sound.clone()).len(), 2);
    let first_at = position_of(&sound, &first);
    let second_at = position_of(&sound, &second);
    let second_header = second_at - 30 - "b.bmp".len();
    assert_eq!(&sound[second_header..second_header + 4], b"PK\x03\x04");

    let mut archive = sound.clone();
    archive[0] = b'X';
    archive[second_at + 60] ^= 0xFF;
    assert!(matches!(load_tilesets(archive), Err(MapLoadError::ZipError(_))));

    let mut archive = sound.clone();
    archive[first_at + 60] ^= 0xFF;
    archive[second_header] = b'X';
    assert!(matches!(load_tilesets(archive), Err(MapLoadError::IoError(_))));

    let mut archive = sound.clone();
    archive[second_header] = b'X';
    assert!(matches!(load_tilesets(archive), Err(MapLoadError::ZipError(_))));
}

#[test]
fn undecodable_image_before_an_unreadable_entry_does_not_hide_it() {
    let payload = bitmap(16, 16);
    let entries = [("junk.bmp", b"no image".to_vec()), ("a.bmp", payload.clone())];
    let sound = archive_of(&entries, CompressionMethod::Stored);
    let cache = loaded(sound.clone());
    assert_eq!(cache.len(), 1);
    assert!(cache.get_tileset("junk").is_none());
    let mut archive = sound;
    let at = position_of(&archive, &payload);
    archive[at + 60] ^= 0xFF;
    assert!(matches!(load_tilesets(archive), Err(MapLoadError::IoError(_))));
}
