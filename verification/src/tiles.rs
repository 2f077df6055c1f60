//! The cache of tile images, and its loader from an archive of image files.

use crate::error::MapLoadError;
use image::{DynamicImage, ImageError, ImageFormat};
use std::io::{Cursor, Read};
use std::sync::Arc;
use vstd::hash_map::StringHashMap;
use vstd::prelude::*;
use vstd::string::{StrSliceExecFns, StringExecFns};
use zip::read::ZipFile;
use zip::result::ZipError;
use zip::ZipArchive;

verus! {

/// `image::DynamicImage`: a decoded image, carried through as it came.
#[verifier::external_type_specification]
#[verifier::external_body]
pub struct ExDynamicImage(DynamicImage);

/// `std::io::Cursor`: a reader over bytes in memory.
#[verifier::external_type_specification]
#[verifier::external_body]
#[verifier::reject_recursive_types(T)]
pub struct ExCursor<T>(Cursor<T>);

/// `zip::ZipArchive`: an opened archive.
#[verifier::external_type_specification]
#[verifier::external_body]
#[verifier::reject_recursive_types(R)]
pub struct ExZipArchive<R>(ZipArchive<R>);

/// `zip::read::ZipFile`: one entry of an opened archive, ready to be read.
#[verifier::external_type_specification]
#[verifier::external_body]
pub struct ExZipFile<'a>(ZipFile<'a>);

/// The suffix that marks an entry as a bitmap file.
pub open spec fn bmp_suffix() -> Seq<char> {
    seq!['.', 'b', 'm', 'p']
}

/// The key under which an entry is cached: its name without the bitmap
/// suffix, or its whole name where it does not end in that suffix.
pub open spec fn strip_bmp(name: Seq<char>) -> Seq<char> {
    if name.len() >= 4 && name.subrange(name.len() - 4, name.len() as int) == bmp_suffix() {
        name.subrange(0, name.len() - 4)
    } else {
        name
    }
}

/// The key under which the entry named `entry_name` is cached.
pub fn tileset_key(entry_name: &str) -> (key: String)
    ensures
        key@ == strip_bmp(entry_name@),
{
    let n = entry_name.unicode_len();
    if n >= 4 {
        let c0 = entry_name.get_char(n - 4);
        let c1 = entry_name.get_char(n - 3);
        let c2 = entry_name.get_char(n - 2);
        let c3 = entry_name.get_char(n - 1);
        if c0 == '.' && c1 == 'b' && c2 == 'm' && c3 == 'p' {
            assert(entry_name@.subrange(n - 4, n as int) =~= bmp_suffix());
            return String::from_str(entry_name.substring_char(0, n - 4));
        }
        assert(entry_name@.subrange(n - 4, n as int) != bmp_suffix()) by {
            let tail = entry_name@.subrange(n - 4, n as int);
            assert(tail[0] == c0 && tail[1] == c1 && tail[2] == c2 && tail[3] == c3);
            assert(bmp_suffix()[0] == '.' && bmp_suffix()[1] == 'b' && bmp_suffix()[2] == 'm'
                && bmp_suffix()[3] == 'p');
        }
    }
    String::from_str(entry_name)
}

/// The tile images, each under the name of its tileset.
pub struct TilesetCache {
    tilesets: StringHashMap<DynamicImage>,
}

impl View for TilesetCache {
    type V = Map<Seq<char>, DynamicImage>;

    closed spec fn view(&self) -> Map<Seq<char>, DynamicImage> {
        self.tilesets@
    }
}

impl TilesetCache {
    /// An empty cache.
    pub fn new() -> (cache: Self)
        ensures
            cache@ == Map::<Seq<char>, DynamicImage>::empty(),
    {
        TilesetCache { tilesets: StringHashMap::new() }
    }

    /// Puts `image` under `name`, in place of what stood there.
    pub fn add_tileset(&mut self, name: String, image: DynamicImage)
        ensures
            final(self)@ == old(self)@.insert(name@, image),
    {
        self.tilesets.insert(name, image);
    }

    /// The image under `name`, if there is one.
    pub fn get_tileset(&self, name: &str) -> (r: Option<&DynamicImage>)
        ensures
            match r {
                Some(image) => self@.contains_key(name@) && *image == self@[name@],
                None => !self@.contains_key(name@),
            },
    {
        self.tilesets.get(name)
    }

    /// The number of tilesets in the cache.
    pub fn len(&self) -> (n: usize)
        ensures
            n == self@.len(),
    {
        self.tilesets.len()
    }

    /// Takes in one entry of an archive: an entry that was decoded is cached
    /// under its key, one that could not be decoded is passed over.
    pub fn add_entry(&mut self, entry_name: &str, image: Option<DynamicImage>)
        ensures
            final(self)@ == cache_step(old(self)@, entry_name@, image),
    {
        match image {
            Some(decoded) => {
                let key = tileset_key(entry_name);
                self.add_tileset(key, decoded);
            },
            None => {},
        }
    }
}

/// The cache after one more entry: with the image under the entry's key where
/// the entry was decoded, unchanged where it was not.
pub open spec fn cache_step(
    before: Map<Seq<char>, DynamicImage>,
    entry_name: Seq<char>,
    image: Option<DynamicImage>,
) -> Map<Seq<char>, DynamicImage> {
    match image {
        Some(decoded) => before.insert(strip_bmp(entry_name), decoded),
        None => before,
    }
}

/// The cache built of the entries named `names`, taken in order, where
/// `images` tells for each what decoding gave. A later entry replaces an
/// earlier one with the same key.
pub open spec fn cache_built(names: Seq<Seq<char>>, images: Seq<Option<DynamicImage>>) -> Map<
    Seq<char>,
    DynamicImage,
>
    recommends
        names.len() == images.len(),
    decreases names.len(),
{
    if names.len() == 0 || images.len() != names.len() {
        Map::empty()
    } else {
        cache_step(cache_built(names.drop_last(), images.drop_last()), names.last(), images.last())
    }
}

/// What the archive that `bytes` hold gives, entry by entry in the order of
/// its directory, or `None` where the bytes do not open as an archive. Of each
/// entry: its name; whether it can be opened without a password; and its
/// bytes, unpacked and checked, where it can be opened and read to its end.
pub uninterp spec fn zip_entries(bytes: Seq<u8>) -> Option<
    Seq<(Seq<char>, bool, Option<Seq<u8>>)>,
>;

/// What an opened archive gives, entry by entry in the order of its
/// directory: name, whether the entry can be opened without a password, and
/// its bytes where it can be opened and read to its end.
pub uninterp spec fn archive_entries(archive: ZipArchive<Cursor<Vec<u8>>>) -> Seq<
    (Seq<char>, bool, Option<Seq<u8>>),
>;

/// What an opened entry gives: its name, and the bytes that reading it to its
/// end gives, `None` where reading fails.
pub uninterp spec fn file_entry(file: ZipFile) -> (Seq<char>, Option<Seq<u8>>);

/// The entry can be opened and read to its end.
pub open spec fn entry_readable(entry: (Seq<char>, bool, Option<Seq<u8>>)) -> bool {
    entry.1 && entry.2 is Some
}

/// Every entry can be opened and read to its end.
pub open spec fn all_readable(entries: Seq<(Seq<char>, bool, Option<Seq<u8>>)>) -> bool {
    forall|i: int| 0 <= i < entries.len() ==> entry_readable(#[trigger] entries[i])
}

/// Entry `i` is the first, in the order of the directory, that cannot be
/// opened or cannot be read to its end.
pub open spec fn first_unreadable(entries: Seq<(Seq<char>, bool, Option<Seq<u8>>)>, i: int) -> bool {
    &&& 0 <= i < entries.len()
    &&& !entry_readable(entries[i])
    &&& forall|j: int| 0 <= j < i ==> entry_readable(#[trigger] entries[j])
}

/// The names of the entries.
pub open spec fn entry_names(entries: Seq<(Seq<char>, bool, Option<Seq<u8>>)>) -> Seq<Seq<char>> {
    Seq::new(entries.len(), |i: int| entries[i].0)
}

/// `images` is a possible outcome of decoding the entries one by one: it
/// tells of each entry, and an entry whose bytes the bitmap decoder takes has
/// an image.
pub open spec fn decoding_of(
    entries: Seq<(Seq<char>, bool, Option<Seq<u8>>)>,
    images: Seq<Option<DynamicImage>>,
) -> bool {
    &&& images.len() == entries.len()
    &&& forall|i: int|
        0 <= i < entries.len() && entries[i].2 is Some && bitmap_decodes(entries[i].2->0)
            ==> (#[trigger] images[i]) is Some
}

/// `cache` is what the entries give, taken in order, for some outcome of
/// decoding each.
pub open spec fn loaded_from(
    cache: Map<Seq<char>, DynamicImage>,
    entries: Seq<(Seq<char>, bool, Option<Seq<u8>>)>,
) -> bool {
    exists|images: Seq<Option<DynamicImage>>|
        decoding_of(entries, images) && cache == #[trigger] cache_built(
            entry_names(entries),
            images,
        )
}

/// `ZipArchive::new` on a cursor over `bytes`: reads the directory of the
/// archive. It succeeds exactly where the bytes open as an archive, and the
/// opened archive gives what the bytes give.
#[verifier::external_body]
fn open_archive(bytes: Vec<u8>) -> (r: Result<ZipArchive<Cursor<Vec<u8>>>, ZipError>)
    ensures
        match r {
            Ok(archive) => zip_entries(bytes@) == Some(archive_entries(archive)),
            Err(_) => zip_entries(bytes@) is None,
        },
{
    ZipArchive::new(Cursor::new(bytes))
}

/// `ZipArchive::len`: the number of entries.
#[verifier::external_body]
fn archive_len(archive: &ZipArchive<Cursor<Vec<u8>>>) -> (n: usize)
    ensures
        n == archive_entries(*archive).len(),
{
    archive.len()
}

/// `ZipArchive::by_index_decrypt` with an empty password: the entry at
/// `index`, ready to be read, or `None` where it asks for another password.
/// The archive gives after the call what it gave before. For an index below
/// the length, an entry is handed out exactly where it can be opened, and it
/// gives the name and the bytes that the archive gives at `index`.
///
/// `ZipArchive::by_index` is not called: it does not return on an entry that
/// carries an encryption field without being marked as encrypted. The two
/// differ on entries that are marked as encrypted. `by_index` refuses them
/// all; this call tries the empty password, so that an entry encrypted with
/// the empty password is opened, and one that only passes the one-byte check
/// of its password is opened and then fails in reading.
#[verifier::external_body]
fn entry_at<'a>(archive: &'a mut ZipArchive<Cursor<Vec<u8>>>, index: usize) -> (r: Result<
    Option<ZipFile<'a>>,
    ZipError,
>)
    ensures
        archive_entries(*final(archive)) == archive_entries(*old(archive)),
        index < archive_entries(*old(archive)).len() ==> match r {
            Ok(Some(file)) => {
                let entry = archive_entries(*old(archive))[index as int];
                entry.1 && file_entry(file) == (entry.0, entry.2)
            },
            _ => !archive_entries(*old(archive))[index as int].1,
        },
{
    match archive.by_index_decrypt(index, &[]) {
        Ok(Ok(file)) => Ok(Some(file)),
        Ok(Err(_)) => Ok(None),
        Err(e) => Err(e),
    }
}

/// `ZipFile::name`: the name of the entry.
#[verifier::external_body]
fn entry_name(file: &ZipFile) -> (name: String)
    ensures
        name@ == file_entry(*file).0,
{
    file.name().to_string()
}

/// `Read::read_to_end` on an entry: its bytes, unpacked and checked against
/// its checksum. It succeeds exactly where the entry can be read to its end,
/// and gives the bytes that the entry gives.
#[verifier::external_body]
fn entry_bytes(file: &mut ZipFile) -> (r: Result<Vec<u8>, std::io::Error>)
    ensures
        match r {
            Ok(buffer) => file_entry(*old(file)).1 == Some(buffer@),
            Err(_) => file_entry(*old(file)).1 is None,
        },
{
    let mut buffer = Vec::new();
    match file.read_to_end(&mut buffer) {
        Ok(_) => Ok(buffer),
        Err(e) => Err(e),
    }
}

/// The error of the zip crate for an entry that asks for a password:
/// `ZipError::UnsupportedArchive` with the crate's own text.
#[verifier::external_body]
fn password_required() -> ZipError {
    ZipError::UnsupportedArchive(ZipError::PASSWORD_REQUIRED)
}

/// `image::load_from_memory`: decodes an image whose format is guessed from
/// its first bytes.
#[verifier::external_body]
fn decode_guessed(buffer: &[u8]) -> Result<DynamicImage, ImageError> {
    image::load_from_memory(buffer)
}

/// Whether the bitmap decoder of the image crate takes `bytes` for an image.
pub uninterp spec fn bitmap_decodes(bytes: Seq<u8>) -> bool;

/// `image::load_from_memory_with_format` for `ImageFormat::Bmp`: decodes an
/// image as a bitmap, whatever its first bytes say. With the format fixed the
/// crate goes straight to its bitmap decoder, under its constant default
/// limits, so whether the call succeeds depends on the bytes alone.
#[verifier::external_body]
fn decode_as_bmp(buffer: &[u8]) -> (r: Result<DynamicImage, ImageError>)
    ensures
        r is Ok <==> bitmap_decodes(buffer@),
{
    image::load_from_memory_with_format(buffer, ImageFormat::Bmp)
}

/// Decodes the bytes of one entry: by the format that they tell and, where
/// that fails, once more as a bitmap. `None` where both fail; so bytes that
/// the bitmap decoder takes always give an image.
pub fn decode_tile(buffer: &[u8]) -> (r: Option<DynamicImage>)
    ensures
        bitmap_decodes(buffer@) ==> r is Some,
{
    retry_as_bitmap(decode_guessed(buffer), buffer)
}

/// Settles one entry after the first attempt at decoding it: the image of
/// that attempt where it gave one; where it failed, the bytes are decoded
/// once more as a bitmap, and the entry has an image exactly where the bitmap
/// decoder takes them.
pub fn retry_as_bitmap(first: Result<DynamicImage, ImageError>, buffer: &[u8]) -> (r: Option<
    DynamicImage,
>)
    ensures
        match first {
            Ok(image) => r == Some(image),
            Err(_) => r is Some <==> bitmap_decodes(buffer@),
        },
{
    match first {
        Ok(image) => Some(image),
        Err(_) => match decode_as_bmp(buffer) {
            Ok(image) => Some(image),
            Err(_) => None,
        },
    }
}

/// Loads the tile images of an archive into a cache. Every entry is read and
/// decoded in the order of the directory; one that cannot be decoded is
/// passed over. Loading succeeds exactly where the bytes open as an archive
/// and every entry can be opened and read; it fails with the archive's error
/// where the bytes do not open or the first unreadable entry cannot be
/// opened, and with the reader's error where that entry cannot be read to
/// its end. That an image cannot be decoded never makes loading fail.
pub fn load_tilesets(archive_bytes: Vec<u8>) -> (r: Result<Arc<TilesetCache>, MapLoadError>)
    ensures
        match zip_entries(archive_bytes@) {
            None => r matches Err(MapLoadError::ZipError(_)),
            Some(entries) => if all_readable(entries) {
                r matches Ok(cache) && loaded_from(cache@, entries)
            } else {
                r matches Err(e) && exists|i: int|
                    #[trigger] first_unreadable(entries, i) && (if entries[i].1 {
                        e is IoError
                    } else {
                        e is ZipError
                    })
            },
        },
{
    let mut archive = match open_archive(archive_bytes) {
        Ok(opened) => opened,
        Err(e) => {
            return Err(MapLoadError::ZipError(e));
        },
    };
    let ghost entries = archive_entries(archive);
    let ghost names = entry_names(entries);
    let mut cache = TilesetCache::new();
    let count = archive_len(&archive);
    let ghost mut images: Seq<Option<DynamicImage>> = Seq::empty();
    let mut i: usize = 0;
    while i < count
        invariant
            archive_entries(archive) == entries,
            zip_entries(archive_bytes@) == Some(entries),
            names == entry_names(entries),
            count == entries.len(),
            i <= count,
            images.len() == i,
            forall|j: int| 0 <= j < i ==> entry_readable(#[trigger] entries[j]),
            forall|j: int|
                0 <= j < i && bitmap_decodes(entries[j].2->0) ==> (#[trigger] images[j]) is Some,
            cache@ == cache_built(names.subrange(0, i as int), images),
        decreases count - i,
    {
        let mut file = match entry_at(&mut archive, i) {
            Ok(Some(file)) => file,
            Ok(None) => {
                assert(first_unreadable(entries, i as int));
                return Err(MapLoadError::ZipError(password_required()));
            },
            Err(e) => {
                assert(first_unreadable(entries, i as int));
                return Err(MapLoadError::ZipError(e));
            },
        };
        let name = entry_name(&file);
        let buffer = match entry_bytes(&mut file) {
            Ok(buffer) => buffer,
            Err(e) => {
                assert(first_unreadable(entries, i as int));
                return Err(MapLoadError::IoError(e));
            },
        };
        let image = decode_tile(buffer.as_slice());
        proof {
            let grown = names.subrange(0, i as int + 1);
            assert(grown.drop_last() =~= names.subrange(0, i as int));
            assert(grown.last() == names[i as int]);
            assert(images.push(image).drop_last() =~= images);
            images = images.push(image);
        }
        cache.add_entry(name.as_str(), image);
        i = i + 1;
    }
    proof {
        assert(names.subrange(0, i as int) =~= names);
        assert(decoding_of(entries, images));
    }
    Ok(Arc::new(cache))
}

/// The number of entries that were decoded.
pub open spec fn decoded_count(images: Seq<Option<DynamicImage>>) -> nat
    decreases images.len(),
{
    if images.len() == 0 {
        0
    } else {
        decoded_count(images.drop_last()) + if images.last() is Some {
            1nat
        } else {
            0nat
        }
    }
}

/// No two decoded entries have the same key.
pub open spec fn keys_distinct(names: Seq<Seq<char>>, images: Seq<Option<DynamicImage>>) -> bool {
    forall|i: int, j: int|
        0 <= i < j < names.len() && images[i] is Some && images[j] is Some ==> strip_bmp(names[i])
            != strip_bmp(names[j])
}

/// Entry `i` was decoded and is cached under `key`.
pub open spec fn cached_as(
    names: Seq<Seq<char>>,
    images: Seq<Option<DynamicImage>>,
    i: int,
    key: Seq<char>,
) -> bool {
    0 <= i < names.len() && images[i] is Some && strip_bmp(names[i]) == key
}

/// The cache holds the keys of the decoded entries and no others; where no
/// two of them have the same key, it holds as many tilesets as entries were
/// decoded.
pub proof fn lemma_cache_size(names: Seq<Seq<char>>, images: Seq<Option<DynamicImage>>)
    requires
        names.len() == images.len(),
    ensures
        cache_built(names, images).dom().finite(),
        forall|key: Seq<char>|
            cache_built(names, images).dom().contains(key) <==> exists|i: int|
                cached_as(names, images, i, key),
        keys_distinct(names, images) ==> cache_built(names, images).len() == decoded_count(images),
    decreases names.len(),
{
    let cache = cache_built(names, images);
    if names.len() == 0 {
        assert(cache.dom() =~= Set::<Seq<char>>::empty());
    } else {
        let front_names = names.drop_last();
        let front_images = images.drop_last();
        let front = cache_built(front_names, front_images);
        lemma_cache_size(front_names, front_images);
        let last = names.len() - 1;
        let last_key = strip_bmp(names.last());
        assert forall|key: Seq<char>|
            cache.dom().contains(key) <==> exists|i: int| cached_as(names, images, i, key) by {
            if cache.dom().contains(key) {
                if images.last() is Some && key == last_key {
                    assert(cached_as(names, images, last, key));
                } else {
                    assert(front.dom().contains(key));
                    let i = choose|i: int| cached_as(front_names, front_images, i, key);
                    assert(cached_as(names, images, i, key));
                }
            }
            if exists|i: int| cached_as(names, images, i, key) {
                let i = choose|i: int| cached_as(names, images, i, key);
                if i < last {
                    assert(cached_as(front_names, front_images, i, key));
                }
            }
        }
        if keys_distinct(names, images) {
            assert(keys_distinct(front_names, front_images)) by {
                assert forall|i: int, j: int|
                    0 <= i < j < front_names.len() && front_images[i] is Some
                        && front_images[j] is Some implies strip_bmp(front_names[i]) != strip_bmp(
                    front_names[j],
                ) by {
                    assert(strip_bmp(names[i]) != strip_bmp(names[j]));
                }
            }
            if images.last() is Some {
                if front.dom().contains(last_key) {
                    let i = choose|i: int| cached_as(front_names, front_images, i, last_key);
                    assert(strip_bmp(names[i]) != strip_bmp(names[last]));
                }
                assert(cache.dom() =~= front.dom().insert(last_key));
            }
        }
    }
}

/// Where all entries of an archive but one are decoded, and no two of the
/// decoded ones have the same key, the cache holds one tileset for each
/// decoded entry: the entry that could not be decoded is passed over and
/// takes nothing away.
pub proof fn lemma_one_corrupt_entry(
    names: Seq<Seq<char>>,
    images: Seq<Option<DynamicImage>>,
    corrupt: int,
)
    requires
        names.len() == images.len(),
        0 <= corrupt < names.len(),
        images[corrupt] is None,
        forall|i: int| 0 <= i < images.len() && i != corrupt ==> images[i] is Some,
        keys_distinct(names, images),
    ensures
        cache_built(names, images).dom().finite(),
        cache_built(names, images).len() == names.len() - 1,
{
    lemma_cache_size(names, images);
    lemma_decoded_count(images, corrupt);
}

/// The number of decoded entries where all but one were decoded, or all.
proof fn lemma_decoded_count(images: Seq<Option<DynamicImage>>, corrupt: int)
    requires
        forall|i: int| 0 <= i < images.len() && i != corrupt ==> images[i] is Some,
    ensures
        decoded_count(images) == if 0 <= corrupt < images.len() && images[corrupt] is None {
            images.len() - 1
        } else {
            images.len() as int
        },
    decreases images.len(),
{
    if images.len() > 0 {
        lemma_decoded_count(images.drop_last(), corrupt);
    }
}

/// Of an archive that was loaded, where all entries but one hold bytes that
/// the bitmap decoder takes and no two entries have the same key: the cache
/// holds a tileset under the key of each of those entries, and nothing else
/// but, at most, the odd entry. It holds one tileset for each of them, the
/// odd entry left out, exactly where the odd entry was passed over; whether
/// it was is for the image decoder to say.
pub proof fn lemma_loaded_but_one(
    cache: Map<Seq<char>, DynamicImage>,
    entries: Seq<(Seq<char>, bool, Option<Seq<u8>>)>,
    odd: int,
)
    requires
        loaded_from(cache, entries),
        0 <= odd < entries.len(),
        forall|i: int|
            0 <= i < entries.len() && i != odd ==> (#[trigger] entries[i]).2 is Some
                && bitmap_decodes(entries[i].2->0),
        forall|i: int, j: int|
            0 <= i < j < entries.len() ==> strip_bmp(entries[i].0) != strip_bmp(entries[j].0),
    ensures
        cache.dom().finite(),
        forall|i: int|
            0 <= i < entries.len() && i != odd ==> cache.contains_key(
                strip_bmp((#[trigger] entries[i]).0),
            ),
        cache.len() == if cache.contains_key(strip_bmp(entries[odd].0)) {
            entries.len() as int
        } else {
            entries.len() - 1
        },
{
    let names = entry_names(entries);
    let images = choose|images: Seq<Option<DynamicImage>>|
        decoding_of(entries, images) && cache == #[trigger] cache_built(
            entry_names(entries),
            images,
        );
    assert forall|i: int| 0 <= i < images.len() && i != odd implies images[i] is Some by {
        assert(entries[i].2 is Some);
    }
    lemma_cache_size(names, images);
    lemma_decoded_count(images, odd);
    assert(keys_distinct(names, images));
    assert forall|i: int| 0 <= i < entries.len() && i != odd implies cache.contains_key(
        strip_bmp((#[trigger] entries[i]).0),
    ) by {
        assert(images[i] is Some);
        assert(cached_as(names, images, i, strip_bmp(entries[i].0)));
    }
    let odd_key = strip_bmp(entries[odd].0);
    if images[odd] is Some {
        assert(cached_as(names, images, odd, odd_key));
    } else {
        if cache.contains_key(odd_key) {
            let i = choose|i: int| cached_as(names, images, i, odd_key);
            if i < odd {
                assert(strip_bmp(entries[i].0) != strip_bmp(entries[odd].0));
            } else if odd < i {
                assert(strip_bmp(entries[odd].0) != strip_bmp(entries[i].0));
            }
        }
    }
}

} // verus!
