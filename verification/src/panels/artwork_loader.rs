//! Where a game's artwork is looked for: file names, the cache key of a
//! loaded texture, which entry of an artwork archive is taken (and its bytes),
//! and which of the numbered snapshots is shown. Reading files and uploading
//! textures is the application's part.
use vstd::prelude::*;

use crate::text::{
    chars_of, contains_chars, lowercase, parse_u32, parse_u32_spec, push_str, seq_contains,
    to_lowercase,
};

verus! {

/// The kinds of artwork, each kept in its own configured directory.
#[derive(Debug, Clone, Copy, PartialEq, Eq, Structural)]
pub enum ArtworkType {
    Screenshot,
    Cabinet,
    Marquee,
    Title,
    Flyer,
}

/// The name of an artwork kind, as its debug form prints it.
pub open spec fn artwork_type_name(t: ArtworkType) -> Seq<char> {
    match t {
        ArtworkType::Screenshot => "Screenshot"@,
        ArtworkType::Cabinet => "Cabinet"@,
        ArtworkType::Marquee => "Marquee"@,
        ArtworkType::Title => "Title"@,
        ArtworkType::Flyer => "Flyer"@,
    }
}

/// The image extensions tried, in order.
pub open spec fn image_extension(k: int) -> Seq<char> {
    if k == 0 {
        "png"@
    } else if k == 1 {
        "jpg"@
    } else if k == 2 {
        "jpeg"@
    } else if k == 3 {
        "bmp"@
    } else {
        "gif"@
    }
}

/// `suffix` ends `s`.
pub open spec fn seq_ends_with(s: Seq<char>, suffix: Seq<char>) -> bool {
    suffix.len() <= s.len() && s.subrange(s.len() - suffix.len(), s.len() as int) == suffix
}

/// An archive entry is taken as the artwork when its lowercase name has an
/// image extension and it names the game, is the main image `0000.png`, or
/// is the only entry of the archive.
pub open spec fn zip_entry_spec(entry_lower: Seq<char>, game_name: Seq<char>, archive_len: nat) -> bool {
    let is_image = seq_ends_with(entry_lower, ".png"@) || seq_ends_with(entry_lower, ".jpg"@)
        || seq_ends_with(entry_lower, ".jpeg"@) || seq_ends_with(entry_lower, ".bmp"@)
        || seq_ends_with(entry_lower, ".gif"@);
    is_image && (seq_contains(entry_lower, game_name) || entry_lower == game_name + ".png"@
        || entry_lower == game_name + ".jpg"@ || entry_lower == "0000.png"@ || archive_len == 1)
}

/// The number of a snapshot file named like `0003.png`.
pub open spec fn numbered_png_spec(file_name: Seq<char>) -> Option<u32> {
    if seq_ends_with(file_name, ".png"@) {
        parse_u32_spec(file_name.subrange(0, file_name.len() - 4))
    } else {
        None
    }
}

impl ArtworkType {
    /// The kind's name, as its debug form prints it.
    pub fn name(&self) -> (r: &'static str)
        ensures
            r@ == artwork_type_name(*self),
    {
        match self {
            ArtworkType::Screenshot => "Screenshot",
            ArtworkType::Cabinet => "Cabinet",
            ArtworkType::Marquee => "Marquee",
            ArtworkType::Title => "Title",
            ArtworkType::Flyer => "Flyer",
        }
    }

    /// The configured directory for this kind, if any.
    pub fn directory<'a>(
        &self,
        snap: Option<&'a str>,
        cabinet: Option<&'a str>,
        marquee: Option<&'a str>,
        title: Option<&'a str>,
        flyer: Option<&'a str>,
    ) -> (r: Option<&'a str>)
        ensures
            r == match *self {
                ArtworkType::Screenshot => snap,
                ArtworkType::Cabinet => cabinet,
                ArtworkType::Marquee => marquee,
                ArtworkType::Title => title,
                ArtworkType::Flyer => flyer,
            },
    {
        match self {
            ArtworkType::Screenshot => snap,
            ArtworkType::Cabinet => cabinet,
            ArtworkType::Marquee => marquee,
            ArtworkType::Title => title,
            ArtworkType::Flyer => flyer,
        }
    }
}

/// The key under which a loaded texture is cached: `"{game}-{kind}"`.
pub fn artwork_cache_key(game_name: &str, artwork_type: ArtworkType) -> (r: String)
    ensures
        r@ == game_name@ + "-"@ + artwork_type_name(artwork_type),
{
    let mut key = String::new();
    push_str(&mut key, game_name);
    push_str(&mut key, "-");
    push_str(&mut key, artwork_type.name());
    proof {
        reveal_strlit("-");
    }
    assert(key@ =~= game_name@ + "-"@ + artwork_type_name(artwork_type));
    key
}

/// The image files tried for a game in a directory, in order:
/// `{game}.png`, `.jpg`, `.jpeg`, `.bmp`, `.gif`.
pub fn artwork_file_names(game_name: &str) -> (r: Vec<String>)
    ensures
        r@.len() == 5,
        forall|k: int| 0 <= k < 5 ==> (#[trigger] r@[k])@ == game_name@ + "."@ + image_extension(k),
{
    let mut r: Vec<String> = Vec::new();
    let mut k: usize = 0;
    while k < 5
        invariant
            k <= 5,
            r@.len() == k,
            forall|j: int| 0 <= j < k ==> (#[trigger] r@[j])@ == game_name@ + "."@ + image_extension(j),
        decreases 5 - k,
    {
        let ext: &str = if k == 0 {
            "png"
        } else if k == 1 {
            "jpg"
        } else if k == 2 {
            "jpeg"
        } else if k == 3 {
            "bmp"
        } else {
            "gif"
        };
        let mut name = String::new();
        push_str(&mut name, game_name);
        push_str(&mut name, ".");
        push_str(&mut name, ext);
        r.push(name);
        k = k + 1;
    }
    r
}

/// `str::ends_with` on character vectors.
pub fn ends_with_chars(s: &Vec<char>, suffix: &Vec<char>) -> (r: bool)
    ensures
        r == seq_ends_with(s@, suffix@),
{
    if suffix.len() > s.len() {
        return false;
    }
    let start = s.len() - suffix.len();
    let mut j: usize = 0;
    while j < suffix.len()
        invariant
            start == s.len() - suffix.len(),
            suffix.len() <= s.len(),
            j <= suffix.len(),
            forall|k: int| 0 <= k < j ==> s@[start + k] == suffix@[k],
        decreases suffix.len() - j,
    {
        if s[start + j] != suffix[j] {
            assert(s@.subrange(start as int, s.len() as int)[j as int] != suffix@[j as int]);
            return false;
        }
        j = j + 1;
    }
    assert(s@.subrange(start as int, s.len() as int) =~= suffix@);
    true
}

/// What `zip::ZipArchive::new` on the bytes, then `len`, gives: the number of
/// entries, or `None` where the bytes are no readable archive.
pub uninterp spec fn zip_archive_len(bytes: Seq<u8>) -> Option<usize>;

/// What `by_index(index)` and `ZipFile::name` give on the archive in `bytes`:
/// the entry's name, or `None` where opening, the lookup or the name fails.
pub uninterp spec fn zip_entry_name(bytes: Seq<u8>, index: usize) -> Option<Seq<char>>;

/// What `by_index(index)` and `read_to_end` give on the archive in `bytes`:
/// the entry's decompressed bytes, or `None` where any step fails.
pub uninterp spec fn zip_entry_data(bytes: Seq<u8>, index: usize) -> Option<Seq<u8>>;

/// `zip::ZipArchive::new` over the bytes and `ZipArchive::len`; the result is
/// named `zip_archive_len(bytes@)`.
#[verifier::external_body]
fn archive_len(bytes: &[u8]) -> (r: Option<usize>)
    ensures
        r == zip_archive_len(bytes@),
{
    match zip::ZipArchive::new(std::io::Cursor::new(bytes)) {
        Ok(archive) => Some(archive.len()),
        Err(_) => None,
    }
}

/// `zip::ZipArchive::new`, `by_index` and `ZipFile::name`; the result is named
/// `zip_entry_name(bytes@, index)`.
#[verifier::external_body]
fn archive_entry_name(bytes: &[u8], index: usize) -> (r: Option<String>)
    ensures
        match r {
            Some(n) => zip_entry_name(bytes@, index) == Some(n@),
            None => zip_entry_name(bytes@, index) is None,
        },
{
    let mut archive = match zip::ZipArchive::new(std::io::Cursor::new(bytes)) {
        Ok(archive) => archive,
        Err(_) => return None,
    };
    let name = match archive.by_index(index) {
        Ok(entry) => match entry.name() {
            Ok(name) => Some(name.into_owned()),
            Err(_) => None,
        },
        Err(_) => None,
    };
    name
}

/// `zip::ZipArchive::new`, `by_index` and `Read::read_to_end` on the entry;
/// the result is named `zip_entry_data(bytes@, index)`.
#[verifier::external_body]
fn archive_entry_data(bytes: &[u8], index: usize) -> (r: Option<Vec<u8>>)
    ensures
        match r {
            Some(d) => zip_entry_data(bytes@, index) == Some(d@),
            None => zip_entry_data(bytes@, index) is None,
        },
{
    let mut archive = match zip::ZipArchive::new(std::io::Cursor::new(bytes)) {
        Ok(archive) => archive,
        Err(_) => return None,
    };
    let mut entry = match archive.by_index(index) {
        Ok(entry) => entry,
        Err(_) => return None,
    };
    let mut buffer = Vec::new();
    match std::io::Read::read_to_end(&mut entry, &mut buffer) {
        Ok(_) => Some(buffer),
        Err(_) => None,
    }
}

/// The bytes of the first entry from `index` on that is taken as the game's
/// artwork and reads successfully.
pub open spec fn zip_artwork_from(bytes: Seq<u8>, game_name: Seq<char>, len: usize, index: nat) -> Option<Seq<u8>>
    decreases len - index,
{
    if index >= len {
        None
    } else {
        let taken = match zip_entry_name(bytes, index as usize) {
            Some(n) => zip_entry_spec(lowercase(n), game_name, len as nat),
            None => false,
        };
        if taken && zip_entry_data(bytes, index as usize) is Some {
            zip_entry_data(bytes, index as usize)
        } else {
            zip_artwork_from(bytes, game_name, len, index + 1)
        }
    }
}

/// What `extract_from_zip` gives for an archive's bytes.
pub open spec fn zip_artwork(bytes: Seq<u8>, game_name: Seq<char>) -> Option<Seq<u8>> {
    match zip_archive_len(bytes) {
        Some(len) => zip_artwork_from(bytes, game_name, len, 0),
        None => None,
    }
}

/// The bytes of the artwork entry of a game's archive: the first entry, in
/// archive order, that `zip_entry_is_artwork` takes and that reads.
pub fn extract_from_zip(bytes: &[u8], game_name: &str) -> (r: Option<Vec<u8>>)
    ensures
        match r {
            Some(d) => zip_artwork(bytes@, game_name@) == Some(d@),
            None => zip_artwork(bytes@, game_name@) is None,
        },
{
    let len = match archive_len(bytes) {
        Some(len) => len,
        None => return None,
    };
    let mut i: usize = 0;
    while i < len
        invariant
            i <= len,
            zip_archive_len(bytes@) == Some(len),
            zip_artwork(bytes@, game_name@) == zip_artwork_from(bytes@, game_name@, len, i as nat),
        decreases len - i,
    {
        let taken = match archive_entry_name(bytes, i) {
            Some(name) => zip_entry_is_artwork(name.as_str(), game_name, len),
            None => false,
        };
        if taken {
            match archive_entry_data(bytes, i) {
                Some(data) => return Some(data),
                None => {},
            }
        }
        i = i + 1;
    }
    None
}

/// Whether an archive entry is taken as the game's artwork (the entry's name
/// is compared in lowercase).
pub fn zip_entry_is_artwork(entry_name: &str, game_name: &str, archive_len: usize) -> (r: bool)
    ensures
        r == zip_entry_spec(lowercase(entry_name@), game_name@, archive_len as nat),
{
    let lower = chars_of(to_lowercase(entry_name).as_str());
    let png = chars_of(".png");
    let jpg = chars_of(".jpg");
    let jpeg = chars_of(".jpeg");
    let bmp = chars_of(".bmp");
    let gif = chars_of(".gif");
    let is_image = ends_with_chars(&lower, &png) || ends_with_chars(&lower, &jpg)
        || ends_with_chars(&lower, &jpeg) || ends_with_chars(&lower, &bmp) || ends_with_chars(
        &lower,
        &gif,
    );
    if !is_image {
        return false;
    }
    let name = chars_of(game_name);
    let mut name_png = String::new();
    push_str(&mut name_png, game_name);
    push_str(&mut name_png, ".png");
    let mut name_jpg = String::new();
    push_str(&mut name_jpg, game_name);
    push_str(&mut name_jpg, ".jpg");
    let main = chars_of("0000.png");
    contains_chars(&lower, &name) || crate::text::same_chars(&lower, &chars_of(name_png.as_str()))
        || crate::text::same_chars(&lower, &chars_of(name_jpg.as_str())) || crate::text::same_chars(&lower, &main)
        || archive_len == 1
}

/// The number of a snapshot file named like `0003.png`, if it is one.
pub fn numbered_png(file_name: &str) -> (r: Option<u32>)
    ensures
        r == numbered_png_spec(file_name@),
{
    let chars = chars_of(file_name);
    let suffix = chars_of(".png");
    proof {
        reveal_strlit(".png");
    }
    if !ends_with_chars(&chars, &suffix) {
        return None;
    }
    let stem_len = chars.len() - 4;
    let mut stem: Vec<char> = Vec::new();
    let mut k: usize = 0;
    while k < stem_len
        invariant
            stem_len == chars.len() - 4,
            stem_len <= chars.len(),
            k <= stem_len,
            stem@ == chars@.subrange(0, k as int),
        decreases stem_len - k,
    {
        stem.push(chars[k]);
        k = k + 1;
        assert(stem@ =~= chars@.subrange(0, k as int));
    }
    parse_u32(&stem)
}

/// The snapshot shown for a game's snapshot directory: the file with the
/// highest number among those named like `0003.png`, the first such file
/// when several share it; `None` when no file is numbered.
pub fn pick_numbered_png(file_names: &Vec<String>) -> (r: Option<usize>)
    ensures
        match r {
            Some(i) => i < file_names@.len() && numbered_png_spec(file_names@[i as int]@) is Some
                && (forall|j: int| 0 <= j < file_names@.len() && numbered_png_spec(#[trigger] file_names@[j]@) is Some
                    ==> numbered_png_spec(file_names@[j]@)->0 <= numbered_png_spec(file_names@[i as int]@)->0)
                && (forall|j: int| 0 <= j < i && numbered_png_spec(#[trigger] file_names@[j]@) is Some
                    ==> numbered_png_spec(file_names@[j]@)->0 < numbered_png_spec(file_names@[i as int]@)->0),
            None => forall|j: int| 0 <= j < file_names@.len() ==> numbered_png_spec(#[trigger] file_names@[j]@) is None,
        },
{
    let mut best: Option<usize> = None;
    let mut best_num: u32 = 0;
    let mut k: usize = 0;
    while k < file_names.len()
        invariant
            k <= file_names@.len(),
            match best {
                Some(i) => i < k && numbered_png_spec(file_names@[i as int]@) == Some(best_num)
                    && (forall|j: int| 0 <= j < k && numbered_png_spec(#[trigger] file_names@[j]@) is Some
                        ==> numbered_png_spec(file_names@[j]@)->0 <= best_num)
                    && (forall|j: int| 0 <= j < i && numbered_png_spec(#[trigger] file_names@[j]@) is Some
                        ==> numbered_png_spec(file_names@[j]@)->0 < best_num),
                None => forall|j: int| 0 <= j < k ==> numbered_png_spec(#[trigger] file_names@[j]@) is None,
            },
        decreases file_names@.len() - k,
    {
        match numbered_png(file_names[k].as_str()) {
            Some(n) => {
                let better = match best {
                    None => true,
                    Some(_) => n > best_num,
                };
                if better {
                    best = Some(k);
                    best_num = n;
                }
            },
            None => {},
        }
        k = k + 1;
    }
    best
}

} // verus!
