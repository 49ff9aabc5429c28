//! Which files are books and which are images, by their extension.
use vstd::prelude::*;
use vstd::string::*;

use super::path_text::{extension, is_read, path_extension};
use crate::text::{lower, lower_text, same_text};

verus! {

/// The extensions of archives, in lower case.
pub open spec fn archive_extension(text: Seq<char>) -> bool {
    text == "cbz"@ || text == "zip"@ || text == "rar"@ || text == "cbr"@ || text == "epub"@
}

/// The extensions of images, in lower case.
pub open spec fn image_extension(text: Seq<char>) -> bool {
    text == "jpg"@ || text == "jpeg"@ || text == "png"@ || text == "webp"@ || text == "gif"@ || text
        == "avif"@ || text == "avifs"@ || text == "bmp"@ || text == "tif"@ || text == "tiff"@
}

/// Whether a path names an archive, in one reading of paths.
pub open spec fn is_archive(path: Seq<char>, with_drives: bool) -> bool {
    extension(path, with_drives) matches Some(text) && archive_extension(lower(text))
}

/// Whether a path names an image, in one reading of paths.
pub open spec fn is_image(path: Seq<char>, with_drives: bool) -> bool {
    extension(path, with_drives) matches Some(text) && image_extension(lower(text))
}

/// Whether a path names an archive on every platform.
pub open spec fn surely_archive(path: Seq<char>) -> bool {
    is_archive(path, false) && is_read(path, true) && is_archive(path, true)
}

/// Whether a path may name an archive on some platform.
pub open spec fn possibly_archive(path: Seq<char>) -> bool {
    is_archive(path, false) || !is_read(path, true) || is_archive(path, true)
}

/// Whether a path names an image on every platform.
pub open spec fn surely_image(path: Seq<char>) -> bool {
    is_image(path, false) && is_read(path, true) && is_image(path, true)
}

/// Whether a path may name an image on some platform.
pub open spec fn possibly_image(path: Seq<char>) -> bool {
    is_image(path, false) || !is_read(path, true) || is_image(path, true)
}

/// Whether a file with this extension is an archive; letter case does not matter.
pub fn is_supported_archive_extension(extension: &str) -> (supported: bool)
    ensures
        supported == archive_extension(lower(extension@)),
{
    let text: String = lower_text(extension);
    let name: &str = text.as_str();
    same_text(name, "cbz") || same_text(name, "zip") || same_text(name, "rar") || same_text(
        name,
        "cbr",
    ) || same_text(name, "epub")
}

/// Whether a path names an archive, by its extension.
pub fn is_supported_archive_path(path: &str) -> (supported: bool)
    ensures
        surely_archive(path@) ==> supported,
        supported ==> possibly_archive(path@),
{
    match path_extension(path) {
        Some(text) => is_supported_archive_extension(text.as_str()),
        None => false,
    }
}

/// Whether a file with this extension is an image; letter case does not matter.
pub fn is_supported_image_name(name: &str) -> (supported: bool)
    ensures
        supported == image_extension(lower(name@)),
{
    let text: String = lower_text(name);
    let name: &str = text.as_str();
    same_text(name, "jpg") || same_text(name, "jpeg") || same_text(name, "png") || same_text(
        name,
        "webp",
    ) || same_text(name, "gif") || same_text(name, "avif") || same_text(name, "avifs")
        || same_text(name, "bmp") || same_text(name, "tif") || same_text(name, "tiff")
}

/// Whether a path names an image, by its extension.
pub fn is_supported_image_path(path: &str) -> (supported: bool)
    ensures
        surely_image(path@) ==> supported,
        supported ==> possibly_image(path@),
{
    match path_extension(path) {
        Some(text) => is_supported_image_name(text.as_str()),
        None => false,
    }
}

/// Archives and images are told by their extension in whatever letter case it is written, and no
/// extension is of both.
pub proof fn law_extensions_are_of_one_kind(text: Seq<char>)
    ensures
        !(archive_extension(text) && image_extension(text)),
        archive_extension(text) ==> text == seq!['c', 'b', 'z'] || text == seq!['z', 'i', 'p']
            || text == seq!['r', 'a', 'r'] || text == seq!['c', 'b', 'r'] || text
            == seq!['e', 'p', 'u', 'b'],
        archive_extension(seq!['c', 'b', 'z']) && archive_extension(seq!['z', 'i', 'p'])
            && archive_extension(seq!['r', 'a', 'r']) && archive_extension(seq!['c', 'b', 'r'])
            && archive_extension(seq!['e', 'p', 'u', 'b']),
        image_extension(seq!['j', 'p', 'g']) && image_extension(seq!['j', 'p', 'e', 'g'])
            && image_extension(seq!['p', 'n', 'g']) && image_extension(seq!['w', 'e', 'b', 'p'])
            && image_extension(seq!['g', 'i', 'f']) && image_extension(seq!['a', 'v', 'i', 'f'])
            && image_extension(seq!['a', 'v', 'i', 'f', 's']) && image_extension(
            seq!['b', 'm', 'p'],
        ) && image_extension(seq!['t', 'i', 'f']) && image_extension(seq!['t', 'i', 'f', 'f']),
        image_extension(text) ==> 3 <= text.len() <= 5,
{
    reveal_strlit("cbz");
    reveal_strlit("zip");
    reveal_strlit("rar");
    reveal_strlit("cbr");
    reveal_strlit("epub");
    reveal_strlit("jpg");
    reveal_strlit("jpeg");
    reveal_strlit("png");
    reveal_strlit("webp");
    reveal_strlit("gif");
    reveal_strlit("avif");
    reveal_strlit("avifs");
    reveal_strlit("bmp");
    reveal_strlit("tif");
    reveal_strlit("tiff");
    assert("cbz"@ =~= seq!['c', 'b', 'z']);
    assert("zip"@ =~= seq!['z', 'i', 'p']);
    assert("rar"@ =~= seq!['r', 'a', 'r']);
    assert("cbr"@ =~= seq!['c', 'b', 'r']);
    assert("epub"@ =~= seq!['e', 'p', 'u', 'b']);
    assert("jpg"@ =~= seq!['j', 'p', 'g']);
    assert("jpeg"@ =~= seq!['j', 'p', 'e', 'g']);
    assert("png"@ =~= seq!['p', 'n', 'g']);
    assert("webp"@ =~= seq!['w', 'e', 'b', 'p']);
    assert("gif"@ =~= seq!['g', 'i', 'f']);
    assert("avif"@ =~= seq!['a', 'v', 'i', 'f']);
    assert("avifs"@ =~= seq!['a', 'v', 'i', 'f', 's']);
    assert("bmp"@ =~= seq!['b', 'm', 'p']);
    assert("tif"@ =~= seq!['t', 'i', 'f']);
    assert("tiff"@ =~= seq!['t', 'i', 'f', 'f']);
}

/// What is certainly an archive may be one, and so for images; where both readings of a path agree,
/// it is certain.
pub proof fn law_certain_kinds_are_possible(path: Seq<char>)
    requires
        is_read(path, true),
    ensures
        surely_archive(path) ==> possibly_archive(path),
        surely_image(path) ==> possibly_image(path),
        is_archive(path, false) == is_archive(path, true) ==> surely_archive(path)
            == possibly_archive(path) && surely_archive(path) == is_archive(path, false),
        is_image(path, false) == is_image(path, true) ==> surely_image(path) == possibly_image(path)
            && surely_image(path) == is_image(path, false),
        extension(path, false) is None ==> !is_archive(path, false) && !is_image(path, false),
        is_archive(path, false) ==> !is_image(path, false),
{
    if extension(path, false) is Some {
        law_extensions_are_of_one_kind(lower(extension(path, false)->0));
    }
}

} // verus!
