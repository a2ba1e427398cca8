//! Helpers of the engine object that native shells drive.

use vstd::prelude::*;

use crate::paths::{
    extensions_match_ignoring_case, file_name_or, file_name_or_else, lemma_lower_extension_ignores_case,
    lower_extension, lowercase_extension,
};
use crate::protocol::FileMeta;
use crate::text::chars_equal;

verus! {

/// The MIME type the engine announces for a file with (lower-case)
/// extension `ext`.
pub open spec fn engine_mime(ext: Seq<char>) -> Seq<char> {
    if ext == "jpg"@ || ext == "jpeg"@ {
        "image/jpeg"@
    } else if ext == "png"@ {
        "image/png"@
    } else if ext == "webp"@ {
        "image/webp"@
    } else if ext == "gif"@ {
        "image/gif"@
    } else if ext == "heic"@ || ext == "heif"@ {
        "image/heic"@
    } else if ext == "mp4"@ || ext == "mkv"@ || ext == "webm"@ || ext == "mov"@ {
        "video/mp4"@
    } else if ext == "mp3"@ || ext == "wav"@ || ext == "flac"@ || ext == "aac"@ || ext == "ogg"@
        || ext == "m4a"@ {
        "audio/mpeg"@
    } else if ext == "pdf"@ {
        "application/pdf"@
    } else if ext == "docx"@ || ext == "doc"@ {
        "application/vnd.openxmlformats-officedocument.wordprocessingml.document"@
    } else if ext == "xlsx"@ || ext == "xls"@ {
        "application/vnd.openxmlformats-officedocument.spreadsheetml.sheet"@
    } else if ext == "pptx"@ || ext == "ppt"@ {
        "application/vnd.openxmlformats-officedocument.presentationml.presentation"@
    } else if ext == "txt"@ {
        "text/plain"@
    } else {
        "application/octet-stream"@
    }
}

/// The MIME type for a (lower-case) file extension.
pub fn mime_for_extension(ext: &Vec<char>) -> (r: String)
    ensures
        r@ == engine_mime(ext@),
{
    let m = if chars_equal(ext, "jpg") || chars_equal(ext, "jpeg") {
        "image/jpeg"
    } else if chars_equal(ext, "png") {
        "image/png"
    } else if chars_equal(ext, "webp") {
        "image/webp"
    } else if chars_equal(ext, "gif") {
        "image/gif"
    } else if chars_equal(ext, "heic") || chars_equal(ext, "heif") {
        "image/heic"
    } else if chars_equal(ext, "mp4") || chars_equal(ext, "mkv") || chars_equal(ext, "webm")
        || chars_equal(ext, "mov") {
        "video/mp4"
    } else if chars_equal(ext, "mp3") || chars_equal(ext, "wav") || chars_equal(ext, "flac")
        || chars_equal(ext, "aac") || chars_equal(ext, "ogg") || chars_equal(ext, "m4a") {
        "audio/mpeg"
    } else if chars_equal(ext, "pdf") {
        "application/pdf"
    } else if chars_equal(ext, "docx") || chars_equal(ext, "doc") {
        "application/vnd.openxmlformats-officedocument.wordprocessingml.document"
    } else if chars_equal(ext, "xlsx") || chars_equal(ext, "xls") {
        "application/vnd.openxmlformats-officedocument.spreadsheetml.sheet"
    } else if chars_equal(ext, "pptx") || chars_equal(ext, "ppt") {
        "application/vnd.openxmlformats-officedocument.presentationml.presentation"
    } else if chars_equal(ext, "txt") {
        "text/plain"
    } else {
        "application/octet-stream"
    };
    m.to_owned()
}

/// Guess a file's MIME type from the extension of its path.
pub fn guess_mime(path: &str) -> (r: String)
    ensures
        r@ == engine_mime(lower_extension(path@)),
{
    let ext = lowercase_extension(path);
    mime_for_extension(&ext)
}

/// The metadata announced when the engine sends the single file at `path`
/// of `size` bytes: its final path component (`file` when there is none),
/// its guessed MIME type, index 1.
pub fn file_meta_for_send(path: &str, size: u64) -> (r: FileMeta)
    ensures
        r.name@ == file_name_or(path@, "file"@),
        r.size == size,
        r.mime@ == engine_mime(lower_extension(path@)),
        r.file_index == 1,
{
    FileMeta { name: file_name_or_else(path, "file"), size, mime: guess_mime(path), file_index: 1 }
}

/// `guess_mime` ignores the ASCII case of the extension: two paths whose
/// extensions differ only in case (`a.Flac`, `b.FLAC`) get the same type.
pub proof fn lemma_guess_mime_ignores_case(p: Seq<char>, q: Seq<char>)
    requires
        extensions_match_ignoring_case(p, q),
    ensures
        engine_mime(lower_extension(p)) == engine_mime(lower_extension(q)),
{
    lemma_lower_extension_ignores_case(p, q);
}

/// The table: each listed lower-case extension gets its type, and every
/// other extension (or none) gets `application/octet-stream`.
pub proof fn lemma_engine_mime_table(ext: Seq<char>)
    ensures
        engine_mime("jpg"@) == "image/jpeg"@,
        engine_mime("jpeg"@) == "image/jpeg"@,
        engine_mime("png"@) == "image/png"@,
        engine_mime("webp"@) == "image/webp"@,
        engine_mime("gif"@) == "image/gif"@,
        engine_mime("heic"@) == "image/heic"@,
        engine_mime("heif"@) == "image/heic"@,
        engine_mime("mp4"@) == "video/mp4"@,
        engine_mime("mkv"@) == "video/mp4"@,
        engine_mime("webm"@) == "video/mp4"@,
        engine_mime("mov"@) == "video/mp4"@,
        engine_mime("mp3"@) == "audio/mpeg"@,
        engine_mime("wav"@) == "audio/mpeg"@,
        engine_mime("flac"@) == "audio/mpeg"@,
        engine_mime("aac"@) == "audio/mpeg"@,
        engine_mime("ogg"@) == "audio/mpeg"@,
        engine_mime("m4a"@) == "audio/mpeg"@,
        engine_mime("pdf"@) == "application/pdf"@,
        engine_mime("docx"@) == "application/vnd.openxmlformats-officedocument.wordprocessingml.document"@,
        engine_mime("doc"@) == "application/vnd.openxmlformats-officedocument.wordprocessingml.document"@,
        engine_mime("xlsx"@) == "application/vnd.openxmlformats-officedocument.spreadsheetml.sheet"@,
        engine_mime("xls"@) == "application/vnd.openxmlformats-officedocument.spreadsheetml.sheet"@,
        engine_mime("pptx"@) == "application/vnd.openxmlformats-officedocument.presentationml.presentation"@,
        engine_mime("ppt"@) == "application/vnd.openxmlformats-officedocument.presentationml.presentation"@,
        engine_mime("txt"@) == "text/plain"@,
        engine_mime(ext) == "application/octet-stream"@ <==> !(ext == "jpg"@ || ext == "jpeg"@ || ext == "png"@ || ext == "webp"@ || ext == "gif"@ || ext == "heic"@ || ext == "heif"@ || ext == "mp4"@ || ext == "mkv"@ || ext == "webm"@ || ext == "mov"@ || ext == "mp3"@ || ext == "wav"@ || ext == "flac"@ || ext == "aac"@ || ext == "ogg"@ || ext == "m4a"@ || ext == "pdf"@ || ext == "docx"@ || ext == "doc"@ || ext == "xlsx"@ || ext == "xls"@ || ext == "pptx"@ || ext == "ppt"@ || ext == "txt"@),
{
    reveal_strlit("aac");
    reveal_strlit("application/octet-stream");
    reveal_strlit("application/pdf");
    reveal_strlit("application/vnd.openxmlformats-officedocument.presentationml.presentation");
    reveal_strlit("application/vnd.openxmlformats-officedocument.spreadsheetml.sheet");
    reveal_strlit("application/vnd.openxmlformats-officedocument.wordprocessingml.document");
    reveal_strlit("audio/mpeg");
    reveal_strlit("doc");
    reveal_strlit("docx");
    reveal_strlit("flac");
    reveal_strlit("gif");
    reveal_strlit("heic");
    reveal_strlit("heif");
    reveal_strlit("image/gif");
    reveal_strlit("image/heic");
    reveal_strlit("image/jpeg");
    reveal_strlit("image/png");
    reveal_strlit("image/webp");
    reveal_strlit("jpeg");
    reveal_strlit("jpg");
    reveal_strlit("m4a");
    reveal_strlit("mkv");
    reveal_strlit("mov");
    reveal_strlit("mp3");
    reveal_strlit("mp4");
    reveal_strlit("ogg");
    reveal_strlit("pdf");
    reveal_strlit("png");
    reveal_strlit("ppt");
    reveal_strlit("pptx");
    reveal_strlit("text/plain");
    reveal_strlit("txt");
    reveal_strlit("video/mp4");
    reveal_strlit("wav");
    reveal_strlit("webm");
    reveal_strlit("webp");
    reveal_strlit("xls");
    reveal_strlit("xlsx");
    assert("aac"@.len() == 3 && "aac"@[0] == 'a' && "aac"@[1] == 'a' && "aac"@[2] == 'c');
    assert("doc"@.len() == 3 && "doc"@[0] == 'd' && "doc"@[1] == 'o' && "doc"@[2] == 'c');
    assert("docx"@.len() == 4 && "docx"@[0] == 'd' && "docx"@[1] == 'o' && "docx"@[2] == 'c' && "docx"@[3] == 'x');
    assert("flac"@.len() == 4 && "flac"@[0] == 'f' && "flac"@[1] == 'l' && "flac"@[2] == 'a' && "flac"@[3] == 'c');
    assert("gif"@.len() == 3 && "gif"@[0] == 'g' && "gif"@[1] == 'i' && "gif"@[2] == 'f');
    assert("heic"@.len() == 4 && "heic"@[0] == 'h' && "heic"@[1] == 'e' && "heic"@[2] == 'i' && "heic"@[3] == 'c');
    assert("heif"@.len() == 4 && "heif"@[0] == 'h' && "heif"@[1] == 'e' && "heif"@[2] == 'i' && "heif"@[3] == 'f');
    assert("jpeg"@.len() == 4 && "jpeg"@[0] == 'j' && "jpeg"@[1] == 'p' && "jpeg"@[2] == 'e' && "jpeg"@[3] == 'g');
    assert("jpg"@.len() == 3 && "jpg"@[0] == 'j' && "jpg"@[1] == 'p' && "jpg"@[2] == 'g');
    assert("m4a"@.len() == 3 && "m4a"@[0] == 'm' && "m4a"@[1] == '4' && "m4a"@[2] == 'a');
    assert("mkv"@.len() == 3 && "mkv"@[0] == 'm' && "mkv"@[1] == 'k' && "mkv"@[2] == 'v');
    assert("mov"@.len() == 3 && "mov"@[0] == 'm' && "mov"@[1] == 'o' && "mov"@[2] == 'v');
    assert("mp3"@.len() == 3 && "mp3"@[0] == 'm' && "mp3"@[1] == 'p' && "mp3"@[2] == '3');
    assert("mp4"@.len() == 3 && "mp4"@[0] == 'm' && "mp4"@[1] == 'p' && "mp4"@[2] == '4');
    assert("ogg"@.len() == 3 && "ogg"@[0] == 'o' && "ogg"@[1] == 'g' && "ogg"@[2] == 'g');
    assert("pdf"@.len() == 3 && "pdf"@[0] == 'p' && "pdf"@[1] == 'd' && "pdf"@[2] == 'f');
    assert("png"@.len() == 3 && "png"@[0] == 'p' && "png"@[1] == 'n' && "png"@[2] == 'g');
    assert("ppt"@.len() == 3 && "ppt"@[0] == 'p' && "ppt"@[1] == 'p' && "ppt"@[2] == 't');
    assert("pptx"@.len() == 4 && "pptx"@[0] == 'p' && "pptx"@[1] == 'p' && "pptx"@[2] == 't' && "pptx"@[3] == 'x');
    assert("txt"@.len() == 3 && "txt"@[0] == 't' && "txt"@[1] == 'x' && "txt"@[2] == 't');
    assert("wav"@.len() == 3 && "wav"@[0] == 'w' && "wav"@[1] == 'a' && "wav"@[2] == 'v');
    assert("webm"@.len() == 4 && "webm"@[0] == 'w' && "webm"@[1] == 'e' && "webm"@[2] == 'b' && "webm"@[3] == 'm');
    assert("webp"@.len() == 4 && "webp"@[0] == 'w' && "webp"@[1] == 'e' && "webp"@[2] == 'b' && "webp"@[3] == 'p');
    assert("xls"@.len() == 3 && "xls"@[0] == 'x' && "xls"@[1] == 'l' && "xls"@[2] == 's');
    assert("xlsx"@.len() == 4 && "xlsx"@[0] == 'x' && "xlsx"@[1] == 'l' && "xlsx"@[2] == 's' && "xlsx"@[3] == 'x');
    assert("application/octet-stream"@.len() == 24);
    assert("application/pdf"@.len() == 15);
    assert("application/vnd.openxmlformats-officedocument.presentationml.presentation"@.len() == 73);
    assert("application/vnd.openxmlformats-officedocument.spreadsheetml.sheet"@.len() == 65);
    assert("application/vnd.openxmlformats-officedocument.wordprocessingml.document"@.len() == 71);
    assert("audio/mpeg"@.len() == 10);
    assert("image/gif"@.len() == 9);
    assert("image/heic"@.len() == 10);
    assert("image/jpeg"@.len() == 10);
    assert("image/png"@.len() == 9);
    assert("image/webp"@.len() == 10);
    assert("text/plain"@.len() == 10);
    assert("video/mp4"@.len() == 9);
}

} // verus!
