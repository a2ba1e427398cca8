//! Rules of the desktop front end.

use vstd::prelude::*;

use crate::discovery::DiscoveredPeer;
use crate::paths::{
    extensions_match_ignoring_case, file_name_or, file_name_or_else, lemma_lower_extension_ignores_case,
    lower_extension, lowercase_extension,
};
use crate::protocol::FileMeta;
use crate::text::{chars_equal, decimal, push_decimal};

verus! {

/// The MIME type the desktop front end announces for a (lower-case)
/// extension.
pub open spec fn desktop_mime(ext: Seq<char>) -> Seq<char> {
    if ext == "jpg"@ || ext == "jpeg"@ {
        "image/jpeg"@
    } else if ext == "png"@ {
        "image/png"@
    } else if ext == "mp4"@ || ext == "mkv"@ {
        "video/mp4"@
    } else if ext == "mp3"@ || ext == "wav"@ || ext == "flac"@ {
        "audio/mpeg"@
    } else if ext == "pdf"@ {
        "application/pdf"@
    } else {
        "application/octet-stream"@
    }
}

/// The MIME type for a (lower-case) file extension.
pub fn mime_for_extension(ext: &Vec<char>) -> (r: String)
    ensures
        r@ == desktop_mime(ext@),
{
    let m = if chars_equal(ext, "jpg") || chars_equal(ext, "jpeg") {
        "image/jpeg"
    } else if chars_equal(ext, "png") {
        "image/png"
    } else if chars_equal(ext, "mp4") || chars_equal(ext, "mkv") {
        "video/mp4"
    } else if chars_equal(ext, "mp3") || chars_equal(ext, "wav") || chars_equal(ext, "flac") {
        "audio/mpeg"
    } else if chars_equal(ext, "pdf") {
        "application/pdf"
    } else {
        "application/octet-stream"
    };
    m.to_owned()
}

/// The MIME type of the file at `path`, from its extension.
pub fn mime_for(path: &str) -> (r: String)
    ensures
        r@ == desktop_mime(lower_extension(path@)),
{
    let ext = lowercase_extension(path);
    mime_for_extension(&ext)
}

/// The metadata announced for the `position`-th (0-based) selected file.
pub fn file_meta(path: &str, size: u64, position: usize) -> (r: FileMeta)
    requires
        position < usize::MAX,
    ensures
        r.name@ == file_name_or(path@, ""@),
        r.size == size,
        r.mime@ == desktop_mime(lower_extension(path@)),
        r.file_index == (position + 1) as u32,
{
    let index: u32 = (position + 1) as u32;
    FileMeta { name: file_name_or_else(path, ""), size, mime: mime_for(path), file_index: index }
}

/// How a live peer is listed: `<device name> @ <address>`.
pub fn peer_label(peer: &DiscoveredPeer) -> (r: String)
    ensures
        r@ == peer.device_name@ + " @ "@ + peer.addr@,
{
    let mut s = peer.device_name.clone();
    s.append(" @ ");
    s.append(peer.addr.as_str());
    s
}

/// The status shown once receiving started on UDP `port` into `dir`.
pub fn receiving_status(port: u16, dir: &str) -> (r: String)
    ensures
        r@ == "Receiving on UDP "@ + decimal(port as nat) + ", saving to "@ + dir@,
{
    let mut s = "Receiving on UDP ".to_owned();
    push_decimal(&mut s, port as u64);
    s.append(", saving to ");
    s.append(dir);
    s
}

/// `mime_for` ignores the ASCII case of the extension: two paths whose
/// extensions differ only in case (`a.Flac`, `b.FLAC`) get the same type.
pub proof fn lemma_mime_for_ignores_case(p: Seq<char>, q: Seq<char>)
    requires
        extensions_match_ignoring_case(p, q),
    ensures
        desktop_mime(lower_extension(p)) == desktop_mime(lower_extension(q)),
{
    lemma_lower_extension_ignores_case(p, q);
}

/// The table: each listed lower-case extension gets its type, and every
/// other extension (or none) gets `application/octet-stream`.
pub proof fn lemma_desktop_mime_table(ext: Seq<char>)
    ensures
        desktop_mime("jpg"@) == "image/jpeg"@,
        desktop_mime("jpeg"@) == "image/jpeg"@,
        desktop_mime("png"@) == "image/png"@,
        desktop_mime("mp4"@) == "video/mp4"@,
        desktop_mime("mkv"@) == "video/mp4"@,
        desktop_mime("mp3"@) == "audio/mpeg"@,
        desktop_mime("wav"@) == "audio/mpeg"@,
        desktop_mime("flac"@) == "audio/mpeg"@,
        desktop_mime("pdf"@) == "application/pdf"@,
        desktop_mime(ext) == "application/octet-stream"@ <==> !(ext == "jpg"@ || ext == "jpeg"@ || ext == "png"@ || ext == "mp4"@ || ext == "mkv"@ || ext == "mp3"@ || ext == "wav"@ || ext == "flac"@ || ext == "pdf"@),
{
    reveal_strlit("application/octet-stream");
    reveal_strlit("application/pdf");
    reveal_strlit("audio/mpeg");
    reveal_strlit("flac");
    reveal_strlit("image/jpeg");
    reveal_strlit("image/png");
    reveal_strlit("jpeg");
    reveal_strlit("jpg");
    reveal_strlit("mkv");
    reveal_strlit("mp3");
    reveal_strlit("mp4");
    reveal_strlit("pdf");
    reveal_strlit("png");
    reveal_strlit("video/mp4");
    reveal_strlit("wav");
    assert("flac"@.len() == 4 && "flac"@[0] == 'f' && "flac"@[1] == 'l' && "flac"@[2] == 'a' && "flac"@[3] == 'c');
    assert("jpeg"@.len() == 4 && "jpeg"@[0] == 'j' && "jpeg"@[1] == 'p' && "jpeg"@[2] == 'e' && "jpeg"@[3] == 'g');
    assert("jpg"@.len() == 3 && "jpg"@[0] == 'j' && "jpg"@[1] == 'p' && "jpg"@[2] == 'g');
    assert("mkv"@.len() == 3 && "mkv"@[0] == 'm' && "mkv"@[1] == 'k' && "mkv"@[2] == 'v');
    assert("mp3"@.len() == 3 && "mp3"@[0] == 'm' && "mp3"@[1] == 'p' && "mp3"@[2] == '3');
    assert("mp4"@.len() == 3 && "mp4"@[0] == 'm' && "mp4"@[1] == 'p' && "mp4"@[2] == '4');
    assert("pdf"@.len() == 3 && "pdf"@[0] == 'p' && "pdf"@[1] == 'd' && "pdf"@[2] == 'f');
    assert("png"@.len() == 3 && "png"@[0] == 'p' && "png"@[1] == 'n' && "png"@[2] == 'g');
    assert("wav"@.len() == 3 && "wav"@[0] == 'w' && "wav"@[1] == 'a' && "wav"@[2] == 'v');
    assert("application/octet-stream"@.len() == 24);
    assert("application/pdf"@.len() == 15);
    assert("audio/mpeg"@.len() == 10);
    assert("image/jpeg"@.len() == 10);
    assert("image/png"@.len() == 9);
    assert("video/mp4"@.len() == 9);
}

} // verus!
