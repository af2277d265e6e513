//! The content types that are served to browsers as they are; any other
//! upload is stored as `application/octet-stream`.
use vstd::prelude::*;
use crate::text::str_eq;

verus! {

/// Whether a content type is one that browsers may be handed directly.
pub open spec fn is_browser_safe_type(t: Seq<char>) -> bool {
    ||| t == "image/png"@
    ||| t == "image/gif"@
    ||| t == "image/jpeg"@
    ||| t == "image/webp"@
    ||| t == "image/avif"@
    ||| t == "image/apng"@
    ||| t == "image/bmp"@
    ||| t == "image/tiff"@
    ||| t == "image/x-icon"@
    ||| t == "audio/opus"@
    ||| t == "video/ogg"@
    ||| t == "audio/ogg"@
    ||| t == "application/ogg"@
    ||| t == "video/quicktime"@
    ||| t == "video/mp4"@
    ||| t == "audio/mp4"@
    ||| t == "video/x-m4v"@
    ||| t == "audio/x-m4a"@
    ||| t == "video/3gpp"@
    ||| t == "video/3gpp2"@
    ||| t == "video/mpeg"@
    ||| t == "audio/mpeg"@
    ||| t == "video/webm"@
    ||| t == "audio/webm"@
    ||| t == "audio/aac"@
    ||| t == "audio/flac"@
    ||| t == "audio/wav"@
    ||| t == "audio/x-flac"@
    ||| t == "audio/vnd.wave"@
}

/// Whether a content type may be handed to browsers directly.
pub fn is_browser_safe(t: &str) -> (res: bool)
    ensures
        res == is_browser_safe_type(t@),
{
    str_eq(t, "image/png") || str_eq(t, "image/gif") || str_eq(t, "image/jpeg") || str_eq(t, "image/webp")
        || str_eq(t, "image/avif") || str_eq(t, "image/apng") || str_eq(t, "image/bmp") || str_eq(t, "image/tiff")
        || str_eq(t, "image/x-icon") || str_eq(t, "audio/opus") || str_eq(t, "video/ogg") || str_eq(t, "audio/ogg")
        || str_eq(t, "application/ogg") || str_eq(t, "video/quicktime") || str_eq(t, "video/mp4")
        || str_eq(t, "audio/mp4") || str_eq(t, "video/x-m4v") || str_eq(t, "audio/x-m4a") || str_eq(t, "video/3gpp")
        || str_eq(t, "video/3gpp2") || str_eq(t, "video/mpeg") || str_eq(t, "audio/mpeg") || str_eq(t, "video/webm")
        || str_eq(t, "audio/webm") || str_eq(t, "audio/aac") || str_eq(t, "audio/flac") || str_eq(t, "audio/wav")
        || str_eq(t, "audio/x-flac") || str_eq(t, "audio/vnd.wave")
}

proof fn lemma_browser_safe_shape(t: Seq<char>)
    requires
        is_browser_safe_type(t),
    ensures
        t.len() > 0,
        t[0] == 'i' || t[0] == 'v' || t[0] == 'a',
        t.len() != 13,
        t.len() <= 15,
{
    reveal_strlit("image/png");
    reveal_strlit("image/gif");
    reveal_strlit("image/jpeg");
    reveal_strlit("image/webp");
    reveal_strlit("image/avif");
    reveal_strlit("image/apng");
    reveal_strlit("image/bmp");
    reveal_strlit("image/tiff");
    reveal_strlit("image/x-icon");
    reveal_strlit("audio/opus");
    reveal_strlit("video/ogg");
    reveal_strlit("audio/ogg");
    reveal_strlit("application/ogg");
    reveal_strlit("video/quicktime");
    reveal_strlit("video/mp4");
    reveal_strlit("audio/mp4");
    reveal_strlit("video/x-m4v");
    reveal_strlit("audio/x-m4a");
    reveal_strlit("video/3gpp");
    reveal_strlit("video/3gpp2");
    reveal_strlit("video/mpeg");
    reveal_strlit("audio/mpeg");
    reveal_strlit("video/webm");
    reveal_strlit("audio/webm");
    reveal_strlit("audio/aac");
    reveal_strlit("audio/flac");
    reveal_strlit("audio/wav");
    reveal_strlit("audio/x-flac");
    reveal_strlit("audio/vnd.wave");
}

/// The browser-safe content types are these, each of them accepted:
/// images (PNG, GIF, JPEG, WebP, AVIF, APNG, BMP, TIFF, icons), Ogg and Opus
/// audio and video, QuickTime, MP4 and M4V/M4A, 3GPP, MPEG, WebM, AAC, FLAC
/// and WAV.
pub proof fn lemma_browser_safe_list()
    ensures
        is_browser_safe_type("image/png"@),
        is_browser_safe_type("image/gif"@),
        is_browser_safe_type("image/jpeg"@),
        is_browser_safe_type("image/webp"@),
        is_browser_safe_type("image/avif"@),
        is_browser_safe_type("image/apng"@),
        is_browser_safe_type("image/bmp"@),
        is_browser_safe_type("image/tiff"@),
        is_browser_safe_type("image/x-icon"@),
        is_browser_safe_type("audio/opus"@),
        is_browser_safe_type("video/ogg"@),
        is_browser_safe_type("audio/ogg"@),
        is_browser_safe_type("application/ogg"@),
        is_browser_safe_type("video/quicktime"@),
        is_browser_safe_type("video/mp4"@),
        is_browser_safe_type("audio/mp4"@),
        is_browser_safe_type("video/x-m4v"@),
        is_browser_safe_type("audio/x-m4a"@),
        is_browser_safe_type("video/3gpp"@),
        is_browser_safe_type("video/3gpp2"@),
        is_browser_safe_type("video/mpeg"@),
        is_browser_safe_type("audio/mpeg"@),
        is_browser_safe_type("video/webm"@),
        is_browser_safe_type("audio/webm"@),
        is_browser_safe_type("audio/aac"@),
        is_browser_safe_type("audio/flac"@),
        is_browser_safe_type("audio/wav"@),
        is_browser_safe_type("audio/x-flac"@),
        is_browser_safe_type("audio/vnd.wave"@),
{
}

/// Types that can carry scripts or markup (HTML, SVG), the opaque
/// `application/octet-stream` and the empty type are not browser-safe.
pub proof fn lemma_not_browser_safe()
    ensures
        !is_browser_safe_type("text/html"@),
        !is_browser_safe_type("image/svg+xml"@),
        !is_browser_safe_type("application/octet-stream"@),
        !is_browser_safe_type(Seq::<char>::empty()),
{
    reveal_strlit("text/html");
    reveal_strlit("image/svg+xml");
    reveal_strlit("application/octet-stream");
    assert("text/html"@[0] == 't');
    assert("image/svg+xml"@.len() == 13);
    assert("application/octet-stream"@.len() == 24);
    if is_browser_safe_type("text/html"@) {
        lemma_browser_safe_shape("text/html"@);
    }
    if is_browser_safe_type("image/svg+xml"@) {
        lemma_browser_safe_shape("image/svg+xml"@);
    }
    if is_browser_safe_type("application/octet-stream"@) {
        lemma_browser_safe_shape("application/octet-stream"@);
    }
    if is_browser_safe_type(Seq::<char>::empty()) {
        lemma_browser_safe_shape(Seq::<char>::empty());
    }
}

} // verus!
