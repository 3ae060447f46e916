//! Stream resolver
//!
//! Decides how a URL is played and describes the resolved stream.

use vstd::prelude::*;

use crate::stream::hls::HlsSegmentFormat;
use crate::stream::icy::{opt_str, IcyHeaders};
use crate::stream::playlist::{check_playlist_type, playlist_type, PlaylistCheck};
use crate::stream::types::{StreamInfo, StreamInfoView, StreamType};
use crate::text::{
    after_char, before, behind_last, contains, has_infix, lemma_until_char, lowercase, opt_text,
    same, until_char,
};

verus! {

/// Resolves a station URL into a playable stream
pub struct StreamResolver;

/// The format that a content type, given in lowercase, stands for.
pub open spec fn content_type_hint(ct: Seq<char>) -> Option<Seq<char>> {
    if has_infix(ct, "audio/mpeg"@) || has_infix(ct, "audio/mp3"@) {
        Some("mp3"@)
    } else if has_infix(ct, "audio/aac"@) || has_infix(ct, "audio/aacp"@) {
        Some("aac"@)
    } else if has_infix(ct, "audio/ogg"@) || has_infix(ct, "application/ogg"@) {
        Some("ogg"@)
    } else if has_infix(ct, "audio/flac"@) {
        Some("flac"@)
    } else if has_infix(ct, "audio/opus"@) {
        Some("opus"@)
    } else if has_infix(ct, "audio/x-mpegurl"@) || has_infix(ct, "application/vnd.apple.mpegurl"@) {
        Some("m3u8"@)
    } else {
        None
    }
}

/// What stands before the query of a URL.
pub open spec fn url_path(url: Seq<char>) -> Seq<char> {
    url.take(until_char(url, '?') as int)
}

/// What stands behind the last dot, all where there is none.
pub open spec fn extension_of(path: Seq<char>) -> Seq<char> {
    path.skip(path.len() - after_char(path, '.'))
}

/// The format that a file extension, given in lowercase, stands for.
pub open spec fn extension_hint(ext: Seq<char>) -> Option<Seq<char>> {
    if ext == "mp3"@ {
        Some("mp3"@)
    } else if ext == "aac"@ || ext == "adts"@ {
        Some("aac"@)
    } else if ext == "ogg"@ || ext == "oga"@ {
        Some("ogg"@)
    } else if ext == "opus"@ {
        Some("opus"@)
    } else if ext == "flac"@ {
        Some("flac"@)
    } else if ext == "m4a"@ || ext == "mp4"@ {
        Some("mp4"@)
    } else {
        None
    }
}

/// The format of a stream: its content type decides, and the extension of its URL where that says
/// nothing. Both are given in lowercase.
pub open spec fn format_hint(url: Seq<char>, content_type: Option<Seq<char>>) -> Option<Seq<char>> {
    let from_type = match content_type {
        Some(ct) => content_type_hint(ct),
        None => None,
    };
    match from_type {
        Some(hint) => Some(hint),
        None => extension_hint(extension_of(url_path(url))),
    }
}

/// The lowercase equivalent of an optional text.
pub open spec fn opt_lowercase(s: Option<Seq<char>>) -> Option<Seq<char>> {
    match s {
        Some(s) => Some(lowercase(s)),
        None => None,
    }
}

/// The format that a content type in lowercase stands for.
fn hint_from_content_type(ct: &str) -> (r: Option<String>)
    ensures
        opt_text(r) == content_type_hint(ct@),
{
    if contains(ct, "audio/mpeg") || contains(ct, "audio/mp3") {
        return Some("mp3".to_string());
    }
    if contains(ct, "audio/aac") || contains(ct, "audio/aacp") {
        return Some("aac".to_string());
    }
    if contains(ct, "audio/ogg") || contains(ct, "application/ogg") {
        return Some("ogg".to_string());
    }
    if contains(ct, "audio/flac") {
        return Some("flac".to_string());
    }
    if contains(ct, "audio/opus") {
        return Some("opus".to_string());
    }
    if contains(ct, "audio/x-mpegurl") || contains(ct, "application/vnd.apple.mpegurl") {
        return Some("m3u8".to_string());
    }
    None
}

/// The format that the extension of a URL in lowercase stands for.
fn hint_from_url(url: &str) -> (r: Option<String>)
    ensures
        opt_text(r) == extension_hint(extension_of(url_path(url@))),
{
    proof {
        lemma_until_char(url@, '?');
    }
    let path: &str = url.substring_char(0, before(url, '?'));
    assert(path@ =~= url_path(url@));
    let ext: &str = path.substring_char(behind_last(path, '.'), path.unicode_len());
    assert(ext@ =~= extension_of(path@));
    if same(ext, "mp3") {
        Some("mp3".to_string())
    } else if same(ext, "aac") || same(ext, "adts") {
        Some("aac".to_string())
    } else if same(ext, "ogg") || same(ext, "oga") {
        Some("ogg".to_string())
    } else if same(ext, "opus") {
        Some("opus".to_string())
    } else if same(ext, "flac") {
        Some("flac".to_string())
    } else if same(ext, "m4a") || same(ext, "mp4") {
        Some("mp4".to_string())
    } else {
        None
    }
}

/// A copy of an optional text.
fn copy_text(s: &Option<String>) -> (r: Option<String>)
    ensures
        opt_text(r) == opt_text(*s),
{
    match s {
        Some(s) => Some(s.clone()),
        None => None,
    }
}

/// The format hint for HLS audio.
pub open spec fn hls_hint(format: HlsSegmentFormat) -> Seq<char> {
    if format == HlsSegmentFormat::Fmp4 {
        "mp4"@
    } else {
        "aac"@
    }
}

impl StreamResolver {
    /// Detect a format hint from content-type and/or URL extension
    pub fn detect_format_hint(url: &str, content_type: Option<&str>) -> (r: Option<String>)
        ensures
            opt_text(r) == format_hint(lowercase(url@), opt_lowercase(opt_str(content_type))),
    {
        let lower: String = url.to_lowercase();
        match content_type {
            Some(ct) => {
                let ct_lower: String = ct.to_lowercase();
                Self::detect_lowercase_hint(&lower, Some(&ct_lower))
            },
            None => Self::detect_lowercase_hint(&lower, None),
        }
    }

    /// Detect a format hint from content-type and/or URL extension, both in lowercase
    pub fn detect_lowercase_hint(url: &str, content_type: Option<&str>) -> (r: Option<String>)
        ensures
            opt_text(r) == format_hint(url@, opt_str(content_type)),
    {
        if let Some(ct) = content_type {
            let hint: Option<String> = hint_from_content_type(ct);
            if hint.is_some() {
                return hint;
            }
        }
        hint_from_url(url)
    }

    /// How a resolved URL is played: as HLS where it names such a playlist, else directly.
    pub fn stream_type(resolved_url: &str) -> (r: StreamType)
        ensures
            r == if playlist_type(lowercase(resolved_url@)) == PlaylistCheck::Hls {
                StreamType::Hls
            } else {
                StreamType::Direct
            },
    {
        match check_playlist_type(resolved_url) {
            PlaylistCheck::Hls => StreamType::Hls,
            _ => StreamType::Direct,
        }
    }

    /// The description of an HLS stream, whose media playlist is at `media_url`.
    pub fn hls_info(url: &str, media_url: String, format: HlsSegmentFormat) -> (r: StreamInfo)
        ensures
            r@ == (StreamInfoView {
                original_url: url@,
                resolved_url: media_url@,
                stream_type: StreamType::Hls,
                format_hint: Some(hls_hint(format)),
                content_type: None,
                station_name: None,
                bitrate: None,
            }),
    {
        let hint: String = match format {
            HlsSegmentFormat::Fmp4 => "mp4".to_string(),
            _ => "aac".to_string(),
        };
        StreamInfo {
            original_url: url.to_string(),
            resolved_url: media_url,
            stream_type: StreamType::Hls,
            format_hint: Some(hint),
            content_type: None,
            station_name: None,
            bitrate: None,
        }
    }

    /// The description of a direct stream with the given headers.
    pub fn direct_info(url: &str, resolved_url: String, headers: &IcyHeaders) -> (r: StreamInfo)
        ensures
            r@ == (StreamInfoView {
                original_url: url@,
                resolved_url: resolved_url@,
                stream_type: StreamType::Direct,
                format_hint: format_hint(
                    lowercase(resolved_url@),
                    opt_lowercase(opt_text(headers.content_type)),
                ),
                content_type: opt_text(headers.content_type),
                station_name: opt_text(headers.station_name),
                bitrate: headers.bitrate,
            }),
    {
        let hint: Option<String> = match &headers.content_type {
            Some(ct) => Self::detect_format_hint(&resolved_url, Some(ct.as_str())),
            None => Self::detect_format_hint(&resolved_url, None),
        };
        StreamInfo {
            original_url: url.to_string(),
            resolved_url,
            stream_type: StreamType::Direct,
            format_hint: hint,
            content_type: copy_text(&headers.content_type),
            station_name: copy_text(&headers.station_name),
            bitrate: headers.bitrate,
        }
    }
}

/// A content type that is recognized decides, whatever the URL says.
pub proof fn law_content_type_has_priority(url: Seq<char>, other: Seq<char>, ct: Seq<char>)
    requires
        content_type_hint(ct) is Some,
    ensures
        format_hint(url, Some(ct)) == format_hint(other, Some(ct)),
        format_hint(url, Some(ct)) == content_type_hint(ct),
{
}

/// The query of a URL has no say in the format.
pub proof fn law_query_is_ignored(path: Seq<char>, query: Seq<char>, ct: Option<Seq<char>>)
    requires
        !path.contains('?'),
    ensures
        format_hint(path + "?"@ + query, ct) == format_hint(path, ct),
{
    reveal_strlit("?");
    let url = path + "?"@ + query;
    assert forall|i: int| 0 <= i < path.len() implies url[i] != '?' && path[i] != '?' by {
        assert(url[i] == path[i]);
        assert(path.contains(path[i]));
    }
    assert(url[path.len() as int] == '?');
    crate::text::lemma_until_char_is(url, '?', path.len() as int);
    crate::text::lemma_until_char_is(path, '?', path.len() as int);
    assert(url_path(url) =~= path);
    assert(url_path(path) =~= path);
}

/// Each audio content type stands for its format, with parameters behind it or without; of more
/// than one the earlier in this list counts, and what is none of them says nothing.
pub proof fn law_content_types(ct: Seq<char>)
    ensures
        ({
            let mp3 = has_infix(ct, "audio/mpeg"@) || has_infix(ct, "audio/mp3"@);
            let aac = has_infix(ct, "audio/aac"@) || has_infix(ct, "audio/aacp"@);
            let ogg = has_infix(ct, "audio/ogg"@) || has_infix(ct, "application/ogg"@);
            let flac = has_infix(ct, "audio/flac"@);
            let opus = has_infix(ct, "audio/opus"@);
            let hls = has_infix(ct, "audio/x-mpegurl"@) || has_infix(
                ct,
                "application/vnd.apple.mpegurl"@,
            );
            &&& mp3 ==> content_type_hint(ct) == Some("mp3"@)
            &&& aac && !mp3 ==> content_type_hint(ct) == Some("aac"@)
            &&& ogg && !mp3 && !aac ==> content_type_hint(ct) == Some("ogg"@)
            &&& flac && !mp3 && !aac && !ogg ==> content_type_hint(ct) == Some("flac"@)
            &&& opus && !mp3 && !aac && !ogg && !flac ==> content_type_hint(ct) == Some("opus"@)
            &&& hls && !mp3 && !aac && !ogg && !flac && !opus ==> content_type_hint(ct) == Some(
                "m3u8"@,
            )
            &&& !mp3 && !aac && !ogg && !flac && !opus && !hls ==> content_type_hint(ct) is None
        }),
{
}

/// The file extension that counts is what stands behind the last dot before the query; a content
/// type that says nothing, or none, leaves it to the extension.
pub proof fn law_extension_counts(stem: Seq<char>, extension: Seq<char>, query: Seq<char>)
    requires
        !stem.contains('?'),
        !extension.contains('?'),
        !extension.contains('.'),
    ensures
        ({
            let url = stem + seq!['.'] + extension;
            let asked = url + seq!['?'] + query;
            &&& format_hint(url, None) == extension_hint(extension)
            &&& format_hint(asked, None) == extension_hint(extension)
            &&& forall|ct: Seq<char>|
                #[trigger] content_type_hint(ct) is None ==> format_hint(url, Some(ct))
                    == extension_hint(extension)
            &&& forall|ct: Seq<char>|
                #[trigger] content_type_hint(ct) is Some ==> format_hint(url, Some(ct))
                    == content_type_hint(ct)
        }),
{
    let url = stem + seq!['.'] + extension;
    let asked = url + seq!['?'] + query;
    let n = url.len() as int;
    assert forall|i: int| 0 <= i < n implies url[i] != '?' && asked[i] != '?' by {
        assert(asked[i] == url[i]);
        if i < stem.len() {
            assert(stem.contains(stem[i]));
        } else if i > stem.len() {
            assert(extension.contains(extension[i - stem.len() - 1]));
        }
    }
    assert(asked[n] == '?');
    crate::text::lemma_until_char_is(url, '?', n);
    crate::text::lemma_until_char_is(asked, '?', n);
    assert(url_path(url) =~= url);
    assert(url_path(asked) =~= url);
    let m = extension.len() as int;
    assert forall|i: int| n - m <= i < n implies url[i] != '.' by {
        assert(url[i] == extension[i - (n - m)]);
        assert(extension.contains(url[i]));
    }
    assert(url[n - 1 - m] == '.');
    crate::text::lemma_after_char_is(url, '.', m);
    assert(extension_of(url) =~= extension);
}

/// Each file extension of audio stands for its format, and no other extension for any.
pub proof fn law_file_extensions(e: Seq<char>)
    ensures
        extension_hint("mp3"@) == Some("mp3"@),
        extension_hint("aac"@) == Some("aac"@),
        extension_hint("adts"@) == Some("aac"@),
        extension_hint("ogg"@) == Some("ogg"@),
        extension_hint("oga"@) == Some("ogg"@),
        extension_hint("opus"@) == Some("opus"@),
        extension_hint("flac"@) == Some("flac"@),
        extension_hint("m4a"@) == Some("mp4"@),
        extension_hint("mp4"@) == Some("mp4"@),
        extension_hint(e) is Some <==> e == "mp3"@ || e == "aac"@ || e == "adts"@ || e == "ogg"@
            || e == "oga"@ || e == "opus"@ || e == "flac"@ || e == "m4a"@ || e == "mp4"@,
{
    reveal_strlit("mp3");
    reveal_strlit("aac");
    reveal_strlit("adts");
    reveal_strlit("ogg");
    reveal_strlit("oga");
    reveal_strlit("opus");
    reveal_strlit("flac");
    reveal_strlit("m4a");
    reveal_strlit("mp4");
    assert("mp3"@[1] == 'p' && "mp3"@[2] == '3');
    assert("aac"@[0] == 'a' && "aac"@[1] == 'a' && "aac"@[2] == 'c');
    assert("adts"@[0] == 'a' && "adts"@[1] == 'd');
    assert("ogg"@[0] == 'o' && "ogg"@[1] == 'g' && "ogg"@[2] == 'g');
    assert("oga"@[0] == 'o' && "oga"@[1] == 'g' && "oga"@[2] == 'a');
    assert("opus"@[0] == 'o' && "opus"@[1] == 'p');
    assert("flac"@[0] == 'f');
    assert("m4a"@[0] == 'm' && "m4a"@[1] == '4');
    assert("mp3"@[0] == 'm' && "mp4"@[0] == 'm');
    assert("mp4"@[1] == 'p' && "mp4"@[2] == '4');
}

/// HLS audio in MP4 fragments is MP4, any other AAC.
pub proof fn law_hls_formats(format: HlsSegmentFormat)
    ensures
        format is Fmp4 ==> hls_hint(format) == "mp4"@,
        format is MpegTs || format is Raw ==> hls_hint(format) == "aac"@,
{
}

/// A URL without a dot is taken for its own extension, and a content type is read in lowercase.
pub proof fn law_urls_without_extension(url: Seq<char>, ct: Seq<char>)
    requires
        !url.contains('?'),
        !url.contains('.'),
    ensures
        format_hint(url, None) == extension_hint(url),
        opt_lowercase(Some(ct)) == Some(lowercase(ct)),
        opt_lowercase(None) is None,
{
    let n = url.len() as int;
    assert forall|i: int| 0 <= i < n implies url[i] != '?' && url[i] != '.' by {
        assert(url.contains(url[i]));
    }
    crate::text::lemma_until_char_is(url, '?', n);
    crate::text::lemma_after_char_is(url, '.', n);
    assert(url_path(url) =~= url);
    assert(extension_of(url) =~= url);
}

/// A URL is played as HLS exactly where it names an HLS playlist, at its end or before a query.
pub proof fn law_how_a_url_is_played(url: &str, r: StreamType)
    requires
        call_ensures(StreamResolver::stream_type, (url,), r),
    ensures
        r == StreamType::Hls <==> crate::text::has_suffix(lowercase(url@), ".m3u8"@) || has_infix(
            lowercase(url@),
            ".m3u8?"@,
        ),
        r == StreamType::Hls || r == StreamType::Direct,
{
    crate::stream::playlist::law_playlist_extensions(lowercase(url@));
}

} // verus!
