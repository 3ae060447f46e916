//! Playlist parsing (PLS/M3U)
//!
//! Resolves playlist URLs to stream URLs, handling PLS and M3U formats.

use vstd::prelude::*;

use crate::config::network::MAX_PLAYLIST_DEPTH;
use crate::error::{RadioError, Result};
use crate::text::{
    after_char, before, behind_last, contains, ends_with, has_infix, has_prefix, has_suffix, join,
    lemma_after_char, lemma_until_char, lines, lines_of, lowercase, opt_text, starts_with, trim,
    trimmed, until_char, views,
};

verus! {

/// Result of checking a URL's playlist type
#[derive(Debug, Clone, Copy, PartialEq, Eq, Structural)]
pub enum PlaylistCheck {
    Pls,
    M3u,
    Hls,
    NotPlaylist,
}

/// `url` ends in the extension, or holds it with a query behind it.
pub open spec fn has_extension(url: Seq<char>, extension: Seq<char>) -> bool {
    has_suffix(url, extension) || has_infix(url, extension.push('?'))
}

/// The playlist type of a URL in lowercase.
pub open spec fn playlist_type(lower: Seq<char>) -> PlaylistCheck {
    if has_extension(lower, ".m3u8"@) {
        PlaylistCheck::Hls
    } else if has_extension(lower, ".pls"@) {
        PlaylistCheck::Pls
    } else if has_extension(lower, ".m3u"@) {
        PlaylistCheck::M3u
    } else {
        PlaylistCheck::NotPlaylist
    }
}

/// Check what type of playlist a URL points to based on extension
pub fn check_playlist_type(url: &str) -> (r: PlaylistCheck)
    ensures
        r == playlist_type(lowercase(url@)),
{
    let lower: String = url.to_lowercase();
    check_lowercase_type(&lower)
}

/// Check what type of playlist a URL in lowercase points to
pub fn check_lowercase_type(lower: &str) -> (r: PlaylistCheck)
    ensures
        r == playlist_type(lower@),
{
    proof {
        reveal_strlit(".m3u8");
        reveal_strlit(".m3u8?");
        reveal_strlit(".pls");
        reveal_strlit(".pls?");
        reveal_strlit(".m3u");
        reveal_strlit(".m3u?");
        assert(".m3u8?"@ =~= ".m3u8"@.push('?'));
        assert(".pls?"@ =~= ".pls"@.push('?'));
        assert(".m3u?"@ =~= ".m3u"@.push('?'));
    }
    if ends_with(lower, ".m3u8") || contains(lower, ".m3u8?") {
        PlaylistCheck::Hls
    } else if ends_with(lower, ".pls") || contains(lower, ".pls?") {
        PlaylistCheck::Pls
    } else if ends_with(lower, ".m3u") || contains(lower, ".m3u?") {
        PlaylistCheck::M3u
    } else {
        PlaylistCheck::NotPlaylist
    }
}

/// What stands before the last slash, nothing where there is none.
pub open spec fn base_of(url: Seq<char>) -> Seq<char> {
    if after_char(url, '/') < url.len() {
        url.take(url.len() - after_char(url, '/') - 1)
    } else {
        Seq::empty()
    }
}

/// Extract the base URL (directory) from a full URL
pub fn get_base_url(url: &str) -> (r: String)
    ensures
        r@ == base_of(url@),
{
    proof {
        lemma_after_char(url@, '/');
    }
    let n: usize = behind_last(url, '/');
    if n == 0 {
        let r: String = String::new();
        assert(r@ =~= Seq::empty());
        r
    } else {
        let base: &str = url.substring_char(0, n - 1);
        assert(base@ =~= base_of(url@));
        base.to_string()
    }
}

/// `uri` names its scheme, HTTP or HTTPS.
pub open spec fn is_http(uri: Seq<char>) -> bool {
    has_prefix(uri, "http://"@) || has_prefix(uri, "https://"@)
}

/// `uri` itself where it is absolute, else what it names below `base`.
pub open spec fn absolute(uri: Seq<char>, base: Seq<char>) -> Seq<char> {
    if is_http(uri) {
        uri
    } else {
        base + "/"@ + uri
    }
}

/// Make a URI absolute, using base_url if the URI is relative
pub fn make_absolute_url(uri: &str, base_url: &str) -> (r: String)
    ensures
        r@ == absolute(uri@, base_url@),
{
    if starts_with(uri, "http://") || starts_with(uri, "https://") {
        uri.to_string()
    } else {
        let mut r: String = join(base_url, "/");
        r.append(uri);
        r
    }
}

/// What stands between the first `=` of a line and the next one, if there is a next one.
pub open spec fn second_field(line: Seq<char>) -> Seq<char> {
    let rest = line.skip(until_char(line, '=') as int + 1);
    rest.take(until_char(rest, '=') as int)
}

/// The stream URL on a PLS line, which is given without white space around it and beside its
/// lowercase equivalent.
pub open spec fn pls_line_url(line: Seq<char>, lower: Seq<char>) -> Option<Seq<char>> {
    let url = trimmed(second_field(line));
    if has_prefix(lower, "file"@) && line.contains('=') && has_prefix(url, "http"@) {
        Some(url)
    } else {
        None
    }
}

/// The stream URL on a PLS line
pub fn parse_pls_line(line: &str, lower: &str) -> (r: Option<String>)
    ensures
        opt_text(r) == pls_line_url(line@, lower@),
{
    proof {
        lemma_until_char(line@, '=');
    }
    let total: usize = line.unicode_len();
    let n: usize = before(line, '=');
    if !starts_with(lower, "file") || n == total {
        return None;
    }
    assert(line@.contains(line@[n as int]));
    let rest: &str = line.substring_char(n + 1, total);
    assert(rest@ =~= line@.skip(n + 1));
    let field: &str = rest.substring_char(0, before(rest, '='));
    assert(field@ =~= second_field(line@));
    let url: &str = trim(field);
    if starts_with(url, "http") {
        Some(url.to_string())
    } else {
        None
    }
}

/// The stream URL on the first PLS line that holds one.
pub open spec fn pls_url(lines: Seq<Seq<char>>) -> Option<Seq<char>>
    decreases lines.len(),
{
    if lines.len() == 0 {
        None
    } else {
        let line = trimmed(lines[0]);
        match pls_line_url(line, lowercase(line)) {
            Some(url) => Some(url),
            None => pls_url(lines.skip(1)),
        }
    }
}

/// Parse a PLS playlist and return the first stream URL
pub fn parse_pls(content: &str) -> (r: Option<String>)
    ensures
        opt_text(r) == pls_url(lines_of(content@)),
{
    let all: Vec<&str> = lines(content);
    let ghost texts = lines_of(content@);
    let mut i: usize = 0;
    assert(texts.skip(0) =~= texts);
    while i < all.len()
        invariant
            i <= all@.len(),
            views(all@) == texts,
            texts == lines_of(content@),
            pls_url(texts) == pls_url(texts.skip(i as int)),
        decreases all@.len() - i,
    {
        let line: &str = trim(all[i]);
        let lower: String = line.to_lowercase();
        proof {
            assert(views(all@)[i as int] == all@[i as int]@);
            assert(texts.skip(i as int)[0] == texts[i as int]);
            assert(texts.skip(i as int).skip(1) =~= texts.skip(i + 1));
        }
        let found: Option<String> = parse_pls_line(line, &lower);
        if found.is_some() {
            return found;
        }
        i += 1;
    }
    None
}

/// The stream URL on an M3U line, which is given without white space around it. Empty lines and
/// comments hold none, nor does a relative line with an attribute on it.
pub open spec fn m3u_line_url(line: Seq<char>, base: Seq<char>) -> Option<Seq<char>> {
    if line.len() == 0 || line[0] == '#' {
        None
    } else if is_http(line) || !line.contains('=') {
        Some(absolute(line, base))
    } else {
        None
    }
}

/// The stream URL on the first M3U line that holds one.
pub open spec fn m3u_url(lines: Seq<Seq<char>>, base: Seq<char>) -> Option<Seq<char>>
    decreases lines.len(),
{
    if lines.len() == 0 {
        None
    } else {
        match m3u_line_url(trimmed(lines[0]), base) {
            Some(url) => Some(url),
            None => m3u_url(lines.skip(1), base),
        }
    }
}

/// The stream URL on an M3U line
fn parse_m3u_line(line: &str, base_url: &str) -> (r: Option<String>)
    ensures
        opt_text(r) == m3u_line_url(line@, base_url@),
{
    let total: usize = line.unicode_len();
    if total == 0 || line.get_char(0) == '#' {
        return None;
    }
    proof {
        lemma_until_char(line@, '=');
    }
    let n: usize = before(line, '=');
    if n < total {
        assert(line@.contains(line@[n as int]));
    }
    if starts_with(line, "http://") || starts_with(line, "https://") {
        Some(line.to_string())
    } else if n == total {
        Some(make_absolute_url(line, base_url))
    } else {
        None
    }
}

/// Parse an M3U playlist and return the first stream URL
pub fn parse_m3u(content: &str, base_url: &str) -> (r: Option<String>)
    ensures
        opt_text(r) == m3u_url(lines_of(content@), base_url@),
{
    let all: Vec<&str> = lines(content);
    let ghost texts = lines_of(content@);
    let ghost base = base_url@;
    let mut i: usize = 0;
    assert(texts.skip(0) =~= texts);
    while i < all.len()
        invariant
            i <= all@.len(),
            views(all@) == texts,
            texts == lines_of(content@),
            base == base_url@,
            m3u_url(texts, base) == m3u_url(texts.skip(i as int), base),
        decreases all@.len() - i,
    {
        let line: &str = trim(all[i]);
        proof {
            assert(views(all@)[i as int] == all@[i as int]@);
            assert(texts.skip(i as int)[0] == texts[i as int]);
            assert(texts.skip(i as int).skip(1) =~= texts.skip(i + 1));
        }
        let found: Option<String> = parse_m3u_line(line, base_url);
        if found.is_some() {
            return found;
        }
        i += 1;
    }
    None
}

/// `r` is the stream error with that text.
pub open spec fn is_stream_error<T>(r: Result<T>, text: Seq<char>) -> bool {
    r matches Err(RadioError::Stream(s)) && s@ == text
}

/// The stream URL in a playlist of the given type, found at `url`.
pub open spec fn playlist_entry(kind: PlaylistCheck, url: Seq<char>, content: Seq<char>) -> Option<
    Seq<char>,
> {
    if kind == PlaylistCheck::Pls {
        pls_url(lines_of(content))
    } else {
        m3u_url(lines_of(content), base_of(url))
    }
}

/// The error text on a playlist of the given type without a stream URL.
pub open spec fn no_entry_text(kind: PlaylistCheck) -> Seq<char> {
    if kind == PlaylistCheck::Pls {
        "No stream URL found in PLS playlist"@
    } else {
        "No stream URL found in M3U playlist"@
    }
}

/// `r` is what resolving `url` may give, when `fetch` brings the playlists and at most `depth`
/// URLs are looked at.
pub open spec fn resolves<F: Fn(&str) -> Result<String>>(
    fetch: F,
    url: Seq<char>,
    depth: nat,
    r: Result<String>,
) -> bool
    decreases depth,
{
    let kind = playlist_type(lowercase(url));
    if depth == 0 {
        is_stream_error(r, "Playlist nesting too deep"@)
    } else if kind == PlaylistCheck::Hls || kind == PlaylistCheck::NotPlaylist {
        r matches Ok(resolved) && resolved@ == url
    } else {
        exists|asked: &str, answer: Result<String>|
            {
                &&& asked@ == url
                &&& #[trigger] call_ensures(fetch, (asked,), answer)
                &&& match answer {
                    Err(e) => r == Err::<String, RadioError>(e),
                    Ok(content) => match playlist_entry(kind, url, content@) {
                        None => is_stream_error(r, no_entry_text(kind)),
                        Some(next) => resolves(fetch, next, (depth - 1) as nat, r),
                    },
                }
            }
    }
}

/// Resolve a playlist URL to its final stream URL, following chains recursively.
///
/// M3U8 (HLS) URLs pass through unchanged. PLS and M3U playlists are brought by `fetch`
/// and parsed, recursing up to `MAX_PLAYLIST_DEPTH` levels.
pub fn resolve_playlist_url<F: Fn(&str) -> Result<String>>(url: &str, fetch: &F) -> (r: Result<
    String,
>)
    requires
        forall|asked: &str| call_requires(*fetch, (asked,)),
    ensures
        resolves(*fetch, url@, MAX_PLAYLIST_DEPTH as nat, r),
{
    resolve_recursive(url, fetch, MAX_PLAYLIST_DEPTH)
}

fn resolve_recursive<F: Fn(&str) -> Result<String>>(url: &str, fetch: &F, depth: usize) -> (r:
    Result<String>)
    requires
        forall|asked: &str| call_requires(*fetch, (asked,)),
    ensures
        resolves(*fetch, url@, depth as nat, r),
    decreases depth,
{
    if depth == 0 {
        return Err(RadioError::Stream("Playlist nesting too deep".to_string()));
    }
    match check_playlist_type(url) {
        PlaylistCheck::Hls | PlaylistCheck::NotPlaylist => Ok(url.to_string()),
        PlaylistCheck::Pls => {
            let content: String = match fetch(url) {
                Ok(content) => content,
                Err(e) => return Err(e),
            };
            match parse_pls(&content) {
                Some(stream_url) => resolve_recursive(&stream_url, fetch, depth - 1),
                None => Err(RadioError::Stream("No stream URL found in PLS playlist".to_string())),
            }
        },
        PlaylistCheck::M3u => {
            let content: String = match fetch(url) {
                Ok(content) => content,
                Err(e) => return Err(e),
            };
            let base_url: String = get_base_url(url);
            match parse_m3u(&content, &base_url) {
                Some(stream_url) => resolve_recursive(&stream_url, fetch, depth - 1),
                None => Err(RadioError::Stream("No stream URL found in M3U playlist".to_string())),
            }
        },
    }
}

/// What resolving a URL gives is never a PLS or M3U playlist again.
pub proof fn law_resolved_url_is_final<F: Fn(&str) -> Result<String>>(
    fetch: F,
    url: Seq<char>,
    depth: nat,
    resolved: String,
)
    requires
        resolves(fetch, url, depth, Ok(resolved)),
    ensures
        ({
            let kind = playlist_type(lowercase(resolved@));
            kind == PlaylistCheck::Hls || kind == PlaylistCheck::NotPlaylist
        }),
    decreases depth,
{
    let kind = playlist_type(lowercase(url));
    let r: Result<String> = Ok(resolved);
    if depth > 0 && (kind == PlaylistCheck::Pls || kind == PlaylistCheck::M3u) {
        let (asked, answer) = choose|asked: &str, answer: Result<String>|
            {
                &&& asked@ == url
                &&& #[trigger] call_ensures(fetch, (asked,), answer)
                &&& match answer {
                    Err(e) => r == Err::<String, RadioError>(e),
                    Ok(content) => match playlist_entry(kind, url, content@) {
                        None => is_stream_error(r, no_entry_text(kind)),
                        Some(next) => resolves(fetch, next, (depth - 1) as nat, r),
                    },
                }
            };
        let next = playlist_entry(kind, url, answer->Ok_0@)->Some_0;
        law_resolved_url_is_final(fetch, next, (depth - 1) as nat, resolved);
    }
}

/// A URL that is no PLS or M3U playlist, an HLS URL among them, resolves to itself, whatever the
/// network gives.
pub proof fn law_other_urls_pass_through<F: Fn(&str) -> Result<String>>(
    fetch: F,
    url: Seq<char>,
    depth: nat,
    r: Result<String>,
)
    requires
        depth > 0,
        playlist_type(lowercase(url)) == PlaylistCheck::Hls || playlist_type(lowercase(url))
            == PlaylistCheck::NotPlaylist,
        resolves(fetch, url, depth, r),
    ensures
        r matches Ok(resolved) && resolved@ == url,
{
}

/// A PLS playlist only ever gives a URL that begins with `http`.
pub proof fn law_pls_gives_http(lines: Seq<Seq<char>>)
    ensures
        pls_url(lines) matches Some(url) ==> has_prefix(url, "http"@),
    decreases lines.len(),
{
    if lines.len() > 0 {
        law_pls_gives_http(lines.skip(1));
    }
}

/// What is made absolute against an HTTP base is absolute, and making it absolute again, against
/// any base, changes nothing.
pub proof fn law_absolute_is_final(uri: Seq<char>, base: Seq<char>, other: Seq<char>)
    requires
        is_http(base),
    ensures
        is_http(absolute(uri, base)),
        absolute(absolute(uri, base), other) == absolute(uri, base),
{
    let a = absolute(uri, base);
    if has_prefix(base, "http://"@) {
        assert(a == uri || a.subrange(0, "http://"@.len() as int) =~= base.subrange(
            0,
            "http://"@.len() as int,
        ));
    } else {
        assert(a == uri || a.subrange(0, "https://"@.len() as int) =~= base.subrange(
            0,
            "https://"@.len() as int,
        ));
    }
}

/// An M3U playlist found below an HTTP URL only ever gives an absolute URL.
pub proof fn law_m3u_gives_absolute(lines: Seq<Seq<char>>, base: Seq<char>)
    requires
        is_http(base),
    ensures
        m3u_url(lines, base) matches Some(url) ==> is_http(url),
    decreases lines.len(),
{
    if lines.len() > 0 {
        law_absolute_is_final(trimmed(lines[0]), base, base);
        law_m3u_gives_absolute(lines.skip(1), base);
    }
}

/// Whatever `fetch` answers when it is asked for the URL, it is this playlist.
pub open spec fn answers_with<F: Fn(&str) -> Result<String>>(
    fetch: F,
    url: Seq<char>,
    content: Seq<char>,
) -> bool {
    forall|asked: &str, answer: Result<String>|
        asked@ == url && #[trigger] call_ensures(fetch, (asked,), answer) ==> (answer matches Ok(
            text,
        ) && text@ == content)
}

/// Each URL but the last is that of a playlist that leads to the next one, and the last is that of
/// no playlist to follow.
pub open spec fn is_chain<F: Fn(&str) -> Result<String>>(
    fetch: F,
    urls: Seq<Seq<char>>,
    contents: Seq<Seq<char>>,
) -> bool {
    &&& urls.len() == contents.len() + 1
    &&& is_final(urls.last())
    &&& forall|i: int|
        0 <= i < contents.len() ==> !is_final(#[trigger] urls[i]) && answers_with(
            fetch,
            urls[i],
            contents[i],
        ) && playlist_entry(playlist_type(lowercase(urls[i])), urls[i], contents[i]) == Some(
            urls[i + 1],
        )
}

/// The URL is that of no playlist to follow.
pub open spec fn is_final(url: Seq<char>) -> bool {
    let kind = playlist_type(lowercase(url));
    kind == PlaylistCheck::Hls || kind == PlaylistCheck::NotPlaylist
}

/// A chain of playlists is followed to its end if it is shorter than the depth, and is an error
/// otherwise: with the configured depth a chain of up to four playlists ends in a URL, and no
/// longer one does.
pub proof fn law_short_chains_resolve<F: Fn(&str) -> Result<String>>(
    fetch: F,
    urls: Seq<Seq<char>>,
    contents: Seq<Seq<char>>,
    depth: nat,
    r: Result<String>,
)
    requires
        is_chain(fetch, urls, contents),
        resolves(fetch, urls[0], depth, r),
    ensures
        r is Ok <==> contents.len() < depth,
        contents.len() < depth ==> (r matches Ok(resolved) && resolved@ == urls.last()),
        contents.len() >= depth ==> is_stream_error(r, "Playlist nesting too deep"@),
        depth == MAX_PLAYLIST_DEPTH ==> (r is Ok <==> contents.len() <= 4),
    decreases depth,
{
    if depth > 0 && contents.len() > 0 {
        let url = urls[0];
        let kind = playlist_type(lowercase(url));
        assert(!is_final(urls[0]));
        let (asked, answer) = choose|asked: &str, answer: Result<String>|
            {
                &&& asked@ == url
                &&& #[trigger] call_ensures(fetch, (asked,), answer)
                &&& match answer {
                    Err(e) => r == Err::<String, RadioError>(e),
                    Ok(content) => match playlist_entry(kind, url, content@) {
                        None => is_stream_error(r, no_entry_text(kind)),
                        Some(next) => resolves(fetch, next, (depth - 1) as nat, r),
                    },
                }
            };
        assert(answers_with(fetch, url, contents[0]));
        assert(answer matches Ok(text) && text@ == contents[0]);
        let rest = urls.skip(1);
        let later = contents.skip(1);
        assert(rest.last() == urls.last());
        assert forall|i: int| 0 <= i < later.len() implies !is_final(#[trigger] rest[i])
            && answers_with(fetch, rest[i], later[i]) && playlist_entry(
            playlist_type(lowercase(rest[i])),
            rest[i],
            later[i],
        ) == Some(rest[i + 1]) by {
            assert(rest[i] == urls[i + 1]);
        }
        law_short_chains_resolve(fetch, rest, later, (depth - 1) as nat, r);
    } else if contents.len() == 0 {
        assert(urls[0] == urls.last());
    }
}

/// `r` is what resolving `url` gives when exactly the playlists at `fetched` are brought, in order.
pub open spec fn resolves_by<F: Fn(&str) -> Result<String>>(
    fetch: F,
    url: Seq<char>,
    depth: nat,
    r: Result<String>,
    fetched: Seq<Seq<char>>,
) -> bool
    decreases depth,
{
    let kind = playlist_type(lowercase(url));
    if depth == 0 {
        fetched.len() == 0 && is_stream_error(r, "Playlist nesting too deep"@)
    } else if is_final(url) {
        fetched.len() == 0 && (r matches Ok(resolved) && resolved@ == url)
    } else {
        exists|asked: &str, answer: Result<String>|
            {
                &&& fetched.len() > 0
                &&& fetched[0] == url
                &&& asked@ == url
                &&& #[trigger] call_ensures(fetch, (asked,), answer)
                &&& match answer {
                    Err(e) => fetched.len() == 1 && r == Err::<String, RadioError>(e),
                    Ok(content) => match playlist_entry(kind, url, content@) {
                        None => fetched.len() == 1 && is_stream_error(r, no_entry_text(kind)),
                        Some(next) => resolves_by(
                            fetch,
                            next,
                            (depth - 1) as nat,
                            r,
                            fetched.skip(1),
                        ),
                    },
                }
            }
    }
}

/// No more playlists are brought than the depth allows.
pub proof fn law_fetches_are_bounded<F: Fn(&str) -> Result<String>>(
    fetch: F,
    url: Seq<char>,
    depth: nat,
    r: Result<String>,
)
    requires
        resolves(fetch, url, depth, r),
    ensures
        exists|fetched: Seq<Seq<char>>|
            fetched.len() <= depth && #[trigger] resolves_by(fetch, url, depth, r, fetched),
    decreases depth,
{
    let kind = playlist_type(lowercase(url));
    let nothing = Seq::<Seq<char>>::empty();
    if depth == 0 || is_final(url) {
        assert(resolves_by(fetch, url, depth, r, nothing));
    } else {
        let (asked, answer) = choose|asked: &str, answer: Result<String>|
            {
                &&& asked@ == url
                &&& #[trigger] call_ensures(fetch, (asked,), answer)
                &&& match answer {
                    Err(e) => r == Err::<String, RadioError>(e),
                    Ok(content) => match playlist_entry(kind, url, content@) {
                        None => is_stream_error(r, no_entry_text(kind)),
                        Some(next) => resolves(fetch, next, (depth - 1) as nat, r),
                    },
                }
            };
        let next = match answer {
            Ok(content) => playlist_entry(kind, url, content@),
            Err(_) => None,
        };
        match next {
            None => {
                assert(resolves_by(fetch, url, depth, r, seq![url]));
            },
            Some(next) => {
                law_fetches_are_bounded(fetch, next, (depth - 1) as nat, r);
                let later = choose|later: Seq<Seq<char>>|
                    later.len() <= depth - 1 && #[trigger] resolves_by(
                        fetch,
                        next,
                        (depth - 1) as nat,
                        r,
                        later,
                    );
                let fetched = seq![url] + later;
                assert(fetched.skip(1) =~= later);
                assert(resolves_by(fetch, url, depth, r, fetched));
            },
        }
    }
}

/// An error of the network is handed on as it is.
pub proof fn law_network_errors_are_handed_on<F: Fn(&str) -> Result<String>>(
    fetch: F,
    url: Seq<char>,
    depth: nat,
    r: Result<String>,
    e: RadioError,
)
    requires
        depth > 0,
        !is_final(url),
        forall|asked: &str, answer: Result<String>|
            asked@ == url && #[trigger] call_ensures(fetch, (asked,), answer) ==> answer == Err::<
                String,
                RadioError,
            >(e),
        resolves(fetch, url, depth, r),
    ensures
        r == Err::<String, RadioError>(e),
{
}

/// A playlist without a stream URL is an error that names its type, and where nothing may be
/// looked at any more every URL is an error.
pub proof fn law_dead_ends_are_errors<F: Fn(&str) -> Result<String>>(
    fetch: F,
    url: Seq<char>,
    depth: nat,
    r: Result<String>,
    content: Seq<char>,
)
    requires
        depth > 0 ==> {
            &&& !is_final(url)
            &&& answers_with(fetch, url, content)
            &&& playlist_entry(playlist_type(lowercase(url)), url, content) is None
        },
        resolves(fetch, url, depth, r),
    ensures
        depth == 0 ==> is_stream_error(r, "Playlist nesting too deep"@),
        depth > 0 ==> is_stream_error(r, no_entry_text(playlist_type(lowercase(url)))),
{
}

/// The type of a playlist is told by the extension of its URL, at the end or before a query, and
/// HLS is told from M3U.
pub proof fn law_playlist_extensions(lower: Seq<char>)
    ensures
        ({
            let hls = has_suffix(lower, ".m3u8"@) || has_infix(lower, ".m3u8?"@);
            let pls = has_suffix(lower, ".pls"@) || has_infix(lower, ".pls?"@);
            let m3u = has_suffix(lower, ".m3u"@) || has_infix(lower, ".m3u?"@);
            &&& playlist_type(lower) == PlaylistCheck::Hls <==> hls
            &&& playlist_type(lower) == PlaylistCheck::Pls <==> pls && !hls
            &&& playlist_type(lower) == PlaylistCheck::M3u <==> m3u && !pls && !hls
            &&& playlist_type(lower) == PlaylistCheck::NotPlaylist <==> !hls && !pls && !m3u
            &&& is_final(lower) <==> playlist_type(lowercase(lower)) != PlaylistCheck::Pls
                && playlist_type(lowercase(lower)) != PlaylistCheck::M3u
        }),
{
    reveal_strlit(".m3u8");
    reveal_strlit(".m3u8?");
    reveal_strlit(".pls");
    reveal_strlit(".pls?");
    reveal_strlit(".m3u");
    reveal_strlit(".m3u?");
    assert(".m3u8?"@ =~= ".m3u8"@.push('?'));
    assert(".pls?"@ =~= ".pls"@.push('?'));
    assert(".m3u?"@ =~= ".m3u"@.push('?'));
}

/// A URL has an extension where it ends in it, or where a query follows it.
pub proof fn law_extension(url: Seq<char>, extension: Seq<char>, query: Seq<char>)
    ensures
        has_extension(url + extension, extension),
        has_extension(url + extension + seq!['?'] + query, extension),
        has_extension(url, extension) ==> has_suffix(url, extension) || has_infix(
            url,
            extension + seq!['?'],
        ),
{
    crate::text::law_parts_of_a_text(url, url, extension, query);
    crate::text::law_parts_of_a_text(url, url, extension.push('?'), query);
    assert(url + extension + seq!['?'] + query =~= url + extension.push('?') + query);
    assert(extension + seq!['?'] =~= extension.push('?'));
}

/// The base of a URL is the directory: what stands before the last slash, without it.
pub proof fn law_base_is_the_directory(directory: Seq<char>, file: Seq<char>)
    requires
        !file.contains('/'),
    ensures
        base_of(directory + seq!['/'] + file) == directory,
        base_of(file) == Seq::<char>::empty(),
{
    let url = directory + seq!['/'] + file;
    let n = file.len() as int;
    assert forall|i: int| url.len() - n <= i < url.len() implies url[i] != '/' by {
        assert(url[i] == file[i - (url.len() - n)]);
        assert(file.contains(url[i]));
    }
    assert forall|i: int| 0 <= i < n implies file[i] != '/' by {
        assert(file.contains(file[i]));
    }
    assert(url[directory.len() as int] == '/');
    crate::text::lemma_after_char_is(url, '/', n);
    crate::text::lemma_after_char_is(file, '/', n);
    assert(url.take(directory.len() as int) =~= directory);
}

/// A URI with a scheme, HTTP or HTTPS, is taken as it is; any other is looked for below the base.
pub proof fn law_relative_to_the_base(uri: Seq<char>, base: Seq<char>)
    ensures
        is_http(uri) <==> has_prefix(uri, "http://"@) || has_prefix(uri, "https://"@),
        has_prefix(uri, "http://"@) || has_prefix(uri, "https://"@) ==> absolute(uri, base) == uri,
        !has_prefix(uri, "http://"@) && !has_prefix(uri, "https://"@) ==> absolute(uri, base)
            == base + seq!['/'] + uri,
{
    reveal_strlit("/");
    assert("/"@ =~= seq!['/']);
}

/// A PLS entry is a key that begins with `file`, an equals sign and a URL; white space around the
/// URL, and what follows a second equals sign, is left out.
pub proof fn law_pls_entry(
    key: Seq<char>,
    lower: Seq<char>,
    before: Seq<char>,
    url: Seq<char>,
    behind: Seq<char>,
    rest: Seq<char>,
)
    requires
        !key.contains('='),
        !(before + url + behind).contains('='),
        forall|i: int| 0 <= i < before.len() ==> crate::text::is_white(#[trigger] before[i]),
        forall|i: int| 0 <= i < behind.len() ==> crate::text::is_white(#[trigger] behind[i]),
        url.len() > 0 ==> !crate::text::is_white(url[0]) && !crate::text::is_white(url.last()),
    ensures
        ({
            let line = key + seq!['='] + (before + url + behind);
            let entry = if has_prefix(lower, "file"@) && has_prefix(url, "http"@) {
                Some(url)
            } else {
                None
            };
            &&& pls_line_url(line, lower) == entry
            &&& pls_line_url(line + seq!['='] + rest, lower) == entry
            &&& pls_line_url(key, lower) is None
        }),
{
    let value = before + url + behind;
    let line = key + seq!['='] + value;
    let longer = line + seq!['='] + rest;
    let n = key.len() as int;
    assert forall|i: int| 0 <= i < n implies key[i] != '=' && line[i] != '=' && longer[i] != '=' by {
        assert(key.contains(key[i]));
        assert(line[i] == key[i] && longer[i] == key[i]);
    }
    assert(line[n] == '=' && longer[n] == '=');
    assert(line.contains(line[n]) && longer.contains(longer[n]));
    crate::text::lemma_until_char_is(line, '=', n);
    crate::text::lemma_until_char_is(longer, '=', n);
    let tail = value + seq!['='] + rest;
    assert(line.skip(n + 1) =~= value);
    assert(longer.skip(n + 1) =~= tail);
    let m = value.len() as int;
    assert forall|i: int| 0 <= i < m implies value[i] != '=' && tail[i] != '=' by {
        assert(value.contains(value[i]));
        assert(tail[i] == value[i]);
    }
    assert(tail[m] == '=');
    crate::text::lemma_until_char_is(value, '=', m);
    crate::text::lemma_until_char_is(tail, '=', m);
    assert(value.take(m) =~= value);
    assert(tail.take(m) =~= value);
    crate::text::law_trim_takes_white_space_off(before, url, behind);
}

/// The first entry of a PLS playlist counts, and there is none where no line is one.
pub proof fn law_pls_first_entry(lines: Seq<Seq<char>>, i: int)
    requires
        0 <= i <= lines.len(),
        forall|k: int|
            0 <= k < i ==> pls_line_url(
                trimmed(#[trigger] lines[k]),
                lowercase(trimmed(lines[k])),
            ) is None,
    ensures
        i < lines.len() && pls_line_url(trimmed(lines[i]), lowercase(trimmed(lines[i]))) is Some
            ==> pls_url(lines) == pls_line_url(trimmed(lines[i]), lowercase(trimmed(lines[i]))),
        i == lines.len() ==> pls_url(lines) is None,
    decreases lines.len(),
{
    if i > 0 {
        let rest = lines.skip(1);
        assert(pls_line_url(trimmed(lines[0]), lowercase(trimmed(lines[0]))) is None);
        assert forall|k: int| 0 <= k < i - 1 implies pls_line_url(
            trimmed(#[trigger] rest[k]),
            lowercase(trimmed(rest[k])),
        ) is None by {
            assert(rest[k] == lines[k + 1]);
        }
        law_pls_first_entry(rest, i - 1);
    }
}

/// A line of an M3U playlist that holds no stream URL: nothing is left of it without the white
/// space around it, or it is a comment, or it has no scheme and an attribute on it.
pub open spec fn holds_no_stream(line: Seq<char>) -> bool {
    let text = trimmed(line);
    ||| text.len() == 0
    ||| text[0] == '#'
    ||| text.contains('=') && !has_prefix(text, "http://"@) && !has_prefix(text, "https://"@)
}

/// The first line of an M3U playlist that holds a stream URL counts: one with a scheme, HTTP or
/// HTTPS, is that URL, unchanged, and any other is below the base. There is none exactly where no
/// line holds one.
pub proof fn law_m3u_first_stream(lines: Seq<Seq<char>>, base: Seq<char>, i: int)
    requires
        0 <= i <= lines.len(),
        forall|k: int| 0 <= k < i ==> holds_no_stream(#[trigger] lines[k]),
        i < lines.len() ==> !holds_no_stream(lines[i]),
    ensures
        m3u_url(lines, base) == if i == lines.len() {
            None
        } else if has_prefix(trimmed(lines[i]), "http://"@) || has_prefix(
            trimmed(lines[i]),
            "https://"@,
        ) {
            Some(trimmed(lines[i]))
        } else {
            Some(base + seq!['/'] + trimmed(lines[i]))
        },
    decreases lines.len(),
{
    reveal_strlit("/");
    assert("/"@ =~= seq!['/']);
    if i > 0 {
        let rest = lines.skip(1);
        assert(holds_no_stream(lines[0]));
        lemma_comment_has_no_scheme(trimmed(lines[0]));
        assert(m3u_line_url(trimmed(lines[0]), base) is None);
        assert forall|k: int| 0 <= k < i - 1 implies holds_no_stream(#[trigger] rest[k]) by {
            assert(rest[k] == lines[k + 1]);
        }
        law_m3u_first_stream(rest, base, i - 1);
    }
}

proof fn lemma_comment_has_no_scheme(text: Seq<char>)
    ensures
        text.len() > 0 && text[0] == '#' ==> !has_prefix(text, "http://"@) && !has_prefix(
            text,
            "https://"@,
        ),
{
    reveal_strlit("http://");
    reveal_strlit("https://");
    crate::text::law_occurrence(text, "http://"@, 0);
    crate::text::law_occurrence(text, "https://"@, 0);
    assert("http://"@[0] == 'h' && "https://"@[0] == 'h');
}

/// Which lines are read, and against which base: a PLS playlist by its own rules, an M3U playlist
/// against the directory that it was found in.
pub proof fn law_entries_by_type(url: Seq<char>, content: Seq<char>)
    ensures
        playlist_entry(PlaylistCheck::Pls, url, content) == pls_url(lines_of(content)),
        playlist_entry(PlaylistCheck::M3u, url, content) == m3u_url(
            lines_of(content),
            base_of(url),
        ),
        no_entry_text(PlaylistCheck::Pls) == "No stream URL found in PLS playlist"@,
        no_entry_text(PlaylistCheck::M3u) == "No stream URL found in M3U playlist"@,
{
}

} // verus!
