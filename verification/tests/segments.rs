use std::time::Duration;

use radiotrope::stream::hls::{
    follow_playlist, resolve_hls_url, HlsStep, MediaPlaylist, MediaSegment, ParsedPlaylist,
};
use radiotrope::error::RadioError;
use radiotrope::stream::segments::{
    RefreshStep, Round, RoundEnd, SegmentDownloader, SegmentFetch,
};

const BASE: &str = "http://radio.example/live";

fn playlist(uris: &[&str], end_list: bool, target_duration: u64) -> MediaPlaylist {
    MediaPlaylist {
        segments: uris
            .iter()
            .map(|uri| MediaSegment { uri: uri.to_string(), map_uri: None })
            .collect(),
        end_list,
        target_duration,
    }
}

fn start(downloader: &mut SegmentDownloader, playlist: MediaPlaylist) -> Round {
    match downloader.on_playlist(ParsedPlaylist::Media(playlist)) {
        RefreshStep::Segments(round) => round,
        step => panic!("unexpected {:?}", step),
    }
}

/// Fetches everything that the round wants and returns the URLs.
fn fetch_all(downloader: &mut SegmentDownloader, round: &mut Round) -> Vec<String> {
    let mut urls = Vec::new();
    while let Some(url) = downloader.next_segment(round) {
        urls.push(url.clone());
        let audio = downloader.on_segment(round, url, SegmentFetch::Data(vec![1, 2, 3]));
        assert_eq!(audio, Some(vec![1, 2, 3]));
        downloader.on_sent();
    }
    urls
}

#[test]
fn live_stream_is_joined_near_its_end() {
    let mut downloader = SegmentDownloader::new(BASE);
    let uris = ["a.ts", "b.ts", "c.ts", "d.ts", "e.ts"];
    let mut round = start(&mut downloader, playlist(&uris, false, 6));
    assert_eq!(round.next, 2);
    assert_eq!(
        fetch_all(&mut downloader, &mut round),
        vec![
            "http://radio.example/live/c.ts",
            "http://radio.example/live/d.ts",
            "http://radio.example/live/e.ts",
        ]
    );
    assert_eq!(downloader.finish_round(&round), RoundEnd::WaitSecs(6));

    let mut round = start(&mut downloader, playlist(&["d.ts", "e.ts", "f.ts"], false, 6));
    assert_eq!(round.next, 0);
    assert_eq!(
        fetch_all(&mut downloader, &mut round),
        vec!["http://radio.example/live/f.ts"]
    );
    downloader.finish_round(&round);

    let mut round = start(&mut downloader, playlist(&["d.ts", "e.ts", "f.ts"], false, 6));
    assert!(fetch_all(&mut downloader, &mut round).is_empty());
    assert_eq!(downloader.finish_round(&round), RoundEnd::WaitSecs(3));
}

#[test]
fn short_live_stream_is_played_from_its_beginning() {
    let mut downloader = SegmentDownloader::new(BASE);
    let mut round = start(&mut downloader, playlist(&["a.ts", "b.ts"], false, 0));
    assert_eq!(fetch_all(&mut downloader, &mut round).len(), 2);
    assert_eq!(downloader.finish_round(&round), RoundEnd::WaitSecs(2));
    let round = start(&mut downloader, playlist(&["a.ts", "b.ts"], false, 0));
    assert_eq!(downloader.finish_round(&round), RoundEnd::WaitSecs(1));
}

#[test]
fn url_that_left_the_playlist_is_forgotten() {
    let mut downloader = SegmentDownloader::new(BASE);
    let mut round = start(&mut downloader, playlist(&["a.ts"], false, 6));
    assert_eq!(fetch_all(&mut downloader, &mut round).len(), 1);
    downloader.finish_round(&round);
    let mut round = start(&mut downloader, playlist(&["b.ts"], false, 6));
    assert_eq!(fetch_all(&mut downloader, &mut round).len(), 1);
    downloader.finish_round(&round);
    let mut round = start(&mut downloader, playlist(&["a.ts"], false, 6));
    assert_eq!(fetch_all(&mut downloader, &mut round).len(), 1);
}

#[test]
fn complete_playlist_ends_when_all_of_it_is_done() {
    let mut downloader = SegmentDownloader::new(BASE);
    let uris = ["a.ts", "b.ts", "c.ts", "d.ts", "e.ts"];
    let mut round = start(&mut downloader, playlist(&uris, true, 6));
    assert_eq!(round.next, 0);
    let url = downloader.next_segment(&mut round).unwrap();
    assert_eq!(url, "http://radio.example/live/a.ts");
    assert_eq!(downloader.on_segment(&mut round, url, SegmentFetch::Interrupted), None);
    assert!(!round.fetched_new);
    assert_eq!(fetch_all(&mut downloader, &mut round).len(), 4);
    assert_eq!(downloader.finish_round(&round), RoundEnd::WaitSecs(1));

    let mut round = start(&mut downloader, playlist(&uris, true, 6));
    assert_eq!(
        fetch_all(&mut downloader, &mut round),
        vec!["http://radio.example/live/a.ts"]
    );
    assert_eq!(downloader.finish_round(&round), RoundEnd::Finished);
}

#[test]
fn failed_segment_is_not_tried_again() {
    let mut downloader = SegmentDownloader::new(BASE);
    let mut round = start(&mut downloader, playlist(&["a.ts"], true, 6));
    let url = downloader.next_segment(&mut round).unwrap();
    assert_eq!(downloader.on_segment(&mut round, url, SegmentFetch::Failed), None);
    assert!(round.fetched_new);
    assert_eq!(downloader.next_segment(&mut round), None);
    assert_eq!(downloader.finish_round(&round), RoundEnd::Finished);
}

#[test]
fn lines_that_name_no_segment_are_skipped() {
    let mut downloader = SegmentDownloader::new(BASE);
    let uris = ["BANDWIDTH", "IV='0x1'", "http://cdn.example/raw", "x.aac?start=0"];
    let mut round = start(&mut downloader, playlist(&uris, true, 6));
    assert_eq!(
        fetch_all(&mut downloader, &mut round),
        vec!["http://cdn.example/raw", "http://radio.example/live/x.aac?start=0"]
    );
}

#[test]
fn initialization_section_precedes_the_first_fragment_only() {
    let mut downloader = SegmentDownloader::new(BASE);
    let fragments = MediaPlaylist {
        segments: vec![
            MediaSegment { uri: "1.m4s".to_string(), map_uri: Some("init.mp4".to_string()) },
            MediaSegment { uri: "2.m4s?x=1".to_string(), map_uri: None },
        ],
        end_list: true,
        target_duration: 4,
    };
    let init = downloader.init_to_fetch(&fragments).unwrap();
    assert_eq!(init, "http://radio.example/live/init.mp4");
    downloader.on_init(init, vec![9, 9]);
    assert_eq!(downloader.init_to_fetch(&fragments), None);

    let mut round = start(&mut downloader, fragments);
    let url = downloader.next_segment(&mut round).unwrap();
    let audio = downloader.on_segment(&mut round, url, SegmentFetch::Data(vec![1]));
    assert_eq!(audio, Some(vec![9, 9, 1]));
    downloader.on_sent();
    let url = downloader.next_segment(&mut round).unwrap();
    let audio = downloader.on_segment(&mut round, url, SegmentFetch::Data(vec![2]));
    assert_eq!(audio, Some(vec![2]));
    assert!(downloader.init_to_fetch(&round.playlist).is_some());
}

#[test]
fn transport_stream_is_demuxed_and_silence_is_not_passed_on() {
    let mut downloader = SegmentDownloader::new(BASE);
    let mut round = start(&mut downloader, playlist(&["a.ts", "b.ts"], true, 6));
    let url = downloader.next_segment(&mut round).unwrap();
    let audio = downloader.on_segment(&mut round, url, SegmentFetch::Data(vec![0x47, 0, 0]));
    assert_eq!(audio, None);
    let url = downloader.next_segment(&mut round).unwrap();
    let audio = downloader.accept_segment(&mut round, url, vec![0x47, 0, 0], vec![5, 6]);
    assert_eq!(audio, Some(vec![5, 6]));
}

#[test]
fn playlists_that_cannot_be_read_count_as_failures() {
    let mut downloader = SegmentDownloader::new(BASE);
    match downloader.on_playlist_failed() {
        RefreshStep::Retry(pause) => assert_eq!(pause, Duration::from_secs(2)),
        step => panic!("unexpected {:?}", step),
    }
    assert_eq!(downloader.failures(), 1);
    match downloader.on_playlist_bytes(b"<html></html>") {
        RefreshStep::Retry(pause) => assert_eq!(pause, Duration::from_secs(4)),
        step => panic!("unexpected {:?}", step),
    }
    assert_eq!(downloader.failures(), 2);
    let master = b"#EXTM3U\n#EXT-X-STREAM-INF:BANDWIDTH=128000\nlow.m3u8\n";
    assert!(matches!(
        downloader.on_playlist_bytes(master),
        RefreshStep::NotMedia
    ));
    assert_eq!(downloader.failures(), 2);
    let media = b"#EXTM3U\n#EXT-X-TARGETDURATION:7\n#EXT-X-MAP:URI=\"init.mp4\"\n#EXTINF:6.0,\nseg1.m4s\n#EXTINF:6.0,\nseg2.m4s\n#EXT-X-ENDLIST\n";
    match downloader.on_playlist_bytes(media) {
        RefreshStep::Segments(round) => {
            assert_eq!(round.playlist.target_duration, 7);
            assert!(round.playlist.end_list);
            assert_eq!(round.playlist.segments.len(), 2);
            assert_eq!(round.playlist.segments[0].uri, "seg1.m4s");
            assert_eq!(round.playlist.segments[0].map_uri, Some("init.mp4".to_string()));
            assert_eq!(round.playlist.segments[1].uri, "seg2.m4s");
        }
        step => panic!("unexpected {:?}", step),
    }
    assert_eq!(downloader.failures(), 0);
}

#[test]
fn pauses_grow_until_a_media_playlist_is_had() {
    let mut downloader = SegmentDownloader::new(BASE);
    for secs in [2, 4, 8, 10, 10, 10] {
        match downloader.on_playlist_failed() {
            RefreshStep::Retry(pause) => assert_eq!(pause, Duration::from_secs(secs)),
            step => panic!("unexpected {:?}", step),
        }
    }
    downloader.on_playlist_bytes(MEDIA.as_bytes());
    match downloader.on_playlist_failed() {
        RefreshStep::Retry(pause) => assert_eq!(pause, Duration::from_secs(2)),
        step => panic!("unexpected {:?}", step),
    }
}

const MEDIA: &str = "#EXTM3U\n#EXT-X-TARGETDURATION:6\n#EXTINF:6.0,\nseg1.ts\n";

#[test]
fn master_playlist_is_followed_to_its_first_variant() {
    let fetch = |url: &str| -> Result<Vec<u8>, RadioError> {
        match url {
            "http://a.example/x/master.m3u8" => Ok(
                b"#EXTM3U\n#EXT-X-STREAM-INF:BANDWIDTH=128000\nhi/media.m3u8\n#EXT-X-STREAM-INF:BANDWIDTH=64000\nlo/media.m3u8\n".to_vec(),
            ),
            "http://a.example/x/hi/media.m3u8" => Ok(MEDIA.as_bytes().to_vec()),
            _ => Err(RadioError::Stream(format!("asked for {}", url))),
        }
    };
    let (media, base) = resolve_hls_url("http://a.example/x/master.m3u8", &fetch).unwrap();
    assert_eq!(media, "http://a.example/x/hi/media.m3u8");
    assert_eq!(base, "http://a.example/x/hi");
}

#[test]
fn chains_that_lead_nowhere_are_errors() {
    let never = |url: &str| -> Result<Vec<u8>, RadioError> { panic!("{} was fetched", url) };
    match resolve_hls_url("http://a.example/stream.mp3", &never) {
        Err(RadioError::Stream(text)) => assert_eq!(text, "Not an HLS URL"),
        other => panic!("unexpected {:?}", other),
    }

    let circle = |_: &str| -> Result<Vec<u8>, RadioError> {
        Ok(b"#EXTM3U\n#EXT-X-STREAM-INF:BANDWIDTH=1\nmaster.m3u8\n".to_vec())
    };
    match resolve_hls_url("http://a.example/master.M3U8?x=1", &circle) {
        Err(RadioError::Stream(text)) => assert_eq!(text, "HLS playlist nesting too deep"),
        other => panic!("unexpected {:?}", other),
    }

    let garbage = |_: &str| -> Result<Vec<u8>, RadioError> { Ok(b"hello".to_vec()) };
    match resolve_hls_url("http://a.example/master.m3u8", &garbage) {
        Err(RadioError::Stream(text)) => assert!(text.starts_with("Playlist parse error: ")),
        other => panic!("unexpected {:?}", other),
    }

    let down = |_: &str| -> Result<Vec<u8>, RadioError> { Err(RadioError::Io("down".to_string())) };
    match resolve_hls_url("http://a.example/master.m3u8", &down) {
        Err(RadioError::Io(text)) => assert_eq!(text, "down"),
        other => panic!("unexpected {:?}", other),
    }
}

#[test]
fn steps_of_a_chain() {
    let url = "http://a.example/x/master.m3u8";
    match follow_playlist(url, &ParsedPlaylist::Master(vec![])) {
        HlsStep::Failed(RadioError::Stream(text)) => {
            assert_eq!(text, "No variants in master playlist")
        }
        step => panic!("unexpected {:?}", step),
    }
    match follow_playlist(url, &ParsedPlaylist::Master(vec!["http://b.example/m.m3u8".to_string()])) {
        HlsStep::Follow(next) => assert_eq!(next, "http://b.example/m.m3u8"),
        step => panic!("unexpected {:?}", step),
    }
    match follow_playlist(url, &ParsedPlaylist::Invalid("why".to_string())) {
        HlsStep::Failed(RadioError::Stream(text)) => assert_eq!(text, "Playlist parse error: why"),
        step => panic!("unexpected {:?}", step),
    }
    match follow_playlist(url, &ParsedPlaylist::Media(playlist(&[], true, 1))) {
        HlsStep::Found(media, base) => {
            assert_eq!(media, url);
            assert_eq!(base, "http://a.example/x");
        }
        step => panic!("unexpected {:?}", step),
    }
}

#[test]
fn unchanged_live_playlist_is_asked_for_its_end_only() {
    for n in 1..8usize {
        let uris: Vec<String> = (0..n).map(|i| format!("{}.aac", i)).collect();
        let uris: Vec<&str> = uris.iter().map(|uri| uri.as_str()).collect();
        let mut downloader = SegmentDownloader::new(BASE);
        let mut urls = Vec::new();
        for _ in 0..3 {
            let mut round = start(&mut downloader, playlist(&uris, false, 6));
            urls.extend(fetch_all(&mut downloader, &mut round));
            downloader.finish_round(&round);
        }
        let expected: Vec<String> =
            (n - n.min(3)..n).map(|i| format!("{}/{}.aac", BASE, i)).collect();
        assert_eq!(urls, expected);
    }
}

#[test]
fn live_stream_does_not_go_back_as_its_playlist_moves_on() {
    let mut downloader = SegmentDownloader::new(BASE);
    let mut round = start(&mut downloader, playlist(&["a.ts", "b.ts", "c.ts", "d.ts", "e.ts"], false, 6));
    assert_eq!(fetch_all(&mut downloader, &mut round).len(), 3);
    downloader.finish_round(&round);
    let mut round = start(&mut downloader, playlist(&["b.ts", "c.ts", "d.ts", "e.ts", "f.ts"], false, 6));
    assert_eq!(
        fetch_all(&mut downloader, &mut round),
        vec!["http://radio.example/live/f.ts"]
    );
}

#[test]
fn segment_listed_again_behind_the_start_is_fetched() {
    let mut downloader = SegmentDownloader::new(BASE);
    let mut round = start(&mut downloader, playlist(&["a.ts", "b.ts", "c.ts", "a.ts"], false, 6));
    assert_eq!(round.next, 1);
    assert_eq!(fetch_all(&mut downloader, &mut round).len(), 3);
}
