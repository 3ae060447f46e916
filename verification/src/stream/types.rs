//! Core types for stream resolution and handling.

use vstd::prelude::*;

use crate::text::opt_text;

verus! {

/// Type of resolved stream
#[derive(Debug, Clone, Copy, PartialEq, Eq, Structural)]
pub enum StreamType {
    Direct,
    Hls,
}

/// Information about a resolved stream
#[derive(Debug, Clone)]
pub struct StreamInfo {
    pub original_url: String,
    pub resolved_url: String,
    pub stream_type: StreamType,
    pub format_hint: Option<String>,
    pub content_type: Option<String>,
    pub station_name: Option<String>,
    pub bitrate: Option<u32>,
}

/// What a `StreamInfo` says.
pub struct StreamInfoView {
    pub original_url: Seq<char>,
    pub resolved_url: Seq<char>,
    pub stream_type: StreamType,
    pub format_hint: Option<Seq<char>>,
    pub content_type: Option<Seq<char>>,
    pub station_name: Option<Seq<char>>,
    pub bitrate: Option<u32>,
}

impl View for StreamInfo {
    type V = StreamInfoView;

    open spec fn view(&self) -> StreamInfoView {
        StreamInfoView {
            original_url: self.original_url@,
            resolved_url: self.resolved_url@,
            stream_type: self.stream_type,
            format_hint: opt_text(self.format_hint),
            content_type: opt_text(self.content_type),
            station_name: opt_text(self.station_name),
            bitrate: self.bitrate,
        }
    }
}

/// The description of a stream says what its fields hold.
pub proof fn law_stream_info_says(i: StreamInfo)
    ensures
        i@.stream_type == i.stream_type,
        i@.bitrate == i.bitrate,
        i@.original_url == i.original_url@,
        i@.resolved_url == i.resolved_url@,
        i@.format_hint == opt_text(i.format_hint),
        i@.content_type == opt_text(i.content_type),
        i@.station_name == opt_text(i.station_name),
{
}

} // verus!
