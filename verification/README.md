# radiotrope

The core of an internet radio engine, written in Verus: what is decided and computed between the
network, the decoder and the audio output is verified; threads, sockets and devices are not.

## Layout

- `src/` — the verified library
  - `audio/` — playback state machine (`engine`), stream health (`health`), decoding decisions
    (`decoder`), analysis bookkeeping (`analyzer`), statistics and events (`stats`, `types`)
  - `stream/` — playlists (`playlist`), ICY streams (`icy`, `metadata`), HLS streams (`hls`,
    `segments`, `mpegts`), the producer-consumer buffer (`buffer`), resolution (`resolver`)
  - `text`, `time`, `error`, `config` — what the others rest on
- `tests/` — tests of the library on concrete values
- `app/` — the player around the library: threads, HTTP, decoders, audio output

## How to read it

Every public function says in its contract what it returns and changes, mostly over the view of a
type: texts are sequences of characters, streams sequences of bytes. Properties that span several
functions are proof functions whose names begin with `law_`. Code that waits (for the network, for
another thread, for the audio device) hands what it observed to the library and carries out what
the library answers.

What is believed without proof stands in functions marked `external_body` and in
`assume_specification` items: the clock, lowercase conversion and lossy UTF-8 of the standard
library, the M3U8 parser, the transport stream reader, codec identifiers, and channels. Each says
in its documentation what is claimed of it.
