# velotype

The logic of a Markdown viewer control and of the music player that ships with it,
written in Rust and verified with Verus.

* `src/` is the library. Every function states in its contract what it returns or
  changes, and the proof functions whose names start with `law_` state what holds of
  several of them together.
  * The viewer: `markdown_display`, `control`, `control_window`, `control_host`,
    `control_properties`, `http_client`, `net`, `export`, `cli`.
  * Playing: `player`, `player_state`, `player_messages`, `track`, `playback`,
    `output_format`, `sample_queue`, `sample_encoding`, `decode_task`,
    `frame_source`, `pcm`, `pcm_stereo`, `stream_time`, `random`, `now_playing`.
  * Songs and playlists: `song`, `tags`, `text_repair`, `media_info`, `library`,
    `watch`, `dir_scan`, `dir_playlist`, `playlist`, `playlist_request`,
    `playlist_store`, `playlist_sort`, `playlist_view`, `session`, `music_tree`,
    `cover`.
  * The window: `window_messages`, `layout`, `columns`, `tabs`, `log_queue`,
    `pipe_codec`, `pipe_commands`, `workers`.
  * Text: `text`, `text_sort`, `utf16`, `path`, `lists`.
* `tests/` runs the library on concrete values.
* `app/` is a program on top of the library: it shows documents as text, and
  describes or renders songs.

What the library has from other crates (the Markdown parser, the ring buffer, the
time base of the media library, the parsers of addresses and headers, the table of headers) stands behind
small functions marked `external_body`, whose contracts are stated and not proved.
