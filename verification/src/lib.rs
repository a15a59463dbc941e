//! The logic of a Markdown viewer control and of the music player that ships with it.

pub mod cli;
pub mod columns;
pub mod control;
pub mod control_host;
pub mod control_properties;
pub mod control_window;
pub mod cover;
pub mod decode_task;
pub mod dir_playlist;
pub mod dir_scan;
pub mod export;
pub mod frame_source;
pub mod http_client;
pub mod layout;
pub mod library;
pub mod lists;
pub mod log_queue;
pub mod markdown_display;
pub mod media_info;
pub mod music_tree;
pub mod net;
pub mod now_playing;
pub mod output_format;
pub mod path;
pub mod pcm;
pub mod pcm_stereo;
pub mod pipe_codec;
pub mod pipe_commands;
pub mod playback;
pub mod player;
pub mod player_messages;
pub mod player_state;
pub mod playlist;
pub mod playlist_request;
pub mod playlist_sort;
pub mod playlist_store;
pub mod playlist_view;
pub mod random;
pub mod sample_encoding;
pub mod sample_queue;
pub mod session;
pub mod song;
pub mod stream_time;
pub mod tabs;
pub mod tags;
pub mod text;
pub mod text_repair;
pub mod text_sort;
pub mod track;
pub mod utf16;
pub mod watch;
pub mod window_messages;
pub mod workers;

pub use markdown_display::markdown_to_display_text;
