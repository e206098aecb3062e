//! Text preparation: chunking, normalization, prompts, dialogue scripts and subtitles.
pub mod chunker;
pub mod sentence_mode;
pub mod pattern;
pub mod prompt_builder;
pub mod normalizer;
pub mod dialogue_parser;
pub mod fingerprint;
pub mod srt_exporter;
pub mod vtt_exporter;
pub mod lrc_exporter;
pub mod file_parser;
