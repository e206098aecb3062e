//! Audio data of the studio: 24 kHz mono 16-bit PCM and its WAV container.
pub mod m4b_exporter;
pub mod pcm_wav;
