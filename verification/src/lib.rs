//! Verified core of an audiobook text-to-speech studio: Vietnamese text
//! preparation, prompt building, subtitle rendering, request and response
//! handling for the speech service, credential rotation, path policy and the
//! generation queue's decisions.
pub mod textseq;
pub mod text;

pub mod api;
pub mod audio;
pub mod codec;
pub mod commands;
pub mod error;
pub mod models;
pub mod queue;
pub mod security;
pub mod storage;
