//! Networked speech-to-text: the rules that a transcription server and its
//! client follow, stated as contracts and proved.

pub mod clock;
pub mod numerals;
pub mod pcm;
pub mod random;
pub mod remote_client;
pub mod server;
pub mod settings;
pub mod sse;
pub mod text;
pub mod transcript;
pub mod wav;
pub mod windows;
