//! Verified core of a local voice assistant: the listening window that decides
//! when a spoken command has ended, the chat history and reply handling of the
//! language-model fallback, trigger-phrase extraction, command lookup and the
//! frame buffering in front of the WebRTC voice-activity detector.

pub mod audio;
pub mod chat;
pub mod commands;
pub mod config;
pub mod detector;
pub mod fallback;
pub mod frames;
pub mod history;
pub mod listen_window;
pub mod text;
pub mod webrtc;
