//! Song registry and command decisions of a voice-channel music bot.
//!
//! The crate holds the parts of the bot that decide something: the registry of
//! known songs, the lookup of a song by a phrase typed in chat, the policy that
//! turns a `play` argument into a URL or a reply, the steps of a registration,
//! and the texts the bot answers with. Talking to the chat platform, to the
//! audio pipeline, to the title tool and to the disk is left to the program
//! around this library.

pub mod database;
pub mod register;
pub mod replies;
pub mod resolve;
pub mod text;
pub mod ytdlp;
