//! A chat bot for a messaging gateway: parsing commands, routing them to
//! modules, mirroring the state of servers and channels, keeping the
//! connection alive, and the commands that the bot comes with.
//!
//! The library decides and computes; it sends and receives nothing. Every
//! function has a contract, and the contracts are proved.

pub mod catalog;
pub mod command;
pub mod connection;
pub mod demos;
pub mod dispatch;
pub mod fun;
pub mod hello;
pub mod history;
pub mod invite;
pub mod keyed;
pub mod listing;
pub mod mirror;
pub mod model;
pub mod outbound;
pub mod parser;
pub mod registry;
pub mod seqs;
pub mod sorting;
pub mod speedrun;
pub mod text;
pub mod urls;
pub mod wolfram;
