//! A gateway that answers chat completion requests through the providers of goose.
//!
//! Chat clients speak one wire format, and goose's providers take and give messages of their own.
//! This library holds what stands between the two, and what a client needs to set providers up: it
//! reads requests, decides what is asked of a provider and when, and builds every answer. It opens no
//! socket and no file. What happens outside comes in as plain values and events; what to do about it
//! goes out the same way.
//!
//! - [`conversation`] turns a chat transcript into messages for a provider, and [`completion`] turns
//!   a provider's reply into a completion.
//! - [`stream`] cuts a reply into chunks, and [`session`] is the course of one streamed reply.
//! - [`gateway`] is the course of a chat request, with the models and the health of a provider, and
//!   [`failure`] is what goes wrong upstream.
//! - [`origins`] says which browser origins may use the gateway.
//! - [`setup`] lists providers, and saves and removes their settings. [`sign_in`] runs one sign-in at
//!   a time, and [`callback`] delivers the address that one was redirected to.
//! - [`tools`] offers the tools of an MCP server.
//! - [`reply`], [`json`], [`text`], [`clock`] and [`seqs`] are what the others are made of.

pub mod callback;
pub mod clock;
pub mod completion;
pub mod conversation;
pub mod failure;
pub mod gateway;
pub mod json;
pub mod origins;
pub mod reply;
pub mod seqs;
pub mod session;
pub mod setup;
pub mod sign_in;
pub mod stream;
pub mod text;
pub mod tools;
