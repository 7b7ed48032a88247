//! The Anthropic Messages API: how a conversation is put into a request, and
//! how a response or a stream of events is read.
pub mod wire;
pub mod convert;
pub mod provider;
pub mod stream;
