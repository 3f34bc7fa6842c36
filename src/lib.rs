//! Ingestion of IMAP commands: a streaming tokenizer that turns the bytes of a
//! client connection into requests, and the argument grammar of STATUS.
pub mod command;
pub mod error;
pub mod keyword;
pub mod lexer;
pub mod receiver;
pub mod status;
pub mod text;
pub mod token;
pub mod utf7;
