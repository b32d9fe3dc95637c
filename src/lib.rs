//! An incremental tokenizer engine: a `Scanner` drives a caller-supplied
//! `Splitter` over the bytes of an `Input`, which is either a complete
//! in-memory sequence or a stream filled from a reader.

pub mod input;
pub mod position;
pub mod scan;
pub mod stream;
pub mod facts;
