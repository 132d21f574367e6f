//! A personal snippet store's core: identifiers, a text tokenizer, resolution of
//! partial identifiers, and the records kept for snippets and attachments.

pub mod error;
pub mod ident;
pub mod tokenize;
pub mod resolve;
pub mod records;
