pub mod archive;
pub mod codec;
pub mod decompress;
pub mod entry;
pub mod format;
pub mod layout;
pub mod path;
pub mod resolve;
pub mod text;
