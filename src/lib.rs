pub mod attribute;
pub mod bytes;
pub mod csv;
pub mod dump;
pub mod entry;
pub mod err;
pub mod errors;
pub mod mft;
pub mod reference;
pub mod utils;
