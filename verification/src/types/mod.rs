pub mod equality;
pub mod metadata;
pub mod number;
pub mod role;

pub use metadata::Metadata;
pub use metadata::MetadataError;
pub use number::FloatBits;
pub use role::Role;
