pub mod user_receipt;
pub mod vault;

pub use user_receipt::UserReceipt;
pub use vault::Vault;
