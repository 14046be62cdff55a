pub mod bulk_check;
pub mod requests;
pub mod upload;
