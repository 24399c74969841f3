pub mod channel;
pub mod coordinator;
pub mod dispatch;
pub mod json;
pub mod listing;
pub mod memory;
pub mod numeral;
pub mod ordering;
pub mod outside;
pub mod redaction;
pub mod slack;
pub mod telegram;
pub mod text;
