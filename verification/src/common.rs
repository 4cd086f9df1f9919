pub mod channel_data;
pub mod message_data;
