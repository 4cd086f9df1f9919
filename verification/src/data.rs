pub mod message_data;
