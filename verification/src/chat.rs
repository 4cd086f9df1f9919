pub mod client;
pub mod listener;
pub mod listeners;
pub mod replier;
