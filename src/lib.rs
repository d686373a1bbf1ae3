pub mod error;
pub mod ids;
pub mod agent;
pub mod store;
pub mod correlation;
pub mod outbound;
pub mod system;
pub mod context;
pub mod message;
pub mod metrics;
pub mod room;
pub mod rtc_reader_config;
pub mod test_helpers;
pub mod dispatch;
