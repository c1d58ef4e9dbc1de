//! Trip-lifecycle engine for a fleet-tracking ingest path.
//!
//! The library reconstructs each device's trip lifecycle from a stream of
//! telemetry events: it classifies every incoming event against the device's
//! current trip state, and applies the resulting multi-table write as one
//! atomic step over a relational model of the store.

pub mod breaker;
pub mod classify;
pub mod config;
pub mod datetime;
pub mod ids;
pub mod json;
pub mod message;
pub mod num;
pub mod store;

pub use breaker::CircuitBreaker;
pub use classify::determine_destination;
pub use classify::is_ignition_off;
pub use classify::is_ignition_on;
pub use classify::MessageDestination;
pub use config::AppConfig;
pub use datetime::DateTime;
pub use message::CanonicalEvent;
pub use message::Data;
pub use message::Metadata;
pub use message::MqttMessage;
pub use store::DeviceCurrentState;
pub use store::DeviceIdleActivity;
pub use store::ProcessingError;
pub use store::ProcessOutcome;
pub use store::Trip;
pub use store::TripAlert;
pub use store::TripPoint;
pub use store::TripStore;
