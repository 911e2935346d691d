//! Command/telemetry exchange layer for an unmanned ground vehicle:
//! typed command envelopes and telemetry/result frames, a line-oriented
//! wire codec, and an incremental (tailing) reader for append-only logs.

pub mod api;
pub mod codec;
pub mod commands;
pub mod decimal;
pub mod fields;
pub mod laws;
pub mod sensors;
pub mod tail;
pub mod telemetry;
pub mod telemetry_codec;
pub mod transport;

pub use api::UgvApi;
pub use commands::CommandAuthority;
pub use commands::CommandDomain;
pub use commands::CommandEnvelope;
pub use commands::CommandPriority;
pub use commands::CommandResult;
pub use commands::CommandResultEvent;
pub use commands::CommandStatus;
pub use commands::RejectReason;
pub use commands::UgvCommand;
pub use sensors::SensorDescriptor;
pub use sensors::SensorField;
pub use sensors::SensorFrame;
pub use sensors::SensorPayload;
pub use sensors::SensorReading;
pub use tail::TailReader;
pub use telemetry::JointState;
pub use telemetry::TelemetryFrame;
pub use transport::Transport;
