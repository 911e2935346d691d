//! Telemetry entities: joint state and the frame that snapshots the
//! vehicle at one instant.
//!
//! The scalar joint channels are carried as decimal text: the wire format
//! holds them as plain text fields between delimiters, and this layer
//! treats that text as opaque field content.

use vstd::prelude::*;

use crate::sensors::PayloadV;
use crate::sensors::ReadingV;
use crate::sensors::SensorPayload;
use crate::sensors::SensorReading;

verus! {

/// State of one joint: identity plus its scalar channels as decimal text.
#[derive(Clone, Debug)]
pub struct JointState {
    pub id: String,
    pub name: String,
    pub position: String,
    pub velocity: String,
    pub load: String,
}

/// Mathematical value of a `JointState`.
pub ghost struct JointV {
    pub id: Seq<char>,
    pub name: Seq<char>,
    pub position: Seq<char>,
    pub velocity: Seq<char>,
    pub load: Seq<char>,
}

impl View for JointState {
    type V = JointV;

    open spec fn view(&self) -> JointV {
        JointV {
            id: self.id@,
            name: self.name@,
            position: self.position@,
            velocity: self.velocity@,
            load: self.load@,
        }
    }
}

/// One snapshot of vehicle state at `timestamp_ns`: ordered joint states,
/// raw sensor readings (not transmitted over the wire), and opaque sensor
/// payloads.
#[derive(Clone, Debug)]
pub struct TelemetryFrame {
    pub timestamp_ns: u64,
    pub joints: Vec<JointState>,
    pub sensors: Vec<SensorReading>,
    pub payloads: Vec<SensorPayload>,
}

/// Mathematical value of a `TelemetryFrame`.
pub ghost struct FrameV {
    pub timestamp_ns: u64,
    pub joints: Seq<JointV>,
    pub sensors: Seq<ReadingV>,
    pub payloads: Seq<PayloadV>,
}

impl View for TelemetryFrame {
    type V = FrameV;

    open spec fn view(&self) -> FrameV {
        FrameV {
            timestamp_ns: self.timestamp_ns,
            joints: self.joints@.map_values(|j: JointState| j@),
            sensors: self.sensors@.map_values(|s: SensorReading| s@),
            payloads: self.payloads@.map_values(|p: SensorPayload| p@),
        }
    }
}

} // verus!
