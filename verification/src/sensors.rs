//! Passive sensor data modeling: descriptors used for registration and
//! the value carriers that travel inside telemetry frames.
//!
//! Scalar channels are carried as decimal text: the wire holds them as
//! text fields, and the codec treats them as opaque field content.

use vstd::prelude::*;

verus! {

/// One field a sensor declares.
#[derive(Clone, Debug)]
pub struct SensorField {
    pub name: String,
}

/// Declares a sensor's name and its set of field definitions; used only
/// for registration and introspection, never sent over the wire.
#[derive(Clone, Debug)]
pub struct SensorDescriptor {
    pub name: String,
    pub fields: Vec<SensorField>,
}

/// One raw reading: a sensor name and its named scalar values, each value
/// carried as decimal text.
#[derive(Clone, Debug)]
pub struct SensorReading {
    pub sensor: String,
    pub values: Vec<(String, String)>,
}

/// Opaque payload of a sensor whose data is not a flat scalar mapping.
#[derive(Clone, Debug)]
pub struct SensorPayload {
    pub id: String,
    pub sensor_type: String,
    pub payload: String,
}

/// One snapshot published by the vehicle: raw readings and opaque payloads.
#[derive(Clone, Debug)]
pub struct SensorFrame {
    pub timestamp_ns: u64,
    pub readings: Vec<SensorReading>,
    pub payloads: Vec<SensorPayload>,
}

/// Mathematical value of a `SensorReading`.
pub ghost struct ReadingV {
    pub sensor: Seq<char>,
    pub values: Seq<(Seq<char>, Seq<char>)>,
}

impl View for SensorReading {
    type V = ReadingV;

    open spec fn view(&self) -> ReadingV {
        ReadingV {
            sensor: self.sensor@,
            values: self.values@.map_values(|v: (String, String)| (v.0@, v.1@)),
        }
    }
}

/// Mathematical value of a `SensorPayload`.
pub ghost struct PayloadV {
    pub id: Seq<char>,
    pub sensor_type: Seq<char>,
    pub payload: Seq<char>,
}

impl View for SensorPayload {
    type V = PayloadV;

    open spec fn view(&self) -> PayloadV {
        PayloadV { id: self.id@, sensor_type: self.sensor_type@, payload: self.payload@ }
    }
}

} // verus!
