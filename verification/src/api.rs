//! API facade: binds one transport implementation to a sensor registry and
//! exposes typed send and poll operations to the hosting process. Every
//! send or poll delegates directly to the bound transport; the facade's
//! only state of its own is the registered sensor list.

use vstd::prelude::*;

use crate::commands::CommandEnvelope;
use crate::commands::CommandResult;
use crate::sensors::SensorDescriptor;
use crate::sensors::SensorFrame;
use crate::transport::Transport;

verus! {

/// One process's handle on the exchange layer: a transport plus the
/// insertion-ordered list of registered sensor descriptors.
pub struct UgvApi<T: Transport> {
    transport: T,
    sensors: Vec<SensorDescriptor>,
}

impl<T: Transport> UgvApi<T> {
    /// The registered sensor descriptors, in registration order.
    pub closed spec fn spec_sensors(&self) -> Seq<SensorDescriptor> {
        self.sensors@
    }

    /// Binds a transport; no sensors are registered yet.
    pub fn new(transport: T) -> (r: Self)
        ensures
            r.spec_sensors() == Seq::<SensorDescriptor>::empty(),
    {
        let r = UgvApi { transport, sensors: Vec::new() };
        proof {
            assert(r.spec_sensors() =~= Seq::<SensorDescriptor>::empty());
        }
        r
    }

    /// Appends one descriptor to the registry. Duplicates by name are not
    /// rejected: every registration is retained, in order.
    pub fn register_sensor(&mut self, descriptor: SensorDescriptor)
        ensures
            final(self).spec_sensors() == old(self).spec_sensors().push(descriptor),
    {
        self.sensors.push(descriptor);
    }

    /// The registered sensor descriptors, in registration order.
    pub fn sensors(&self) -> (r: &Vec<SensorDescriptor>)
        ensures
            r@ == self.spec_sensors(),
    {
        &self.sensors
    }

    /// Delegates to the bound transport; the sensor registry is untouched.
    pub fn publish_sensor_frame(&mut self, frame: SensorFrame) -> (ok: bool)
        ensures
            final(self).spec_sensors() == old(self).spec_sensors(),
    {
        self.transport.publish_sensor_frame(frame)
    }

    /// Delegates to the bound transport; the sensor registry is untouched.
    pub fn poll_commands(&mut self) -> (r: Vec<CommandEnvelope>)
        ensures
            final(self).spec_sensors() == old(self).spec_sensors(),
    {
        self.transport.receive_commands()
    }

    /// Delegates to the bound transport; the sensor registry is untouched.
    pub fn publish_command_result(&mut self, command_id: u64, result: CommandResult) -> (ok: bool)
        ensures
            final(self).spec_sensors() == old(self).spec_sensors(),
    {
        self.transport.publish_command_result(command_id, result)
    }
}

} // verus!
