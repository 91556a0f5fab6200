//! The state that the supervisor shares with the load generators.
use std::time::SystemTime;
use vstd::prelude::*;
use vstd::string::StringExecFns;

use crate::clock::system_time_now;
use crate::config::Config;
use crate::policy::{paused_model, PolicySnapshot};
use crate::sensor::{zero_sample, SensorSample};

verus! {

#[derive(Debug)]
pub struct RuntimeState {
    pub config: Config,
    pub policy: PolicySnapshot,
    pub sensor_sample: SensorSample,
    pub last_updated: SystemTime,
    pub shutdown: bool,
}

impl RuntimeState {
    /// The state before the first sample: everything paused, nothing measured.
    pub fn new(config: Config) -> (r: RuntimeState)
        ensures
            r.config@ == config@,
            r.policy@ == paused_model("waiting for the first supervisor sample"@),
            r.sensor_sample == zero_sample(),
            !r.shutdown,
    {
        RuntimeState {
            config,
            policy: PolicySnapshot::paused(
                String::from_str("waiting for the first supervisor sample"),
            ),
            sensor_sample: SensorSample::default(),
            last_updated: system_time_now(),
            shutdown: false,
        }
    }
}

} // verus!
