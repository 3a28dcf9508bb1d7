//! Connection settings for the message-bus session. Loading them from the
//! configuration file and the environment is the runtime's work.

use vstd::prelude::*;

verus! {

/// The broker connection settings.
#[derive(Clone, Debug)]
pub struct MqttConfig {
    pub client_id: String,
    pub broker_hostname: String,
    pub port: Option<u16>,
    pub username: Option<String>,
    pub password: Option<String>,
    pub cert_path: Option<String>,
    pub status_publish_interval_secs: Option<u64>,
}

impl MqttConfig {
    /// The seconds between two periodic status reports: the configured
    /// value, or one minute.
    pub fn publish_interval_secs(&self) -> (r: u64)
        ensures
            r == match self.status_publish_interval_secs {
                Some(v) => v,
                None => 60u64,
            },
    {
        match self.status_publish_interval_secs {
            Some(v) => v,
            None => 60,
        }
    }
}

} // verus!
