//! The relay's configuration: the bus connection and the linked channels.
//! Built once at startup and handed to every component.

use vstd::prelude::*;

verus! {

/// The whole configuration.
#[derive(Debug)]
pub struct Config {
    pub mqtt: Mqtt,
    pub discord: Discord,
}

/// How to reach the bus.
#[derive(Debug)]
pub struct Mqtt {
    pub client_id: String,
    pub broker_ip: String,
    pub broker_port: u16,
    pub topic: String,
}

/// The chat side: the linked channels and the relay's own account.
#[derive(Debug)]
pub struct Discord {
    pub channels: Vec<u64>,
    pub bot_id: u64,
    pub token: String,
}

/// The bus section under its longer name.
pub type MqttConfig = Mqtt;

/// The chat section under its longer name.
pub type DiscordConfig = Discord;

impl Config {
    /// An empty configuration: empty strings, zero port and id, no linked
    /// channels.
    pub fn new() -> (r: Config)
        ensures
            r.mqtt.client_id@.len() == 0,
            r.mqtt.broker_ip@.len() == 0,
            r.mqtt.broker_port == 0,
            r.mqtt.topic@.len() == 0,
            r.discord.channels@.len() == 0,
            r.discord.bot_id == 0,
            r.discord.token@.len() == 0,
    {
        Config {
            mqtt: Mqtt {
                client_id: String::new(),
                broker_ip: String::new(),
                broker_port: 0,
                topic: String::new(),
            },
            discord: Discord { channels: Vec::new(), bot_id: 0, token: String::new() },
        }
    }
}

} // verus!
