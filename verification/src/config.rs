//! The configuration of the sink.

use vstd::prelude::*;

verus! {

/// How messages find their table.
#[derive(Debug, Clone, Copy, PartialEq, Eq, Structural)]
pub enum RouterType {
    /// All messages go to the configured table.
    Single,
    /// Each message names its table.
    Multi,
}

/// The configuration of the sink.
#[derive(Debug, Clone)]
pub struct FlussSinkConfig {
    pub bootstrap_servers: String,
    pub fluss_database: String,
    pub fluss_table: String,
    pub batch_size: u32,
    pub auto_create_table: bool,
    pub include_metadata: bool,
    pub include_checksum: bool,
    pub include_origin_timestamp: bool,
    pub payload_format: String,
    pub create_table: bool,
    pub router_type: RouterType,
    /// The member of a JSON payload that names the table of its message.
    pub route_key: String,
}

impl FlussSinkConfig {
    /// Whether two configurations say the same.
    pub open spec fn agrees(self, other: FlussSinkConfig) -> bool {
        &&& self.bootstrap_servers@ == other.bootstrap_servers@
        &&& self.fluss_database@ == other.fluss_database@
        &&& self.fluss_table@ == other.fluss_table@
        &&& self.batch_size == other.batch_size
        &&& self.auto_create_table == other.auto_create_table
        &&& self.include_metadata == other.include_metadata
        &&& self.include_checksum == other.include_checksum
        &&& self.include_origin_timestamp == other.include_origin_timestamp
        &&& self.payload_format@ == other.payload_format@
        &&& self.create_table == other.create_table
        &&& self.router_type == other.router_type
        &&& self.route_key@ == other.route_key@
    }

    /// A copy of the configuration.
    pub fn copy(&self) -> (config: Self)
        ensures
            config.agrees(*self),
    {
        FlussSinkConfig {
            bootstrap_servers: self.bootstrap_servers.clone(),
            fluss_database: self.fluss_database.clone(),
            fluss_table: self.fluss_table.clone(),
            batch_size: self.batch_size,
            auto_create_table: self.auto_create_table,
            include_metadata: self.include_metadata,
            include_checksum: self.include_checksum,
            include_origin_timestamp: self.include_origin_timestamp,
            payload_format: self.payload_format.clone(),
            create_table: self.create_table,
            router_type: self.router_type,
            route_key: self.route_key.clone(),
        }
    }
}

} // verus!
