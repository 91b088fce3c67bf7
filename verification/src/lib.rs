//! Verified core of the Fungi daemon: service manifests and the state kept
//! of managed services, service-control messages between devices, access
//! to remote services through TCP tunnels, and what the daemon reports of
//! its peers, connections and devices.

pub mod apply;
pub mod connections;
pub mod daemon_args;
pub mod device_services;
pub mod docker;
pub mod document;
pub mod endpoint_listeners;
pub mod file_positions;
pub mod instances;
pub mod listen_addresses;
pub mod local_devices;
pub mod manifest;
pub mod manifest_export;
pub mod model;
pub mod node_capabilities;
pub mod ordered;
pub mod paths;
pub mod recipes;
pub mod remote_logs;
pub mod remote_services;
pub mod request_handling;
pub mod round_trip;
pub mod service_control;
pub mod service_file;
pub mod service_listing;
pub mod service_state;
pub mod sorting;
pub mod startup;
pub mod stream_selection;
pub mod text;
pub mod transfer_paths;
pub mod tunnel_rules;
pub mod wasmtime;
pub mod yaml;
