//! Local network device discovery: subnet enumeration, reverse-zone names,
//! interpretation of DNS, link-layer and service-discovery answers, and the
//! merge of all of them into one inventory keyed by MAC address.
pub mod text;
pub mod addr;
pub mod iface;
pub mod subnet;
pub mod resolve;
pub mod vendor;
pub mod link;
pub mod services;
pub mod merge;
pub mod report;
pub mod agent;

pub use addr::{IpAddress, MacAddress, arpa_name, dotted_text};
pub use agent::{Agent, AgentConfig, Command, Step, agent_default};
pub use merge::{DiscoveredDevice, discover_devices};
pub use report::{ApiError, DevicePing, PingReport, ping_report};
pub use vendor::{VendorTable, get_vendor_for_mac};
