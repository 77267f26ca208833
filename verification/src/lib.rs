//! Verified core of the Landscape router: DHCP lease pools and message
//! handling, DUID and prefix arithmetic, packet frame codecs, ICMPv6
//! options and router advertisements, the connection-metric engine (flow
//! cache, interface sums and buckets, persistence decisions) and the SQL of
//! its stores, DDNS job state, DNS redirect batches, firewall rule sets and
//! the PPPD supervisor.

pub mod bytes;
pub mod checksum;
pub mod clock;
pub mod duid;
pub mod frames;
pub mod icmpv6;
pub mod lease_table;
pub mod dhcpv6_pool;
pub mod dhcpv6_handler;
pub mod dhcpv6_wire;
pub mod ipv6_prefix;
pub mod inet;
pub mod dhcpv4_pool;
pub mod metric_ingest;
pub mod flow_cache;
pub mod metric_hot;
pub mod metric_sql;
pub mod metric_schema;
pub mod ddns;
pub mod dns_redirect;
pub mod pppd;
pub mod firewall;
pub mod system_status;
pub mod packet_mark;
pub mod wifi;
pub mod metric_totals;
pub mod metric_cleanup;
pub mod sorted;
pub mod nd_options;
pub mod ra;
