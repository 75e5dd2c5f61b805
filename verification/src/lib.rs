//! Packet gateway and DNS answer pipeline of a local traffic-redirection proxy.
//!
//! The crate holds the parts that decide: the IPv4/ICMP/UDP codecs with their
//! Internet checksum, the per-packet rules of a virtual-subnet gateway, and the
//! rules that turn one DNS query and its upstream answer into one response.
//! Devices, sockets and the task runtime stay with the caller, which hands in
//! bytes and plain values and performs the actions that come back.
//!
//! - `wire`, `checksum`, `ipv4`: bytes, checksum and codecs;
//! - `subnet`: the network that a gateway owns;
//! - `reply`, `route`, `gateway`: what a gateway answers, the static routes,
//!   and the gateway itself;
//! - `dns`: the handler of DNS queries;
//! - `setting`, `text`: settings and the text they need.

pub mod checksum;
pub mod dns;
pub mod gateway;
pub mod ipv4;
pub mod reply;
pub mod route;
pub mod setting;
pub mod subnet;
pub mod text;
pub mod wire;
