//! The core of a SOCKS5 proxy server, with proofs.
//!
//! The library decides everything a proxy has to decide - how messages are
//! read and written, who may use the proxy, how a request is taken up, what
//! becomes of datagrams, when a client is told about an error - and leaves
//! sockets, timers and tasks to its caller:
//!
//! - [`protocol`], [`wire`] and [`reply`] hold the wire format;
//! - [`net`], [`address`] and [`text`] hold addresses, and how they are shown;
//! - [`auth`] holds method selection and credentials;
//! - [`session`] says how a session answers every event, [`client`] implements
//!   it, and [`run`] adds what follows when a session fails;
//! - [`udp`] holds the relaying of datagrams;
//! - [`server`], [`config`] and [`limits`] hold listening and configuration;
//! - [`laws`] and [`conversation`] prove what holds of all of it together.
pub mod address;
pub mod auth;
pub mod client;
pub mod config;
pub mod conversation;
pub mod error;
pub mod laws;
pub mod limits;
pub mod net;
pub mod protocol;
pub mod reply;
pub mod run;
pub mod server;
pub mod session;
pub mod text;
pub mod udp;
pub mod wire;

pub use address::{addr_to_socket, expected_ip, host_and_port, pretty_print_addr, Target};
pub use auth::{available_methods, check_credentials, choose_method, ct_eq, is_known, User};
pub use client::SOCKClient;
pub use config::{
    check_users_file, log_filter, log_level_for, require_users, select_auth_methods,
};
pub use error::{
    connect_timeout_error, truncated, IoError, IoErrorKind, MerinoError, ResponseCode,
};
pub use limits::{DEFAULT_CONNECT_TIMEOUT, DEFAULT_HANDSHAKE_TIMEOUT, DEFAULT_MAX_CONNECTIONS};
pub use net::{IpAddr, SocketAddr};
pub use protocol::{AddrType, AuthMethods, SOCKSReq, SockCommand, UdpRequest, UserPassRequest};
pub use reply::SocksReply;
pub use run::ClientRun;
pub use server::{
    addresses_to_bind, AcceptAction, AcceptEvent, AcceptLoop, AcceptStage, BindAttempts, Merino,
    SocksServer,
};
pub use session::{Action, Event, Stage};
pub use udp::{Forward, UdpAssociation};
pub use wire::{
    encode_udp_header, parse_greeting, parse_request, parse_udp_header, parse_userpass,
};
