pub mod netlink;
pub mod domap;
pub mod config;
pub mod textutil;
pub mod htp;
pub mod auth;
pub mod service;
pub mod cv;
pub mod version;
pub mod tunnels;
pub mod acclog;
pub mod xport;
pub mod dns;
pub mod lws;
pub mod requests;
pub mod laws;
