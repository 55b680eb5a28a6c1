//! The logic of an office portal: a browser file manager over a WebDAV
//! server, with editing through OnlyOffice Document Server.
//!
//! Every module below is verified. What the portal does over the network
//! (HTTP server, WebDAV and OpenID requests) is described here as plain
//! requests and replies; the program around the library carries them out.

pub mod b64;
pub mod config;
pub mod crypto;
pub mod dav;
pub mod docserver;
pub mod editor;
pub mod file_jwt;
pub mod files;
pub mod json;
pub mod jwt;
pub mod metrics;
pub mod multistatus;
pub mod numbers;
pub mod oidc;
pub mod onlyoffice;
pub mod promises;
pub mod record;
pub mod reply;
pub mod session;
pub mod signin;
pub mod text;
pub mod weburl;
pub mod xml;
