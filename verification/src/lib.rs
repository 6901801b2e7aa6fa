use vstd::prelude::*;

pub mod admins;
pub mod alert;
pub mod assets;
pub mod assoc;
pub mod audit;
pub mod cache;
pub mod calendar;
pub mod cli;
pub mod clock;
pub mod feeds;
pub mod form;
pub mod handler;
pub mod host;
pub mod login;
pub mod mail;
pub mod nonce;
pub mod ozone;
pub mod principal;
pub mod public;
pub mod request;
pub mod seal;
pub mod security;
pub mod session;
pub mod shell;
pub mod text;
pub mod tls;
pub mod traffic;
pub mod traffic_view;
pub mod wallet;
pub mod web;

verus! {
} // verus!
