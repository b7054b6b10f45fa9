//! Verified core of a Wi-Fi access point that serves a GPIO control page.
pub mod connection;
pub mod gpio;
pub mod network;
pub mod routes;
pub mod text;
pub mod web;
