//! Errors of the trading client and of the connection helpers.
use vstd::prelude::*;

verus! {

/// Errors of the trading client.
#[derive(Debug)]
pub enum PocketError {
    /// A failure described by its message.
    General(String),
    /// An asset that the platform does not list, or that cannot be traded now.
    InvalidAsset(String),
    /// A candle period that cannot be used.
    InvalidPeriod(u32),
    /// A client module that is not running.
    ModuleNotFound(String),
}

/// Errors met while opening the websocket connection.
#[derive(Debug)]
pub enum ConnectorError {
    /// A failure of the client core.
    Core(String),
    /// The connection URL could not be read.
    UrlParsing(String),
    /// The handshake request could not be built.
    HttpRequestBuild(String),
    /// The connection was not made in time.
    Timeout,
    /// Any other failure, described by its message.
    Custom(String),
}

} // verus!
