//! The records exchanged with the master directory and the location service.

use vstd::prelude::*;

verus! {

/// One joinable server instance as the directory reports it.
#[derive(Debug, Clone, PartialEq, Eq)]
pub struct ServerInfo {
    pub id: i64,
    pub ip: String,
    pub port: u32,
    pub hostname: String,
    pub clientnum: u8,
    pub maxclientnum: u8,
    pub game: String,
}

/// Mathematical model of a [`ServerInfo`].
pub struct ServerInfoView {
    pub id: int,
    pub ip: Seq<char>,
    pub port: nat,
    pub hostname: Seq<char>,
    pub clientnum: nat,
    pub maxclientnum: nat,
    pub game: Seq<char>,
}

impl View for ServerInfo {
    type V = ServerInfoView;

    open spec fn view(&self) -> ServerInfoView {
        ServerInfoView {
            id: self.id as int,
            ip: self.ip@,
            port: self.port as nat,
            hostname: self.hostname@,
            clientnum: self.clientnum as nat,
            maxclientnum: self.maxclientnum as nat,
            game: self.game@,
        }
    }
}

impl DeepView for ServerInfo {
    type V = ServerInfoView;

    open spec fn deep_view(&self) -> ServerInfoView {
        self.view()
    }
}

/// One directory entry: a hoster's address and the servers it reports.
#[derive(Debug, Clone, PartialEq, Eq)]
pub struct HostData {
    pub ip_address: String,
    pub webfront_url: String,
    pub servers: Vec<ServerInfo>,
}

/// Mathematical model of a [`HostData`].
pub struct HostDataView {
    pub ip_address: Seq<char>,
    pub webfront_url: Seq<char>,
    pub servers: Seq<ServerInfoView>,
}

impl View for HostData {
    type V = HostDataView;

    open spec fn view(&self) -> HostDataView {
        HostDataView {
            ip_address: self.ip_address@,
            webfront_url: self.webfront_url@,
            servers: self.servers.deep_view(),
        }
    }
}

impl DeepView for HostData {
    type V = HostDataView;

    open spec fn deep_view(&self) -> HostDataView {
        self.view()
    }
}

/// Continent of an address, as the location service names it.
#[derive(Debug, Clone, PartialEq, Eq)]
pub struct Continent {
    pub code: String,
}

/// Answer of the location service: a continent, or a message saying why not.
#[derive(Debug, Clone, PartialEq, Eq)]
pub struct ServerLocation {
    pub continent: Option<Continent>,
    pub message: Option<String>,
}

/// Answer of the release feed.
#[derive(Debug, Clone, PartialEq, Eq)]
pub struct Version {
    pub latest: String,
}

} // verus!
