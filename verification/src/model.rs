//! The local data model: connection records, IPv4 and wireless settings
//! as read from the remote service, and the single error kind that every
//! remote failure is reported as.

use vstd::prelude::*;

verus! {

/// The single error kind of this crate: it wraps any transport, lookup,
/// or remote-property-read failure, with no sub-kinds beyond its text.
#[derive(Debug, PartialEq, Eq)]
pub struct ServiceError {
    pub message: String,
}

impl View for ServiceError {
    type V = Seq<char>;

    open spec fn view(&self) -> Seq<char> {
        self.message@
    }
}

impl ServiceError {
    pub fn new(message: String) -> (r: ServiceError)
        ensures
            r@ == message@,
    {
        ServiceError { message }
    }
}

/// Wireless settings of one connection, mirroring the remote wireless
/// configuration object's properties.
#[derive(Debug, PartialEq, Eq)]
pub struct WirelessSettings {
    pub mode: String,
    pub password: String,
    pub security: String,
    pub ssid: String,
}

/// Mathematical value of a [`WirelessSettings`].
#[verifier::ext_equal]
pub struct WirelessSettingsView {
    pub mode: Seq<char>,
    pub password: Seq<char>,
    pub security: Seq<char>,
    pub ssid: Seq<char>,
}

impl View for WirelessSettings {
    type V = WirelessSettingsView;

    open spec fn view(&self) -> WirelessSettingsView {
        WirelessSettingsView {
            mode: self.mode@,
            password: self.password@,
            security: self.security@,
            ssid: self.ssid@,
        }
    }
}

/// One connection's IPv4 configuration as read from the remote service:
/// the method, the gateway, the nameserver list, and the address/prefix
/// pairs, still unformatted.
#[derive(Debug, PartialEq, Eq)]
pub struct Ipv4Config {
    pub method: String,
    pub gateway: String,
    pub nameservers: Vec<String>,
    pub addresses: Vec<(String, u32)>,
}

/// Mathematical value of an [`Ipv4Config`].
#[verifier::ext_equal]
pub struct Ipv4ConfigView {
    pub method: Seq<char>,
    pub gateway: Seq<char>,
    pub nameservers: Seq<Seq<char>>,
    pub addresses: Seq<(Seq<char>, u32)>,
}

impl View for Ipv4Config {
    type V = Ipv4ConfigView;

    open spec fn view(&self) -> Ipv4ConfigView {
        Ipv4ConfigView {
            method: self.method@,
            gateway: self.gateway@,
            nameservers: self.nameservers.deep_view(),
            addresses: self.addresses.deep_view(),
        }
    }
}

/// One connection record: the path-derived name, the formatted IPv4
/// data, and the wireless settings where the remote object had any.
#[derive(Debug, PartialEq, Eq)]
pub struct NetworkConnection {
    pub name: String,
    pub gateway: String,
    pub addresses: Vec<String>,
    pub nameservers: Vec<String>,
    pub wireless: Option<WirelessSettings>,
}

/// Mathematical value of a [`NetworkConnection`].
#[verifier::ext_equal]
pub struct NetworkConnectionView {
    pub name: Seq<char>,
    pub gateway: Seq<char>,
    pub addresses: Seq<Seq<char>>,
    pub nameservers: Seq<Seq<char>>,
    pub wireless: Option<WirelessSettingsView>,
}

impl View for NetworkConnection {
    type V = NetworkConnectionView;

    open spec fn view(&self) -> NetworkConnectionView {
        NetworkConnectionView {
            name: self.name@,
            gateway: self.gateway@,
            addresses: self.addresses.deep_view(),
            nameservers: self.nameservers.deep_view(),
            wireless: match self.wireless {
                Some(w) => Some(w@),
                None => None,
            },
        }
    }
}

} // verus!
