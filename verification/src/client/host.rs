//! Where the client reaches the chain: one address, and the services under
//! it as subdomains.
use vstd::prelude::*;
use vstd::string::StringExecFns;

verus! {

/// The address of the site: protocol (with its colon), host and port (empty
/// for the protocol's default).
pub struct Host {
    protocol: String,
    host_addr: String,
    port: String,
}

/// The content of a [`Host`].
pub struct HostData {
    pub protocol: Seq<char>,
    pub host_addr: Seq<char>,
    pub port: Seq<char>,
}

impl View for Host {
    type V = HostData;

    closed spec fn view(&self) -> HostData {
        HostData { protocol: self.protocol@, host_addr: self.host_addr@, port: self.port@ }
    }
}

impl Clone for Host {
    fn clone(&self) -> (h: Self)
        ensures
            h@ == self@,
    {
        Host {
            protocol: self.protocol.clone(),
            host_addr: self.host_addr.clone(),
            port: self.port.clone(),
        }
    }
}

/// What follows the host in an address: `:` and the port, or nothing when
/// there is no port.
pub open spec fn port_suffix_of(port: Seq<char>) -> Seq<char> {
    if port.len() == 0 {
        Seq::empty()
    } else {
        ":"@ + port
    }
}

/// The address of the service `sub` (empty for the site itself) under the
/// host: protocol, `//`, `sub`, host, port suffix.
pub open spec fn service_address(h: HostData, sub: Seq<char>) -> Seq<char> {
    h.protocol + "//"@ + sub + h.host_addr + port_suffix_of(h.port)
}

impl Host {
    pub fn new(protocol: String, host_addr: String, port: String) -> (h: Host)
        ensures
            h@ == (HostData { protocol: protocol@, host_addr: host_addr@, port: port@ }),
    {
        Host { protocol, host_addr, port }
    }

    /// `:` and the port, or nothing when there is no port.
    pub fn port_suffix(&self) -> (s: String)
        ensures
            s@ == port_suffix_of(self@.port),
    {
        if !self.port.as_str().is_empty() {
            let mut s = String::from_str(":");
            s.append(self.port.as_str());
            s
        } else {
            String::new()
        }
    }

    fn service(&self, sub: &str) -> (s: String)
        ensures
            s@ == service_address(self@, sub@),
    {
        let mut s = self.protocol.clone();
        s.append("//");
        s.append(sub);
        s.append(self.host_addr.as_str());
        let suffix = self.port_suffix();
        s.append(suffix.as_str());
        s
    }

    /// The address of the site.
    pub fn endpoint(&self) -> (s: String)
        ensures
            s@ == service_address(self@, Seq::empty()),
    {
        proof {
            reveal_strlit("");
        }
        self.service("")
    }

    /// The address of the chain's RPC service, under `tendermint.`.
    pub fn tendermint_endpoint(&self) -> (s: String)
        ensures
            s@ == service_address(self@, "tendermint."@),
    {
        self.service("tendermint.")
    }

    /// The address of the chain's gRPC service, under `grpc.`.
    pub fn grpc_endpoint(&self) -> (s: String)
        ensures
            s@ == service_address(self@, "grpc."@),
    {
        self.service("grpc.")
    }

    /// The address of the faucet, under `faucet.`.
    pub fn faucet_endpoint(&self) -> (s: String)
        ensures
            s@ == service_address(self@, "faucet."@),
    {
        self.service("faucet.")
    }
}

} // verus!
