//! The data model: a wallet's role, its binding, and the wallet itself.
use vstd::prelude::*;

verus! {

/// Role of an address, as found by the remote membership checks.
/// `NULL` stands for an address that no check accepted.
#[derive(Debug, Clone, Copy, PartialEq, Eq, Structural)]
pub enum AddressType {
    MASTER,
    SUB,
    NULL,
}

/// Binding of a wallet to a deployment order.
/// `NOTASSIGNED` is the initial state; `DEPLOYING` waits for a first liveness
/// report; `DEPLOYED` has had at least one.
#[derive(Debug, Clone)]
pub enum Deployed {
    NOTASSIGNED,
    DEPLOYING { orderid: u32, serverid: u32, sshaddr: Option<String>, sshport: Option<u16> },
    DEPLOYED { orderid: u32, serverid: u32, sshaddr: Option<String>, sshport: Option<u16> },
}

/// One tracked address. Times are seconds since the Unix epoch.
#[derive(Debug, Clone)]
pub struct Wallet {
    pub address: String,
    pub addr_type: AddressType,
    pub start_time: Option<i64>,
    pub report_last_time: Option<i64>,
    pub deploy: Deployed,
}

/// Two optional texts hold the same characters.
pub open spec fn same_text(a: Option<String>, b: Option<String>) -> bool {
    match a {
        Some(x) => match b {
            Some(y) => x@ == y@,
            None => false,
        },
        None => b is None,
    }
}

/// Two bindings are equal, texts compared by their characters.
pub open spec fn same_binding(a: Deployed, b: Deployed) -> bool {
    match a {
        Deployed::NOTASSIGNED => b is NOTASSIGNED,
        Deployed::DEPLOYING { orderid, serverid, sshaddr, sshport } => match b {
            Deployed::DEPLOYING { orderid: o, serverid: s, sshaddr: a2, sshport: p } => orderid == o
                && serverid == s && same_text(sshaddr, a2) && sshport == p,
            _ => false,
        },
        Deployed::DEPLOYED { orderid, serverid, sshaddr, sshport } => match b {
            Deployed::DEPLOYED { orderid: o, serverid: s, sshaddr: a2, sshport: p } => orderid == o
                && serverid == s && same_text(sshaddr, a2) && sshport == p,
            _ => false,
        },
    }
}

/// Two wallets are equal, texts compared by their characters.
pub open spec fn same_wallet(a: Wallet, b: Wallet) -> bool {
    &&& a.address@ == b.address@
    &&& a.addr_type == b.addr_type
    &&& a.start_time == b.start_time
    &&& a.report_last_time == b.report_last_time
    &&& same_binding(a.deploy, b.deploy)
}

fn copy_text(a: &Option<String>) -> (r: Option<String>)
    ensures
        r == *a,
{
    match a {
        Some(s) => Some(s.clone()),
        None => None,
    }
}

fn equal_text(a: &Option<String>, b: &Option<String>) -> (r: bool)
    ensures
        r == same_text(*a, *b),
{
    match a {
        Some(x) => match b {
            Some(y) => *x == *y,
            None => false,
        },
        None => b.is_none(),
    }
}

impl Deployed {
    /// An exact copy of the binding.
    pub fn duplicate(&self) -> (r: Deployed)
        ensures
            r == *self,
    {
        match self {
            Deployed::NOTASSIGNED => Deployed::NOTASSIGNED,
            Deployed::DEPLOYING { orderid, serverid, sshaddr, sshport } => Deployed::DEPLOYING {
                orderid: *orderid,
                serverid: *serverid,
                sshaddr: copy_text(sshaddr),
                sshport: *sshport,
            },
            Deployed::DEPLOYED { orderid, serverid, sshaddr, sshport } => Deployed::DEPLOYED {
                orderid: *orderid,
                serverid: *serverid,
                sshaddr: copy_text(sshaddr),
                sshport: *sshport,
            },
        }
    }

    /// Whether the binding is the initial, unassigned one.
    pub fn is_unassigned(&self) -> (r: bool)
        ensures
            r == (*self is NOTASSIGNED),
    {
        match self {
            Deployed::NOTASSIGNED => true,
            _ => false,
        }
    }
}

impl PartialEq for Deployed {
    fn eq(&self, other: &Deployed) -> (r: bool) {
        match self {
            Deployed::NOTASSIGNED => other.is_unassigned(),
            Deployed::DEPLOYING { orderid, serverid, sshaddr, sshport } => match other {
                Deployed::DEPLOYING { orderid: o, serverid: s, sshaddr: a, sshport: p } => *orderid
                    == *o && *serverid == *s && equal_text(sshaddr, a) && *sshport == *p,
                _ => false,
            },
            Deployed::DEPLOYED { orderid, serverid, sshaddr, sshport } => match other {
                Deployed::DEPLOYED { orderid: o, serverid: s, sshaddr: a, sshport: p } => *orderid
                    == *o && *serverid == *s && equal_text(sshaddr, a) && *sshport == *p,
                _ => false,
            },
        }
    }
}

impl vstd::std_specs::cmp::PartialEqSpecImpl for Deployed {
    open spec fn obeys_eq_spec() -> bool {
        true
    }

    open spec fn eq_spec(&self, other: &Deployed) -> bool {
        same_binding(*self, *other)
    }
}

impl Wallet {
    /// A wallet with no times set and no binding.
    pub fn new(address: String, addr_type: AddressType) -> (r: Wallet)
        ensures
            r == (Wallet {
                address,
                addr_type,
                start_time: None,
                report_last_time: None,
                deploy: Deployed::NOTASSIGNED,
            }),
    {
        Wallet {
            address,
            addr_type,
            start_time: None,
            report_last_time: None,
            deploy: Deployed::NOTASSIGNED,
        }
    }

    /// An exact copy of the wallet.
    pub fn duplicate(&self) -> (r: Wallet)
        ensures
            r == *self,
    {
        Wallet {
            address: self.address.clone(),
            addr_type: self.addr_type,
            start_time: self.start_time,
            report_last_time: self.report_last_time,
            deploy: self.deploy.duplicate(),
        }
    }
}

impl PartialEq for Wallet {
    fn eq(&self, other: &Wallet) -> (r: bool) {
        self.address == other.address && self.addr_type == other.addr_type && self.start_time
            == other.start_time && self.report_last_time == other.report_last_time && self.deploy
            == other.deploy
    }
}

impl vstd::std_specs::cmp::PartialEqSpecImpl for Wallet {
    open spec fn obeys_eq_spec() -> bool {
        true
    }

    open spec fn eq_spec(&self, other: &Wallet) -> bool {
        same_wallet(*self, *other)
    }
}

} // verus!
