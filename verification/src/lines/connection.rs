//! The `c=` (connection) grammar: `c=IN IP4 10.23.42.137`.

use vstd::prelude::*;

use crate::parsers::{at_end, dec_str, match_lit, occurs_at, read_addr, read_ipver, read_number,
    skip_wsp, skip_ws, spec_read_addr, spec_read_ipver, spec_read_num, spec_render_addr,
    spec_render_ipver, u32_to_string, IpAddress, IpAddressV, IpVer};

verus! {

/// Connection line value.
#[derive(Clone, PartialEq, Eq, Debug)]
pub struct Connection {
    pub ip_ver: IpVer,
    pub addr: IpAddress,
    pub mask: Option<u32>,
}

/// Spec model of [`Connection`].
pub ghost struct ConnectionV {
    pub ip_ver: IpVer,
    pub addr: IpAddressV,
    pub mask: Option<u32>,
}

impl DeepView for Connection {
    type V = ConnectionV;

    open spec fn deep_view(&self) -> ConnectionV {
        ConnectionV { ip_ver: self.ip_ver, addr: self.addr@, mask: self.mask }
    }
}

/// A whole `c=` line: the literal `IN`, the IP version tag, the address and
/// an optional `/<mask>` suffix.
pub open spec fn spec_connection_line(s: Seq<char>) -> Option<ConnectionV> {
    if occurs_at(s, 0, "c="@) {
        let i = skip_wsp(s, "c="@.len() as int);
        if occurs_at(s, i, "IN"@) {
            let k = skip_wsp(s, i + "IN"@.len());
            match spec_read_ipver(s, k) {
                None => None,
                Some((j1, ipv)) => {
                    let k1 = skip_wsp(s, j1);
                    match spec_read_addr(s, k1) {
                        None => None,
                        Some((j2, addr)) => {
                            if occurs_at(s, j2, "/"@) {
                                match spec_read_num(s, j2 + "/"@.len(), u32::MAX as int) {
                                    None => None,
                                    Some((e, m)) => {
                                        if skip_wsp(s, e) == s.len() {
                                            Some(
                                                (ConnectionV {
                                                    ip_ver: ipv,
                                                    addr,
                                                    mask: Some(m as u32),
                                                }),
                                            )
                                        } else {
                                            None
                                        }
                                    },
                                }
                            } else {
                                if skip_wsp(s, j2) == s.len() {
                                    Some((ConnectionV { ip_ver: ipv, addr, mask: None }))
                                } else {
                                    None
                                }
                            }
                        },
                    }
                },
            }
        } else {
            None
        }
    } else {
        None
    }
}

/// Parse a `c=` line.
pub fn connection_line(input: &str) -> (r: Option<Connection>)
    ensures
        r.deep_view() == spec_connection_line(input@),
{
    if !match_lit(input, 0, "c=") {
        return None;
    }
    let n = input.unicode_len();
    let i = skip_ws(input, "c=".unicode_len());
    if !match_lit(input, i, "IN") {
        return None;
    }
    let m = "IN".unicode_len();
    assert(i + m <= n);
    let k = skip_ws(input, i + m);
    let ipv = match read_ipver(input, k) {
        Some(x) => x,
        None => {
            return None;
        },
    };
    let k1 = skip_ws(input, ipv.0);
    let addr = match read_addr(input, k1) {
        Some(x) => x,
        None => {
            return None;
        },
    };
    if match_lit(input, addr.0, "/") {
        let msl = "/".unicode_len();
        assert(addr.0 + msl <= n);
        match read_number(input, addr.0 + msl) {
            None => None,
            Some((e, m)) => {
                if at_end(input, e) {
                    Some(Connection { ip_ver: ipv.1, addr: addr.1, mask: Some(m) })
                } else {
                    None
                }
            },
        }
    } else {
        if at_end(input, addr.0) {
            Some(Connection { ip_ver: ipv.1, addr: addr.1, mask: None })
        } else {
            None
        }
    }
}

pub open spec fn spec_render_connection(v: ConnectionV) -> Seq<char> {
    let base = "c=IN "@ + spec_render_ipver(v.ip_ver) + " "@ + spec_render_addr(v.addr);
    match v.mask {
        Some(m) => base + "/"@ + dec_str(m as int),
        None => base,
    }
}

impl Connection {
    /// Render as `c=IN <ip-ver> <addr>[/<mask>]`.
    pub fn to_string(&self) -> (r: String)
        ensures
            r@ == spec_render_connection(self.deep_view()),
    {
        let mut out = "c=IN ".to_owned();
        out.append(self.ip_ver.to_string().as_str());
        out.append(" ");
        out.append(self.addr.to_string().as_str());
        match &self.mask {
            Some(m) => {
                out.append("/");
                out.append(u32_to_string(*m).as_str());
            },
            None => {},
        }
        out
    }

    /// Detach the connection into independently owned storage.
    pub fn into_owned(&self) -> (r: Connection)
        ensures
            r.deep_view() == self.deep_view(),
    {
        Connection { ip_ver: self.ip_ver, addr: self.addr.into_owned(), mask: self.mask }
    }
}

} // verus!
