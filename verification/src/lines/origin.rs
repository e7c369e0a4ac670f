//! The `o=` (origin) grammar: `o=- 20518 0 IN IP4 203.0.113.1`.

use vstd::prelude::*;

use crate::parsers::{at_end, dec_str, match_lit, occurs_at, read_addr, read_big_number,
    read_ipver, read_number, read_string, skip_wsp, skip_ws, spec_read_addr, spec_read_ipver,
    spec_read_num, spec_render_addr, spec_render_ipver, token_end, u32_to_string, u64_to_string,
    IpAddress, IpAddressV, IpVer, StopAt};

verus! {

/// Origin line value.
#[derive(Clone, PartialEq, Eq, Debug)]
pub struct Origin {
    pub user_name: String,
    pub session_id: u64,
    pub session_version: u32,
    pub net_type: String,
    pub ip_ver: IpVer,
    pub addr: IpAddress,
}

/// Spec model of [`Origin`].
pub ghost struct OriginV {
    pub user_name: Seq<char>,
    pub session_id: u64,
    pub session_version: u32,
    pub net_type: Seq<char>,
    pub ip_ver: IpVer,
    pub addr: IpAddressV,
}

impl DeepView for Origin {
    type V = OriginV;

    open spec fn deep_view(&self) -> OriginV {
        OriginV {
            user_name: self.user_name@,
            session_id: self.session_id,
            session_version: self.session_version,
            net_type: self.net_type@,
            ip_ver: self.ip_ver,
            addr: self.addr@,
        }
    }
}

/// The origin body starting at `i`: user name, session id, session version,
/// network type, IP version and address, whitespace-separated.
pub open spec fn spec_origin(s: Seq<char>, i: int) -> Option<(int, OriginV)> {
    let i1 = skip_wsp(s, i);
    let j1 = token_end(s, i1, StopAt::Space);
    if j1 == i1 {
        None
    } else {
        let k1 = skip_wsp(s, j1);
        match spec_read_num(s, k1, u64::MAX as int) {
            None => None,
            Some((j2, sid)) => {
                let k2 = skip_wsp(s, j2);
                match spec_read_num(s, k2, u32::MAX as int) {
                    None => None,
                    Some((j3, sver)) => {
                        let k3 = skip_wsp(s, j3);
                        let j4 = token_end(s, k3, StopAt::Space);
                        if j4 == k3 {
                            None
                        } else {
                            let k4 = skip_wsp(s, j4);
                            match spec_read_ipver(s, k4) {
                                None => None,
                                Some((j5, ipv)) => {
                                    let k5 = skip_wsp(s, j5);
                                    match spec_read_addr(s, k5) {
                                        None => None,
                                        Some((j6, addr)) => Some(
                                            (
                                                j6,
                                                OriginV {
                                                    user_name: s.subrange(i1, j1),
                                                    session_id: sid as u64,
                                                    session_version: sver as u32,
                                                    net_type: s.subrange(k3, j4),
                                                    ip_ver: ipv,
                                                    addr,
                                                },
                                            ),
                                        ),
                                    }
                                },
                            }
                        }
                    },
                }
            },
        }
    }
}

/// Read an origin body at `i`.
pub fn origin(input: &str, i: usize) -> (r: Option<(usize, Origin)>)
    requires
        i <= input@.len(),
    ensures
        match r {
            Some((j, v)) => {
                &&& spec_origin(input@, i as int) matches Some((je, ve)) && je == j as int && ve
                    == v.deep_view()
                &&& i <= j <= input@.len()
            },
            None => spec_origin(input@, i as int) is None,
        },
{
    let i1 = skip_ws(input, i);
    let user = match read_string(input, i1) {
        Some(x) => x,
        None => {
            return None;
        },
    };
    let k1 = skip_ws(input, user.0);
    let sid = match read_big_number(input, k1) {
        Some(x) => x,
        None => {
            return None;
        },
    };
    let k2 = skip_ws(input, sid.0);
    let sver = match read_number(input, k2) {
        Some(x) => x,
        None => {
            return None;
        },
    };
    let k3 = skip_ws(input, sver.0);
    let net = match read_string(input, k3) {
        Some(x) => x,
        None => {
            return None;
        },
    };
    let k4 = skip_ws(input, net.0);
    let ipv = match read_ipver(input, k4) {
        Some(x) => x,
        None => {
            return None;
        },
    };
    let k5 = skip_ws(input, ipv.0);
    let addr = match read_addr(input, k5) {
        Some(x) => x,
        None => {
            return None;
        },
    };
    Some(
        (
            addr.0,
            Origin {
                user_name: user.1,
                session_id: sid.1,
                session_version: sver.1,
                net_type: net.1,
                ip_ver: ipv.1,
                addr: addr.1,
            },
        ),
    )
}

/// A whole `o=` line.
pub open spec fn spec_origin_line(s: Seq<char>) -> Option<OriginV> {
    if occurs_at(s, 0, "o="@) {
        match spec_origin(s, "o="@.len() as int) {
            Some((e, v)) => {
                if skip_wsp(s, e) == s.len() {
                    Some(v)
                } else {
                    None
                }
            },
            None => None,
        }
    } else {
        None
    }
}

/// Parse an `o=` line.
pub fn origin_line(input: &str) -> (r: Option<Origin>)
    ensures
        r.deep_view() == spec_origin_line(input@),
{
    if match_lit(input, 0, "o=") {
        match origin(input, "o=".unicode_len()) {
            Some((e, v)) => {
                if at_end(input, e) {
                    Some(v)
                } else {
                    None
                }
            },
            None => None,
        }
    } else {
        None
    }
}

pub open spec fn spec_render_origin(v: OriginV) -> Seq<char> {
    "o="@ + v.user_name + " "@ + dec_str(v.session_id as int) + " "@ + dec_str(
        v.session_version as int,
    ) + " "@ + v.net_type + " "@ + spec_render_ipver(v.ip_ver) + " "@ + spec_render_addr(v.addr)
}

impl Origin {
    /// Render as `o=<user> <id> <version> <net-type> <ip-ver> <addr>`.
    pub fn to_string(&self) -> (r: String)
        ensures
            r@ == spec_render_origin(self.deep_view()),
    {
        let mut out = "o=".to_owned();
        out.append(self.user_name.as_str());
        out.append(" ");
        out.append(u64_to_string(self.session_id).as_str());
        out.append(" ");
        out.append(u32_to_string(self.session_version).as_str());
        out.append(" ");
        out.append(self.net_type.as_str());
        out.append(" ");
        out.append(self.ip_ver.to_string().as_str());
        out.append(" ");
        out.append(self.addr.to_string().as_str());
        out
    }

    /// Detach the origin into independently owned storage.
    pub fn into_owned(&self) -> (r: Origin)
        ensures
            r.deep_view() == self.deep_view(),
    {
        Origin {
            user_name: self.user_name.clone(),
            session_id: self.session_id,
            session_version: self.session_version,
            net_type: self.net_type.clone(),
            ip_ver: self.ip_ver,
            addr: self.addr.into_owned(),
        }
    }
}

} // verus!
