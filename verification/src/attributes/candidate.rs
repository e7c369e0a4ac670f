//! The `a=candidate:` (ICE candidate) grammar.
//!
//! After the fixed fields, the trailing `key value` pairs (`raddr`, `rport`,
//! `tcptype`, `generation`, `network-id`) are each optional, may arrive in
//! any order, at most once each, and render in a fixed order.

use vstd::prelude::*;

use crate::parsers::{dec_str, lemma_skip_wsp_bounds, lemma_token_end_bounds, match_lit, occurs_at,
    read_addr, read_number, read_string, scan, skip_wsp, skip_ws, spec_read_addr, spec_read_num,
    spec_render_addr, token_end, u32_to_string, IpAddress, IpAddressV, StopAt};

verus! {

/// Candidate component: RTP (`1`) or RTCP (`2`).
#[derive(Clone, Copy, PartialEq, Eq, Structural, Debug)]
pub enum CandidateComponent {
    Rtp,
    Rtcp,
}

/// Candidate transport protocol (case-insensitive in input).
#[derive(Clone, Copy, PartialEq, Eq, Structural, Debug)]
pub enum CandidateProtocol {
    Tcp,
    Udp,
    Dccp,
}

/// Candidate type after the literal `typ`.
#[derive(Clone, Copy, PartialEq, Eq, Structural, Debug)]
pub enum CandidateType {
    Host,
    Relay,
    Srflx,
    Prflx,
}

/// ICE candidate line value.
#[derive(Clone, PartialEq, Eq, Debug)]
pub struct Candidate {
    pub foundation: u32,
    pub component: CandidateComponent,
    pub protocol: CandidateProtocol,
    pub priority: u32,
    pub addr: IpAddress,
    pub port: u32,
    pub kind: CandidateType,
    pub raddr: Option<IpAddress>,
    pub rport: Option<u32>,
    pub tcptype: Option<String>,
    pub generation: Option<u32>,
    pub network_id: Option<u32>,
}

/// Spec model of [`Candidate`].
pub ghost struct CandidateV {
    pub foundation: u32,
    pub component: CandidateComponent,
    pub protocol: CandidateProtocol,
    pub priority: u32,
    pub addr: IpAddressV,
    pub port: u32,
    pub kind: CandidateType,
    pub raddr: Option<IpAddressV>,
    pub rport: Option<u32>,
    pub tcptype: Option<Seq<char>>,
    pub generation: Option<u32>,
    pub network_id: Option<u32>,
}

impl DeepView for Candidate {
    type V = CandidateV;

    open spec fn deep_view(&self) -> CandidateV {
        CandidateV {
            foundation: self.foundation,
            component: self.component,
            protocol: self.protocol,
            priority: self.priority,
            addr: self.addr@,
            port: self.port,
            kind: self.kind,
            raddr: self.raddr.deep_view(),
            rport: self.rport,
            tcptype: self.tcptype.deep_view(),
            generation: self.generation,
            network_id: self.network_id,
        }
    }
}

/// The optional trailing pairs, accumulated.
pub ghost struct CandOpts {
    pub raddr: Option<IpAddressV>,
    pub rport: Option<u32>,
    pub tcptype: Option<Seq<char>>,
    pub generation: Option<u32>,
    pub network_id: Option<u32>,
}

/// The trailing `key value` pairs from `i` to the end of the line, each key
/// at most once, in any order.
pub open spec fn spec_cand_opts(s: Seq<char>, i: int, acc: CandOpts) -> Option<CandOpts>
    decreases s.len() - i,
    when 0 <= i <= s.len()
    via spec_cand_opts_dec
{
    let k = skip_wsp(s, i);
    if k == s.len() {
        Some(acc)
    } else {
        let j = token_end(s, k, StopAt::Space);
        let key = s.subrange(k, j);
        let k2 = skip_wsp(s, j);
        if key == "raddr"@ && acc.raddr is None {
            match spec_read_addr(s, k2) {
                Some((j2, a)) => spec_cand_opts(
                    s,
                    j2,
                    CandOpts { raddr: Some(a), ..acc },
                ),
                None => None,
            }
        } else if key == "rport"@ && acc.rport is None {
            match spec_read_num(s, k2, u32::MAX as int) {
                Some((j2, v)) => spec_cand_opts(
                    s,
                    j2,
                    CandOpts { rport: Some(v as u32), ..acc },
                ),
                None => None,
            }
        } else if key == "tcptype"@ && acc.tcptype is None {
            let j2 = token_end(s, k2, StopAt::Space);
            if j2 > k2 {
                spec_cand_opts(s, j2, CandOpts { tcptype: Some(s.subrange(k2, j2)), ..acc })
            } else {
                None
            }
        } else if key == "generation"@ && acc.generation is None {
            match spec_read_num(s, k2, u32::MAX as int) {
                Some((j2, v)) => spec_cand_opts(
                    s,
                    j2,
                    CandOpts { generation: Some(v as u32), ..acc },
                ),
                None => None,
            }
        } else if key == "network-id"@ && acc.network_id is None {
            match spec_read_num(s, k2, u32::MAX as int) {
                Some((j2, v)) => spec_cand_opts(
                    s,
                    j2,
                    CandOpts { network_id: Some(v as u32), ..acc },
                ),
                None => None,
            }
        } else {
            None
        }
    }
}

#[via_fn]
proof fn spec_cand_opts_dec(s: Seq<char>, i: int, acc: CandOpts) {
    lemma_skip_wsp_bounds(s, i);
    let k = skip_wsp(s, i);
    if k < s.len() {
        assert(!crate::parsers::is_wsp(s[k]));
        assert(token_end(s, k, StopAt::Space) == token_end(s, k + 1, StopAt::Space));
        lemma_token_end_bounds(s, k + 1, StopAt::Space);
        let j = token_end(s, k, StopAt::Space);
        lemma_skip_wsp_bounds(s, j);
        let k2 = skip_wsp(s, j);
        lemma_token_end_bounds(s, k2, StopAt::Slash);
        lemma_token_end_bounds(s, k2, StopAt::NumDelim);
        lemma_token_end_bounds(s, k2, StopAt::Space);
    }
}

/// The candidate body starting at `i`, running to the end of the line.
pub open spec fn spec_candidate(s: Seq<char>, i: int) -> Option<CandidateV> {
    let i1 = skip_wsp(s, i);
    match spec_read_num(s, i1, u32::MAX as int) {
        None => None,
        Some((j1, foundation)) => {
            let k1 = skip_wsp(s, j1);
            let comp: Option<(int, CandidateComponent)> = if occurs_at(s, k1, "1"@) {
                Some((k1 + "1"@.len(), CandidateComponent::Rtp))
            } else if occurs_at(s, k1, "2"@) {
                Some((k1 + "2"@.len(), CandidateComponent::Rtcp))
            } else {
                None
            };
            match comp {
                None => None,
                Some((j2, component)) => {
                    let k2 = skip_wsp(s, j2);
                    let proto: Option<(int, CandidateProtocol)> = if occurs_at(s, k2, "UDP"@) {
                        Some((k2 + "UDP"@.len(), CandidateProtocol::Udp))
                    } else if occurs_at(s, k2, "udp"@) {
                        Some((k2 + "udp"@.len(), CandidateProtocol::Udp))
                    } else if occurs_at(s, k2, "TCP"@) {
                        Some((k2 + "TCP"@.len(), CandidateProtocol::Tcp))
                    } else if occurs_at(s, k2, "tcp"@) {
                        Some((k2 + "tcp"@.len(), CandidateProtocol::Tcp))
                    } else if occurs_at(s, k2, "DCCP"@) {
                        Some((k2 + "DCCP"@.len(), CandidateProtocol::Dccp))
                    } else if occurs_at(s, k2, "dccp"@) {
                        Some((k2 + "dccp"@.len(), CandidateProtocol::Dccp))
                    } else {
                        None
                    };
                    match proto {
                        None => None,
                        Some((j3, protocol)) => {
                            let k3 = skip_wsp(s, j3);
                            match spec_read_num(s, k3, u32::MAX as int) {
                                None => None,
                                Some((j4, priority)) => {
                                    let k4 = skip_wsp(s, j4);
                                    match spec_read_addr(s, k4) {
                                        None => None,
                                        Some((j5, addr)) => {
                                            let k5 = skip_wsp(s, j5);
                                            match spec_read_num(s, k5, u32::MAX as int) {
                                                None => None,
                                                Some((j6, port)) => spec_candidate_tail(
                                                    s,
                                                    j6,
                                                    CandidateV {
                                                        foundation: foundation as u32,
                                                        component,
                                                        protocol,
                                                        priority: priority as u32,
                                                        addr,
                                                        port: port as u32,
                                                        kind: CandidateType::Host,
                                                        raddr: None,
                                                        rport: None,
                                                        tcptype: None,
                                                        generation: None,
                                                        network_id: None,
                                                    },
                                                ),
                                            }
                                        },
                                    }
                                },
                            }
                        },
                    }
                },
            }
        },
    }
}

/// The `typ <kind>` part and the trailing pairs, filling the line.
pub open spec fn spec_candidate_tail(s: Seq<char>, j6: int, base: CandidateV) -> Option<
    CandidateV,
> {
    let k6 = skip_wsp(s, j6);
    if occurs_at(s, k6, "typ"@) {
        let k7 = skip_wsp(s, k6 + "typ"@.len());
        let ty: Option<(int, CandidateType)> = if occurs_at(s, k7, "host"@) {
            Some((k7 + "host"@.len(), CandidateType::Host))
        } else if occurs_at(s, k7, "relay"@) {
            Some((k7 + "relay"@.len(), CandidateType::Relay))
        } else if occurs_at(s, k7, "srflx"@) {
            Some((k7 + "srflx"@.len(), CandidateType::Srflx))
        } else if occurs_at(s, k7, "prflx"@) {
            Some((k7 + "prflx"@.len(), CandidateType::Prflx))
        } else {
            None
        };
        match ty {
            None => None,
            Some((j7, kind)) => {
                match spec_cand_opts(s, j7, cand_opts_init()) {
                    None => None,
                    Some(o) => Some(
                        (CandidateV {
                            kind,
                            raddr: o.raddr,
                            rport: o.rport,
                            tcptype: o.tcptype,
                            generation: o.generation,
                            network_id: o.network_id,
                            ..base
                        }),
                    ),
                }
            },
        }
    } else {
        None
    }
}

/// The empty accumulator the trailing-pair scan starts from.
pub open spec fn cand_opts_init() -> CandOpts {
    CandOpts { raddr: None, rport: None, tcptype: None, generation: None, network_id: None }
}

/// Read the trailing pairs from `i` to the end of the line.
fn cand_opts(
    input: &str,
    i: usize,
) -> (r: Option<(Option<IpAddress>, Option<u32>, Option<String>, Option<u32>, Option<u32>)>)
    requires
        i <= input@.len(),
    ensures
        r is None ==> spec_cand_opts(input@, i as int, cand_opts_init()) is None,
        r matches Some((ra, rp, tt, ge, ni)) ==> spec_cand_opts(input@, i as int, cand_opts_init())
            == Some(
            (CandOpts {
                raddr: ra.deep_view(),
                rport: rp,
                tcptype: tt.deep_view(),
                generation: ge,
                network_id: ni,
            }),
        ),
{
    let n = input.unicode_len();
    let mut cur = i;
    let mut raddr: Option<IpAddress> = None;
    let mut rport: Option<u32> = None;
    let mut tcptype: Option<String> = None;
    let mut generation: Option<u32> = None;
    let mut network_id: Option<u32> = None;
    loop
        invariant
            i <= cur <= n,
            n == input@.len(),
            spec_cand_opts(input@, i as int, cand_opts_init()) == spec_cand_opts(
                input@,
                cur as int,
                CandOpts {
                    raddr: raddr.deep_view(),
                    rport: rport,
                    tcptype: tcptype.deep_view(),
                    generation: generation,
                    network_id: network_id,
                },
            ),
        ensures
            ({
                let acc = CandOpts {
                    raddr: raddr.deep_view(),
                    rport: rport,
                    tcptype: tcptype.deep_view(),
                    generation: generation,
                    network_id: network_id,
                };
                spec_cand_opts(input@, i as int, cand_opts_init()) == Some(acc) && skip_wsp(
                    input@,
                    cur as int,
                ) == n
            }),
        decreases n - cur,
    {
        let ghost acc = CandOpts {
            raddr: raddr.deep_view(),
            rport: rport,
            tcptype: tcptype.deep_view(),
            generation: generation,
            network_id: network_id,
        };
        let k = skip_ws(input, cur);
        if k == n {
            break;
        }
        let j = scan(input, k, StopAt::Space);
        let ghost key = input@.subrange(k as int, j as int);
        let k2 = skip_ws(input, j);
        proof {
            reveal_strlit("raddr");
            reveal_strlit("rport");
            reveal_strlit("tcptype");
            reveal_strlit("generation");
            reveal_strlit("network-id");
        }
        if match_lit(input, k, "raddr") && j == k + "raddr".unicode_len() && raddr.is_none() {
            proof {
                assert(key =~= "raddr"@);
            }
            match read_addr(input, k2) {
                Some((j2, a)) => {
                    raddr = Some(a);
                    cur = j2;
                },
                None => {
                    proof {
                        assert(spec_cand_opts(input@, cur as int, acc) is None);
                        assert(spec_cand_opts(input@, i as int, cand_opts_init()) is None);
                    }
                    return None;
                },
            }
        } else if match_lit(input, k, "rport") && j == k + "rport".unicode_len()
            && rport.is_none() {
            proof {
                assert(key =~= "rport"@);
            }
            match read_number(input, k2) {
                Some((j2, v)) => {
                    rport = Some(v);
                    cur = j2;
                },
                None => {
                    proof {
                        assert(spec_cand_opts(input@, cur as int, acc) is None);
                        assert(spec_cand_opts(input@, i as int, cand_opts_init()) is None);
                    }
                    return None;
                },
            }
        } else if match_lit(input, k, "tcptype") && j == k + "tcptype".unicode_len()
            && tcptype.is_none() {
            proof {
                assert(key =~= "tcptype"@);
            }
            match read_string(input, k2) {
                Some((j2, t)) => {
                    tcptype = Some(t);
                    cur = j2;
                },
                None => {
                    proof {
                        assert(spec_cand_opts(input@, cur as int, acc) is None);
                        assert(spec_cand_opts(input@, i as int, cand_opts_init()) is None);
                    }
                    return None;
                },
            }
        } else if match_lit(input, k, "generation") && j == k + "generation".unicode_len()
            && generation.is_none() {
            proof {
                assert(key =~= "generation"@);
            }
            match read_number(input, k2) {
                Some((j2, v)) => {
                    generation = Some(v);
                    cur = j2;
                },
                None => {
                    proof {
                        assert(spec_cand_opts(input@, cur as int, acc) is None);
                        assert(spec_cand_opts(input@, i as int, cand_opts_init()) is None);
                    }
                    return None;
                },
            }
        } else if match_lit(input, k, "network-id") && j == k + "network-id".unicode_len()
            && network_id.is_none() {
            proof {
                assert(key =~= "network-id"@);
            }
            match read_number(input, k2) {
                Some((j2, v)) => {
                    network_id = Some(v);
                    cur = j2;
                },
                None => {
                    proof {
                        assert(spec_cand_opts(input@, cur as int, acc) is None);
                        assert(spec_cand_opts(input@, i as int, cand_opts_init()) is None);
                    }
                    return None;
                },
            }
        } else {
            proof {
                assert(spec_cand_opts(input@, cur as int, acc) is None);
                assert(spec_cand_opts(input@, i as int, cand_opts_init()) is None);
            }
            return None;
        }
    }
    Some((raddr, rport, tcptype, generation, network_id))
}

/// Read a candidate body at `i`, running to the end of the line.
pub fn candidate(input: &str, i: usize) -> (r: Option<Candidate>)
    requires
        i <= input@.len(),
    ensures
        r.deep_view() == spec_candidate(input@, i as int),
{
    let n = input.unicode_len();
    let i1 = skip_ws(input, i);
    let foundation = match read_number(input, i1) {
        Some(x) => x,
        None => {
            return None;
        },
    };
    let k1 = skip_ws(input, foundation.0);
    let component: CandidateComponent;
    let j2: usize;
    if match_lit(input, k1, "1") {
        component = CandidateComponent::Rtp;
        let m = "1".unicode_len();
        assert(k1 + m <= n);
        j2 = k1 + m;
    } else if match_lit(input, k1, "2") {
        component = CandidateComponent::Rtcp;
        let m = "2".unicode_len();
        assert(k1 + m <= n);
        j2 = k1 + m;
    } else {
        return None;
    }
    let k2 = skip_ws(input, j2);
    let protocol: CandidateProtocol;
    let j3: usize;
    if match_lit(input, k2, "UDP") {
        protocol = CandidateProtocol::Udp;
        let m = "UDP".unicode_len();
        assert(k2 + m <= n);
        j3 = k2 + m;
    } else if match_lit(input, k2, "udp") {
        protocol = CandidateProtocol::Udp;
        let m = "udp".unicode_len();
        assert(k2 + m <= n);
        j3 = k2 + m;
    } else if match_lit(input, k2, "TCP") {
        protocol = CandidateProtocol::Tcp;
        let m = "TCP".unicode_len();
        assert(k2 + m <= n);
        j3 = k2 + m;
    } else if match_lit(input, k2, "tcp") {
        protocol = CandidateProtocol::Tcp;
        let m = "tcp".unicode_len();
        assert(k2 + m <= n);
        j3 = k2 + m;
    } else if match_lit(input, k2, "DCCP") {
        protocol = CandidateProtocol::Dccp;
        let m = "DCCP".unicode_len();
        assert(k2 + m <= n);
        j3 = k2 + m;
    } else if match_lit(input, k2, "dccp") {
        protocol = CandidateProtocol::Dccp;
        let m = "dccp".unicode_len();
        assert(k2 + m <= n);
        j3 = k2 + m;
    } else {
        return None;
    }
    let k3 = skip_ws(input, j3);
    let priority = match read_number(input, k3) {
        Some(x) => x,
        None => {
            return None;
        },
    };
    let k4 = skip_ws(input, priority.0);
    let addr = match read_addr(input, k4) {
        Some(x) => x,
        None => {
            return None;
        },
    };
    let k5 = skip_ws(input, addr.0);
    let port = match read_number(input, k5) {
        Some(x) => x,
        None => {
            return None;
        },
    };
    let k6 = skip_ws(input, port.0);
    if !match_lit(input, k6, "typ") {
        return None;
    }
    let mt = "typ".unicode_len();
    assert(k6 + mt <= n);
    let k7 = skip_ws(input, k6 + mt);
    let kind: CandidateType;
    let j7: usize;
    if match_lit(input, k7, "host") {
        kind = CandidateType::Host;
        let m = "host".unicode_len();
        assert(k7 + m <= n);
        j7 = k7 + m;
    } else if match_lit(input, k7, "relay") {
        kind = CandidateType::Relay;
        let m = "relay".unicode_len();
        assert(k7 + m <= n);
        j7 = k7 + m;
    } else if match_lit(input, k7, "srflx") {
        kind = CandidateType::Srflx;
        let m = "srflx".unicode_len();
        assert(k7 + m <= n);
        j7 = k7 + m;
    } else if match_lit(input, k7, "prflx") {
        kind = CandidateType::Prflx;
        let m = "prflx".unicode_len();
        assert(k7 + m <= n);
        j7 = k7 + m;
    } else {
        return None;
    }
    match cand_opts(input, j7) {
        None => None,
        Some((raddr, rport, tcptype, generation, network_id)) => Some(
            Candidate {
                foundation: foundation.1,
                component,
                protocol,
                priority: priority.1,
                addr: addr.1,
                port: port.1,
                kind,
                raddr,
                rport,
                tcptype,
                generation,
                network_id,
            },
        ),
    }
}

/// A whole `a=candidate:` line.
pub open spec fn spec_candidate_line(s: Seq<char>) -> Option<CandidateV> {
    if occurs_at(s, 0, "a=candidate:"@) {
        spec_candidate(s, "a=candidate:"@.len() as int)
    } else {
        None
    }
}

/// Parse an `a=candidate:` line.
pub fn candidate_line(input: &str) -> (r: Option<Candidate>)
    ensures
        r.deep_view() == spec_candidate_line(input@),
{
    if match_lit(input, 0, "a=candidate:") {
        let n = input.unicode_len();
        let m = "a=candidate:".unicode_len();
        assert(m <= n);
        candidate(input, m)
    } else {
        None
    }
}

pub open spec fn spec_render_component(c: CandidateComponent) -> Seq<char> {
    match c {
        CandidateComponent::Rtp => "1"@,
        CandidateComponent::Rtcp => "2"@,
    }
}

pub open spec fn spec_render_protocol(p: CandidateProtocol) -> Seq<char> {
    match p {
        CandidateProtocol::Tcp => "tcp"@,
        CandidateProtocol::Udp => "udp"@,
        CandidateProtocol::Dccp => "dccp"@,
    }
}

pub open spec fn spec_render_cand_type(t: CandidateType) -> Seq<char> {
    match t {
        CandidateType::Host => "host"@,
        CandidateType::Relay => "relay"@,
        CandidateType::Srflx => "srflx"@,
        CandidateType::Prflx => "prflx"@,
    }
}

pub open spec fn spec_render_candidate(v: CandidateV) -> Seq<char> {
    let base = "a=candidate:"@ + dec_str(v.foundation as int) + " "@ + spec_render_component(
        v.component,
    ) + " "@ + spec_render_protocol(v.protocol) + " "@ + dec_str(v.priority as int) + " "@
        + spec_render_addr(v.addr) + " "@ + dec_str(v.port as int) + " typ "@
        + spec_render_cand_type(v.kind);
    let o1 = match v.raddr {
        Some(a) => base + " raddr "@ + spec_render_addr(a),
        None => base,
    };
    let o2 = match v.rport {
        Some(p) => o1 + " rport "@ + dec_str(p as int),
        None => o1,
    };
    let o3 = match v.tcptype {
        Some(t) => o2 + " tcptype "@ + t,
        None => o2,
    };
    let o4 = match v.generation {
        Some(g) => o3 + " generation "@ + dec_str(g as int),
        None => o3,
    };
    match v.network_id {
        Some(d) => o4 + " network-id "@ + dec_str(d as int),
        None => o4,
    }
}

impl Candidate {
    /// Render the candidate, trailing pairs in fixed order.
    pub fn to_string(&self) -> (r: String)
        ensures
            r@ == spec_render_candidate(self.deep_view()),
    {
        let mut out = "a=candidate:".to_owned();
        out.append(u32_to_string(self.foundation).as_str());
        out.append(" ");
        match self.component {
            CandidateComponent::Rtp => out.append("1"),
            CandidateComponent::Rtcp => out.append("2"),
        }
        out.append(" ");
        match self.protocol {
            CandidateProtocol::Tcp => out.append("tcp"),
            CandidateProtocol::Udp => out.append("udp"),
            CandidateProtocol::Dccp => out.append("dccp"),
        }
        out.append(" ");
        out.append(u32_to_string(self.priority).as_str());
        out.append(" ");
        out.append(self.addr.to_string().as_str());
        out.append(" ");
        out.append(u32_to_string(self.port).as_str());
        out.append(" typ ");
        match self.kind {
            CandidateType::Host => out.append("host"),
            CandidateType::Relay => out.append("relay"),
            CandidateType::Srflx => out.append("srflx"),
            CandidateType::Prflx => out.append("prflx"),
        }
        match &self.raddr {
            Some(a) => {
                out.append(" raddr ");
                out.append(a.to_string().as_str());
            },
            None => {},
        }
        match &self.rport {
            Some(p) => {
                out.append(" rport ");
                out.append(u32_to_string(*p).as_str());
            },
            None => {},
        }
        match &self.tcptype {
            Some(t) => {
                out.append(" tcptype ");
                out.append(t.as_str());
            },
            None => {},
        }
        match &self.generation {
            Some(g) => {
                out.append(" generation ");
                out.append(u32_to_string(*g).as_str());
            },
            None => {},
        }
        match &self.network_id {
            Some(d) => {
                out.append(" network-id ");
                out.append(u32_to_string(*d).as_str());
            },
            None => {},
        }
        out
    }

    /// Detach the candidate into independently owned storage.
    pub fn into_owned(&self) -> (r: Candidate)
        ensures
            r.deep_view() == self.deep_view(),
    {
        Candidate {
            foundation: self.foundation,
            component: self.component,
            protocol: self.protocol,
            priority: self.priority,
            addr: self.addr.into_owned(),
            port: self.port,
            kind: self.kind,
            raddr: match &self.raddr {
                Some(a) => Some(a.into_owned()),
                None => None,
            },
            rport: self.rport,
            tcptype: match &self.tcptype {
                Some(t) => Some(t.clone()),
                None => None,
            },
            generation: self.generation,
            network_id: self.network_id,
        }
    }
}

} // verus!
