//! The `a=rtcp:` (RTCP endpoint) and `a=rtcp-fb:` (RTCP feedback) grammars.
//!
//! The feedback grammar is the most irregular one of the set: the specific
//! forms (`ack`, `nack`, `trr-int`) are tried before the generic
//! feedback-id-with-optional-parameter form, and each alternative must fill
//! the line completely or the next one is tried.

use vstd::prelude::*;

use crate::parsers::{at_end, dec_str, match_lit, occurs_at, read_addr, read_ipver, read_number,
    read_string, skip_wsp, skip_ws, spec_read_addr, spec_read_ipver, spec_read_num,
    spec_render_addr, spec_render_ipver, spec_token_pair_end, spec_token_to_end, token_end,
    token_pair_end, token_to_end, u32_to_string, IpAddress, IpAddressV, IpVer};

verus! {

// ---------------------------------------------------------------------------
// rtcp endpoint
// ---------------------------------------------------------------------------

/// Network type tag; only `IN` is defined.
#[derive(Clone, Copy, PartialEq, Eq, Structural, Debug)]
pub enum NetType {
    IN,
}

pub open spec fn spec_read_net_type(s: Seq<char>, i: int) -> Option<(int, NetType)> {
    if occurs_at(s, i, "IN"@) {
        Some((i + "IN"@.len(), NetType::IN))
    } else {
        None
    }
}

/// Read the `IN` network type tag at `i`.
pub fn read_net_type(input: &str, i: usize) -> (r: Option<(usize, NetType)>)
    requires
        i <= input@.len(),
    ensures
        match r {
            Some((j, v)) => {
                &&& spec_read_net_type(input@, i as int) == Some((j as int, v))
                &&& i <= j <= input@.len()
            },
            None => spec_read_net_type(input@, i as int) is None,
        },
{
    let n = input.unicode_len();
    if match_lit(input, i, "IN") {
        let m = "IN".unicode_len();
        assert(i + m <= n);
        Some((i + m, NetType::IN))
    } else {
        None
    }
}

/// RTCP endpoint, `a=rtcp:65179 IN IP4 10.23.34.56`.
#[derive(Clone, PartialEq, Eq, Debug)]
pub struct Rtcp {
    pub port: u32,
    pub net_type: NetType,
    pub ip_ver: IpVer,
    pub addr: IpAddress,
}

/// Spec model of [`Rtcp`].
pub ghost struct RtcpV {
    pub port: u32,
    pub net_type: NetType,
    pub ip_ver: IpVer,
    pub addr: IpAddressV,
}

impl DeepView for Rtcp {
    type V = RtcpV;

    open spec fn deep_view(&self) -> RtcpV {
        RtcpV {
            port: self.port,
            net_type: self.net_type,
            ip_ver: self.ip_ver,
            addr: self.addr@,
        }
    }
}

pub open spec fn spec_rtcp_attribute_line(s: Seq<char>) -> Option<RtcpV> {
    if occurs_at(s, 0, "a=rtcp:"@) {
        let i = skip_wsp(s, "a=rtcp:"@.len() as int);
        match spec_read_num(s, i, u32::MAX as int) {
            None => None,
            Some((j, port)) => {
                let k = skip_wsp(s, j);
                match spec_read_net_type(s, k) {
                    None => None,
                    Some((j2, nt)) => {
                        let k2 = skip_wsp(s, j2);
                        match spec_read_ipver(s, k2) {
                            None => None,
                            Some((j3, ipv)) => {
                                let k3 = skip_wsp(s, j3);
                                match spec_read_addr(s, k3) {
                                    None => None,
                                    Some((j4, addr)) => {
                                        if skip_wsp(s, j4) == s.len() {
                                            Some(
                                                (RtcpV {
                                                    port: port as u32,
                                                    net_type: nt,
                                                    ip_ver: ipv,
                                                    addr,
                                                }),
                                            )
                                        } else {
                                            None
                                        }
                                    },
                                }
                            },
                        }
                    },
                }
            },
        }
    } else {
        None
    }
}

/// Parse an `a=rtcp:` line.
pub fn rtcp_attribute_line(input: &str) -> (r: Option<Rtcp>)
    ensures
        r.deep_view() == spec_rtcp_attribute_line(input@),
{
    if !match_lit(input, 0, "a=rtcp:") {
        return None;
    }
    let n = input.unicode_len();
    let m = "a=rtcp:".unicode_len();
    assert(m <= n);
    let i = skip_ws(input, m);
    let port = match read_number(input, i) {
        Some(x) => x,
        None => {
            return None;
        },
    };
    let k = skip_ws(input, port.0);
    let nt = match read_net_type(input, k) {
        Some(x) => x,
        None => {
            return None;
        },
    };
    let k2 = skip_ws(input, nt.0);
    let ipv = match read_ipver(input, k2) {
        Some(x) => x,
        None => {
            return None;
        },
    };
    let k3 = skip_ws(input, ipv.0);
    let addr = match read_addr(input, k3) {
        Some(x) => x,
        None => {
            return None;
        },
    };
    if at_end(input, addr.0) {
        Some(Rtcp { port: port.1, net_type: nt.1, ip_ver: ipv.1, addr: addr.1 })
    } else {
        None
    }
}

pub open spec fn spec_render_rtcp(v: RtcpV) -> Seq<char> {
    "a=rtcp:"@ + dec_str(v.port as int) + " IN "@ + spec_render_ipver(v.ip_ver) + " "@
        + spec_render_addr(v.addr)
}

impl Rtcp {
    /// Render as `a=rtcp:<port> IN <ip-ver> <addr>`.
    pub fn to_string(&self) -> (r: String)
        ensures
            r@ == spec_render_rtcp(self.deep_view()),
    {
        let mut out = "a=rtcp:".to_owned();
        out.append(u32_to_string(self.port).as_str());
        out.append(" IN ");
        out.append(self.ip_ver.to_string().as_str());
        out.append(" ");
        out.append(self.addr.to_string().as_str());
        out
    }

    /// Detach the endpoint into independently owned storage.
    pub fn into_owned(&self) -> (r: Rtcp)
        ensures
            r.deep_view() == self.deep_view(),
    {
        Rtcp {
            port: self.port,
            net_type: self.net_type,
            ip_ver: self.ip_ver,
            addr: self.addr.into_owned(),
        }
    }
}

// ---------------------------------------------------------------------------
// rtcp feedback
// ---------------------------------------------------------------------------

/// Parameter of an `ack` feedback value.
#[derive(Clone, PartialEq, Eq, Debug)]
pub enum FbAckParam {
    Rpsi,
    Sli(Option<String>),
    App(String),
    Other(String, Option<String>),
}

/// Spec model of [`FbAckParam`].
pub ghost enum FbAckParamV {
    Rpsi,
    Sli(Option<Seq<char>>),
    App(Seq<char>),
    Other(Seq<char>, Option<Seq<char>>),
}

impl DeepView for FbAckParam {
    type V = FbAckParamV;

    open spec fn deep_view(&self) -> FbAckParamV {
        match self {
            FbAckParam::Rpsi => FbAckParamV::Rpsi,
            FbAckParam::Sli(t) => FbAckParamV::Sli(t.deep_view()),
            FbAckParam::App(t) => FbAckParamV::App(t@),
            FbAckParam::Other(k, v) => FbAckParamV::Other(k@, v.deep_view()),
        }
    }
}

/// Parameter of a `nack` feedback value.
#[derive(Clone, PartialEq, Eq, Debug)]
pub enum FbNackParam {
    Pli,
    Sli,
    Rpsi,
    App(String),
    Other(String, String),
}

/// Spec model of [`FbNackParam`].
pub ghost enum FbNackParamV {
    Pli,
    Sli,
    Rpsi,
    App(Seq<char>),
    Other(Seq<char>, Seq<char>),
}

impl DeepView for FbNackParam {
    type V = FbNackParamV;

    open spec fn deep_view(&self) -> FbNackParamV {
        match self {
            FbNackParam::Pli => FbNackParamV::Pli,
            FbNackParam::Sli => FbNackParamV::Sli,
            FbNackParam::Rpsi => FbNackParamV::Rpsi,
            FbNackParam::App(t) => FbNackParamV::App(t@),
            FbNackParam::Other(k, v) => FbNackParamV::Other(k@, v@),
        }
    }
}

/// Parameter of a generic feedback id.
#[derive(Clone, PartialEq, Eq, Debug)]
pub enum FbParam {
    App(String),
    Single(String),
    Pair(String, String),
}

/// Spec model of [`FbParam`].
pub ghost enum FbParamV {
    App(Seq<char>),
    Single(Seq<char>),
    Pair(Seq<char>, Seq<char>),
}

impl DeepView for FbParam {
    type V = FbParamV;

    open spec fn deep_view(&self) -> FbParamV {
        match self {
            FbParam::App(t) => FbParamV::App(t@),
            FbParam::Single(t) => FbParamV::Single(t@),
            FbParam::Pair(k, v) => FbParamV::Pair(k@, v@),
        }
    }
}

/// The value of a feedback line after the payload number.
#[derive(Clone, PartialEq, Eq, Debug)]
pub enum FbVal {
    Ack(FbAckParam),
    Nack(FbNackParam),
    TrrInt(u32),
    RtcpFbId { id: String, param: Option<FbParam> },
}

/// Spec model of [`FbVal`].
pub ghost enum FbValV {
    Ack(FbAckParamV),
    Nack(FbNackParamV),
    TrrInt(u32),
    RtcpFbId { id: Seq<char>, param: Option<FbParamV> },
}

impl DeepView for FbVal {
    type V = FbValV;

    open spec fn deep_view(&self) -> FbValV {
        match self {
            FbVal::Ack(p) => FbValV::Ack(p.deep_view()),
            FbVal::Nack(p) => FbValV::Nack(p.deep_view()),
            FbVal::TrrInt(v) => FbValV::TrrInt(*v),
            FbVal::RtcpFbId { id, param } => FbValV::RtcpFbId {
                id: id@,
                param: param.deep_view(),
            },
        }
    }
}

/// RTCP feedback, `a=rtcp-fb:98 trr-int 100`.
#[derive(Clone, PartialEq, Eq, Debug)]
pub struct Fb {
    pub payload: u32,
    pub val: FbVal,
}

/// Spec model of [`Fb`].
pub ghost struct FbV {
    pub payload: u32,
    pub val: FbValV,
}

impl DeepView for Fb {
    type V = FbV;

    open spec fn deep_view(&self) -> FbV {
        FbV { payload: self.payload, val: self.val.deep_view() }
    }
}

/// An `ack` parameter filling the line from `i` to the end.
pub open spec fn spec_ack_param(s: Seq<char>, i: int) -> Option<FbAckParamV> {
    if occurs_at(s, i, "rpsi"@) && skip_wsp(s, i + "rpsi"@.len()) == s.len() {
        Some(FbAckParamV::Rpsi)
    } else if occurs_at(s, i, "app"@) && spec_token_to_end(s, skip_wsp(s, i + "app"@.len()))
        is Some {
        Some(FbAckParamV::App(spec_token_to_end(s, skip_wsp(s, i + "app"@.len())).unwrap()))
    } else if occurs_at(s, i, "sli"@) && skip_wsp(s, i + "sli"@.len()) == s.len() {
        Some(FbAckParamV::Sli(None))
    } else if occurs_at(s, i, "sli"@) && spec_token_to_end(s, skip_wsp(s, i + "sli"@.len()))
        is Some {
        Some(FbAckParamV::Sli(Some(spec_token_to_end(s, skip_wsp(s, i + "sli"@.len())).unwrap())))
    } else if spec_token_pair_end(s, i) is Some {
        let (a, b) = spec_token_pair_end(s, i).unwrap();
        Some(FbAckParamV::Other(a, Some(b)))
    } else {
        None
    }
}

pub fn ack_param(input: &str, i: usize) -> (r: Option<FbAckParam>)
    requires
        i <= input@.len(),
    ensures
        r.deep_view() == spec_ack_param(input@, i as int),
{
    let n = input.unicode_len();
    if match_lit(input, i, "rpsi") {
        let m = "rpsi".unicode_len();
        assert(i + m <= n);
        if at_end(input, i + m) {
            return Some(FbAckParam::Rpsi);
        }
    }
    if match_lit(input, i, "app") {
        let m = "app".unicode_len();
        assert(i + m <= n);
        let k = skip_ws(input, i + m);
        if let Some(t) = token_to_end(input, k) {
            return Some(FbAckParam::App(t));
        }
    }
    if match_lit(input, i, "sli") {
        let m = "sli".unicode_len();
        assert(i + m <= n);
        let k = skip_ws(input, i + m);
        if at_end(input, i + m) {
            return Some(FbAckParam::Sli(None));
        }
        if let Some(t) = token_to_end(input, k) {
            return Some(FbAckParam::Sli(Some(t)));
        }
    }
    match token_pair_end(input, i) {
        Some((a, b)) => Some(FbAckParam::Other(a, Some(b))),
        None => None,
    }
}

/// A `nack` parameter filling the line from `i` to the end.
pub open spec fn spec_nack_param(s: Seq<char>, i: int) -> Option<FbNackParamV> {
    if occurs_at(s, i, "rpsi"@) && skip_wsp(s, i + "rpsi"@.len()) == s.len() {
        Some(FbNackParamV::Rpsi)
    } else if occurs_at(s, i, "app"@) && spec_token_to_end(s, skip_wsp(s, i + "app"@.len()))
        is Some {
        Some(FbNackParamV::App(spec_token_to_end(s, skip_wsp(s, i + "app"@.len())).unwrap()))
    } else if spec_token_pair_end(s, i) is Some {
        let (a, b) = spec_token_pair_end(s, i).unwrap();
        Some(FbNackParamV::Other(a, b))
    } else {
        None
    }
}

fn nack_param(input: &str, i: usize) -> (r: Option<FbNackParam>)
    requires
        i <= input@.len(),
    ensures
        r.deep_view() == spec_nack_param(input@, i as int),
{
    let n = input.unicode_len();
    if match_lit(input, i, "rpsi") {
        let m = "rpsi".unicode_len();
        assert(i + m <= n);
        if at_end(input, i + m) {
            return Some(FbNackParam::Rpsi);
        }
    }
    if match_lit(input, i, "app") {
        let m = "app".unicode_len();
        assert(i + m <= n);
        let k = skip_ws(input, i + m);
        if let Some(t) = token_to_end(input, k) {
            return Some(FbNackParam::App(t));
        }
    }
    match token_pair_end(input, i) {
        Some((a, b)) => Some(FbNackParam::Other(a, b)),
        None => None,
    }
}

/// A generic feedback parameter filling the line from `i` to the end.
pub open spec fn spec_fb_param(s: Seq<char>, i: int) -> Option<FbParamV> {
    if occurs_at(s, i, "app"@) && spec_token_to_end(s, skip_wsp(s, i + "app"@.len())) is Some {
        Some(FbParamV::App(spec_token_to_end(s, skip_wsp(s, i + "app"@.len())).unwrap()))
    } else if spec_token_pair_end(s, i) is Some {
        let (a, b) = spec_token_pair_end(s, i).unwrap();
        Some(FbParamV::Pair(a, b))
    } else if spec_token_to_end(s, i) is Some {
        Some(FbParamV::Single(spec_token_to_end(s, i).unwrap()))
    } else {
        None
    }
}

fn fb_param(input: &str, i: usize) -> (r: Option<FbParam>)
    requires
        i <= input@.len(),
    ensures
        r.deep_view() == spec_fb_param(input@, i as int),
{
    let n = input.unicode_len();
    if match_lit(input, i, "app") {
        let m = "app".unicode_len();
        assert(i + m <= n);
        let k = skip_ws(input, i + m);
        if let Some(t) = token_to_end(input, k) {
            return Some(FbParam::App(t));
        }
    }
    if let Some((a, b)) = token_pair_end(input, i) {
        return Some(FbParam::Pair(a, b));
    }
    match token_to_end(input, i) {
        Some(t) => Some(FbParam::Single(t)),
        None => None,
    }
}

/// A feedback value filling the line from `i` to the end: the specific forms
/// first, the generic id-with-optional-parameter form last.
pub open spec fn spec_fb_val(s: Seq<char>, i: int) -> Option<FbValV> {
    if occurs_at(s, i, "ack"@) && spec_ack_param(s, skip_wsp(s, i + "ack"@.len())) is Some {
        Some(FbValV::Ack(spec_ack_param(s, skip_wsp(s, i + "ack"@.len())).unwrap()))
    } else if occurs_at(s, i, "nack"@) && spec_nack_param(s, skip_wsp(s, i + "nack"@.len()))
        is Some {
        Some(FbValV::Nack(spec_nack_param(s, skip_wsp(s, i + "nack"@.len())).unwrap()))
    } else if occurs_at(s, i, "trr-int"@) && ({
        let k = skip_wsp(s, i + "trr-int"@.len());
        spec_read_num(s, k, u32::MAX as int) matches Some((j, v)) && skip_wsp(s, j) == s.len()
    }) {
        let k = skip_wsp(s, i + "trr-int"@.len());
        Some(FbValV::TrrInt(spec_read_num(s, k, u32::MAX as int).unwrap().1 as u32))
    } else {
        let j = token_end(s, i, crate::parsers::StopAt::Space);
        if j == i {
            None
        } else {
            let id = s.subrange(i, j);
            let k = skip_wsp(s, j);
            if k == s.len() {
                Some(FbValV::RtcpFbId { id, param: None })
            } else {
                match spec_fb_param(s, k) {
                    Some(p) => Some(FbValV::RtcpFbId { id, param: Some(p) }),
                    None => None,
                }
            }
        }
    }
}

pub fn fb_val(input: &str, i: usize) -> (r: Option<FbVal>)
    requires
        i <= input@.len(),
    ensures
        r.deep_view() == spec_fb_val(input@, i as int),
{
    let n = input.unicode_len();
    if match_lit(input, i, "ack") {
        let m = "ack".unicode_len();
        assert(i + m <= n);
        let k = skip_ws(input, i + m);
        if let Some(p) = ack_param(input, k) {
            return Some(FbVal::Ack(p));
        }
    }
    if match_lit(input, i, "nack") {
        let m = "nack".unicode_len();
        assert(i + m <= n);
        let k = skip_ws(input, i + m);
        if let Some(p) = nack_param(input, k) {
            return Some(FbVal::Nack(p));
        }
    }
    if match_lit(input, i, "trr-int") {
        let m = "trr-int".unicode_len();
        assert(i + m <= n);
        let k = skip_ws(input, i + m);
        if let Some((j, v)) = read_number(input, k) {
            if at_end(input, j) {
                return Some(FbVal::TrrInt(v));
            }
        }
    }
    match read_string(input, i) {
        None => None,
        Some((j, id)) => {
            let k = skip_ws(input, j);
            if k == n {
                Some(FbVal::RtcpFbId { id, param: None })
            } else {
                match fb_param(input, k) {
                    Some(p) => Some(FbVal::RtcpFbId { id, param: Some(p) }),
                    None => None,
                }
            }
        },
    }
}

pub open spec fn spec_rtcpfb_attribute_line(s: Seq<char>) -> Option<FbV> {
    if occurs_at(s, 0, "a=rtcp-fb:"@) {
        match spec_read_num(s, "a=rtcp-fb:"@.len() as int, u32::MAX as int) {
            None => None,
            Some((j, payload)) => {
                let k = skip_wsp(s, j);
                match spec_fb_val(s, k) {
                    Some(val) => Some((FbV { payload: payload as u32, val })),
                    None => None,
                }
            },
        }
    } else {
        None
    }
}

/// Parse an `a=rtcp-fb:` line.
pub fn rtcpfb_attribute_line(input: &str) -> (r: Option<Fb>)
    ensures
        r.deep_view() == spec_rtcpfb_attribute_line(input@),
{
    if !match_lit(input, 0, "a=rtcp-fb:") {
        return None;
    }
    let n = input.unicode_len();
    let m = "a=rtcp-fb:".unicode_len();
    assert(m <= n);
    let payload = match read_number(input, m) {
        Some(x) => x,
        None => {
            return None;
        },
    };
    let k = skip_ws(input, payload.0);
    match fb_val(input, k) {
        Some(val) => Some(Fb { payload: payload.1, val }),
        None => None,
    }
}

pub open spec fn spec_render_ack_param(p: FbAckParamV) -> Seq<char> {
    match p {
        FbAckParamV::Rpsi => "rpsi"@,
        FbAckParamV::Sli(Some(x)) => "sli "@ + x,
        FbAckParamV::Sli(None) => "sli"@,
        FbAckParamV::App(x) => "app "@ + x,
        FbAckParamV::Other(k, Some(v)) => k + " "@ + v,
        FbAckParamV::Other(k, None) => k,
    }
}

pub open spec fn spec_render_nack_param(p: FbNackParamV) -> Seq<char> {
    match p {
        FbNackParamV::Pli => "pli"@,
        FbNackParamV::Rpsi => "rpsi"@,
        FbNackParamV::Sli => "sli"@,
        FbNackParamV::Other(k, v) => k + " "@ + v,
        FbNackParamV::App(x) => "app "@ + x,
    }
}

pub open spec fn spec_render_fb_param(p: FbParamV) -> Seq<char> {
    match p {
        FbParamV::App(x) => "app "@ + x,
        FbParamV::Single(x) => x,
        FbParamV::Pair(k, v) => k + " "@ + v,
    }
}

pub open spec fn spec_render_fb_val(v: FbValV) -> Seq<char> {
    match v {
        FbValV::Ack(p) => "ack "@ + spec_render_ack_param(p),
        FbValV::Nack(p) => "nack "@ + spec_render_nack_param(p),
        FbValV::TrrInt(x) => "trr-int "@ + dec_str(x as int),
        FbValV::RtcpFbId { id, param: Some(p) } => id + " "@ + spec_render_fb_param(p),
        FbValV::RtcpFbId { id, param: None } => id,
    }
}

pub open spec fn spec_render_fb(v: FbV) -> Seq<char> {
    "a=rtcp-fb:"@ + dec_str(v.payload as int) + " "@ + spec_render_fb_val(v.val)
}

impl FbVal {
    #[verifier::rlimit(50)]
    fn val_string(&self) -> (r: String)
        ensures
            r@ == spec_render_fb_val(self.deep_view()),
    {
        let mut out = String::new();
        match self {
            FbVal::Ack(p) => {
                out.append("ack ");
                match p {
                    FbAckParam::Rpsi => out.append("rpsi"),
                    FbAckParam::Sli(Some(x)) => {
                        out.append("sli ");
                        out.append(x.as_str());
                    },
                    FbAckParam::Sli(None) => out.append("sli"),
                    FbAckParam::App(x) => {
                        out.append("app ");
                        out.append(x.as_str());
                    },
                    FbAckParam::Other(k, Some(v)) => {
                        out.append(k.as_str());
                        out.append(" ");
                        out.append(v.as_str());
                    },
                    FbAckParam::Other(k, None) => out.append(k.as_str()),
                }
                proof {
                    assert(out@ =~= spec_render_fb_val(self.deep_view()));
                }
            },
            FbVal::Nack(p) => {
                out.append("nack ");
                match p {
                    FbNackParam::Pli => out.append("pli"),
                    FbNackParam::Rpsi => out.append("rpsi"),
                    FbNackParam::Sli => out.append("sli"),
                    FbNackParam::Other(k, v) => {
                        out.append(k.as_str());
                        out.append(" ");
                        out.append(v.as_str());
                    },
                    FbNackParam::App(x) => {
                        out.append("app ");
                        out.append(x.as_str());
                    },
                }
                proof {
                    assert(out@ =~= spec_render_fb_val(self.deep_view()));
                }
            },
            FbVal::TrrInt(x) => {
                out.append("trr-int ");
                out.append(u32_to_string(*x).as_str());
                proof {
                    assert(out@ =~= spec_render_fb_val(self.deep_view()));
                }
            },
            FbVal::RtcpFbId { id, param } => {
                out.append(id.as_str());
                match param {
                    Some(FbParam::App(x)) => {
                        out.append(" ");
                        out.append("app ");
                        out.append(x.as_str());
                    },
                    Some(FbParam::Single(x)) => {
                        out.append(" ");
                        out.append(x.as_str());
                    },
                    Some(FbParam::Pair(k, v)) => {
                        out.append(" ");
                        out.append(k.as_str());
                        out.append(" ");
                        out.append(v.as_str());
                    },
                    None => {},
                }
                proof {
                    assert(out@ =~= spec_render_fb_val(self.deep_view()));
                }
            },
        }
        out
    }

    /// Detach the value into independently owned storage.
    pub fn into_owned(&self) -> (r: FbVal)
        ensures
            r.deep_view() == self.deep_view(),
    {
        match self {
            FbVal::Ack(p) => FbVal::Ack(
                match p {
                    FbAckParam::Rpsi => FbAckParam::Rpsi,
                    FbAckParam::Sli(Some(x)) => FbAckParam::Sli(Some(x.clone())),
                    FbAckParam::Sli(None) => FbAckParam::Sli(None),
                    FbAckParam::App(x) => FbAckParam::App(x.clone()),
                    FbAckParam::Other(k, Some(v)) => FbAckParam::Other(k.clone(), Some(v.clone())),
                    FbAckParam::Other(k, None) => FbAckParam::Other(k.clone(), None),
                },
            ),
            FbVal::Nack(p) => FbVal::Nack(
                match p {
                    FbNackParam::Pli => FbNackParam::Pli,
                    FbNackParam::Rpsi => FbNackParam::Rpsi,
                    FbNackParam::Sli => FbNackParam::Sli,
                    FbNackParam::Other(k, v) => FbNackParam::Other(k.clone(), v.clone()),
                    FbNackParam::App(x) => FbNackParam::App(x.clone()),
                },
            ),
            FbVal::TrrInt(x) => FbVal::TrrInt(*x),
            FbVal::RtcpFbId { id, param } => FbVal::RtcpFbId {
                id: id.clone(),
                param: match param {
                    Some(FbParam::App(x)) => Some(FbParam::App(x.clone())),
                    Some(FbParam::Single(x)) => Some(FbParam::Single(x.clone())),
                    Some(FbParam::Pair(k, v)) => Some(FbParam::Pair(k.clone(), v.clone())),
                    None => None,
                },
            },
        }
    }
}

impl Fb {
    /// Render as `a=rtcp-fb:<payload> <value>`.
    pub fn to_string(&self) -> (r: String)
        ensures
            r@ == spec_render_fb(self.deep_view()),
    {
        let mut out = "a=rtcp-fb:".to_owned();
        out.append(u32_to_string(self.payload).as_str());
        out.append(" ");
        out.append(self.val.val_string().as_str());
        out
    }

    /// Detach the feedback into independently owned storage.
    pub fn into_owned(&self) -> (r: Fb)
        ensures
            r.deep_view() == self.deep_view(),
    {
        Fb { payload: self.payload, val: self.val.into_owned() }
    }
}

} // verus!
