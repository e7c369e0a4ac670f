//! Grammars for the `a=` (attribute) lines.
//!
//! The attribute set is open: every recognized kind has its own grammar, and
//! any `a=` line that no grammar accepts still becomes a generic
//! `KeyValue` / `KeyOnly` value, so no attribute is ever dropped.

use vstd::prelude::*;

use crate::parsers::{append_prefixed, at_end, clone_strings, dec_str, is_wsp, join_with,
    match_lit, occurs_at, read_as_strings, read_non_colon_string, read_non_slash_string,
    read_number, read_string, read_verbatim, skip_wsp, skip_ws, spec_cat_prefixed, spec_join_sep,
    spec_read_num, spec_space_tokens, token_end, u32_to_string, StopAt};

pub mod candidate;
pub mod dtls;
pub mod extmap;
pub mod ice;
pub mod rtcp;
pub mod rtpmap;
pub mod ssrc;

use crate::attributes::candidate::{candidate_line, spec_candidate_line, spec_render_candidate,
    Candidate, CandidateV};
use crate::attributes::dtls::{setup_role_line, spec_render_setup_role, spec_setup_role_line,
    SetupRole};
use crate::attributes::extmap::{extmap_line, spec_extmap_line, spec_render_extmap, Extmap,
    ExtmapV};
use crate::attributes::ice::{ice_parameter_line, spec_ice_parameter_line,
    spec_render_ice_parameter, IceParameter, IceParameterV};
use crate::attributes::rtcp::{rtcp_attribute_line, rtcpfb_attribute_line, spec_render_fb,
    spec_render_rtcp, spec_rtcp_attribute_line, spec_rtcpfb_attribute_line, Fb, FbV, Rtcp, RtcpV};
use crate::attributes::rtpmap::{read_p_time, rtpmap_line, spec_read_p_time, spec_render_p_time,
    spec_render_rtpmap, spec_rtpmap_line, PTime, RtpMap, RtpMapV};
use crate::attributes::ssrc::{spec_render_ssrc, spec_render_ssrc_group, spec_ssrc_group_line,
    spec_ssrc_line, ssrc_group_line, ssrc_line, Ssrc, SsrcGroup, SsrcGroupV, SsrcV};

verus! {

// ---------------------------------------------------------------------------
// direction
// ---------------------------------------------------------------------------

/// Stream direction, `a=sendrecv` and friends.
#[derive(Clone, Copy, PartialEq, Eq, Structural, Debug)]
pub enum Direction {
    SendOnly,
    SendRecv,
    RecvOnly,
    Inactive,
}

impl DeepView for Direction {
    type V = Direction;

    open spec fn deep_view(&self) -> Direction {
        *self
    }
}

pub open spec fn spec_read_direction(s: Seq<char>, i: int) -> Option<(int, Direction)> {
    if occurs_at(s, i, "sendrecv"@) {
        Some((i + "sendrecv"@.len(), Direction::SendRecv))
    } else if occurs_at(s, i, "sendonly"@) {
        Some((i + "sendonly"@.len(), Direction::SendOnly))
    } else if occurs_at(s, i, "recvonly"@) {
        Some((i + "recvonly"@.len(), Direction::RecvOnly))
    } else if occurs_at(s, i, "inactive"@) {
        Some((i + "inactive"@.len(), Direction::Inactive))
    } else {
        None
    }
}

/// Read a direction word at `i`.
pub fn read_direction(input: &str, i: usize) -> (r: Option<(usize, Direction)>)
    requires
        i <= input@.len(),
    ensures
        match r {
            Some((j, v)) => {
                &&& spec_read_direction(input@, i as int) == Some((j as int, v))
                &&& i <= j <= input@.len()
            },
            None => spec_read_direction(input@, i as int) is None,
        },
{
    let n = input.unicode_len();
    if match_lit(input, i, "sendrecv") {
        let m = "sendrecv".unicode_len();
        assert(i + m <= n);
        Some((i + m, Direction::SendRecv))
    } else if match_lit(input, i, "sendonly") {
        let m = "sendonly".unicode_len();
        assert(i + m <= n);
        Some((i + m, Direction::SendOnly))
    } else if match_lit(input, i, "recvonly") {
        let m = "recvonly".unicode_len();
        assert(i + m <= n);
        Some((i + m, Direction::RecvOnly))
    } else if match_lit(input, i, "inactive") {
        let m = "inactive".unicode_len();
        assert(i + m <= n);
        Some((i + m, Direction::Inactive))
    } else {
        None
    }
}

pub open spec fn spec_direction_line(s: Seq<char>) -> Option<Direction> {
    if occurs_at(s, 0, "a="@) {
        let i = skip_wsp(s, "a="@.len() as int);
        match spec_read_direction(s, i) {
            Some((j, d)) => {
                if skip_wsp(s, j) == s.len() {
                    Some(d)
                } else {
                    None
                }
            },
            None => None,
        }
    } else {
        None
    }
}

/// Parse a direction line such as `a=sendrecv`.
pub fn direction_line(input: &str) -> (r: Option<Direction>)
    ensures
        r == spec_direction_line(input@),
{
    if !match_lit(input, 0, "a=") {
        return None;
    }
    let i = skip_ws(input, "a=".unicode_len());
    match read_direction(input, i) {
        Some((j, d)) => {
            if at_end(input, j) {
                Some(d)
            } else {
                None
            }
        },
        None => None,
    }
}

/// The bare direction word, as it stands inside an `a=extmap:` line.
pub open spec fn spec_render_direction_word(d: Direction) -> Seq<char> {
    match d {
        Direction::SendOnly => "sendonly"@,
        Direction::SendRecv => "sendrecv"@,
        Direction::RecvOnly => "recvonly"@,
        Direction::Inactive => "inactive"@,
    }
}

pub open spec fn spec_render_direction(d: Direction) -> Seq<char> {
    "a="@ + spec_render_direction_word(d)
}

impl Direction {
    /// Render as `a=<direction>`.
    pub fn to_string(&self) -> (r: String)
        ensures
            r@ == spec_render_direction(*self),
    {
        let mut out = "a=".to_owned();
        let w = match self {
            Direction::SendOnly => "sendonly",
            Direction::SendRecv => "sendrecv",
            Direction::RecvOnly => "recvonly",
            Direction::Inactive => "inactive",
        };
        out.append(w);
        out
    }
}

// ---------------------------------------------------------------------------
// rtcp options
// ---------------------------------------------------------------------------

/// RTCP multiplexing options.
#[derive(Clone, Copy, PartialEq, Eq, Structural, Debug)]
pub enum RtcpOption {
    RtcpMux,
    RtcpMuxOnly,
    RtcpRsize,
}

impl DeepView for RtcpOption {
    type V = RtcpOption;

    open spec fn deep_view(&self) -> RtcpOption {
        *self
    }
}

pub open spec fn spec_rtp_option(s: Seq<char>, i: int) -> Option<(int, RtcpOption)> {
    if occurs_at(s, i, "rtcp-rsize"@) {
        Some((i + "rtcp-rsize"@.len(), RtcpOption::RtcpRsize))
    } else if occurs_at(s, i, "rtcp-mux-only"@) {
        Some((i + "rtcp-mux-only"@.len(), RtcpOption::RtcpMuxOnly))
    } else if occurs_at(s, i, "rtcp-mux"@) {
        Some((i + "rtcp-mux"@.len(), RtcpOption::RtcpMux))
    } else {
        None
    }
}

/// Read an RTCP option word at `i` (the longer words first).
pub fn rtp_option(input: &str, i: usize) -> (r: Option<(usize, RtcpOption)>)
    requires
        i <= input@.len(),
    ensures
        match r {
            Some((j, v)) => {
                &&& spec_rtp_option(input@, i as int) == Some((j as int, v))
                &&& i <= j <= input@.len()
            },
            None => spec_rtp_option(input@, i as int) is None,
        },
{
    let n = input.unicode_len();
    if match_lit(input, i, "rtcp-rsize") {
        let m = "rtcp-rsize".unicode_len();
        assert(i + m <= n);
        Some((i + m, RtcpOption::RtcpRsize))
    } else if match_lit(input, i, "rtcp-mux-only") {
        let m = "rtcp-mux-only".unicode_len();
        assert(i + m <= n);
        Some((i + m, RtcpOption::RtcpMuxOnly))
    } else if match_lit(input, i, "rtcp-mux") {
        let m = "rtcp-mux".unicode_len();
        assert(i + m <= n);
        Some((i + m, RtcpOption::RtcpMux))
    } else {
        None
    }
}

pub open spec fn spec_rtp_option_line(s: Seq<char>) -> Option<RtcpOption> {
    if occurs_at(s, 0, "a="@) {
        match spec_rtp_option(s, "a="@.len() as int) {
            Some((j, v)) => {
                if skip_wsp(s, j) == s.len() {
                    Some(v)
                } else {
                    None
                }
            },
            None => None,
        }
    } else {
        None
    }
}

/// Parse an RTCP option line such as `a=rtcp-mux`.
pub fn rtp_option_line(input: &str) -> (r: Option<RtcpOption>)
    ensures
        r == spec_rtp_option_line(input@),
{
    if !match_lit(input, 0, "a=") {
        return None;
    }
    let n = input.unicode_len();
    let m = "a=".unicode_len();
    assert(m <= n);
    match rtp_option(input, m) {
        Some((j, v)) => {
            if at_end(input, j) {
                Some(v)
            } else {
                None
            }
        },
        None => None,
    }
}

pub open spec fn spec_render_rtcp_option(v: RtcpOption) -> Seq<char> {
    match v {
        RtcpOption::RtcpMux => "a=rtcp-mux"@,
        RtcpOption::RtcpMuxOnly => "a=rtcp-mux-only"@,
        RtcpOption::RtcpRsize => "a=rtcp-rsize"@,
    }
}

impl RtcpOption {
    /// Render as `a=rtcp-<option>`.
    pub fn to_string(&self) -> (r: String)
        ensures
            r@ == spec_render_rtcp_option(*self),
    {
        match self {
            RtcpOption::RtcpMux => "a=rtcp-mux".to_owned(),
            RtcpOption::RtcpMuxOnly => "a=rtcp-mux-only".to_owned(),
            RtcpOption::RtcpRsize => "a=rtcp-rsize".to_owned(),
        }
    }
}

// ---------------------------------------------------------------------------
// bundle group
// ---------------------------------------------------------------------------

/// Bundle group, `a=group:BUNDLE 0 1`.
#[derive(Clone, PartialEq, Eq, Debug)]
pub struct BundleGroup(pub Vec<String>);

impl DeepView for BundleGroup {
    type V = Seq<Seq<char>>;

    open spec fn deep_view(&self) -> Seq<Seq<char>> {
        self.0.deep_view()
    }
}

pub open spec fn spec_bundle_group_line(s: Seq<char>) -> Option<Seq<Seq<char>>> {
    if occurs_at(s, 0, "a=group:BUNDLE"@) {
        let i = skip_wsp(s, "a=group:BUNDLE"@.len() as int);
        let (e, items) = spec_space_tokens(s, i);
        if skip_wsp(s, e) == s.len() {
            Some(items)
        } else {
            None
        }
    } else {
        None
    }
}

/// Parse an `a=group:BUNDLE` line.
pub fn bundle_group_line(input: &str) -> (r: Option<BundleGroup>)
    ensures
        r.deep_view() == spec_bundle_group_line(input@),
{
    if !match_lit(input, 0, "a=group:BUNDLE") {
        return None;
    }
    let n = input.unicode_len();
    let m = "a=group:BUNDLE".unicode_len();
    assert(m <= n);
    let i = skip_ws(input, m);
    let items = read_as_strings(input, i);
    if at_end(input, items.0) {
        Some(BundleGroup(items.1))
    } else {
        None
    }
}

pub open spec fn spec_render_bundle_group(items: Seq<Seq<char>>) -> Seq<char> {
    "a=group:BUNDLE"@ + spec_cat_prefixed(items, " "@)
}

impl BundleGroup {
    /// Render as `a=group:BUNDLE <mid> ...`.
    pub fn to_string(&self) -> (r: String)
        ensures
            r@ == spec_render_bundle_group(self.deep_view()),
    {
        let mut out = "a=group:BUNDLE".to_owned();
        append_prefixed(&mut out, &self.0, " ");
        out
    }

    /// Detach the group into independently owned storage.
    pub fn into_owned(&self) -> (r: BundleGroup)
        ensures
            r.deep_view() == self.deep_view(),
    {
        BundleGroup(clone_strings(&self.0))
    }
}

// ---------------------------------------------------------------------------
// rtp (fully specified codec mapping)
// ---------------------------------------------------------------------------

/// Codec mapping with both clock rate and encoding present,
/// `a=rtpmap:110 opus/48000/2`.
#[derive(Clone, PartialEq, Eq, Debug)]
pub struct Rtp {
    pub payload: u32,
    pub codec: String,
    pub rate: u32,
    pub encoding: u32,
}

/// Spec model of [`Rtp`].
pub ghost struct RtpV {
    pub payload: u32,
    pub codec: Seq<char>,
    pub rate: u32,
    pub encoding: u32,
}

impl DeepView for Rtp {
    type V = RtpV;

    open spec fn deep_view(&self) -> RtpV {
        RtpV {
            payload: self.payload,
            codec: self.codec@,
            rate: self.rate,
            encoding: self.encoding,
        }
    }
}

pub open spec fn spec_rtp_attribute_line(s: Seq<char>) -> Option<RtpV> {
    if occurs_at(s, 0, "a=rtpmap:"@) {
        let i = skip_wsp(s, "a=rtpmap:"@.len() as int);
        match spec_read_num(s, i, u32::MAX as int) {
            None => None,
            Some((j, payload)) => {
                let k = skip_wsp(s, j);
                let j2 = token_end(s, k, StopAt::Slash);
                if j2 > k && occurs_at(s, j2, "/"@) {
                    match spec_read_num(s, j2 + "/"@.len(), u32::MAX as int) {
                        None => None,
                        Some((j3, rate)) => {
                            if occurs_at(s, j3, "/"@) {
                                match spec_read_num(s, j3 + "/"@.len(), u32::MAX as int) {
                                    None => None,
                                    Some((j4, encoding)) => {
                                        if skip_wsp(s, j4) == s.len() {
                                            Some(
                                                (RtpV {
                                                    payload: payload as u32,
                                                    codec: s.subrange(k, j2),
                                                    rate: rate as u32,
                                                    encoding: encoding as u32,
                                                }),
                                            )
                                        } else {
                                            None
                                        }
                                    },
                                }
                            } else {
                                None
                            }
                        },
                    }
                } else {
                    None
                }
            },
        }
    } else {
        None
    }
}

/// Parse an `a=rtpmap:` line that carries codec, rate and encoding.
pub fn rtp_attribute_line(input: &str) -> (r: Option<Rtp>)
    ensures
        r.deep_view() == spec_rtp_attribute_line(input@),
{
    if !match_lit(input, 0, "a=rtpmap:") {
        return None;
    }
    let n = input.unicode_len();
    let m = "a=rtpmap:".unicode_len();
    assert(m <= n);
    let i = skip_ws(input, m);
    let payload = match read_number(input, i) {
        Some(x) => x,
        None => {
            return None;
        },
    };
    let k = skip_ws(input, payload.0);
    let codec = match read_non_slash_string(input, k) {
        Some(x) => x,
        None => {
            return None;
        },
    };
    if !match_lit(input, codec.0, "/") {
        return None;
    }
    let ms = "/".unicode_len();
    assert(codec.0 + ms <= n);
    let rate = match read_number(input, codec.0 + ms) {
        Some(x) => x,
        None => {
            return None;
        },
    };
    if !match_lit(input, rate.0, "/") {
        return None;
    }
    assert(rate.0 + ms <= n);
    let enc = match read_number(input, rate.0 + ms) {
        Some(x) => x,
        None => {
            return None;
        },
    };
    if at_end(input, enc.0) {
        Some(Rtp { payload: payload.1, codec: codec.1, rate: rate.1, encoding: enc.1 })
    } else {
        None
    }
}

pub open spec fn spec_render_rtp(v: RtpV) -> Seq<char> {
    "a=rtpmap:"@ + dec_str(v.payload as int) + " "@ + v.codec + "/"@ + dec_str(v.rate as int)
        + "/"@ + dec_str(v.encoding as int)
}

impl Rtp {
    /// Render as `a=rtpmap:<payload> <codec>/<rate>/<encoding>`.
    pub fn to_string(&self) -> (r: String)
        ensures
            r@ == spec_render_rtp(self.deep_view()),
    {
        let mut out = "a=rtpmap:".to_owned();
        out.append(u32_to_string(self.payload).as_str());
        out.append(" ");
        out.append(self.codec.as_str());
        out.append("/");
        out.append(u32_to_string(self.rate).as_str());
        out.append("/");
        out.append(u32_to_string(self.encoding).as_str());
        out
    }

    /// Detach the mapping into independently owned storage.
    pub fn into_owned(&self) -> (r: Rtp)
        ensures
            r.deep_view() == self.deep_view(),
    {
        Rtp {
            payload: self.payload,
            codec: self.codec.clone(),
            rate: self.rate,
            encoding: self.encoding,
        }
    }
}

// ---------------------------------------------------------------------------
// fmtp
// ---------------------------------------------------------------------------

/// Format parameters, `a=fmtp:108 profile-level-id=24;object=23`.
#[derive(Clone, PartialEq, Eq, Debug)]
pub struct Fmtp {
    pub payload: u32,
    pub config: String,
}

/// Spec model of [`Fmtp`].
pub ghost struct FmtpV {
    pub payload: u32,
    pub config: Seq<char>,
}

impl DeepView for Fmtp {
    type V = FmtpV;

    open spec fn deep_view(&self) -> FmtpV {
        FmtpV { payload: self.payload, config: self.config@ }
    }
}

pub open spec fn spec_fmtp_attribute_line(s: Seq<char>) -> Option<FmtpV> {
    if occurs_at(s, 0, "a=fmtp:"@) {
        match spec_read_num(s, "a=fmtp:"@.len() as int, u32::MAX as int) {
            None => None,
            Some((j, payload)) => {
                let k = skip_wsp(s, j);
                if k < s.len() {
                    match crate::parsers::spec_rest_of_line(s, k) {
                        Some(t) => Some((FmtpV { payload: payload as u32, config: t })),
                        None => None,
                    }
                } else {
                    None
                }
            },
        }
    } else {
        None
    }
}

/// Parse an `a=fmtp:` line; the configuration is the non-empty rest of the
/// line, kept verbatim.
pub fn fmtp_attribute_line(input: &str) -> (r: Option<Fmtp>)
    ensures
        r.deep_view() == spec_fmtp_attribute_line(input@),
{
    if !match_lit(input, 0, "a=fmtp:") {
        return None;
    }
    let n = input.unicode_len();
    let m = "a=fmtp:".unicode_len();
    assert(m <= n);
    let payload = match read_number(input, m) {
        Some(x) => x,
        None => {
            return None;
        },
    };
    let k = skip_ws(input, payload.0);
    if k < n {
        match read_verbatim(input, k) {
            Some(t) => Some(Fmtp { payload: payload.1, config: t }),
            None => None,
        }
    } else {
        None
    }
}

pub open spec fn spec_render_fmtp(v: FmtpV) -> Seq<char> {
    "a=fmtp:"@ + dec_str(v.payload as int) + " "@ + v.config
}

impl Fmtp {
    /// Render as `a=fmtp:<payload> <config>`.
    pub fn to_string(&self) -> (r: String)
        ensures
            r@ == spec_render_fmtp(self.deep_view()),
    {
        let mut out = "a=fmtp:".to_owned();
        out.append(u32_to_string(self.payload).as_str());
        out.append(" ");
        out.append(self.config.as_str());
        out
    }

    /// Detach the parameters into independently owned storage.
    pub fn into_owned(&self) -> (r: Fmtp)
        ensures
            r.deep_view() == self.deep_view(),
    {
        Fmtp { payload: self.payload, config: self.config.clone() }
    }
}

// ---------------------------------------------------------------------------
// control
// ---------------------------------------------------------------------------

/// Stream control attribute, `a=control:streamid=0`.
#[derive(Clone, PartialEq, Eq, Debug)]
pub struct Control(pub String);

impl DeepView for Control {
    type V = Seq<char>;

    open spec fn deep_view(&self) -> Seq<char> {
        self.0@
    }
}

pub open spec fn spec_control_attribute_line(s: Seq<char>) -> Option<Seq<char>> {
    if occurs_at(s, 0, "a=control:"@) {
        crate::parsers::spec_token_to_end(s, "a=control:"@.len() as int)
    } else {
        None
    }
}

/// Parse an `a=control:` line.
pub fn control_attribute_line(input: &str) -> (r: Option<Control>)
    ensures
        r.deep_view() == spec_control_attribute_line(input@),
{
    if !match_lit(input, 0, "a=control:") {
        return None;
    }
    let n = input.unicode_len();
    let m = "a=control:".unicode_len();
    assert(m <= n);
    match crate::parsers::token_to_end(input, m) {
        Some(t) => Some(Control(t)),
        None => None,
    }
}

pub open spec fn spec_render_control(t: Seq<char>) -> Seq<char> {
    "a=control:"@ + t
}

impl Control {
    /// Render as `a=control:<value>`.
    pub fn to_string(&self) -> (r: String)
        ensures
            r@ == spec_render_control(self.deep_view()),
    {
        let mut out = "a=control:".to_owned();
        out.append(self.0.as_str());
        out
    }

    /// Detach the attribute into independently owned storage.
    pub fn into_owned(&self) -> (r: Control)
        ensures
            r.deep_view() == self.deep_view(),
    {
        Control(self.0.clone())
    }
}

// ---------------------------------------------------------------------------
// fingerprint
// ---------------------------------------------------------------------------

/// Certificate fingerprint, `a=fingerprint:sha-256 49:66:...`.
#[derive(Clone, PartialEq, Eq, Debug)]
pub struct Fingerprint {
    pub kind: String,
    pub hash: String,
}

/// Spec model of [`Fingerprint`].
pub ghost struct FingerprintV {
    pub kind: Seq<char>,
    pub hash: Seq<char>,
}

impl DeepView for Fingerprint {
    type V = FingerprintV;

    open spec fn deep_view(&self) -> FingerprintV {
        FingerprintV { kind: self.kind@, hash: self.hash@ }
    }
}

/// A fingerprint body at `i`: hash-function token and fingerprint token.
pub open spec fn spec_fingerprint(s: Seq<char>, i: int) -> Option<(int, FingerprintV)> {
    let i1 = skip_wsp(s, i);
    let j1 = token_end(s, i1, StopAt::Space);
    if j1 == i1 {
        None
    } else {
        let k = skip_wsp(s, j1);
        let j2 = token_end(s, k, StopAt::Space);
        if j2 == k {
            None
        } else {
            Some((j2, FingerprintV { kind: s.subrange(i1, j1), hash: s.subrange(k, j2) }))
        }
    }
}

/// Read a fingerprint body at `i`.
pub fn fingerprint(input: &str, i: usize) -> (r: Option<(usize, Fingerprint)>)
    requires
        i <= input@.len(),
    ensures
        match r {
            Some((j, v)) => {
                &&& spec_fingerprint(input@, i as int) matches Some((je, ve)) && je == j as int
                    && ve == v.deep_view()
                &&& i <= j <= input@.len()
            },
            None => spec_fingerprint(input@, i as int) is None,
        },
{
    let i1 = skip_ws(input, i);
    let kind = match read_string(input, i1) {
        Some(x) => x,
        None => {
            return None;
        },
    };
    let k = skip_ws(input, kind.0);
    let hash = match read_string(input, k) {
        Some(x) => x,
        None => {
            return None;
        },
    };
    Some((hash.0, Fingerprint { kind: kind.1, hash: hash.1 }))
}

pub open spec fn spec_fingerprint_line(s: Seq<char>) -> Option<FingerprintV> {
    if occurs_at(s, 0, "a=fingerprint:"@) {
        match spec_fingerprint(s, "a=fingerprint:"@.len() as int) {
            Some((e, v)) => {
                if skip_wsp(s, e) == s.len() {
                    Some(v)
                } else {
                    None
                }
            },
            None => None,
        }
    } else {
        None
    }
}

/// Parse an `a=fingerprint:` line.
pub fn fingerprint_line(input: &str) -> (r: Option<Fingerprint>)
    ensures
        r.deep_view() == spec_fingerprint_line(input@),
{
    if !match_lit(input, 0, "a=fingerprint:") {
        return None;
    }
    let n = input.unicode_len();
    let m = "a=fingerprint:".unicode_len();
    assert(m <= n);
    match fingerprint(input, m) {
        Some((e, v)) => {
            if at_end(input, e) {
                Some(v)
            } else {
                None
            }
        },
        None => None,
    }
}

pub open spec fn spec_render_fingerprint(v: FingerprintV) -> Seq<char> {
    "a=fingerprint:"@ + v.kind + " "@ + v.hash
}

impl Fingerprint {
    /// Render as `a=fingerprint:<kind> <hash>`.
    pub fn to_string(&self) -> (r: String)
        ensures
            r@ == spec_render_fingerprint(self.deep_view()),
    {
        let mut out = "a=fingerprint:".to_owned();
        out.append(self.kind.as_str());
        out.append(" ");
        out.append(self.hash.as_str());
        out
    }

    /// Detach the fingerprint into independently owned storage.
    pub fn into_owned(&self) -> (r: Fingerprint)
        ensures
            r.deep_view() == self.deep_view(),
    {
        Fingerprint { kind: self.kind.clone(), hash: self.hash.clone() }
    }
}

// ---------------------------------------------------------------------------
// mid
// ---------------------------------------------------------------------------

/// Media id, `a=mid:0`.
#[derive(Clone, PartialEq, Eq, Debug)]
pub struct Mid(pub String);

impl DeepView for Mid {
    type V = Seq<char>;

    open spec fn deep_view(&self) -> Seq<char> {
        self.0@
    }
}

/// A mid body at `i`: one token.
pub open spec fn spec_mid(s: Seq<char>, i: int) -> Option<(int, Seq<char>)> {
    let j = token_end(s, i, StopAt::Space);
    if j > i {
        Some((j, s.subrange(i, j)))
    } else {
        None
    }
}

/// Read a mid body at `i`.
pub fn mid(input: &str, i: usize) -> (r: Option<(usize, Mid)>)
    requires
        i <= input@.len(),
    ensures
        match r {
            Some((j, v)) => {
                &&& spec_mid(input@, i as int) matches Some((je, ve)) && je == j as int && ve
                    == v.deep_view()
                &&& i <= j <= input@.len()
            },
            None => spec_mid(input@, i as int) is None,
        },
{
    match read_string(input, i) {
        Some((j, t)) => Some((j, Mid(t))),
        None => None,
    }
}

pub open spec fn spec_mid_line(s: Seq<char>) -> Option<Seq<char>> {
    if occurs_at(s, 0, "a=mid:"@) {
        crate::parsers::spec_token_to_end(s, "a=mid:"@.len() as int)
    } else {
        None
    }
}

/// Parse an `a=mid:` line.
pub fn mid_line(input: &str) -> (r: Option<Mid>)
    ensures
        r.deep_view() == spec_mid_line(input@),
{
    if !match_lit(input, 0, "a=mid:") {
        return None;
    }
    let n = input.unicode_len();
    let m = "a=mid:".unicode_len();
    assert(m <= n);
    match crate::parsers::token_to_end(input, m) {
        Some(t) => Some(Mid(t)),
        None => None,
    }
}

pub open spec fn spec_render_mid(t: Seq<char>) -> Seq<char> {
    "a=mid:"@ + t
}

impl Mid {
    /// Render as `a=mid:<token>`.
    pub fn to_string(&self) -> (r: String)
        ensures
            r@ == spec_render_mid(self.deep_view()),
    {
        let mut out = "a=mid:".to_owned();
        out.append(self.0.as_str());
        out
    }

    /// Detach the id into independently owned storage.
    pub fn into_owned(&self) -> (r: Mid)
        ensures
            r.deep_view() == self.deep_view(),
    {
        Mid(self.0.clone())
    }
}

// ---------------------------------------------------------------------------
// msid / msid-semantic
// ---------------------------------------------------------------------------

/// Media stream id semantic, `a=msid-semantic: WMS <token>`.
#[derive(Clone, PartialEq, Eq, Debug)]
pub struct MsidSemantic {
    pub semantic: String,
    pub token: Option<String>,
}

/// Spec model of [`MsidSemantic`].
pub ghost struct MsidSemanticV {
    pub semantic: Seq<char>,
    pub token: Option<Seq<char>>,
}

impl DeepView for MsidSemantic {
    type V = MsidSemanticV;

    open spec fn deep_view(&self) -> MsidSemanticV {
        MsidSemanticV { semantic: self.semantic@, token: self.token.deep_view() }
    }
}

/// A msid-semantic body at `i`: a semantic token, at least one whitespace
/// character, and an optional token, filling the line.
pub open spec fn spec_msid_semantic(s: Seq<char>, i: int) -> Option<MsidSemanticV> {
    let i1 = skip_wsp(s, i);
    let j1 = token_end(s, i1, StopAt::Space);
    if j1 > i1 && j1 < s.len() && is_wsp(s[j1]) {
        let k = skip_wsp(s, j1);
        let j2 = token_end(s, k, StopAt::Space);
        if j2 > k {
            if skip_wsp(s, j2) == s.len() {
                Some(
                    (MsidSemanticV {
                        semantic: s.subrange(i1, j1),
                        token: Some(s.subrange(k, j2)),
                    }),
                )
            } else {
                None
            }
        } else {
            Some((MsidSemanticV { semantic: s.subrange(i1, j1), token: None }))
        }
    } else {
        None
    }
}

/// Read a msid-semantic body at `i`.
pub fn msid_semantic(input: &str, i: usize) -> (r: Option<MsidSemantic>)
    requires
        i <= input@.len(),
    ensures
        r.deep_view() == spec_msid_semantic(input@, i as int),
{
    let n = input.unicode_len();
    let i1 = skip_ws(input, i);
    let sem = match read_string(input, i1) {
        Some(x) => x,
        None => {
            return None;
        },
    };
    let j1 = sem.0;
    if j1 >= n {
        return None;
    }
    let c = input.get_char(j1);
    if !(c == ' ' || c == '\t' || c == '\r' || c == '\n') {
        return None;
    }
    let k = skip_ws(input, j1);
    match read_string(input, k) {
        Some((j2, t)) => {
            if at_end(input, j2) {
                Some(MsidSemantic { semantic: sem.1, token: Some(t) })
            } else {
                None
            }
        },
        None => Some(MsidSemantic { semantic: sem.1, token: None }),
    }
}

pub open spec fn spec_msid_semantic_line(s: Seq<char>) -> Option<MsidSemanticV> {
    if occurs_at(s, 0, "a=msid-semantic:"@) {
        spec_msid_semantic(s, "a=msid-semantic:"@.len() as int)
    } else {
        None
    }
}

/// Parse an `a=msid-semantic:` line.
pub fn msid_semantic_line(input: &str) -> (r: Option<MsidSemantic>)
    ensures
        r.deep_view() == spec_msid_semantic_line(input@),
{
    if !match_lit(input, 0, "a=msid-semantic:") {
        return None;
    }
    let n = input.unicode_len();
    let m = "a=msid-semantic:".unicode_len();
    assert(m <= n);
    msid_semantic(input, m)
}

pub open spec fn spec_render_msid_semantic(v: MsidSemanticV) -> Seq<char> {
    let head = "a=msid-semantic: "@ + v.semantic + " "@;
    match v.token {
        Some(t) => head + t,
        None => head,
    }
}

impl MsidSemantic {
    /// Render as `a=msid-semantic: <semantic> [<token>]`.
    pub fn to_string(&self) -> (r: String)
        ensures
            r@ == spec_render_msid_semantic(self.deep_view()),
    {
        let mut out = "a=msid-semantic: ".to_owned();
        out.append(self.semantic.as_str());
        out.append(" ");
        match &self.token {
            Some(t) => out.append(t.as_str()),
            None => {},
        }
        out
    }

    /// Detach the value into independently owned storage.
    pub fn into_owned(&self) -> (r: MsidSemantic)
        ensures
            r.deep_view() == self.deep_view(),
    {
        MsidSemantic {
            semantic: self.semantic.clone(),
            token: match &self.token {
                Some(t) => Some(t.clone()),
                None => None,
            },
        }
    }
}

/// Media stream id, `a=msid:<token> <token>`.
#[derive(Clone, PartialEq, Eq, Debug)]
pub struct Msid(pub Vec<String>);

impl DeepView for Msid {
    type V = Seq<Seq<char>>;

    open spec fn deep_view(&self) -> Seq<Seq<char>> {
        self.0.deep_view()
    }
}

/// A msid body at `i`: space-separated tokens filling the line.
pub open spec fn spec_msid(s: Seq<char>, i: int) -> Option<Seq<Seq<char>>> {
    let i1 = skip_wsp(s, i);
    let (e, items) = spec_space_tokens(s, i1);
    if skip_wsp(s, e) == s.len() {
        Some(items)
    } else {
        None
    }
}

/// Read a msid body at `i`.
pub fn msid(input: &str, i: usize) -> (r: Option<Msid>)
    requires
        i <= input@.len(),
    ensures
        r.deep_view() == spec_msid(input@, i as int),
{
    let i1 = skip_ws(input, i);
    let items = read_as_strings(input, i1);
    if at_end(input, items.0) {
        Some(Msid(items.1))
    } else {
        None
    }
}

pub open spec fn spec_msid_line(s: Seq<char>) -> Option<Seq<Seq<char>>> {
    if occurs_at(s, 0, "a=msid:"@) {
        spec_msid(s, "a=msid:"@.len() as int)
    } else {
        None
    }
}

/// Parse an `a=msid:` line.
pub fn msid_line(input: &str) -> (r: Option<Msid>)
    ensures
        r.deep_view() == spec_msid_line(input@),
{
    if !match_lit(input, 0, "a=msid:") {
        return None;
    }
    let n = input.unicode_len();
    let m = "a=msid:".unicode_len();
    assert(m <= n);
    msid(input, m)
}

pub open spec fn spec_render_msid(items: Seq<Seq<char>>) -> Seq<char> {
    "a=msid:"@ + spec_join_sep(items, " "@)
}

impl Msid {
    /// Render as `a=msid:<token> <token> ...`.
    pub fn to_string(&self) -> (r: String)
        ensures
            r@ == spec_render_msid(self.deep_view()),
    {
        let mut out = "a=msid:".to_owned();
        out.append(join_with(&self.0, " ").as_str());
        out
    }

    /// Detach the id into independently owned storage.
    pub fn into_owned(&self) -> (r: Msid)
        ensures
            r.deep_view() == self.deep_view(),
    {
        Msid(clone_strings(&self.0))
    }
}

// ---------------------------------------------------------------------------
// the generic fallback
// ---------------------------------------------------------------------------

/// A `a=<key>:<value>` line for any key without a space or `:`, the value
/// non-empty and kept verbatim.
pub open spec fn spec_key_val_attribute_line(s: Seq<char>) -> Option<(Seq<char>, Seq<char>)> {
    if occurs_at(s, 0, "a="@) {
        let i = "a="@.len() as int;
        let j = token_end(s, i, StopAt::Colon);
        if j > i && j < s.len() && s[j] == ':' && j + 1 < s.len() && s[j + 1] != '\n' {
            match crate::parsers::spec_rest_of_line(s, j + 1) {
                Some(t) => Some((s.subrange(i, j), t)),
                None => None,
            }
        } else {
            None
        }
    } else {
        None
    }
}

/// Parse a generic `a=<key>:<value>` line.
pub fn key_val_attribute_line(input: &str) -> (r: Option<(String, String)>)
    ensures
        match r {
            Some((k, v)) => spec_key_val_attribute_line(input@) == Some((k@, v@)),
            None => spec_key_val_attribute_line(input@) is None,
        },
{
    if !match_lit(input, 0, "a=") {
        return None;
    }
    let n = input.unicode_len();
    let m = "a=".unicode_len();
    assert(m <= n);
    match read_non_colon_string(input, m) {
        None => None,
        Some((j, key)) => {
            if j < n && input.get_char(j) == ':' && j + 1 < n && input.get_char(j + 1) != '\n' {
                match read_verbatim(input, j + 1) {
                    Some(v) => Some((key, v)),
                    None => None,
                }
            } else {
                None
            }
        },
    }
}

/// A bare `a=<key>` line with a non-empty body kept verbatim.
pub open spec fn spec_key_only_attribute_line(s: Seq<char>) -> Option<Seq<char>> {
    if occurs_at(s, 0, "a="@) && s.len() > "a="@.len() && s["a="@.len() as int] != '\n' {
        crate::parsers::spec_rest_of_line(s, "a="@.len() as int)
    } else {
        None
    }
}

/// Parse a bare `a=<key>` line.
pub fn key_only_attribute_line(input: &str) -> (r: Option<String>)
    ensures
        r.deep_view() == spec_key_only_attribute_line(input@),
{
    if !match_lit(input, 0, "a=") {
        return None;
    }
    let n = input.unicode_len();
    let m = "a=".unicode_len();
    assert(m <= n);
    if n > m && input.get_char(m) != '\n' {
        read_verbatim(input, m)
    } else {
        None
    }
}

// ---------------------------------------------------------------------------
// the dispatcher over all attribute kinds
// ---------------------------------------------------------------------------

/// One parsed `a=` line.  The set is open: the `KeyValue` / `KeyOnly`
/// fallbacks preserve any attribute no other grammar accepts.
#[derive(Clone, PartialEq, Debug)]
pub enum AttributeLine {
    Candidate(Candidate),
    Ice(IceParameter),
    Mid(Mid),
    MsidSemantic(MsidSemantic),
    Msid(Msid),
    RtpMap(RtpMap),
    PTime(PTime),
    Ssrc(Ssrc),
    BundleGroup(BundleGroup),
    SsrcGroup(SsrcGroup),
    Fingerprint(Fingerprint),
    Direction(Direction),
    Rtp(Rtp),
    Rtcp(Rtcp),
    Fmtp(Fmtp),
    RtcpFb(Fb),
    RtcpOption(RtcpOption),
    Control(Control),
    SetupRole(SetupRole),
    Extmap(Extmap),
    BundleOnly,
    EoC,
    KeyValue { key: String, val: String },
    KeyOnly(String),
}

/// Spec model of [`AttributeLine`].
pub ghost enum AttributeLineV {
    Candidate(CandidateV),
    Ice(IceParameterV),
    Mid(Seq<char>),
    MsidSemantic(MsidSemanticV),
    Msid(Seq<Seq<char>>),
    RtpMap(RtpMapV),
    PTime(PTime),
    Ssrc(SsrcV),
    BundleGroup(Seq<Seq<char>>),
    SsrcGroup(SsrcGroupV),
    Fingerprint(FingerprintV),
    Direction(Direction),
    Rtp(RtpV),
    Rtcp(RtcpV),
    Fmtp(FmtpV),
    RtcpFb(FbV),
    RtcpOption(RtcpOption),
    Control(Seq<char>),
    SetupRole(SetupRole),
    Extmap(ExtmapV),
    BundleOnly,
    EoC,
    KeyValue { key: Seq<char>, val: Seq<char> },
    KeyOnly(Seq<char>),
}

impl DeepView for AttributeLine {
    type V = AttributeLineV;

    open spec fn deep_view(&self) -> AttributeLineV {
        match self {
            AttributeLine::Candidate(x) => AttributeLineV::Candidate(x.deep_view()),
            AttributeLine::Ice(x) => AttributeLineV::Ice(x.deep_view()),
            AttributeLine::Mid(x) => AttributeLineV::Mid(x.deep_view()),
            AttributeLine::MsidSemantic(x) => AttributeLineV::MsidSemantic(x.deep_view()),
            AttributeLine::Msid(x) => AttributeLineV::Msid(x.deep_view()),
            AttributeLine::RtpMap(x) => AttributeLineV::RtpMap(x.deep_view()),
            AttributeLine::PTime(x) => AttributeLineV::PTime(x.deep_view()),
            AttributeLine::Ssrc(x) => AttributeLineV::Ssrc(x.deep_view()),
            AttributeLine::BundleGroup(x) => AttributeLineV::BundleGroup(x.deep_view()),
            AttributeLine::SsrcGroup(x) => AttributeLineV::SsrcGroup(x.deep_view()),
            AttributeLine::Fingerprint(x) => AttributeLineV::Fingerprint(x.deep_view()),
            AttributeLine::Direction(x) => AttributeLineV::Direction(x.deep_view()),
            AttributeLine::Rtp(x) => AttributeLineV::Rtp(x.deep_view()),
            AttributeLine::Rtcp(x) => AttributeLineV::Rtcp(x.deep_view()),
            AttributeLine::Fmtp(x) => AttributeLineV::Fmtp(x.deep_view()),
            AttributeLine::RtcpFb(x) => AttributeLineV::RtcpFb(x.deep_view()),
            AttributeLine::RtcpOption(x) => AttributeLineV::RtcpOption(x.deep_view()),
            AttributeLine::Control(x) => AttributeLineV::Control(x.deep_view()),
            AttributeLine::SetupRole(x) => AttributeLineV::SetupRole(x.deep_view()),
            AttributeLine::Extmap(x) => AttributeLineV::Extmap(x.deep_view()),
            AttributeLine::BundleOnly => AttributeLineV::BundleOnly,
            AttributeLine::EoC => AttributeLineV::EoC,
            AttributeLine::KeyValue { key, val } => AttributeLineV::KeyValue {
                key: key@,
                val: val@,
            },
            AttributeLine::KeyOnly(x) => AttributeLineV::KeyOnly(x@),
        }
    }
}

pub open spec fn spec_bundle_only_line(s: Seq<char>) -> bool {
    occurs_at(s, 0, "a=bundle-only"@) && skip_wsp(s, "a=bundle-only"@.len() as int) == s.len()
}

pub open spec fn spec_eoc_line(s: Seq<char>) -> bool {
    occurs_at(s, 0, "a=end-of-candidates"@) && skip_wsp(s, "a=end-of-candidates"@.len() as int)
        == s.len()
}

/// The attribute grammars tried in order, specific before generic; every
/// `a=` line with a non-empty body is accepted by some branch.
pub open spec fn spec_attribute_line(s: Seq<char>) -> Option<AttributeLineV> {
    if spec_mid_line(s) is Some {
        Some(AttributeLineV::Mid(spec_mid_line(s).unwrap()))
    } else if spec_msid_semantic_line(s) is Some {
        Some(AttributeLineV::MsidSemantic(spec_msid_semantic_line(s).unwrap()))
    } else if spec_msid_line(s) is Some {
        Some(AttributeLineV::Msid(spec_msid_line(s).unwrap()))
    } else if spec_bundle_group_line(s) is Some {
        Some(AttributeLineV::BundleGroup(spec_bundle_group_line(s).unwrap()))
    } else if spec_ice_parameter_line(s) is Some {
        Some(AttributeLineV::Ice(spec_ice_parameter_line(s).unwrap()))
    } else if spec_ssrc_line(s) is Some {
        Some(AttributeLineV::Ssrc(spec_ssrc_line(s).unwrap()))
    } else if spec_ssrc_group_line(s) is Some {
        Some(AttributeLineV::SsrcGroup(spec_ssrc_group_line(s).unwrap()))
    } else if spec_rtpmap_line(s) is Some {
        Some(AttributeLineV::RtpMap(spec_rtpmap_line(s).unwrap()))
    } else if spec_read_p_time(s) is Some {
        Some(AttributeLineV::PTime(spec_read_p_time(s).unwrap()))
    } else if spec_fingerprint_line(s) is Some {
        Some(AttributeLineV::Fingerprint(spec_fingerprint_line(s).unwrap()))
    } else if spec_candidate_line(s) is Some {
        Some(AttributeLineV::Candidate(spec_candidate_line(s).unwrap()))
    } else if spec_direction_line(s) is Some {
        Some(AttributeLineV::Direction(spec_direction_line(s).unwrap()))
    } else if spec_extmap_line(s) is Some {
        Some(AttributeLineV::Extmap(spec_extmap_line(s).unwrap()))
    } else if spec_setup_role_line(s) is Some {
        Some(AttributeLineV::SetupRole(spec_setup_role_line(s).unwrap()))
    } else if spec_rtp_attribute_line(s) is Some {
        Some(AttributeLineV::Rtp(spec_rtp_attribute_line(s).unwrap()))
    } else if spec_rtcp_attribute_line(s) is Some {
        Some(AttributeLineV::Rtcp(spec_rtcp_attribute_line(s).unwrap()))
    } else if spec_fmtp_attribute_line(s) is Some {
        Some(AttributeLineV::Fmtp(spec_fmtp_attribute_line(s).unwrap()))
    } else if spec_control_attribute_line(s) is Some {
        Some(AttributeLineV::Control(spec_control_attribute_line(s).unwrap()))
    } else if spec_rtcpfb_attribute_line(s) is Some {
        Some(AttributeLineV::RtcpFb(spec_rtcpfb_attribute_line(s).unwrap()))
    } else if spec_rtp_option_line(s) is Some {
        Some(AttributeLineV::RtcpOption(spec_rtp_option_line(s).unwrap()))
    } else if spec_key_val_attribute_line(s) is Some {
        let (key, val) = spec_key_val_attribute_line(s).unwrap();
        Some(AttributeLineV::KeyValue { key, val })
    } else if spec_bundle_only_line(s) {
        Some(AttributeLineV::BundleOnly)
    } else if spec_eoc_line(s) {
        Some(AttributeLineV::EoC)
    } else if spec_key_only_attribute_line(s) is Some {
        Some(AttributeLineV::KeyOnly(spec_key_only_attribute_line(s).unwrap()))
    } else {
        None
    }
}

/// Parse one line against every attribute grammar, in order.
pub fn attribute_line(input: &str) -> (r: Option<AttributeLine>)
    ensures
        r.deep_view() == spec_attribute_line(input@),
{
    if let Some(v) = mid_line(input) {
        return Some(AttributeLine::Mid(v));
    }
    if let Some(v) = msid_semantic_line(input) {
        return Some(AttributeLine::MsidSemantic(v));
    }
    if let Some(v) = msid_line(input) {
        return Some(AttributeLine::Msid(v));
    }
    if let Some(v) = bundle_group_line(input) {
        return Some(AttributeLine::BundleGroup(v));
    }
    if let Some(v) = ice_parameter_line(input) {
        return Some(AttributeLine::Ice(v));
    }
    if let Some(v) = ssrc_line(input) {
        return Some(AttributeLine::Ssrc(v));
    }
    if let Some(v) = ssrc_group_line(input) {
        return Some(AttributeLine::SsrcGroup(v));
    }
    if let Some(v) = rtpmap_line(input) {
        return Some(AttributeLine::RtpMap(v));
    }
    if let Some(v) = read_p_time(input) {
        return Some(AttributeLine::PTime(v));
    }
    if let Some(v) = fingerprint_line(input) {
        return Some(AttributeLine::Fingerprint(v));
    }
    if let Some(v) = candidate_line(input) {
        return Some(AttributeLine::Candidate(v));
    }
    if let Some(v) = direction_line(input) {
        return Some(AttributeLine::Direction(v));
    }
    if let Some(v) = extmap_line(input) {
        return Some(AttributeLine::Extmap(v));
    }
    if let Some(v) = setup_role_line(input) {
        return Some(AttributeLine::SetupRole(v));
    }
    if let Some(v) = rtp_attribute_line(input) {
        return Some(AttributeLine::Rtp(v));
    }
    if let Some(v) = rtcp_attribute_line(input) {
        return Some(AttributeLine::Rtcp(v));
    }
    if let Some(v) = fmtp_attribute_line(input) {
        return Some(AttributeLine::Fmtp(v));
    }
    if let Some(v) = control_attribute_line(input) {
        return Some(AttributeLine::Control(v));
    }
    if let Some(v) = rtcpfb_attribute_line(input) {
        return Some(AttributeLine::RtcpFb(v));
    }
    if let Some(v) = rtp_option_line(input) {
        return Some(AttributeLine::RtcpOption(v));
    }
    if let Some((key, val)) = key_val_attribute_line(input) {
        return Some(AttributeLine::KeyValue { key, val });
    }
    if match_lit(input, 0, "a=bundle-only") {
        let n = input.unicode_len();
        let m = "a=bundle-only".unicode_len();
        assert(m <= n);
        if at_end(input, m) {
            return Some(AttributeLine::BundleOnly);
        }
    }
    if match_lit(input, 0, "a=end-of-candidates") {
        let n = input.unicode_len();
        let m = "a=end-of-candidates".unicode_len();
        assert(m <= n);
        if at_end(input, m) {
            return Some(AttributeLine::EoC);
        }
    }
    match key_only_attribute_line(input) {
        Some(k) => Some(AttributeLine::KeyOnly(k)),
        None => None,
    }
}

pub open spec fn spec_render_attribute_line(v: AttributeLineV) -> Seq<char> {
    match v {
        AttributeLineV::Candidate(x) => spec_render_candidate(x),
        AttributeLineV::Ice(x) => spec_render_ice_parameter(x),
        AttributeLineV::Mid(x) => spec_render_mid(x),
        AttributeLineV::MsidSemantic(x) => spec_render_msid_semantic(x),
        AttributeLineV::Msid(x) => spec_render_msid(x),
        AttributeLineV::RtpMap(x) => spec_render_rtpmap(x),
        AttributeLineV::PTime(x) => spec_render_p_time(x),
        AttributeLineV::Ssrc(x) => spec_render_ssrc(x),
        AttributeLineV::BundleGroup(x) => spec_render_bundle_group(x),
        AttributeLineV::SsrcGroup(x) => spec_render_ssrc_group(x),
        AttributeLineV::Fingerprint(x) => spec_render_fingerprint(x),
        AttributeLineV::Direction(x) => spec_render_direction(x),
        AttributeLineV::Rtp(x) => spec_render_rtp(x),
        AttributeLineV::Rtcp(x) => spec_render_rtcp(x),
        AttributeLineV::Fmtp(x) => spec_render_fmtp(x),
        AttributeLineV::RtcpFb(x) => spec_render_fb(x),
        AttributeLineV::RtcpOption(x) => spec_render_rtcp_option(x),
        AttributeLineV::Control(x) => spec_render_control(x),
        AttributeLineV::SetupRole(x) => spec_render_setup_role(x),
        AttributeLineV::Extmap(x) => spec_render_extmap(x),
        AttributeLineV::BundleOnly => "a=bundle-only"@,
        AttributeLineV::EoC => "a=end-of-candidates"@,
        AttributeLineV::KeyValue { key, val } => "a="@ + key + ":"@ + val,
        AttributeLineV::KeyOnly(key) => "a="@ + key,
    }
}

impl AttributeLine {
    /// Render the attribute line in its canonical form.
    pub fn to_string(&self) -> (r: String)
        ensures
            r@ == spec_render_attribute_line(self.deep_view()),
    {
        match self {
            AttributeLine::Candidate(x) => x.to_string(),
            AttributeLine::Ice(x) => x.to_string(),
            AttributeLine::Mid(x) => x.to_string(),
            AttributeLine::MsidSemantic(x) => x.to_string(),
            AttributeLine::Msid(x) => x.to_string(),
            AttributeLine::RtpMap(x) => x.to_string(),
            AttributeLine::PTime(x) => x.to_string(),
            AttributeLine::Ssrc(x) => x.to_string(),
            AttributeLine::BundleGroup(x) => x.to_string(),
            AttributeLine::SsrcGroup(x) => x.to_string(),
            AttributeLine::Fingerprint(x) => x.to_string(),
            AttributeLine::Direction(x) => x.to_string(),
            AttributeLine::Rtp(x) => x.to_string(),
            AttributeLine::Rtcp(x) => x.to_string(),
            AttributeLine::Fmtp(x) => x.to_string(),
            AttributeLine::RtcpFb(x) => x.to_string(),
            AttributeLine::RtcpOption(x) => x.to_string(),
            AttributeLine::Control(x) => x.to_string(),
            AttributeLine::SetupRole(x) => x.to_string(),
            AttributeLine::Extmap(x) => x.to_string(),
            AttributeLine::BundleOnly => "a=bundle-only".to_owned(),
            AttributeLine::EoC => "a=end-of-candidates".to_owned(),
            AttributeLine::KeyValue { key, val } => {
                let mut out = "a=".to_owned();
                out.append(key.as_str());
                out.append(":");
                out.append(val.as_str());
                out
            },
            AttributeLine::KeyOnly(key) => {
                let mut out = "a=".to_owned();
                out.append(key.as_str());
                out
            },
        }
    }

    /// Detach the attribute into independently owned storage.
    pub fn into_owned(&self) -> (r: AttributeLine)
        ensures
            r.deep_view() == self.deep_view(),
    {
        match self {
            AttributeLine::Candidate(x) => AttributeLine::Candidate(x.into_owned()),
            AttributeLine::Ice(x) => AttributeLine::Ice(x.into_owned()),
            AttributeLine::Mid(x) => AttributeLine::Mid(x.into_owned()),
            AttributeLine::MsidSemantic(x) => AttributeLine::MsidSemantic(x.into_owned()),
            AttributeLine::Msid(x) => AttributeLine::Msid(x.into_owned()),
            AttributeLine::RtpMap(x) => AttributeLine::RtpMap(x.into_owned()),
            AttributeLine::PTime(x) => AttributeLine::PTime(*x),
            AttributeLine::Ssrc(x) => AttributeLine::Ssrc(x.into_owned()),
            AttributeLine::BundleGroup(x) => AttributeLine::BundleGroup(x.into_owned()),
            AttributeLine::SsrcGroup(x) => AttributeLine::SsrcGroup(x.into_owned()),
            AttributeLine::Fingerprint(x) => AttributeLine::Fingerprint(x.into_owned()),
            AttributeLine::Direction(x) => AttributeLine::Direction(*x),
            AttributeLine::Rtp(x) => AttributeLine::Rtp(x.into_owned()),
            AttributeLine::Rtcp(x) => AttributeLine::Rtcp(x.into_owned()),
            AttributeLine::Fmtp(x) => AttributeLine::Fmtp(x.into_owned()),
            AttributeLine::RtcpFb(x) => AttributeLine::RtcpFb(x.into_owned()),
            AttributeLine::RtcpOption(x) => AttributeLine::RtcpOption(*x),
            AttributeLine::Control(x) => AttributeLine::Control(x.into_owned()),
            AttributeLine::SetupRole(x) => AttributeLine::SetupRole(*x),
            AttributeLine::Extmap(x) => AttributeLine::Extmap(x.into_owned()),
            AttributeLine::BundleOnly => AttributeLine::BundleOnly,
            AttributeLine::EoC => AttributeLine::EoC,
            AttributeLine::KeyValue { key, val } => AttributeLine::KeyValue {
                key: key.clone(),
                val: val.clone(),
            },
            AttributeLine::KeyOnly(key) => AttributeLine::KeyOnly(key.clone()),
        }
    }
}

} // verus!
