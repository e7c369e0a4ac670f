//! One media section of the field-bucketed document model: the `m=` line's
//! fields, one optional slot per singleton attribute kind, ordered
//! collections for the repeatable kinds, and an overflow list that keeps
//! every attribute no slot claims.

use vstd::prelude::*;

use crate::attributes::candidate::{spec_render_candidate, Candidate, CandidateV};
use crate::attributes::dtls::{spec_render_setup_role, SetupRole};
use crate::attributes::extmap::{spec_render_extmap, Extmap, ExtmapV};
use crate::attributes::ice::{spec_render_ice_parameter, Ice, IceParameter, IceParameterV, IceV};
use crate::attributes::rtcp::{spec_render_fb, spec_render_rtcp, Fb, FbV, Rtcp, RtcpV};
use crate::attributes::rtpmap::{spec_render_p_time, spec_render_rtpmap, PTime, RtpMap, RtpMapV};
use crate::attributes::ssrc::{spec_render_ssrc, spec_render_ssrc_group, Ssrc, SsrcGroup,
    SsrcGroupV, SsrcV};
use crate::attributes::{spec_render_attribute_line, spec_render_bundle_group, spec_render_control,
    spec_render_direction, spec_render_fingerprint, spec_render_fmtp, spec_render_mid,
    spec_render_msid, spec_render_msid_semantic, spec_render_rtcp_option, spec_render_rtp,
    AttributeLine, AttributeLineV, BundleGroup, Control, Direction, Fingerprint, FingerprintV,
    Fmtp, FmtpV, Mid, Msid, MsidSemantic, MsidSemanticV, Rtp, RtpV, RtcpOption};
use crate::lines::connection::{spec_render_connection, Connection, ConnectionV};
use crate::lines::media::{spec_render_media, Media, MediaV};
use crate::lines::{spec_render_bandwidth, BandWidth, SessionLine, SessionLineV};
use crate::parsers::{all_digits, clone_strings, digits_val, is_digit_char, u32_to_string};
use crate::sdp_line::{SdpLine, SdpLineV};

verus! {

/// One media section: descriptor fields, singleton slots, collections and
/// the overflow list.
#[derive(Clone, PartialEq, Debug)]
pub struct MediaSection {
    pub media_type: String,
    pub port: u32,
    pub protocol: Vec<String>,
    pub payloads: Vec<String>,
    pub connection: Option<Connection>,
    pub band_width: Option<BandWidth>,
    pub candidates: Vec<Candidate>,
    pub ice: Ice,
    pub mid: Option<Mid>,
    pub msid_semantic: Option<MsidSemantic>,
    pub msid: Option<Msid>,
    pub rtp_map: Vec<RtpMap>,
    pub p_time: Option<PTime>,
    pub ssrc: Vec<Ssrc>,
    pub bundle_group: Option<BundleGroup>,
    pub bundle_only: bool,
    pub ssrc_group: Vec<SsrcGroup>,
    pub fingerprint: Option<Fingerprint>,
    pub direction: Option<Direction>,
    pub rtp: Option<Rtp>,
    pub rtcp: Option<Rtcp>,
    pub fmtp: Vec<Fmtp>,
    pub rtcp_fb: Vec<Fb>,
    pub rtcp_option: Vec<RtcpOption>,
    pub control: Option<Control>,
    pub setup_role: Option<SetupRole>,
    pub extmap: Vec<Extmap>,
    pub attributes: Vec<AttributeLine>,
}

/// Spec model of [`MediaSection`].
#[verifier::ext_equal]
pub ghost struct MediaSectionV {
    pub media_type: Seq<char>,
    pub port: u32,
    pub protocol: Seq<Seq<char>>,
    pub payloads: Seq<Seq<char>>,
    pub connection: Option<ConnectionV>,
    pub band_width: Option<BandWidth>,
    pub candidates: Seq<CandidateV>,
    pub ice: IceV,
    pub mid: Option<Seq<char>>,
    pub msid_semantic: Option<MsidSemanticV>,
    pub msid: Option<Seq<Seq<char>>>,
    pub rtp_map: Seq<RtpMapV>,
    pub p_time: Option<PTime>,
    pub ssrc: Seq<SsrcV>,
    pub bundle_group: Option<Seq<Seq<char>>>,
    pub bundle_only: bool,
    pub ssrc_group: Seq<SsrcGroupV>,
    pub fingerprint: Option<FingerprintV>,
    pub direction: Option<Direction>,
    pub rtp: Option<RtpV>,
    pub rtcp: Option<RtcpV>,
    pub fmtp: Seq<FmtpV>,
    pub rtcp_fb: Seq<FbV>,
    pub rtcp_option: Seq<RtcpOption>,
    pub control: Option<Seq<char>>,
    pub setup_role: Option<SetupRole>,
    pub extmap: Seq<ExtmapV>,
    pub attributes: Seq<AttributeLineV>,
}

impl DeepView for MediaSection {
    type V = MediaSectionV;

    open spec fn deep_view(&self) -> MediaSectionV {
        MediaSectionV {
            media_type: self.media_type@,
            port: self.port,
            protocol: self.protocol.deep_view(),
            payloads: self.payloads.deep_view(),
            connection: self.connection.deep_view(),
            band_width: self.band_width,
            candidates: self.candidates.deep_view(),
            ice: self.ice.deep_view(),
            mid: self.mid.deep_view(),
            msid_semantic: self.msid_semantic.deep_view(),
            msid: self.msid.deep_view(),
            rtp_map: self.rtp_map.deep_view(),
            p_time: self.p_time,
            ssrc: self.ssrc.deep_view(),
            bundle_group: self.bundle_group.deep_view(),
            bundle_only: self.bundle_only,
            ssrc_group: self.ssrc_group.deep_view(),
            fingerprint: self.fingerprint.deep_view(),
            direction: self.direction,
            rtp: self.rtp.deep_view(),
            rtcp: self.rtcp.deep_view(),
            fmtp: self.fmtp.deep_view(),
            rtcp_fb: self.rtcp_fb.deep_view(),
            rtcp_option: self.rtcp_option.deep_view(),
            control: self.control.deep_view(),
            setup_role: self.setup_role,
            extmap: self.extmap.deep_view(),
            attributes: self.attributes.deep_view(),
        }
    }
}

/// The empty section a media descriptor opens.
pub open spec fn spec_section_of(m: MediaV) -> MediaSectionV {
    MediaSectionV {
        media_type: m.media_type,
        port: m.port,
        protocol: m.protocol,
        payloads: m.payloads,
        connection: None,
        band_width: None,
        candidates: Seq::empty(),
        ice: IceV { ufrag: None, pwd: None, options: None },
        mid: None,
        msid_semantic: None,
        msid: None,
        rtp_map: Seq::empty(),
        p_time: None,
        ssrc: Seq::empty(),
        bundle_group: None,
        bundle_only: false,
        ssrc_group: Seq::empty(),
        fingerprint: None,
        direction: None,
        rtp: None,
        rtcp: None,
        fmtp: Seq::empty(),
        rtcp_fb: Seq::empty(),
        rtcp_option: Seq::empty(),
        control: None,
        setup_role: None,
        extmap: Seq::empty(),
        attributes: Seq::empty(),
    }
}

/// Route one parsed line into the section.  `None` stands for a line the
/// section must reject: a second occurrence of a singleton slot, or a
/// misplaced session-level line; the assembler surfaces it.
pub open spec fn spec_add_media_line(m: MediaSectionV, l: SdpLineV) -> Option<MediaSectionV> {
    match l {
        SdpLineV::Comment(_) => Some(m),
        SdpLineV::Session(sl) => match sl {
            SessionLineV::Connection(c) => if m.connection is None {
                Some(MediaSectionV { connection: Some(c), ..m })
            } else {
                None
            },
            SessionLineV::BandWidth(b) => if m.band_width is None {
                Some(MediaSectionV { band_width: Some(b), ..m })
            } else {
                None
            },
            _ => None,
        },
        SdpLineV::Attribute(a) => match a {
            AttributeLineV::Candidate(c) => Some(
                MediaSectionV { candidates: m.candidates.push(c), ..m },
            ),
            AttributeLineV::Ice(IceParameterV::Ufrag(t)) => if m.ice.ufrag is None {
                Some(MediaSectionV { ice: IceV { ufrag: Some(t), ..m.ice }, ..m })
            } else {
                None
            },
            AttributeLineV::Ice(IceParameterV::Pwd(t)) => if m.ice.pwd is None {
                Some(MediaSectionV { ice: IceV { pwd: Some(t), ..m.ice }, ..m })
            } else {
                None
            },
            AttributeLineV::Ice(IceParameterV::Options(t)) => if m.ice.options is None {
                Some(MediaSectionV { ice: IceV { options: Some(t), ..m.ice }, ..m })
            } else {
                None
            },
            AttributeLineV::Ice(other) => Some(
                MediaSectionV { attributes: m.attributes.push(AttributeLineV::Ice(other)), ..m },
            ),
            AttributeLineV::Mid(t) => if m.mid is None {
                Some(MediaSectionV { mid: Some(t), ..m })
            } else {
                None
            },
            AttributeLineV::MsidSemantic(v) => if m.msid_semantic is None {
                Some(MediaSectionV { msid_semantic: Some(v), ..m })
            } else {
                None
            },
            AttributeLineV::Msid(v) => if m.msid is None {
                Some(MediaSectionV { msid: Some(v), ..m })
            } else {
                None
            },
            AttributeLineV::RtpMap(v) => Some(
                MediaSectionV { rtp_map: m.rtp_map.push(v), ..m },
            ),
            AttributeLineV::PTime(v) => if m.p_time is None {
                Some(MediaSectionV { p_time: Some(v), ..m })
            } else {
                None
            },
            AttributeLineV::Ssrc(v) => Some((MediaSectionV { ssrc: m.ssrc.push(v), ..m })),
            AttributeLineV::BundleGroup(v) => if m.bundle_group is None {
                Some(MediaSectionV { bundle_group: Some(v), ..m })
            } else {
                None
            },
            AttributeLineV::SsrcGroup(v) => Some(
                MediaSectionV { ssrc_group: m.ssrc_group.push(v), ..m },
            ),
            AttributeLineV::Fingerprint(v) => if m.fingerprint is None {
                Some(MediaSectionV { fingerprint: Some(v), ..m })
            } else {
                None
            },
            AttributeLineV::Direction(v) => if m.direction is None {
                Some(MediaSectionV { direction: Some(v), ..m })
            } else {
                None
            },
            AttributeLineV::Rtp(v) => if m.rtp is None {
                Some(MediaSectionV { rtp: Some(v), ..m })
            } else {
                None
            },
            AttributeLineV::Rtcp(v) => if m.rtcp is None {
                Some(MediaSectionV { rtcp: Some(v), ..m })
            } else {
                None
            },
            AttributeLineV::Fmtp(v) => Some((MediaSectionV { fmtp: m.fmtp.push(v), ..m })),
            AttributeLineV::RtcpFb(v) => Some(
                MediaSectionV { rtcp_fb: m.rtcp_fb.push(v), ..m },
            ),
            AttributeLineV::RtcpOption(v) => Some(
                MediaSectionV { rtcp_option: m.rtcp_option.push(v), ..m },
            ),
            AttributeLineV::Control(v) => if m.control is None {
                Some(MediaSectionV { control: Some(v), ..m })
            } else {
                None
            },
            AttributeLineV::SetupRole(v) => if m.setup_role is None {
                Some(MediaSectionV { setup_role: Some(v), ..m })
            } else {
                None
            },
            AttributeLineV::Extmap(v) => Some(
                MediaSectionV { extmap: m.extmap.push(v), ..m },
            ),
            AttributeLineV::BundleOnly => Some((MediaSectionV { bundle_only: true, ..m })),
            other => Some((MediaSectionV { attributes: m.attributes.push(other), ..m })),
        },
    }
}

impl MediaSection {
    /// The empty section a media descriptor opens.
    pub fn from_media(m: Media) -> (r: MediaSection)
        ensures
            r.deep_view() == spec_section_of(m.deep_view()),
    {
        let r = MediaSection {
            media_type: m.media_type,
            port: m.port,
            protocol: m.protocol,
            payloads: m.payloads,
            connection: None,
            band_width: None,
            candidates: Vec::new(),
            ice: Ice::new(),
            mid: None,
            msid_semantic: None,
            msid: None,
            rtp_map: Vec::new(),
            p_time: None,
            ssrc: Vec::new(),
            bundle_group: None,
            bundle_only: false,
            ssrc_group: Vec::new(),
            fingerprint: None,
            direction: None,
            rtp: None,
            rtcp: None,
            fmtp: Vec::new(),
            rtcp_fb: Vec::new(),
            rtcp_option: Vec::new(),
            control: None,
            setup_role: None,
            extmap: Vec::new(),
            attributes: Vec::new(),
        };
        proof {
            assert(r.deep_view() =~= spec_section_of(m.deep_view()));
        }
        r
    }

    /// The section's own media descriptor.
    pub fn media(&self) -> (r: Media)
        ensures
            r.deep_view() == (MediaV {
                media_type: self.deep_view().media_type,
                port: self.deep_view().port,
                protocol: self.deep_view().protocol,
                payloads: self.deep_view().payloads,
            }),
    {
        Media {
            media_type: self.media_type.clone(),
            port: self.port,
            protocol: clone_strings(&self.protocol),
            payloads: clone_strings(&self.payloads),
        }
    }

    /// Route one parsed line into the section; `Err` hands the line back
    /// when the section must reject it (duplicate singleton or misplaced
    /// session-level line).
    pub fn add_line(&mut self, l: SdpLine) -> (r: Result<(), SdpLine>)
        ensures
            match r {
                Ok(()) => spec_add_media_line(old(self).deep_view(), l.deep_view()) == Some(
                    final(self).deep_view(),
                ),
                Err(back) => {
                    &&& spec_add_media_line(old(self).deep_view(), l.deep_view()) is None
                    &&& final(self).deep_view() == old(self).deep_view()
                    &&& back.deep_view() == l.deep_view()
                },
            },
    {
        match l {
            SdpLine::Comment(_) => Ok(()),
            SdpLine::Session(sl) => match sl {
                SessionLine::Connection(c) => {
                    if self.connection.is_none() {
                        self.connection = Some(c);
                        Ok(())
                    } else {
                        Err(SdpLine::Session(SessionLine::Connection(c)))
                    }
                },
                SessionLine::BandWidth(b) => {
                    if self.band_width.is_none() {
                        self.band_width = Some(b);
                        Ok(())
                    } else {
                        Err(SdpLine::Session(SessionLine::BandWidth(b)))
                    }
                },
                other => Err(SdpLine::Session(other)),
            },
            SdpLine::Attribute(a) => match a {
                AttributeLine::Candidate(c) => {
                    self.candidates.push(c);
                    proof {
                        assert(self.candidates.deep_view() =~= old(self).candidates.deep_view().push(
                            (c).deep_view(),
                        ));
                    }
                    Ok(())
                },
                AttributeLine::Ice(IceParameter::Ufrag(t)) => {
                    if self.ice.ufrag.is_none() {
                        self.ice.ufrag = Some(t);
                        Ok(())
                    } else {
                        Err(SdpLine::Attribute(AttributeLine::Ice(IceParameter::Ufrag(t))))
                    }
                },
                AttributeLine::Ice(IceParameter::Pwd(t)) => {
                    if self.ice.pwd.is_none() {
                        self.ice.pwd = Some(t);
                        Ok(())
                    } else {
                        Err(SdpLine::Attribute(AttributeLine::Ice(IceParameter::Pwd(t))))
                    }
                },
                AttributeLine::Ice(IceParameter::Options(t)) => {
                    if self.ice.options.is_none() {
                        self.ice.options = Some(t);
                        Ok(())
                    } else {
                        Err(SdpLine::Attribute(AttributeLine::Ice(IceParameter::Options(t))))
                    }
                },
                AttributeLine::Ice(other) => {
                    self.attributes.push(AttributeLine::Ice(other));
                    proof {
                        assert(self.attributes.deep_view() =~= old(self).attributes.deep_view().push(
                            (AttributeLine::Ice(other)).deep_view(),
                        ));
                    }
                    Ok(())
                },
                AttributeLine::Mid(t) => {
                    if self.mid.is_none() {
                        self.mid = Some(t);
                        Ok(())
                    } else {
                        Err(SdpLine::Attribute(AttributeLine::Mid(t)))
                    }
                },
                AttributeLine::MsidSemantic(v) => {
                    if self.msid_semantic.is_none() {
                        self.msid_semantic = Some(v);
                        Ok(())
                    } else {
                        Err(SdpLine::Attribute(AttributeLine::MsidSemantic(v)))
                    }
                },
                AttributeLine::Msid(v) => {
                    if self.msid.is_none() {
                        self.msid = Some(v);
                        Ok(())
                    } else {
                        Err(SdpLine::Attribute(AttributeLine::Msid(v)))
                    }
                },
                AttributeLine::RtpMap(v) => {
                    self.rtp_map.push(v);
                    proof {
                        assert(self.rtp_map.deep_view() =~= old(self).rtp_map.deep_view().push(
                            (v).deep_view(),
                        ));
                    }
                    Ok(())
                },
                AttributeLine::PTime(v) => {
                    if self.p_time.is_none() {
                        self.p_time = Some(v);
                        Ok(())
                    } else {
                        Err(SdpLine::Attribute(AttributeLine::PTime(v)))
                    }
                },
                AttributeLine::Ssrc(v) => {
                    self.ssrc.push(v);
                    proof {
                        assert(self.ssrc.deep_view() =~= old(self).ssrc.deep_view().push(
                            (v).deep_view(),
                        ));
                    }
                    Ok(())
                },
                AttributeLine::BundleGroup(v) => {
                    if self.bundle_group.is_none() {
                        self.bundle_group = Some(v);
                        Ok(())
                    } else {
                        Err(SdpLine::Attribute(AttributeLine::BundleGroup(v)))
                    }
                },
                AttributeLine::SsrcGroup(v) => {
                    self.ssrc_group.push(v);
                    proof {
                        assert(self.ssrc_group.deep_view() =~= old(self).ssrc_group.deep_view().push(
                            (v).deep_view(),
                        ));
                    }
                    Ok(())
                },
                AttributeLine::Fingerprint(v) => {
                    if self.fingerprint.is_none() {
                        self.fingerprint = Some(v);
                        Ok(())
                    } else {
                        Err(SdpLine::Attribute(AttributeLine::Fingerprint(v)))
                    }
                },
                AttributeLine::Direction(v) => {
                    if self.direction.is_none() {
                        self.direction = Some(v);
                        Ok(())
                    } else {
                        Err(SdpLine::Attribute(AttributeLine::Direction(v)))
                    }
                },
                AttributeLine::Rtp(v) => {
                    if self.rtp.is_none() {
                        self.rtp = Some(v);
                        Ok(())
                    } else {
                        Err(SdpLine::Attribute(AttributeLine::Rtp(v)))
                    }
                },
                AttributeLine::Rtcp(v) => {
                    if self.rtcp.is_none() {
                        self.rtcp = Some(v);
                        Ok(())
                    } else {
                        Err(SdpLine::Attribute(AttributeLine::Rtcp(v)))
                    }
                },
                AttributeLine::Fmtp(v) => {
                    self.fmtp.push(v);
                    proof {
                        assert(self.fmtp.deep_view() =~= old(self).fmtp.deep_view().push(
                            (v).deep_view(),
                        ));
                    }
                    Ok(())
                },
                AttributeLine::RtcpFb(v) => {
                    self.rtcp_fb.push(v);
                    proof {
                        assert(self.rtcp_fb.deep_view() =~= old(self).rtcp_fb.deep_view().push(
                            (v).deep_view(),
                        ));
                    }
                    Ok(())
                },
                AttributeLine::RtcpOption(v) => {
                    self.rtcp_option.push(v);
                    proof {
                        assert(self.rtcp_option.deep_view() =~= old(self).rtcp_option.deep_view().push(
                            (v).deep_view(),
                        ));
                    }
                    Ok(())
                },
                AttributeLine::Control(v) => {
                    if self.control.is_none() {
                        self.control = Some(v);
                        Ok(())
                    } else {
                        Err(SdpLine::Attribute(AttributeLine::Control(v)))
                    }
                },
                AttributeLine::SetupRole(v) => {
                    if self.setup_role.is_none() {
                        self.setup_role = Some(v);
                        Ok(())
                    } else {
                        Err(SdpLine::Attribute(AttributeLine::SetupRole(v)))
                    }
                },
                AttributeLine::Extmap(v) => {
                    self.extmap.push(v);
                    Ok(())
                },
                AttributeLine::BundleOnly => {
                    self.bundle_only = true;
                    Ok(())
                },
                other => {
                    self.attributes.push(other);
                    proof {
                        assert(self.attributes.deep_view() =~= old(self).attributes.deep_view().push(
                            (other).deep_view(),
                        ));
                    }
                    Ok(())
                },
            },
        }
    }
}

// ---------------------------------------------------------------------------
// serialization
// ---------------------------------------------------------------------------

/// A payload token read as a number, where it is numeric.
pub open spec fn spec_payload_num(t: Seq<char>) -> Option<u32> {
    if t.len() > 0 && all_digits(t) && digits_val(t) <= u32::MAX as int {
        Some(digits_val(t) as u32)
    } else {
        None
    }
}

/// The numeric payload tokens, in descriptor order.
pub open spec fn spec_known_payloads(ts: Seq<Seq<char>>) -> Seq<u32>
    decreases ts.len(),
{
    if ts.len() == 0 {
        Seq::empty()
    } else {
        spec_known_payloads(ts.drop_last()) + (match spec_payload_num(ts.last()) {
            Some(p) => seq![p],
            None => Seq::<u32>::empty(),
        })
    }
}

fn parse_payload(t: &str) -> (r: Option<u32>)
    ensures
        r == spec_payload_num(t@),
{
    let n = t.unicode_len();
    if n == 0 {
        return None;
    }
    let mut k: usize = 0;
    let mut acc: u64 = 0;
    while k < n
        invariant
            0 <= k <= n,
            n == t@.len(),
            all_digits(t@.subrange(0, k as int)),
            acc as int == digits_val(t@.subrange(0, k as int)),
            acc <= u32::MAX as u64,
        decreases n - k,
    {
        let c = t.get_char(k);
        if !(c >= '0' && c <= '9') {
            assert(!all_digits(t@)) by {
                assert(t@[k as int] == t@.subrange(0, t@.len() as int)[k as int]);
            }
            return None;
        }
        let d: u64 = (c as u32 as u64) - ('0' as u32 as u64);
        proof {
            let pfx = t@.subrange(0, k + 1);
            assert(pfx.drop_last() =~= t@.subrange(0, k as int));
            assert(pfx.last() == t@[k as int]);
        }
        let wide: u64 = acc * 10 + d;
        if wide > u32::MAX as u64 {
            proof {
                if all_digits(t@) && digits_val(t@) <= u32::MAX as int {
                    crate::parsers::lemma_digits_val_prefix(t@, k + 1);
                    assert(t@.subrange(0, k + 1) =~= t@.subrange(0, t@.len() as int).subrange(
                        0,
                        k + 1,
                    ));
                    assert(t@.subrange(0, t@.len() as int) =~= t@);
                }
            }
            return None;
        }
        acc = wide;
        k += 1;
    }
    assert(t@.subrange(0, n as int) =~= t@);
    Some(acc as u32)
}

fn known_payloads(ts: &Vec<String>) -> (r: Vec<u32>)
    ensures
        r@ == spec_known_payloads(ts.deep_view()),
{
    let mut acc: Vec<u32> = Vec::new();
    let mut k: usize = 0;
    while k < ts.len()
        invariant
            0 <= k <= ts@.len(),
            acc@ == spec_known_payloads(ts.deep_view().take(k as int)),
        decreases ts@.len() - k,
    {
        proof {
            assert(ts.deep_view().take(k + 1).drop_last() =~= ts.deep_view().take(k as int));
            assert(ts.deep_view().take(k + 1).last() == ts@[k as int]@);
        }
        match parse_payload(ts[k].as_str()) {
            Some(p) => {
                let ghost prev = acc@;
                acc.push(p);
                proof {
                    assert(acc@ =~= prev + seq![p]);
                }
            },
            None => {
                proof {
                    assert(acc@ =~= acc@ + Seq::<u32>::empty());
                }
            },
        }
        k += 1;
    }
    proof {
        assert(ts.deep_view().take(ts@.len() as int) =~= ts.deep_view());
    }
    acc
}

fn contains_u32(v: &Vec<u32>, x: u32) -> (b: bool)
    ensures
        b == v@.contains(x),
{
    let mut k: usize = 0;
    while k < v.len()
        invariant
            0 <= k <= v@.len(),
            forall|q: int| 0 <= q < k ==> v@[q] != x,
        decreases v@.len() - k,
    {
        if v[k] == x {
            assert(v@.contains(x)) by {
                assert(v@[k as int] == x);
            }
            return true;
        }
        k += 1;
    }
    false
}

pub open spec fn spec_candidate_lines(items: Seq<CandidateV>) -> Seq<char>
    decreases items.len(),
{
    if items.len() == 0 {
        Seq::empty()
    } else {
        spec_candidate_lines(items.drop_last()) + spec_render_candidate(items.last()) + "\n"@
    }
}

pub open spec fn spec_extmap_lines(items: Seq<ExtmapV>) -> Seq<char>
    decreases items.len(),
{
    if items.len() == 0 {
        Seq::empty()
    } else {
        spec_extmap_lines(items.drop_last()) + spec_render_extmap(items.last()) + "\n"@
    }
}

pub open spec fn spec_rtcp_option_lines(items: Seq<RtcpOption>) -> Seq<char>
    decreases items.len(),
{
    if items.len() == 0 {
        Seq::empty()
    } else {
        spec_rtcp_option_lines(items.drop_last()) + spec_render_rtcp_option(items.last()) + "\n"@
    }
}

pub open spec fn spec_ssrc_group_lines(items: Seq<SsrcGroupV>) -> Seq<char>
    decreases items.len(),
{
    if items.len() == 0 {
        Seq::empty()
    } else {
        spec_ssrc_group_lines(items.drop_last()) + spec_render_ssrc_group(items.last()) + "\n"@
    }
}

pub open spec fn spec_ssrc_lines(items: Seq<SsrcV>) -> Seq<char>
    decreases items.len(),
{
    if items.len() == 0 {
        Seq::empty()
    } else {
        spec_ssrc_lines(items.drop_last()) + spec_render_ssrc(items.last()) + "\n"@
    }
}

pub open spec fn spec_attribute_lines(items: Seq<AttributeLineV>) -> Seq<char>
    decreases items.len(),
{
    if items.len() == 0 {
        Seq::empty()
    } else {
        spec_attribute_lines(items.drop_last()) + spec_render_attribute_line(items.last()) + "\n"@
    }
}

pub open spec fn spec_rtpmap_lines_for(items: Seq<RtpMapV>, p: u32) -> Seq<char>
    decreases items.len(),
{
    if items.len() == 0 {
        Seq::empty()
    } else {
        spec_rtpmap_lines_for(items.drop_last(), p) + (if items.last().payload == p {
            spec_render_rtpmap(items.last()) + "\n"@
        } else {
            Seq::<char>::empty()
        })
    }
}

pub open spec fn spec_fb_lines_for(items: Seq<FbV>, p: u32) -> Seq<char>
    decreases items.len(),
{
    if items.len() == 0 {
        Seq::empty()
    } else {
        spec_fb_lines_for(items.drop_last(), p) + (if items.last().payload == p {
            spec_render_fb(items.last()) + "\n"@
        } else {
            Seq::<char>::empty()
        })
    }
}

pub open spec fn spec_fmtp_lines_for(items: Seq<FmtpV>, p: u32) -> Seq<char>
    decreases items.len(),
{
    if items.len() == 0 {
        Seq::empty()
    } else {
        spec_fmtp_lines_for(items.drop_last(), p) + (if items.last().payload == p {
            spec_render_fmtp(items.last()) + "\n"@
        } else {
            Seq::<char>::empty()
        })
    }
}

pub open spec fn spec_rtpmap_lines_other(items: Seq<RtpMapV>, known: Seq<u32>) -> Seq<char>
    decreases items.len(),
{
    if items.len() == 0 {
        Seq::empty()
    } else {
        spec_rtpmap_lines_other(items.drop_last(), known) + (if !known.contains(
            items.last().payload,
        ) {
            spec_render_rtpmap(items.last()) + "\n"@
        } else {
            Seq::<char>::empty()
        })
    }
}

pub open spec fn spec_fb_lines_other(items: Seq<FbV>, known: Seq<u32>) -> Seq<char>
    decreases items.len(),
{
    if items.len() == 0 {
        Seq::empty()
    } else {
        spec_fb_lines_other(items.drop_last(), known) + (if !known.contains(items.last().payload) {
            spec_render_fb(items.last()) + "\n"@
        } else {
            Seq::<char>::empty()
        })
    }
}

pub open spec fn spec_fmtp_lines_other(items: Seq<FmtpV>, known: Seq<u32>) -> Seq<char>
    decreases items.len(),
{
    if items.len() == 0 {
        Seq::empty()
    } else {
        spec_fmtp_lines_other(items.drop_last(), known) + (if !known.contains(
            items.last().payload,
        ) {
            spec_render_fmtp(items.last()) + "\n"@
        } else {
            Seq::<char>::empty()
        })
    }
}

/// The rtpmap, feedback and fmtp entries matching payload `p`, grouped.
pub open spec fn spec_payload_block(m: MediaSectionV, p: u32) -> Seq<char> {
    spec_rtpmap_lines_for(m.rtp_map, p) + spec_fb_lines_for(m.rtcp_fb, p) + spec_fmtp_lines_for(
        m.fmtp,
        p,
    )
}

/// One block per numeric payload token, in descriptor order.
pub open spec fn spec_payload_blocks(m: MediaSectionV, ks: Seq<u32>) -> Seq<char>
    decreases ks.len(),
{
    if ks.len() == 0 {
        Seq::empty()
    } else {
        spec_payload_blocks(m, ks.drop_last()) + spec_payload_block(m, ks.last())
    }
}

fn append_candidate_lines(out: &mut String, items: &Vec<Candidate>)
    ensures
        final(out)@ == old(out)@ + spec_candidate_lines(items.deep_view()),
{
    let ghost base = out@;
    let mut k: usize = 0;
    while k < items.len()
        invariant
            0 <= k <= items@.len(),
            out@ == base + spec_candidate_lines(items.deep_view().take(k as int)),
        decreases items@.len() - k,
    {
        out.append(items[k].to_string().as_str());
        out.append("\n");
        proof {
            let iv = items.deep_view();
            assert(iv.take(k + 1).drop_last() =~= iv.take(k as int));
            assert(iv.take(k + 1).last() == items@[k as int].deep_view());
            assert(out@ =~= base + spec_candidate_lines(iv.take(k + 1)));
        }
        k += 1;
    }
    proof {
        assert(items.deep_view().take(items@.len() as int) =~= items.deep_view());
    }
}

fn append_extmap_lines(out: &mut String, items: &Vec<Extmap>)
    ensures
        final(out)@ == old(out)@ + spec_extmap_lines(items.deep_view()),
{
    let ghost base = out@;
    let mut k: usize = 0;
    while k < items.len()
        invariant
            0 <= k <= items@.len(),
            out@ == base + spec_extmap_lines(items.deep_view().take(k as int)),
        decreases items@.len() - k,
    {
        out.append(items[k].to_string().as_str());
        out.append("\n");
        proof {
            let iv = items.deep_view();
            assert(iv.take(k + 1).drop_last() =~= iv.take(k as int));
            assert(iv.take(k + 1).last() == items@[k as int].deep_view());
            assert(out@ =~= base + spec_extmap_lines(iv.take(k + 1)));
        }
        k += 1;
    }
    proof {
        assert(items.deep_view().take(items@.len() as int) =~= items.deep_view());
    }
}

fn append_rtcp_option_lines(out: &mut String, items: &Vec<RtcpOption>)
    ensures
        final(out)@ == old(out)@ + spec_rtcp_option_lines(items.deep_view()),
{
    let ghost base = out@;
    let mut k: usize = 0;
    while k < items.len()
        invariant
            0 <= k <= items@.len(),
            out@ == base + spec_rtcp_option_lines(items.deep_view().take(k as int)),
        decreases items@.len() - k,
    {
        out.append(items[k].to_string().as_str());
        out.append("\n");
        proof {
            let iv = items.deep_view();
            assert(iv.take(k + 1).drop_last() =~= iv.take(k as int));
            assert(iv.take(k + 1).last() == items@[k as int].deep_view());
            assert(out@ =~= base + spec_rtcp_option_lines(iv.take(k + 1)));
        }
        k += 1;
    }
    proof {
        assert(items.deep_view().take(items@.len() as int) =~= items.deep_view());
    }
}

fn append_ssrc_group_lines(out: &mut String, items: &Vec<SsrcGroup>)
    ensures
        final(out)@ == old(out)@ + spec_ssrc_group_lines(items.deep_view()),
{
    let ghost base = out@;
    let mut k: usize = 0;
    while k < items.len()
        invariant
            0 <= k <= items@.len(),
            out@ == base + spec_ssrc_group_lines(items.deep_view().take(k as int)),
        decreases items@.len() - k,
    {
        out.append(items[k].to_string().as_str());
        out.append("\n");
        proof {
            let iv = items.deep_view();
            assert(iv.take(k + 1).drop_last() =~= iv.take(k as int));
            assert(iv.take(k + 1).last() == items@[k as int].deep_view());
            assert(out@ =~= base + spec_ssrc_group_lines(iv.take(k + 1)));
        }
        k += 1;
    }
    proof {
        assert(items.deep_view().take(items@.len() as int) =~= items.deep_view());
    }
}

fn append_ssrc_lines(out: &mut String, items: &Vec<Ssrc>)
    ensures
        final(out)@ == old(out)@ + spec_ssrc_lines(items.deep_view()),
{
    let ghost base = out@;
    let mut k: usize = 0;
    while k < items.len()
        invariant
            0 <= k <= items@.len(),
            out@ == base + spec_ssrc_lines(items.deep_view().take(k as int)),
        decreases items@.len() - k,
    {
        out.append(items[k].to_string().as_str());
        out.append("\n");
        proof {
            let iv = items.deep_view();
            assert(iv.take(k + 1).drop_last() =~= iv.take(k as int));
            assert(iv.take(k + 1).last() == items@[k as int].deep_view());
            assert(out@ =~= base + spec_ssrc_lines(iv.take(k + 1)));
        }
        k += 1;
    }
    proof {
        assert(items.deep_view().take(items@.len() as int) =~= items.deep_view());
    }
}

/// Append the rendered attribute lines of the overflow list.
pub fn append_attribute_lines(out: &mut String, items: &Vec<AttributeLine>)
    ensures
        final(out)@ == old(out)@ + spec_attribute_lines(items.deep_view()),
{
    let ghost base = out@;
    let mut k: usize = 0;
    while k < items.len()
        invariant
            0 <= k <= items@.len(),
            out@ == base + spec_attribute_lines(items.deep_view().take(k as int)),
        decreases items@.len() - k,
    {
        out.append(items[k].to_string().as_str());
        out.append("\n");
        proof {
            let iv = items.deep_view();
            assert(iv.take(k + 1).drop_last() =~= iv.take(k as int));
            assert(iv.take(k + 1).last() == items@[k as int].deep_view());
            assert(out@ =~= base + spec_attribute_lines(iv.take(k + 1)));
        }
        k += 1;
    }
    proof {
        assert(items.deep_view().take(items@.len() as int) =~= items.deep_view());
    }
}

fn append_rtpmap_lines_for(out: &mut String, items: &Vec<RtpMap>, p: u32)
    ensures
        final(out)@ == old(out)@ + spec_rtpmap_lines_for(items.deep_view(), p),
{
    let ghost base = out@;
    let mut k: usize = 0;
    while k < items.len()
        invariant
            0 <= k <= items@.len(),
            out@ == base + spec_rtpmap_lines_for(items.deep_view().take(k as int), p),
        decreases items@.len() - k,
    {
        proof {
            let iv = items.deep_view();
            assert(iv.take(k + 1).drop_last() =~= iv.take(k as int));
            assert(iv.take(k + 1).last() == items@[k as int].deep_view());
        }
        if items[k].payload == p {
            out.append(items[k].to_string().as_str());
            out.append("\n");
        }
        proof {
            assert(out@ =~= base + spec_rtpmap_lines_for(items.deep_view().take(k + 1), p));
        }
        k += 1;
    }
    proof {
        assert(items.deep_view().take(items@.len() as int) =~= items.deep_view());
    }
}

fn append_fb_lines_for(out: &mut String, items: &Vec<Fb>, p: u32)
    ensures
        final(out)@ == old(out)@ + spec_fb_lines_for(items.deep_view(), p),
{
    let ghost base = out@;
    let mut k: usize = 0;
    while k < items.len()
        invariant
            0 <= k <= items@.len(),
            out@ == base + spec_fb_lines_for(items.deep_view().take(k as int), p),
        decreases items@.len() - k,
    {
        proof {
            let iv = items.deep_view();
            assert(iv.take(k + 1).drop_last() =~= iv.take(k as int));
            assert(iv.take(k + 1).last() == items@[k as int].deep_view());
        }
        if items[k].payload == p {
            out.append(items[k].to_string().as_str());
            out.append("\n");
        }
        proof {
            assert(out@ =~= base + spec_fb_lines_for(items.deep_view().take(k + 1), p));
        }
        k += 1;
    }
    proof {
        assert(items.deep_view().take(items@.len() as int) =~= items.deep_view());
    }
}

fn append_fmtp_lines_for(out: &mut String, items: &Vec<Fmtp>, p: u32)
    ensures
        final(out)@ == old(out)@ + spec_fmtp_lines_for(items.deep_view(), p),
{
    let ghost base = out@;
    let mut k: usize = 0;
    while k < items.len()
        invariant
            0 <= k <= items@.len(),
            out@ == base + spec_fmtp_lines_for(items.deep_view().take(k as int), p),
        decreases items@.len() - k,
    {
        proof {
            let iv = items.deep_view();
            assert(iv.take(k + 1).drop_last() =~= iv.take(k as int));
            assert(iv.take(k + 1).last() == items@[k as int].deep_view());
        }
        if items[k].payload == p {
            out.append(items[k].to_string().as_str());
            out.append("\n");
        }
        proof {
            assert(out@ =~= base + spec_fmtp_lines_for(items.deep_view().take(k + 1), p));
        }
        k += 1;
    }
    proof {
        assert(items.deep_view().take(items@.len() as int) =~= items.deep_view());
    }
}

fn append_rtpmap_lines_other(out: &mut String, items: &Vec<RtpMap>, known: &Vec<u32>)
    ensures
        final(out)@ == old(out)@ + spec_rtpmap_lines_other(items.deep_view(), known@),
{
    let ghost base = out@;
    let mut k: usize = 0;
    while k < items.len()
        invariant
            0 <= k <= items@.len(),
            out@ == base + spec_rtpmap_lines_other(items.deep_view().take(k as int), known@),
        decreases items@.len() - k,
    {
        proof {
            let iv = items.deep_view();
            assert(iv.take(k + 1).drop_last() =~= iv.take(k as int));
            assert(iv.take(k + 1).last() == items@[k as int].deep_view());
        }
        if !contains_u32(known, items[k].payload) {
            out.append(items[k].to_string().as_str());
            out.append("\n");
        }
        proof {
            assert(out@ =~= base + spec_rtpmap_lines_other(
                items.deep_view().take(k + 1),
                known@,
            ));
        }
        k += 1;
    }
    proof {
        assert(items.deep_view().take(items@.len() as int) =~= items.deep_view());
    }
}

fn append_fb_lines_other(out: &mut String, items: &Vec<Fb>, known: &Vec<u32>)
    ensures
        final(out)@ == old(out)@ + spec_fb_lines_other(items.deep_view(), known@),
{
    let ghost base = out@;
    let mut k: usize = 0;
    while k < items.len()
        invariant
            0 <= k <= items@.len(),
            out@ == base + spec_fb_lines_other(items.deep_view().take(k as int), known@),
        decreases items@.len() - k,
    {
        proof {
            let iv = items.deep_view();
            assert(iv.take(k + 1).drop_last() =~= iv.take(k as int));
            assert(iv.take(k + 1).last() == items@[k as int].deep_view());
        }
        if !contains_u32(known, items[k].payload) {
            out.append(items[k].to_string().as_str());
            out.append("\n");
        }
        proof {
            assert(out@ =~= base + spec_fb_lines_other(items.deep_view().take(k + 1), known@));
        }
        k += 1;
    }
    proof {
        assert(items.deep_view().take(items@.len() as int) =~= items.deep_view());
    }
}

fn append_fmtp_lines_other(out: &mut String, items: &Vec<Fmtp>, known: &Vec<u32>)
    ensures
        final(out)@ == old(out)@ + spec_fmtp_lines_other(items.deep_view(), known@),
{
    let ghost base = out@;
    let mut k: usize = 0;
    while k < items.len()
        invariant
            0 <= k <= items@.len(),
            out@ == base + spec_fmtp_lines_other(items.deep_view().take(k as int), known@),
        decreases items@.len() - k,
    {
        proof {
            let iv = items.deep_view();
            assert(iv.take(k + 1).drop_last() =~= iv.take(k as int));
            assert(iv.take(k + 1).last() == items@[k as int].deep_view());
        }
        if !contains_u32(known, items[k].payload) {
            out.append(items[k].to_string().as_str());
            out.append("\n");
        }
        proof {
            assert(out@ =~= base + spec_fmtp_lines_other(items.deep_view().take(k + 1), known@));
        }
        k += 1;
    }
    proof {
        assert(items.deep_view().take(items@.len() as int) =~= items.deep_view());
    }
}

/// The start of the section's head: descriptor through the mid line.
pub open spec fn spec_render_media_head1(m: MediaSectionV) -> Seq<char> {
    let s1 = spec_render_media(
        MediaV {
            media_type: m.media_type,
            port: m.port,
            protocol: m.protocol,
            payloads: m.payloads,
        },
    ) + "\n"@;
    let s2 = match m.connection {
        Some(c) => s1 + spec_render_connection(c) + "\n"@,
        None => s1,
    };
    let s3 = match m.band_width {
        Some(b) => s2 + spec_render_bandwidth(b) + "\n"@,
        None => s2,
    };
    let s4 = s3 + spec_candidate_lines(m.candidates);
    let s5 = match m.ice.ufrag {
        Some(t) => s4 + spec_render_ice_parameter(IceParameterV::Ufrag(t)) + "\n"@,
        None => s4,
    };
    let s6 = match m.ice.pwd {
        Some(t) => s5 + spec_render_ice_parameter(IceParameterV::Pwd(t)) + "\n"@,
        None => s5,
    };
    let s7 = match m.ice.options {
        Some(t) => s6 + spec_render_ice_parameter(IceParameterV::Options(t)) + "\n"@,
        None => s6,
    };
    let s8 = match m.fingerprint {
        Some(f) => s7 + spec_render_fingerprint(f) + "\n"@,
        None => s7,
    };
    let s9 = match m.setup_role {
        Some(x) => s8 + spec_render_setup_role(x) + "\n"@,
        None => s8,
    };
    match m.mid {
        Some(x) => s9 + spec_render_mid(x) + "\n"@,
        None => s9,
    }
}

/// The middle of the section's head: packet time through rtcp options.
pub open spec fn spec_render_media_head(m: MediaSectionV) -> Seq<char> {
    let s10 = spec_render_media_head1(m);
    let s11 = match m.p_time {
        Some(x) => s10 + spec_render_p_time(x) + "\n"@,
        None => s10,
    };
    let s12 = s11 + spec_extmap_lines(m.extmap);
    let s13 = match m.bundle_group {
        Some(x) => s12 + spec_render_bundle_group(x) + "\n"@,
        None => s12,
    };
    let s14 = if m.bundle_only {
        s13 + "a=bundle-only"@ + "\n"@
    } else {
        s13
    };
    let s15 = match m.direction {
        Some(x) => s14 + spec_render_direction(x) + "\n"@,
        None => s14,
    };
    let s16 = match m.msid_semantic {
        Some(x) => s15 + spec_render_msid_semantic(x) + "\n"@,
        None => s15,
    };
    let s17 = match m.msid {
        Some(x) => s16 + spec_render_msid(x) + "\n"@,
        None => s16,
    };
    let s18 = match m.rtcp {
        Some(x) => s17 + spec_render_rtcp(x) + "\n"@,
        None => s17,
    };
    let s19 = match m.rtp {
        Some(x) => s18 + spec_render_rtp(x) + "\n"@,
        None => s18,
    };
    s19 + spec_rtcp_option_lines(m.rtcp_option)
}

/// The whole section rendered: the head, then per payload token (in
/// descriptor order) the matching rtpmap, feedback and fmtp entries, then
/// the entries whose payload is not a descriptor token, then sources,
/// control and the overflow list.
pub open spec fn spec_render_media_section(m: MediaSectionV) -> Seq<char> {
    let s20 = spec_render_media_head(m);
    let known = spec_known_payloads(m.payloads);
    let s21 = s20 + spec_payload_blocks(m, known);
    let s22 = s21 + spec_rtpmap_lines_other(m.rtp_map, known);
    let s23 = s22 + spec_fb_lines_other(m.rtcp_fb, known);
    let s24 = s23 + spec_fmtp_lines_other(m.fmtp, known);
    let s25 = s24 + spec_ssrc_group_lines(m.ssrc_group);
    let s26 = s25 + spec_ssrc_lines(m.ssrc);
    let s27 = match m.control {
        Some(x) => s26 + spec_render_control(x) + "\n"@,
        None => s26,
    };
    s27 + spec_attribute_lines(m.attributes)
}

impl MediaSection {
    /// Render the start of the section's head.
    #[verifier::rlimit(100)]
    fn head1_string(&self) -> (r: String)
        ensures
            r@ == spec_render_media_head1(self.deep_view()),
    {
        let mut out = self.media().to_string();
        out.append("\n");
        match &self.connection {
            Some(c) => {
                out.append(c.to_string().as_str());
                out.append("\n");
            },
            None => {},
        }
        match &self.band_width {
            Some(b) => {
                out.append(b.to_string().as_str());
                out.append("\n");
            },
            None => {},
        }
        append_candidate_lines(&mut out, &self.candidates);
        match &self.ice.ufrag {
            Some(t) => {
                out.append(IceParameter::Ufrag(t.clone()).to_string().as_str());
                out.append("\n");
            },
            None => {},
        }
        match &self.ice.pwd {
            Some(t) => {
                out.append(IceParameter::Pwd(t.clone()).to_string().as_str());
                out.append("\n");
            },
            None => {},
        }
        match &self.ice.options {
            Some(t) => {
                out.append(IceParameter::Options(t.clone()).to_string().as_str());
                out.append("\n");
            },
            None => {},
        }
        match &self.fingerprint {
            Some(f) => {
                out.append(f.to_string().as_str());
                out.append("\n");
            },
            None => {},
        }
        match &self.setup_role {
            Some(x) => {
                out.append(x.to_string().as_str());
                out.append("\n");
            },
            None => {},
        }
        match &self.mid {
            Some(x) => {
                out.append(x.to_string().as_str());
                out.append("\n");
            },
            None => {},
        }
        out
    }

    /// Render the head of the section, one line at a time.
    #[verifier::rlimit(100)]
    fn head_string(&self) -> (r: String)
        ensures
            r@ == spec_render_media_head(self.deep_view()),
    {
        let mut out = self.head1_string();
        match &self.p_time {
            Some(x) => {
                out.append(x.to_string().as_str());
                out.append("\n");
            },
            None => {},
        }
        append_extmap_lines(&mut out, &self.extmap);
        match &self.bundle_group {
            Some(x) => {
                out.append(x.to_string().as_str());
                out.append("\n");
            },
            None => {},
        }
        if self.bundle_only {
            out.append("a=bundle-only");
            out.append("\n");
        }
        match &self.direction {
            Some(x) => {
                out.append(x.to_string().as_str());
                out.append("\n");
            },
            None => {},
        }
        match &self.msid_semantic {
            Some(x) => {
                out.append(x.to_string().as_str());
                out.append("\n");
            },
            None => {},
        }
        match &self.msid {
            Some(x) => {
                out.append(x.to_string().as_str());
                out.append("\n");
            },
            None => {},
        }
        match &self.rtcp {
            Some(x) => {
                out.append(x.to_string().as_str());
                out.append("\n");
            },
            None => {},
        }
        match &self.rtp {
            Some(x) => {
                out.append(x.to_string().as_str());
                out.append("\n");
            },
            None => {},
        }
        append_rtcp_option_lines(&mut out, &self.rtcp_option);
        out
    }

    /// Render the section, one line at a time, each ended by a line feed.
    #[verifier::rlimit(100)]
    pub fn to_string(&self) -> (r: String)
        ensures
            r@ == spec_render_media_section(self.deep_view()),
    {
        let mut out = self.head_string();
        let known = known_payloads(&self.payloads);
        let ghost s20 = out@;
        let mut k: usize = 0;
        while k < known.len()
            invariant
                0 <= k <= known@.len(),
                known@ == spec_known_payloads(self.deep_view().payloads),
                out@ == s20 + spec_payload_blocks(self.deep_view(), known@.take(k as int)),
            decreases known@.len() - k,
        {
            proof {
                assert(known@.take(k + 1).drop_last() =~= known@.take(k as int));
                assert(known@.take(k + 1).last() == known@[k as int]);
            }
            append_rtpmap_lines_for(&mut out, &self.rtp_map, known[k]);
            append_fb_lines_for(&mut out, &self.rtcp_fb, known[k]);
            append_fmtp_lines_for(&mut out, &self.fmtp, known[k]);
            proof {
                assert(out@ =~= s20 + spec_payload_blocks(self.deep_view(), known@.take(k + 1)));
            }
            k += 1;
        }
        proof {
            assert(known@.take(known@.len() as int) =~= known@);
        }
        append_rtpmap_lines_other(&mut out, &self.rtp_map, &known);
        append_fb_lines_other(&mut out, &self.rtcp_fb, &known);
        append_fmtp_lines_other(&mut out, &self.fmtp, &known);
        append_ssrc_group_lines(&mut out, &self.ssrc_group);
        append_ssrc_lines(&mut out, &self.ssrc);
        match &self.control {
            Some(x) => {
                out.append(x.to_string().as_str());
                out.append("\n");
            },
            None => {},
        }
        append_attribute_lines(&mut out, &self.attributes);
        out
    }

    /// Detach the section into independently owned storage.
    pub fn into_owned(&self) -> (r: MediaSection)
        ensures
            r.deep_view() == self.deep_view(),
    {
        let mut candidates: Vec<Candidate> = Vec::new();
        let mut k: usize = 0;
        while k < self.candidates.len()
            invariant
                0 <= k <= self.candidates@.len(),
                candidates.deep_view() =~= self.candidates.deep_view().take(k as int),
            decreases self.candidates@.len() - k,
        {
            let ghost prev = candidates.deep_view();
            let item = self.candidates[k].into_owned();
            candidates.push(item);
            proof {
                assert(candidates.deep_view() =~= prev.push(self.candidates.deep_view()[k as int]));
                assert(prev.push(self.candidates.deep_view()[k as int]) =~= self.candidates.deep_view().take(
                    k + 1,
                ));
            }
            k += 1;
        }
        let mut rtp_map: Vec<RtpMap> = Vec::new();
        let mut k: usize = 0;
        while k < self.rtp_map.len()
            invariant
                0 <= k <= self.rtp_map@.len(),
                rtp_map.deep_view() =~= self.rtp_map.deep_view().take(k as int),
            decreases self.rtp_map@.len() - k,
        {
            let ghost prev = rtp_map.deep_view();
            let item = self.rtp_map[k].into_owned();
            rtp_map.push(item);
            proof {
                assert(rtp_map.deep_view() =~= prev.push(self.rtp_map.deep_view()[k as int]));
                assert(prev.push(self.rtp_map.deep_view()[k as int]) =~= self.rtp_map.deep_view().take(
                    k + 1,
                ));
            }
            k += 1;
        }
        let mut ssrc: Vec<Ssrc> = Vec::new();
        let mut k: usize = 0;
        while k < self.ssrc.len()
            invariant
                0 <= k <= self.ssrc@.len(),
                ssrc.deep_view() =~= self.ssrc.deep_view().take(k as int),
            decreases self.ssrc@.len() - k,
        {
            let ghost prev = ssrc.deep_view();
            let item = self.ssrc[k].into_owned();
            ssrc.push(item);
            proof {
                assert(ssrc.deep_view() =~= prev.push(self.ssrc.deep_view()[k as int]));
                assert(prev.push(self.ssrc.deep_view()[k as int]) =~= self.ssrc.deep_view().take(
                    k + 1,
                ));
            }
            k += 1;
        }
        let mut ssrc_group: Vec<SsrcGroup> = Vec::new();
        let mut k: usize = 0;
        while k < self.ssrc_group.len()
            invariant
                0 <= k <= self.ssrc_group@.len(),
                ssrc_group.deep_view() =~= self.ssrc_group.deep_view().take(k as int),
            decreases self.ssrc_group@.len() - k,
        {
            let ghost prev = ssrc_group.deep_view();
            let item = self.ssrc_group[k].into_owned();
            ssrc_group.push(item);
            proof {
                assert(ssrc_group.deep_view() =~= prev.push(self.ssrc_group.deep_view()[k as int]));
                assert(prev.push(self.ssrc_group.deep_view()[k as int]) =~= self.ssrc_group.deep_view().take(
                    k + 1,
                ));
            }
            k += 1;
        }
        let mut fmtp: Vec<Fmtp> = Vec::new();
        let mut k: usize = 0;
        while k < self.fmtp.len()
            invariant
                0 <= k <= self.fmtp@.len(),
                fmtp.deep_view() =~= self.fmtp.deep_view().take(k as int),
            decreases self.fmtp@.len() - k,
        {
            let ghost prev = fmtp.deep_view();
            let item = self.fmtp[k].into_owned();
            fmtp.push(item);
            proof {
                assert(fmtp.deep_view() =~= prev.push(self.fmtp.deep_view()[k as int]));
                assert(prev.push(self.fmtp.deep_view()[k as int]) =~= self.fmtp.deep_view().take(
                    k + 1,
                ));
            }
            k += 1;
        }
        let mut rtcp_fb: Vec<Fb> = Vec::new();
        let mut k: usize = 0;
        while k < self.rtcp_fb.len()
            invariant
                0 <= k <= self.rtcp_fb@.len(),
                rtcp_fb.deep_view() =~= self.rtcp_fb.deep_view().take(k as int),
            decreases self.rtcp_fb@.len() - k,
        {
            let ghost prev = rtcp_fb.deep_view();
            let item = self.rtcp_fb[k].into_owned();
            rtcp_fb.push(item);
            proof {
                assert(rtcp_fb.deep_view() =~= prev.push(self.rtcp_fb.deep_view()[k as int]));
                assert(prev.push(self.rtcp_fb.deep_view()[k as int]) =~= self.rtcp_fb.deep_view().take(
                    k + 1,
                ));
            }
            k += 1;
        }
        let mut rtcp_option: Vec<RtcpOption> = Vec::new();
        let mut k: usize = 0;
        while k < self.rtcp_option.len()
            invariant
                0 <= k <= self.rtcp_option@.len(),
                rtcp_option.deep_view() =~= self.rtcp_option.deep_view().take(k as int),
            decreases self.rtcp_option@.len() - k,
        {
            let ghost prev = rtcp_option.deep_view();
            let item = self.rtcp_option[k];
            rtcp_option.push(item);
            proof {
                assert(rtcp_option.deep_view() =~= prev.push(self.rtcp_option.deep_view()[k as int]));
                assert(prev.push(self.rtcp_option.deep_view()[k as int]) =~= self.rtcp_option.deep_view().take(
                    k + 1,
                ));
            }
            k += 1;
        }
        let mut extmap: Vec<Extmap> = Vec::new();
        let mut k: usize = 0;
        while k < self.extmap.len()
            invariant
                0 <= k <= self.extmap@.len(),
                extmap.deep_view() =~= self.extmap.deep_view().take(k as int),
            decreases self.extmap@.len() - k,
        {
            let ghost prev = extmap.deep_view();
            let item = self.extmap[k].into_owned();
            extmap.push(item);
            proof {
                assert(extmap.deep_view() =~= prev.push(self.extmap.deep_view()[k as int]));
                assert(prev.push(self.extmap.deep_view()[k as int]) =~= self.extmap.deep_view().take(
                    k + 1,
                ));
            }
            k += 1;
        }
        let mut attributes: Vec<AttributeLine> = Vec::new();
        let mut k: usize = 0;
        while k < self.attributes.len()
            invariant
                0 <= k <= self.attributes@.len(),
                attributes.deep_view() =~= self.attributes.deep_view().take(k as int),
            decreases self.attributes@.len() - k,
        {
            let ghost prev = attributes.deep_view();
            let item = self.attributes[k].into_owned();
            attributes.push(item);
            proof {
                assert(attributes.deep_view() =~= prev.push(self.attributes.deep_view()[k as int]));
                assert(prev.push(self.attributes.deep_view()[k as int]) =~= self.attributes.deep_view().take(
                    k + 1,
                ));
            }
            k += 1;
        }
        proof {
            assert(self.candidates.deep_view().take(self.candidates@.len() as int)
                =~= self.candidates.deep_view());
            assert(self.rtp_map.deep_view().take(self.rtp_map@.len() as int)
                =~= self.rtp_map.deep_view());
            assert(self.ssrc.deep_view().take(self.ssrc@.len() as int) =~= self.ssrc.deep_view());
            assert(self.ssrc_group.deep_view().take(self.ssrc_group@.len() as int)
                =~= self.ssrc_group.deep_view());
            assert(self.fmtp.deep_view().take(self.fmtp@.len() as int) =~= self.fmtp.deep_view());
            assert(self.rtcp_fb.deep_view().take(self.rtcp_fb@.len() as int)
                =~= self.rtcp_fb.deep_view());
            assert(self.rtcp_option.deep_view().take(self.rtcp_option@.len() as int)
                =~= self.rtcp_option.deep_view());
            assert(self.extmap.deep_view().take(self.extmap@.len() as int)
                =~= self.extmap.deep_view());
            assert(self.attributes.deep_view().take(self.attributes@.len() as int)
                =~= self.attributes.deep_view());
        }
        let r = MediaSection {
            media_type: self.media_type.clone(),
            port: self.port,
            protocol: clone_strings(&self.protocol),
            payloads: clone_strings(&self.payloads),
            connection: match &self.connection {
                Some(c) => Some(c.into_owned()),
                None => None,
            },
            band_width: self.band_width,
            candidates,
            ice: self.ice.into_owned(),
            mid: match &self.mid {
                Some(x) => Some(x.into_owned()),
                None => None,
            },
            msid_semantic: match &self.msid_semantic {
                Some(x) => Some(x.into_owned()),
                None => None,
            },
            msid: match &self.msid {
                Some(x) => Some(x.into_owned()),
                None => None,
            },
            rtp_map,
            p_time: self.p_time,
            ssrc,
            bundle_group: match &self.bundle_group {
                Some(x) => Some(x.into_owned()),
                None => None,
            },
            bundle_only: self.bundle_only,
            ssrc_group,
            fingerprint: match &self.fingerprint {
                Some(x) => Some(x.into_owned()),
                None => None,
            },
            direction: self.direction,
            rtp: match &self.rtp {
                Some(x) => Some(x.into_owned()),
                None => None,
            },
            rtcp: match &self.rtcp {
                Some(x) => Some(x.into_owned()),
                None => None,
            },
            fmtp,
            rtcp_fb,
            rtcp_option,
            control: match &self.control {
                Some(x) => Some(x.into_owned()),
                None => None,
            },
            setup_role: self.setup_role,
            extmap,
            attributes,
        };
        proof {
            assert(r.deep_view() =~= self.deep_view());
        }
        r
    }
}

} // verus!
