//! Round-trip laws: what survives a parse → serialize → reparse cycle.
//!
//! The exact grammar and renderer contracts make these provable once and
//! for all; each law here is stated over the spec functions that those
//! contracts use, so it holds of the executable parser and serializer.

use vstd::prelude::*;

use crate::attributes::dtls::{spec_render_setup_role, spec_setup_role_line, SetupRole};
use crate::attributes::ice::{spec_ice_parameter_line, spec_render_ice_parameter, IceParameterV};
use crate::attributes::rtcp::{spec_render_rtcp, spec_rtcp_attribute_line, RtcpV};
use crate::attributes::rtpmap::{spec_opt_slash_num, spec_read_p_time, spec_render_p_time,
    spec_render_rtpmap, spec_rtpmap_line, PTime, RtpMapV};
use crate::attributes::extmap::{spec_extmap_line, spec_render_extmap, ExtmapV};
use crate::attributes::ssrc::{spec_render_ids, spec_render_ssrc, spec_render_ssrc_group,
    spec_render_ssrc_semantic, spec_ssrc_group_line, spec_ssrc_line, SsrcGroupV, SsrcSemantic,
    SsrcV};
use crate::lines::connection::{spec_connection_line, spec_render_connection, ConnectionV};
use crate::lines::media::{spec_media_line, spec_render_media, MediaV};
use crate::lines::origin::{spec_origin_line, spec_render_origin, OriginV};
use crate::attributes::{spec_attribute_line, spec_bundle_group_line, spec_control_attribute_line,
    spec_direction_line, spec_fingerprint_line, spec_fmtp_attribute_line,
    spec_key_only_attribute_line, spec_key_val_attribute_line, spec_mid_line, spec_msid,
    spec_msid_line, spec_render_attribute_line, spec_render_bundle_group, spec_render_control,
    spec_render_direction, spec_render_fingerprint, spec_render_fmtp, spec_render_mid,
    spec_render_msid, spec_render_msid_semantic, spec_render_rtcp_option, spec_render_rtp,
    spec_msid_semantic_line, spec_read_direction, spec_render_direction_word,
    spec_rtp_attribute_line, spec_rtp_option_line, AttributeLineV,
    Direction, FingerprintV, FmtpV, MsidSemanticV, RtcpOption, RtpV};
use crate::lines::{spec_bandwidth_line, spec_description_line, spec_email_address_line,
    spec_name_line, spec_phone_number_line, spec_render_bandwidth, spec_render_bandwidth_type,
    spec_render_description, spec_render_email,
    spec_render_name, spec_render_phone, spec_render_timing, spec_render_uri, spec_render_version,
    spec_timing_line, spec_uri_line, spec_version_line, BandWidth, Timing, Version};
use crate::parsers::{all_digits, dec_str, digits_val, is_digit_char, is_wsp,
    lemma_addr_embedded, lemma_cat_prefixed_join, lemma_dec_str_digits, lemma_dec_str_val,
    lemma_join_sep_first, lemma_skip_wsp_at, lemma_slash_tokens_embedded, lemma_slash_tokens_wf,
    lemma_space_tokens_embedded, lemma_space_tokens_wf,
    lemma_token_end_at, lemma_token_end_chars, lemma_token_end_no_stop, occurs_at, skip_wsp,
    spec_cat_prefixed, spec_join_sep, spec_read_addr, spec_read_ipver, spec_render_addr,
    spec_render_ipver, spec_slash_tokens, spec_space_tokens, spec_token_to_end, stops, token_end,
    IpAddressV, IpVer, StopAt};

verus! {

/// Unknown-attribute preservation: an `a=` line (one physical line, so free
/// of line feeds) that only the generic fallback accepts serializes back to
/// exactly that line, byte for byte — whether it carried a value or not.
pub proof fn lemma_unknown_attribute_preserved(s: Seq<char>)
    requires
        forall|k: int| 0 <= k < s.len() ==> s[k] != '\n',
    ensures
        spec_attribute_line(s) matches Some(AttributeLineV::KeyValue { key, val })
            ==> spec_render_attribute_line(
            AttributeLineV::KeyValue { key, val },
        ) == s,
        spec_attribute_line(s) matches Some(AttributeLineV::KeyOnly(key))
            ==> spec_render_attribute_line(AttributeLineV::KeyOnly(key)) == s,
{
    reveal_strlit("a=");
    reveal_strlit(":");
    let r = spec_attribute_line(s);
    if r is Some {
        match r->0 {
            AttributeLineV::KeyValue { key, val } => {
                assert(spec_key_val_attribute_line(s) == Some((key, val)));
                let i = "a="@.len() as int;
                let j = token_end(s, i, StopAt::Colon);
                lemma_nl_free_scan(s, j + 1);
                assert(key == s.subrange(i, j));
                assert(val == s.subrange(j + 1, s.len() as int));
                assert(s.subrange(0, i) == "a="@);
                assert(s.subrange(j, j + 1) =~= ":"@) by {
                    assert(s.subrange(j, j + 1)[0] == s[j]);
                }
                assert(spec_render_attribute_line(AttributeLineV::KeyValue { key, val }) =~= s);
            },
            AttributeLineV::KeyOnly(key) => {
                assert(spec_key_only_attribute_line(s) == Some(key));
                let i = "a="@.len() as int;
                lemma_nl_free_scan(s, i);
                assert(key == s.subrange(i, s.len() as int));
                assert(s.subrange(0, i) == "a="@);
                assert(spec_render_attribute_line(AttributeLineV::KeyOnly(key)) =~= s);
            },
            _ => {},
        }
    }
}

/// In a line free of line feeds, the verbatim scan runs to the end.
proof fn lemma_nl_free_scan(s: Seq<char>, i: int)
    requires
        0 <= i <= s.len(),
        forall|k: int| 0 <= k < s.len() ==> s[k] != '\n',
    ensures
        token_end(s, i, StopAt::Line) == s.len(),
{
    lemma_token_end_no_stop(s, i, StopAt::Line);
}

/// A version line survives the cycle: parsing the rendering of any version
/// value gives that value back.
pub proof fn lemma_version_round_trip(v: Version)
    ensures
        spec_version_line(spec_render_version(v)) == Some(v),
{
    reveal_strlit("v=");
    let s = spec_render_version(v);
    let n = v.0 as int;
    lemma_dec_str_digits(n);
    lemma_dec_str_val(n);
    assert(s.subrange(0, 2) =~= "v="@);
    assert(occurs_at(s, 0, "v="@));
    assert(forall|k: int| 2 <= k < s.len() ==> #[trigger] s[k] == dec_str(n)[k - 2]);
    assert(forall|k: int|
        2 <= k < s.len() ==> crate::parsers::is_digit_char(#[trigger] s[k]));
    assert(!is_wsp(s[2]));
    assert(skip_wsp(s, 2) == 2);
    assert(forall|k: int| 2 <= k < s.len() ==> !stops(StopAt::NumDelim, #[trigger] s[k]));
    lemma_token_end_no_stop(s, 2, StopAt::NumDelim);
    assert(s.subrange(2, s.len() as int) =~= dec_str(n));
    assert(all_digits(s.subrange(2, s.len() as int)));
    assert(digits_val(s.subrange(2, s.len() as int)) == n);
    assert(skip_wsp(s, s.len() as int) == s.len());
}

/// A DTLS setup-role line survives the cycle.
pub proof fn lemma_setup_role_round_trip(v: SetupRole)
    ensures
        spec_setup_role_line(spec_render_setup_role(v)) == Some(v),
{
    reveal_strlit("a=setup:active");
    reveal_strlit("a=setup:passive");
    reveal_strlit("a=setup:actpass");
    let s = spec_render_setup_role(v);
    match v {
        SetupRole::Active => {
            assert(occurs_at(s, 0, "a=setup:active"@)) by {
                assert(s.subrange(0, s.len() as int) =~= s);
            }
            assert(skip_wsp(s, "a=setup:active"@.len() as int) == s.len());
        },
        SetupRole::Passive => {
            assert(occurs_at(s, 0, "a=setup:passive"@)) by {
                assert(s.subrange(0, s.len() as int) =~= s);
            }
            assert(!occurs_at(s, 0, "a=setup:active"@)) by {
                if occurs_at(s, 0, "a=setup:active"@) {
                    assert(s.subrange(0, "a=setup:active"@.len() as int)[8] == s[8]);
                }
            }
            assert(skip_wsp(s, "a=setup:passive"@.len() as int) == s.len());
        },
        SetupRole::ActPass => {
            assert(occurs_at(s, 0, "a=setup:actpass"@)) by {
                assert(s.subrange(0, s.len() as int) =~= s);
            }
            assert(!occurs_at(s, 0, "a=setup:active"@)) by {
                if occurs_at(s, 0, "a=setup:active"@) {
                    assert(s.subrange(0, "a=setup:active"@.len() as int)[11] == s[11]);
                }
            }
            assert(!occurs_at(s, 0, "a=setup:passive"@)) by {
                if occurs_at(s, 0, "a=setup:passive"@) {
                    assert(s.subrange(0, "a=setup:passive"@.len() as int)[8] == s[8]);
                }
            }
            assert(skip_wsp(s, "a=setup:actpass"@.len() as int) == s.len());
        },
    }
}

/// A direction line survives the cycle.
pub proof fn lemma_direction_round_trip(v: Direction)
    ensures
        spec_direction_line(spec_render_direction(v)) == Some(v),
{
    reveal_strlit("a=");
    reveal_strlit("sendrecv");
    reveal_strlit("sendonly");
    reveal_strlit("recvonly");
    reveal_strlit("inactive");
    let s = spec_render_direction(v);
    assert(s.subrange(0, 2) =~= "a="@);
    assert(occurs_at(s, 0, "a="@));
    assert(!is_wsp(s[2]));
    assert(skip_wsp(s, 2) == 2);
    match v {
        Direction::SendRecv => {
            assert(s.subrange(2, 10) =~= "sendrecv"@);
            assert(occurs_at(s, 2, "sendrecv"@));
            assert(skip_wsp(s, 10) == s.len());
        },
        Direction::SendOnly => {
            assert(s.subrange(2, 10) =~= "sendonly"@);
            assert(occurs_at(s, 2, "sendonly"@));
            assert(!occurs_at(s, 2, "sendrecv"@)) by {
                if occurs_at(s, 2, "sendrecv"@) {
                    assert(s.subrange(2, 2 + "sendrecv"@.len() as int)[4] == s[6]);
                }
            }
            assert(skip_wsp(s, 10) == s.len());
        },
        Direction::RecvOnly => {
            assert(s.subrange(2, 10) =~= "recvonly"@);
            assert(occurs_at(s, 2, "recvonly"@));
            assert(!occurs_at(s, 2, "sendrecv"@)) by {
                if occurs_at(s, 2, "sendrecv"@) {
                    assert(s.subrange(2, 2 + "sendrecv"@.len() as int)[0] == s[2]);
                }
            }
            assert(!occurs_at(s, 2, "sendonly"@)) by {
                if occurs_at(s, 2, "sendonly"@) {
                    assert(s.subrange(2, 2 + "sendonly"@.len() as int)[0] == s[2]);
                }
            }
            assert(skip_wsp(s, 10) == s.len());
        },
        Direction::Inactive => {
            assert(s.subrange(2, 10) =~= "inactive"@);
            assert(occurs_at(s, 2, "inactive"@));
            assert(!occurs_at(s, 2, "sendrecv"@)) by {
                if occurs_at(s, 2, "sendrecv"@) {
                    assert(s.subrange(2, 2 + "sendrecv"@.len() as int)[0] == s[2]);
                }
            }
            assert(!occurs_at(s, 2, "sendonly"@)) by {
                if occurs_at(s, 2, "sendonly"@) {
                    assert(s.subrange(2, 2 + "sendonly"@.len() as int)[0] == s[2]);
                }
            }
            assert(!occurs_at(s, 2, "recvonly"@)) by {
                if occurs_at(s, 2, "recvonly"@) {
                    assert(s.subrange(2, 2 + "recvonly"@.len() as int)[0] == s[2]);
                }
            }
            assert(skip_wsp(s, 10) == s.len());
        },
    }
}

/// An RTCP option line survives the cycle.
pub proof fn lemma_rtcp_option_round_trip(v: RtcpOption)
    ensures
        spec_rtp_option_line(spec_render_rtcp_option(v)) == Some(v),
{
    reveal_strlit("a=");
    reveal_strlit("rtcp-mux");
    reveal_strlit("rtcp-mux-only");
    reveal_strlit("rtcp-rsize");
    reveal_strlit("a=rtcp-mux");
    reveal_strlit("a=rtcp-mux-only");
    reveal_strlit("a=rtcp-rsize");
    let s = spec_render_rtcp_option(v);
    assert(s.subrange(0, 2) =~= "a="@);
    assert(occurs_at(s, 0, "a="@));
    match v {
        RtcpOption::RtcpMux => {
            assert(s.subrange(2, 10) =~= "rtcp-mux"@);
            assert(occurs_at(s, 2, "rtcp-mux"@));
            assert(!occurs_at(s, 2, "rtcp-rsize"@));
            assert(!occurs_at(s, 2, "rtcp-mux-only"@));
            assert(skip_wsp(s, 10) == s.len());
        },
        RtcpOption::RtcpMuxOnly => {
            assert(s.subrange(2, 15) =~= "rtcp-mux-only"@);
            assert(occurs_at(s, 2, "rtcp-mux-only"@));
            assert(!occurs_at(s, 2, "rtcp-rsize"@)) by {
                if occurs_at(s, 2, "rtcp-rsize"@) {
                    assert(s.subrange(2, 2 + "rtcp-rsize"@.len() as int)[5] == s[7]);
                }
            }
            assert(skip_wsp(s, 15) == s.len());
        },
        RtcpOption::RtcpRsize => {
            assert(s.subrange(2, 12) =~= "rtcp-rsize"@);
            assert(occurs_at(s, 2, "rtcp-rsize"@));
            assert(skip_wsp(s, 12) == s.len());
        },
    }
}

/// The digits of a rendered number, as they stand inside a larger line.
proof fn lemma_digits_slice(s: Seq<char>, a: int, b: int, n: int)
    requires
        n >= 0,
        0 <= a <= b <= s.len(),
        s.subrange(a, b) =~= dec_str(n),
    ensures
        forall|k: int| a <= k < b ==> is_digit_char(#[trigger] s[k]),
        all_digits(s.subrange(a, b)),
        digits_val(s.subrange(a, b)) == n,
{
    lemma_dec_str_digits(n);
    lemma_dec_str_val(n);
    assert forall|k: int| a <= k < b implies is_digit_char(#[trigger] s[k]) by {
        assert(s.subrange(a, b)[k - a] == s[k]);
    }
}

/// A timing line survives the cycle.
pub proof fn lemma_timing_round_trip(v: Timing)
    ensures
        spec_timing_line(spec_render_timing(v)) == Some(v),
{
    reveal_strlit("t=");
    reveal_strlit(" ");
    let s = spec_render_timing(v);
    let d1 = dec_str(v.start as int);
    let d2 = dec_str(v.stop as int);
    lemma_dec_str_digits(v.start as int);
    lemma_dec_str_digits(v.stop as int);
    let a = 2 + d1.len() as int;
    assert(s.subrange(0, 2) =~= "t="@);
    assert(occurs_at(s, 0, "t="@));
    assert(s.subrange(2, a) =~= d1);
    assert(s[a] == ' ');
    assert(s.subrange(a + 1, s.len() as int) =~= d2);
    lemma_digits_slice(s, 2, a, v.start as int);
    lemma_digits_slice(s, a + 1, s.len() as int, v.stop as int);
    lemma_skip_wsp_at(s, 2, 2);
    lemma_token_end_at(s, 2, a, StopAt::NumDelim);
    lemma_skip_wsp_at(s, a, a + 1);
    lemma_token_end_at(s, a + 1, s.len() as int, StopAt::NumDelim);
    assert(skip_wsp(s, s.len() as int) == s.len());
}

/// A mid line parsed from one line survives the cycle: rendering the parsed
/// value and reparsing gives the value back.
pub proof fn lemma_mid_round_trip(s: Seq<char>)
    ensures
        spec_mid_line(s) matches Some(t) ==> spec_mid_line(spec_render_mid(t)) == Some(t),
{
    reveal_strlit("a=mid:");
    let r = spec_mid_line(s);
    if r is Some {
        let t = r->0;
        let i = "a=mid:"@.len() as int;
        let j = token_end(s, i, StopAt::Space);
        lemma_token_end_chars(s, i, StopAt::Space);
        assert(occurs_at(s, 0, "a=mid:"@));
        assert(spec_token_to_end(s, i) == Some(t));
        assert(t =~= s.subrange(i, j));
        crate::parsers::lemma_token_end_bounds(s, i, StopAt::Space);
        let s2 = spec_render_mid(t);
        assert(s2.subrange(0, i) =~= "a=mid:"@);
        assert(occurs_at(s2, 0, "a=mid:"@));
        assert forall|k: int| i <= k < s2.len() implies !stops(
            StopAt::Space,
            #[trigger] s2[k],
        ) by {
            assert(s2[k] == t[k - i]);
            assert(t[k - i] == s.subrange(i, j)[k - i]);
        }
        lemma_token_end_no_stop(s2, i, StopAt::Space);
        assert(skip_wsp(s2, s2.len() as int) == s2.len());
        assert(s2.subrange(i, s2.len() as int) =~= t);
        assert(spec_token_to_end(s2, i) == Some(t));
    }
}

/// A control line parsed from one line survives the cycle.
pub proof fn lemma_control_round_trip(s: Seq<char>)
    ensures
        spec_control_attribute_line(s) matches Some(t) ==> spec_control_attribute_line(
            spec_render_control(t),
        ) == Some(t),
{
    reveal_strlit("a=control:");
    let r = spec_control_attribute_line(s);
    if r is Some {
        let t = r->0;
        let i = "a=control:"@.len() as int;
        let j = token_end(s, i, StopAt::Space);
        lemma_token_end_chars(s, i, StopAt::Space);
        assert(occurs_at(s, 0, "a=control:"@));
        assert(spec_token_to_end(s, i) == Some(t));
        assert(t =~= s.subrange(i, j));
        crate::parsers::lemma_token_end_bounds(s, i, StopAt::Space);
        let s2 = spec_render_control(t);
        assert(s2.subrange(0, i) =~= "a=control:"@);
        assert(occurs_at(s2, 0, "a=control:"@));
        assert forall|k: int| i <= k < s2.len() implies !stops(
            StopAt::Space,
            #[trigger] s2[k],
        ) by {
            assert(s2[k] == t[k - i]);
            assert(t[k - i] == s.subrange(i, j)[k - i]);
        }
        lemma_token_end_no_stop(s2, i, StopAt::Space);
        assert(skip_wsp(s2, s2.len() as int) == s2.len());
        assert(s2.subrange(i, s2.len() as int) =~= t);
        assert(spec_token_to_end(s2, i) == Some(t));
    }
}

/// A packet-time line survives the cycle.
pub proof fn lemma_p_time_round_trip(v: PTime)
    ensures
        spec_read_p_time(spec_render_p_time(v)) == Some(v),
{
    reveal_strlit("a=ptime:");
    reveal_strlit("a=minptime:");
    reveal_strlit("a=maxptime:");
    let s = spec_render_p_time(v);
    match v {
        PTime::PTime(x) => {
            let i = "a=ptime:"@.len() as int;
            assert(s.subrange(0, i) =~= "a=ptime:"@);
            assert(occurs_at(s, 0, "a=ptime:"@));
            assert(s.subrange(i, s.len() as int) =~= dec_str(x as int));
            lemma_digits_slice(s, i, s.len() as int, x as int);
            lemma_token_end_no_stop(s, i, StopAt::NumDelim);
            assert(skip_wsp(s, s.len() as int) == s.len());
        },
        PTime::MinPTime(x) => {
            let i = "a=minptime:"@.len() as int;
            assert(s.subrange(0, i) =~= "a=minptime:"@);
            assert(occurs_at(s, 0, "a=minptime:"@));
            assert(!occurs_at(s, 0, "a=ptime:"@)) by {
                if occurs_at(s, 0, "a=ptime:"@) {
                    assert(s.subrange(0, "a=ptime:"@.len() as int)[2] == s[2]);
                }
            }
            assert(s.subrange(i, s.len() as int) =~= dec_str(x as int));
            lemma_digits_slice(s, i, s.len() as int, x as int);
            lemma_token_end_no_stop(s, i, StopAt::NumDelim);
            assert(skip_wsp(s, s.len() as int) == s.len());
        },
        PTime::MaxPTime(x) => {
            let i = "a=maxptime:"@.len() as int;
            assert(s.subrange(0, i) =~= "a=maxptime:"@);
            assert(occurs_at(s, 0, "a=maxptime:"@));
            assert(!occurs_at(s, 0, "a=ptime:"@)) by {
                if occurs_at(s, 0, "a=ptime:"@) {
                    assert(s.subrange(0, "a=ptime:"@.len() as int)[2] == s[2]);
                }
            }
            assert(!occurs_at(s, 0, "a=minptime:"@)) by {
                if occurs_at(s, 0, "a=minptime:"@) {
                    assert(s.subrange(0, "a=minptime:"@.len() as int)[3] == s[3]);
                }
            }
            assert(s.subrange(i, s.len() as int) =~= dec_str(x as int));
            lemma_digits_slice(s, i, s.len() as int, x as int);
            lemma_token_end_no_stop(s, i, StopAt::NumDelim);
            assert(skip_wsp(s, s.len() as int) == s.len());
        },
    }
}

/// A bandwidth line survives the cycle.
pub proof fn lemma_bandwidth_round_trip(v: BandWidth)
    ensures
        spec_bandwidth_line(spec_render_bandwidth(v)) == Some(v),
{
    reveal_strlit("b=");
    reveal_strlit(":");
    reveal_strlit("TIAS");
    reveal_strlit("AS");
    reveal_strlit("CT");
    reveal_strlit("RR");
    reveal_strlit("RS");
    let s = spec_render_bandwidth(v);
    let kind = spec_render_bandwidth_type(v.kind);
    let j = 2 + kind.len() as int;
    assert(s.subrange(0, 2) =~= "b="@);
    assert(occurs_at(s, 0, "b="@));
    assert(s.subrange(2, j) =~= kind);
    assert(occurs_at(s, 2, kind));
    assert(s.subrange(j, j + 1) =~= ":"@);
    assert(occurs_at(s, j, ":"@));
    assert(s.subrange(j + 1, s.len() as int) =~= dec_str(v.limit as int));
    lemma_digits_slice(s, j + 1, s.len() as int, v.limit as int);
    lemma_token_end_no_stop(s, j + 1, StopAt::NumDelim);
    assert(skip_wsp(s, s.len() as int) == s.len());
    match v.kind {
        crate::lines::BandWidthType::TIAS => {},
        crate::lines::BandWidthType::AS => {
            assert(!occurs_at(s, 2, "TIAS"@)) by {
                if occurs_at(s, 2, "TIAS"@) {
                    assert(s.subrange(2, 2 + "TIAS"@.len() as int)[0] == s[2]);
                }
            }
        },
        crate::lines::BandWidthType::CT => {
            assert(!occurs_at(s, 2, "TIAS"@)) by {
                if occurs_at(s, 2, "TIAS"@) {
                    assert(s.subrange(2, 2 + "TIAS"@.len() as int)[0] == s[2]);
                }
            }
            assert(!occurs_at(s, 2, "AS"@)) by {
                if occurs_at(s, 2, "AS"@) {
                    assert(s.subrange(2, 2 + "AS"@.len() as int)[0] == s[2]);
                }
            }
        },
        crate::lines::BandWidthType::RR => {
            assert(!occurs_at(s, 2, "TIAS"@)) by {
                if occurs_at(s, 2, "TIAS"@) {
                    assert(s.subrange(2, 2 + "TIAS"@.len() as int)[0] == s[2]);
                }
            }
            assert(!occurs_at(s, 2, "AS"@)) by {
                if occurs_at(s, 2, "AS"@) {
                    assert(s.subrange(2, 2 + "AS"@.len() as int)[0] == s[2]);
                }
            }
            assert(!occurs_at(s, 2, "CT"@)) by {
                if occurs_at(s, 2, "CT"@) {
                    assert(s.subrange(2, 2 + "CT"@.len() as int)[0] == s[2]);
                }
            }
        },
        crate::lines::BandWidthType::RS => {
            assert(!occurs_at(s, 2, "TIAS"@)) by {
                if occurs_at(s, 2, "TIAS"@) {
                    assert(s.subrange(2, 2 + "TIAS"@.len() as int)[0] == s[2]);
                }
            }
            assert(!occurs_at(s, 2, "AS"@)) by {
                if occurs_at(s, 2, "AS"@) {
                    assert(s.subrange(2, 2 + "AS"@.len() as int)[0] == s[2]);
                }
            }
            assert(!occurs_at(s, 2, "CT"@)) by {
                if occurs_at(s, 2, "CT"@) {
                    assert(s.subrange(2, 2 + "CT"@.len() as int)[0] == s[2]);
                }
            }
            assert(!occurs_at(s, 2, "RR"@)) by {
                if occurs_at(s, 2, "RR"@) {
                    assert(s.subrange(2, 2 + "RR"@.len() as int)[1] == s[3]);
                }
            }
        },
    }
}

/// A uri line parsed from one line survives the cycle.
pub proof fn lemma_uri_round_trip(s: Seq<char>)
    ensures
        spec_uri_line(s) matches Some(t) ==> spec_uri_line(spec_render_uri(t)) == Some(t),
{
    reveal_strlit("u=");
    let r = spec_uri_line(s);
    if r is Some {
        let t = r->0;
        let i = "u="@.len() as int;
        let j = token_end(s, i, StopAt::Space);
        lemma_token_end_chars(s, i, StopAt::Space);
        assert(t =~= s.subrange(i, j));
        crate::parsers::lemma_token_end_bounds(s, i, StopAt::Space);
        let s2 = spec_render_uri(t);
        assert(s2.subrange(0, i) =~= "u="@);
        assert(occurs_at(s2, 0, "u="@));
        assert forall|k: int| i <= k < s2.len() implies !stops(
            StopAt::Space,
            #[trigger] s2[k],
        ) by {
            assert(s2[k] == t[k - i]);
            assert(t[k - i] == s.subrange(i, j)[k - i]);
        }
        lemma_token_end_no_stop(s2, i, StopAt::Space);
        assert(skip_wsp(s2, s2.len() as int) == s2.len());
        assert(s2.subrange(i, s2.len() as int) =~= t);
    }
}

/// An email line parsed from one line survives the cycle.
pub proof fn lemma_email_round_trip(s: Seq<char>)
    ensures
        spec_email_address_line(s) matches Some(t) ==> spec_email_address_line(
            spec_render_email(t),
        ) == Some(t),
{
    reveal_strlit("e=");
    let r = spec_email_address_line(s);
    if r is Some {
        let t = r->0;
        let i = skip_wsp(s, "e="@.len() as int);
        crate::parsers::lemma_skip_wsp_bounds(s, "e="@.len() as int);
        let j = token_end(s, i, StopAt::Space);
        lemma_token_end_chars(s, i, StopAt::Space);
        crate::parsers::lemma_token_end_bounds(s, i, StopAt::Space);
        assert(t =~= s.subrange(i, j));
        let s2 = spec_render_email(t);
        assert(s2.subrange(0, 2) =~= "e="@);
        assert(occurs_at(s2, 0, "e="@));
        assert(s2[2] == t[0]);
        assert(t[0] == s[i]);
        assert(!is_wsp(s2[2]));
        lemma_skip_wsp_at(s2, 2, 2);
        assert forall|k: int| 2 <= k < s2.len() implies !stops(
            StopAt::Space,
            #[trigger] s2[k],
        ) by {
            assert(s2[k] == t[k - 2]);
            assert(t[k - 2] == s.subrange(i, j)[k - 2]);
        }
        lemma_token_end_no_stop(s2, 2, StopAt::Space);
        assert(skip_wsp(s2, s2.len() as int) == s2.len());
        assert(s2.subrange(2, s2.len() as int) =~= t);
    }
}

/// A fingerprint line parsed from one line survives the cycle.
pub proof fn lemma_fingerprint_round_trip(s: Seq<char>)
    ensures
        spec_fingerprint_line(s) matches Some(v) ==> spec_fingerprint_line(
            spec_render_fingerprint(v),
        ) == Some(v),
{
    reveal_strlit("a=fingerprint:");
    reveal_strlit(" ");
    let r = spec_fingerprint_line(s);
    if r is Some {
        let v = r->0;
        let p = "a=fingerprint:"@.len() as int;
        let i1 = skip_wsp(s, p);
        crate::parsers::lemma_skip_wsp_bounds(s, p);
        let j1 = token_end(s, i1, StopAt::Space);
        lemma_token_end_chars(s, i1, StopAt::Space);
        crate::parsers::lemma_token_end_bounds(s, i1, StopAt::Space);
        let k = skip_wsp(s, j1);
        crate::parsers::lemma_skip_wsp_bounds(s, j1);
        let j2 = token_end(s, k, StopAt::Space);
        lemma_token_end_chars(s, k, StopAt::Space);
        crate::parsers::lemma_token_end_bounds(s, k, StopAt::Space);
        assert(v.kind =~= s.subrange(i1, j1));
        assert(v.hash =~= s.subrange(k, j2));
        let s2 = spec_render_fingerprint(v);
        let a = p + v.kind.len() as int;
        assert(s2.subrange(0, p) =~= "a=fingerprint:"@);
        assert(occurs_at(s2, 0, "a=fingerprint:"@));
        assert(s2[p] == v.kind[0]);
        assert(v.kind[0] == s[i1]);
        lemma_skip_wsp_at(s2, p, p);
        assert forall|k2: int| p <= k2 < a implies !stops(StopAt::Space, #[trigger] s2[k2]) by {
            assert(s2[k2] == v.kind[k2 - p]);
            assert(v.kind[k2 - p] == s.subrange(i1, j1)[k2 - p]);
        }
        assert(s2[a] == ' ');
        lemma_token_end_at(s2, p, a, StopAt::Space);
        assert(s2[a + 1] == v.hash[0]);
        assert(v.hash[0] == s[k]);
        lemma_skip_wsp_at(s2, a, a + 1);
        assert forall|k2: int| a + 1 <= k2 < s2.len() implies !stops(
            StopAt::Space,
            #[trigger] s2[k2],
        ) by {
            assert(s2[k2] == v.hash[k2 - a - 1]);
            assert(v.hash[k2 - a - 1] == s.subrange(k, j2)[k2 - a - 1]);
        }
        lemma_token_end_no_stop(s2, a + 1, StopAt::Space);
        assert(skip_wsp(s2, s2.len() as int) == s2.len());
        assert(s2.subrange(p, a) =~= v.kind);
        assert(s2.subrange(a + 1, s2.len() as int) =~= v.hash);
        assert(spec_fingerprint_line(s2) == Some(
            (FingerprintV { kind: s2.subrange(p, a), hash: s2.subrange(a + 1, s2.len() as int) }),
        ));
    }
}

/// An ssrc line parsed from one line survives the cycle.
pub proof fn lemma_ssrc_round_trip(s: Seq<char>)
    ensures
        spec_ssrc_line(s) matches Some(v) ==> spec_ssrc_line(spec_render_ssrc(v)) == Some(v),
{
    reveal_strlit("a=ssrc:");
    reveal_strlit(" ");
    reveal_strlit(":");
    let r = spec_ssrc_line(s);
    if r is Some {
        let v = r->0;
        let p = "a=ssrc:"@.len() as int;
        let i = skip_wsp(s, p);
        crate::parsers::lemma_skip_wsp_bounds(s, p);
        let j = token_end(s, i, StopAt::NumDelim);
        crate::parsers::lemma_token_end_bounds(s, i, StopAt::NumDelim);
        let k = skip_wsp(s, j);
        crate::parsers::lemma_skip_wsp_bounds(s, j);
        let j2 = token_end(s, k, StopAt::Colon);
        lemma_token_end_chars(s, k, StopAt::Colon);
        crate::parsers::lemma_token_end_bounds(s, k, StopAt::Colon);
        let w = skip_wsp(s, j2 + 1);
        crate::parsers::lemma_skip_wsp_bounds(s, j2 + 1);
        let nl = token_end(s, w, StopAt::Line);
        lemma_token_end_chars(s, w, StopAt::Line);
        crate::parsers::lemma_token_end_bounds(s, w, StopAt::Line);
        assert(v.attribute =~= s.subrange(k, j2));
        assert(v.value =~= s.subrange(w, nl));
        assert(v.value.len() > 0);
        let d = dec_str(v.id as int);
        lemma_dec_str_digits(v.id as int);
        lemma_dec_str_val(v.id as int);
        let s2 = spec_render_ssrc(v);
        let a = p + d.len() as int;
        let b = a + 1 + v.attribute.len() as int;
        assert(s2.subrange(0, p) =~= "a=ssrc:"@);
        assert(occurs_at(s2, 0, "a=ssrc:"@));
        assert(s2.subrange(p, a) =~= d);
        lemma_digits_slice(s2, p, a, v.id as int);
        lemma_skip_wsp_at(s2, p, p);
        assert(s2[a] == ' ');
        lemma_token_end_at(s2, p, a, StopAt::NumDelim);
        assert(s2[a + 1] == v.attribute[0]);
        assert(v.attribute[0] == s[k]);
        lemma_skip_wsp_at(s2, a, a + 1);
        assert forall|q: int| a + 1 <= q < b implies !stops(StopAt::Colon, #[trigger] s2[q]) by {
            assert(s2[q] == v.attribute[q - a - 1]);
            assert(v.attribute[q - a - 1] == s.subrange(k, j2)[q - a - 1]);
        }
        assert(s2[b] == ':');
        lemma_token_end_at(s2, a + 1, b, StopAt::Colon);
        assert(s2.subrange(b, b + 1) =~= ":"@);
        assert(occurs_at(s2, b, ":"@));
        assert(s2[b + 1] == v.value[0]);
        assert(v.value[0] == s[w]);
        lemma_skip_wsp_at(s2, b + 1, b + 1);
        assert forall|q: int| b + 1 <= q < s2.len() implies !stops(
            StopAt::Line,
            #[trigger] s2[q],
        ) by {
            assert(s2[q] == v.value[q - b - 1]);
            assert(v.value[q - b - 1] == s.subrange(w, nl)[q - b - 1]);
        }
        lemma_token_end_no_stop(s2, b + 1, StopAt::Line);
        assert(skip_wsp(s2, s2.len() as int) == s2.len());
        assert(s2.subrange(a + 1, b) =~= v.attribute);
        assert(s2.subrange(b + 1, s2.len() as int) =~= v.value);
    }
}

/// An ICE parameter line parsed from one line survives the cycle.
pub proof fn lemma_ice_parameter_round_trip(s: Seq<char>)
    ensures
        spec_ice_parameter_line(s) matches Some(v) ==> spec_ice_parameter_line(
            spec_render_ice_parameter(v),
        ) == Some(v),
{
    reveal_strlit("a=ice-ufrag:");
    reveal_strlit("a=ice-pwd:");
    reveal_strlit("a=ice-options:");
    reveal_strlit("a=ice-mismatch");
    reveal_strlit("a=ice-lite");
    let r = spec_ice_parameter_line(s);
    if r is Some {
        let v = r->0;
        let s2 = spec_render_ice_parameter(v);
        match v {
            IceParameterV::Ufrag(t) => {
                lemma_ice_token_case(s, s2, t, "a=ice-ufrag:"@.len() as int);
                assert(s2.subrange(0, "a=ice-ufrag:"@.len() as int) =~= "a=ice-ufrag:"@);
                assert(occurs_at(s2, 0, "a=ice-ufrag:"@));
            },
            IceParameterV::Pwd(t) => {
                lemma_ice_token_case(s, s2, t, "a=ice-pwd:"@.len() as int);
                assert(s2.subrange(0, "a=ice-pwd:"@.len() as int) =~= "a=ice-pwd:"@);
                assert(occurs_at(s2, 0, "a=ice-pwd:"@));
                assert(!occurs_at(s2, 0, "a=ice-ufrag:"@)) by {
                    if occurs_at(s2, 0, "a=ice-ufrag:"@) {
                        assert(s2.subrange(0, "a=ice-ufrag:"@.len() as int)[6] == s2[6]);
                    }
                }
            },
            IceParameterV::Options(t) => {
                lemma_ice_token_case(s, s2, t, "a=ice-options:"@.len() as int);
                assert(s2.subrange(0, "a=ice-options:"@.len() as int) =~= "a=ice-options:"@);
                assert(occurs_at(s2, 0, "a=ice-options:"@));
                assert(!occurs_at(s2, 0, "a=ice-ufrag:"@)) by {
                    if occurs_at(s2, 0, "a=ice-ufrag:"@) {
                        assert(s2.subrange(0, "a=ice-ufrag:"@.len() as int)[6] == s2[6]);
                    }
                }
                assert(!occurs_at(s2, 0, "a=ice-pwd:"@)) by {
                    if occurs_at(s2, 0, "a=ice-pwd:"@) {
                        assert(s2.subrange(0, "a=ice-pwd:"@.len() as int)[6] == s2[6]);
                    }
                }
            },
            IceParameterV::Mismatch => {
                assert(s2.subrange(0, s2.len() as int) =~= s2);
                assert(occurs_at(s2, 0, "a=ice-mismatch"@));
                assert(!occurs_at(s2, 0, "a=ice-ufrag:"@)) by {
                    if occurs_at(s2, 0, "a=ice-ufrag:"@) {
                        assert(s2.subrange(0, "a=ice-ufrag:"@.len() as int)[6] == s2[6]);
                    }
                }
                assert(!occurs_at(s2, 0, "a=ice-pwd:"@)) by {
                    if occurs_at(s2, 0, "a=ice-pwd:"@) {
                        assert(s2.subrange(0, "a=ice-pwd:"@.len() as int)[6] == s2[6]);
                    }
                }
                assert(!occurs_at(s2, 0, "a=ice-options:"@)) by {
                    if occurs_at(s2, 0, "a=ice-options:"@) {
                        assert(s2.subrange(0, "a=ice-options:"@.len() as int)[6] == s2[6]);
                    }
                }
                assert(skip_wsp(s2, "a=ice-mismatch"@.len() as int) == s2.len());
            },
            IceParameterV::Lite => {
                assert(s2.subrange(0, s2.len() as int) =~= s2);
                assert(occurs_at(s2, 0, "a=ice-lite"@));
                assert(!occurs_at(s2, 0, "a=ice-ufrag:"@)) by {
                    if occurs_at(s2, 0, "a=ice-ufrag:"@) {
                        assert(s2.subrange(0, "a=ice-ufrag:"@.len() as int)[6] == s2[6]);
                    }
                }
                assert(!occurs_at(s2, 0, "a=ice-pwd:"@)) by {
                    if occurs_at(s2, 0, "a=ice-pwd:"@) {
                        assert(s2.subrange(0, "a=ice-pwd:"@.len() as int)[6] == s2[6]);
                    }
                }
                assert(!occurs_at(s2, 0, "a=ice-options:"@)) by {
                    if occurs_at(s2, 0, "a=ice-options:"@) {
                        assert(s2.subrange(0, "a=ice-options:"@.len() as int)[6] == s2[6]);
                    }
                }
                assert(!occurs_at(s2, 0, "a=ice-mismatch"@)) by {
                    if occurs_at(s2, 0, "a=ice-mismatch"@) {
                        assert(s2.subrange(0, "a=ice-mismatch"@.len() as int)[6] == s2[6]);
                    }
                }
                assert(skip_wsp(s2, "a=ice-lite"@.len() as int) == s2.len());
            },
        }
    }
}

/// The token of an ICE parameter, taken from one line, fills its rendering.
proof fn lemma_ice_token_case(s: Seq<char>, s2: Seq<char>, t: Seq<char>, p: int)
    requires
        0 <= p <= s.len(),
        spec_token_to_end(s, p) == Some(t),
        s2.len() == p + t.len(),
        forall|k: int| p <= k < s2.len() ==> #[trigger] s2[k] == t[k - p],
    ensures
        spec_token_to_end(s2, p) == Some(t),
{
    let j = token_end(s, p, StopAt::Space);
    lemma_token_end_chars(s, p, StopAt::Space);
    crate::parsers::lemma_token_end_bounds(s, p, StopAt::Space);
    assert(t =~= s.subrange(p, j));
    assert forall|k: int| p <= k < s2.len() implies !stops(StopAt::Space, #[trigger] s2[k]) by {
        assert(s2[k] == t[k - p]);
        assert(t[k - p] == s.subrange(p, j)[k - p]);
    }
    lemma_token_end_no_stop(s2, p, StopAt::Space);
    assert(skip_wsp(s2, s2.len() as int) == s2.len());
    assert(s2.subrange(p, s2.len() as int) =~= t);
}

/// A fmtp line parsed from one line survives the cycle.
pub proof fn lemma_fmtp_round_trip(s: Seq<char>)
    ensures
        spec_fmtp_attribute_line(s) matches Some(v) ==> spec_fmtp_attribute_line(
            spec_render_fmtp(v),
        ) == Some(v),
{
    reveal_strlit("a=fmtp:");
    reveal_strlit(" ");
    let r = spec_fmtp_attribute_line(s);
    if r is Some {
        let v = r->0;
        let p = "a=fmtp:"@.len() as int;
        let j = token_end(s, p, StopAt::NumDelim);
        crate::parsers::lemma_token_end_bounds(s, p, StopAt::NumDelim);
        let k = skip_wsp(s, j);
        crate::parsers::lemma_skip_wsp_bounds(s, j);
        let nl = token_end(s, k, StopAt::Line);
        lemma_token_end_chars(s, k, StopAt::Line);
        crate::parsers::lemma_token_end_bounds(s, k, StopAt::Line);
        assert(v.config =~= s.subrange(k, nl));
        assert(v.config.len() > 0);
        let d = dec_str(v.payload as int);
        lemma_dec_str_digits(v.payload as int);
        lemma_dec_str_val(v.payload as int);
        let s2 = spec_render_fmtp(v);
        let a = p + d.len() as int;
        assert(s2.subrange(0, p) =~= "a=fmtp:"@);
        assert(occurs_at(s2, 0, "a=fmtp:"@));
        assert(s2.subrange(p, a) =~= d);
        lemma_digits_slice(s2, p, a, v.payload as int);
        assert(s2[a] == ' ');
        lemma_token_end_at(s2, p, a, StopAt::NumDelim);
        assert(s2[a + 1] == v.config[0]);
        assert(v.config[0] == s[k]);
        lemma_skip_wsp_at(s2, a, a + 1);
        assert forall|q: int| a + 1 <= q < s2.len() implies !stops(
            StopAt::Line,
            #[trigger] s2[q],
        ) by {
            assert(s2[q] == v.config[q - a - 1]);
            assert(v.config[q - a - 1] == s.subrange(k, nl)[q - a - 1]);
        }
        lemma_token_end_no_stop(s2, a + 1, StopAt::Line);
        assert(skip_wsp(s2, s2.len() as int) == s2.len());
        assert(s2.subrange(a + 1, s2.len() as int) =~= v.config);
    }
}

/// A phone-number line parsed from one line survives the cycle.
pub proof fn lemma_phone_round_trip(s: Seq<char>)
    ensures
        spec_phone_number_line(s) matches Some(t) ==> spec_phone_number_line(
            spec_render_phone(t),
        ) == Some(t),
{
    reveal_strlit("p=");
    let r = spec_phone_number_line(s);
    if r is Some {
        let t = r->0;
        let nl = token_end(s, 2, StopAt::Line);
        lemma_token_end_chars(s, 2, StopAt::Line);
        crate::parsers::lemma_token_end_bounds(s, 2, StopAt::Line);
        assert(t =~= s.subrange(2, nl));
        let s2 = spec_render_phone(t);
        assert(s2.subrange(0, 2) =~= "p="@);
        assert(occurs_at(s2, 0, "p="@));
        assert forall|q: int| 2 <= q < s2.len() implies !stops(
            StopAt::Line,
            #[trigger] s2[q],
        ) by {
            assert(s2[q] == t[q - 2]);
            assert(t[q - 2] == s.subrange(2, nl)[q - 2]);
        }
        lemma_token_end_no_stop(s2, 2, StopAt::Line);
        assert(skip_wsp(s2, s2.len() as int) == s2.len());
        assert(s2.subrange(2, s2.len() as int) =~= t);
    }
}

/// A session-name line parsed from one line survives the cycle.
pub proof fn lemma_name_round_trip(s: Seq<char>)
    ensures
        spec_name_line(s) matches Some(t) ==> spec_name_line(spec_render_name(t)) == Some(t),
{
    reveal_strlit("s=");
    let r = spec_name_line(s);
    if r is Some {
        let t = r->0;
        let s2 = spec_render_name(t);
        assert(forall|k: int| 2 <= k < s2.len() ==> #[trigger] s2[k] == t[k - 2]);
        lemma_trimmed_round_trip(s, t, s2);
        assert(s2.subrange(0, 2) =~= "s="@);
        assert(occurs_at(s2, 0, "s="@));
    }
}

/// The trimmed rest of a line, rendered after a two-character tag, trims
/// back to itself.
proof fn lemma_trimmed_round_trip(s: Seq<char>, t: Seq<char>, s2: Seq<char>)
    requires
        2 <= s.len(),
        t == crate::parsers::spec_read_everything(s, 2),
        s2.len() == 2 + t.len(),
        forall|k: int| 2 <= k < s2.len() ==> #[trigger] s2[k] == t[k - 2],
    ensures
        crate::parsers::spec_read_everything(s2, 2) == t,
{
    let a = skip_wsp(s, 2);
    crate::parsers::lemma_skip_wsp_bounds(s, 2);
    let b = crate::parsers::rtrim_idx(s, a, s.len() as int);
    crate::parsers::lemma_rtrim_bounds(s, a, s.len() as int);
    assert(t =~= s.subrange(a, b));
    if t.len() == 0 {
        assert(skip_wsp(s2, 2) == 2);
        assert(crate::parsers::rtrim_idx(s2, 2, 2) == 2);
        assert(crate::parsers::spec_read_everything(s2, 2) =~= t);
    } else {
        assert(s2[2] == t[0]);
        assert(t[0] == s.subrange(a, b)[0]);
        assert(!crate::parsers::is_wsp(s2[2]));
        lemma_skip_wsp_at(s2, 2, 2);
        assert(s2[s2.len() - 1] == t[t.len() - 1]);
        assert(t[t.len() - 1] == s.subrange(a, b)[b - a - 1]);
        assert(t[t.len() - 1] == s[b - 1]);
        assert(!crate::parsers::is_wsp(s2[s2.len() - 1]));
        assert(crate::parsers::rtrim_idx(s2, 2, s2.len() as int) == s2.len());
        assert(crate::parsers::spec_read_everything(s2, 2) =~= t);
    }
}

/// A session-information line parsed from one line survives the cycle.
pub proof fn lemma_description_round_trip(s: Seq<char>)
    ensures
        spec_description_line(s) matches Some(t) ==> spec_description_line(
            spec_render_description(t),
        ) == Some(t),
{
    reveal_strlit("i=");
    let r = spec_description_line(s);
    if r is Some {
        let t = r->0;
        let s2 = spec_render_description(t);
        assert(forall|k: int| 2 <= k < s2.len() ==> #[trigger] s2[k] == t[k - 2]);
        lemma_trimmed_round_trip(s, t, s2);
        assert(s2.subrange(0, 2) =~= "i="@);
        assert(occurs_at(s2, 0, "i="@));
    }
}

/// An rtpmap line parsed from one line survives the cycle.
#[verifier::rlimit(50)]
pub proof fn lemma_rtpmap_round_trip(s: Seq<char>)
    ensures
        spec_rtpmap_line(s) matches Some(v) ==> spec_rtpmap_line(spec_render_rtpmap(v)) == Some(
            v,
        ),
{
    reveal_strlit("a=rtpmap:");
    reveal_strlit(" ");
    reveal_strlit("/");
    let r = spec_rtpmap_line(s);
    if r is Some {
        let v = r->0;
        let p = "a=rtpmap:"@.len() as int;
        let j = token_end(s, p, StopAt::NumDelim);
        crate::parsers::lemma_token_end_bounds(s, p, StopAt::NumDelim);
        let k = skip_wsp(s, j);
        crate::parsers::lemma_skip_wsp_bounds(s, j);
        let j2 = token_end(s, k, StopAt::Slash);
        lemma_token_end_chars(s, k, StopAt::Slash);
        crate::parsers::lemma_token_end_bounds(s, k, StopAt::Slash);
        assert(v.encoding_name =~= s.subrange(k, j2));
        assert(v.encoding_name.len() > 0);
        assert(v.clock_rate is None ==> v.encoding is None);
        let d = dec_str(v.payload as int);
        lemma_dec_str_digits(v.payload as int);
        lemma_dec_str_val(v.payload as int);
        let s2 = spec_render_rtpmap(v);
        let a = p + d.len() as int;
        let b = a + 1 + v.encoding_name.len() as int;
        assert(s2.subrange(0, p) =~= "a=rtpmap:"@);
        assert(occurs_at(s2, 0, "a=rtpmap:"@));
        assert(s2.subrange(p, a) =~= d);
        lemma_digits_slice(s2, p, a, v.payload as int);
        assert(s2[a] == ' ');
        lemma_token_end_at(s2, p, a, StopAt::NumDelim);
        assert(is_wsp(s2[a]));
        assert(s2[a + 1] == v.encoding_name[0]);
        assert(v.encoding_name[0] == s[k]);
        lemma_skip_wsp_at(s2, a, a + 1);
        assert forall|q: int| a + 1 <= q < b implies !stops(StopAt::Slash, #[trigger] s2[q]) by {
            assert(s2[q] == v.encoding_name[q - a - 1]);
            assert(v.encoding_name[q - a - 1] == s.subrange(k, j2)[q - a - 1]);
        }
        assert(s2.subrange(a + 1, b) =~= v.encoding_name);
        match v.clock_rate {
            None => {
                assert(s2.len() == b);
                lemma_token_end_no_stop(s2, a + 1, StopAt::Slash);
                assert(spec_opt_slash_num(s2, b) == Some((b, Option::<u32>::None)));
                assert(skip_wsp(s2, s2.len() as int) == s2.len());
            },
            Some(c) => {
                let dc = dec_str(c as int);
                lemma_dec_str_digits(c as int);
                lemma_dec_str_val(c as int);
                let e1 = b + 1 + dc.len() as int;
                assert(s2[b] == '/');
                lemma_token_end_at(s2, a + 1, b, StopAt::Slash);
                assert(s2.subrange(b, b + 1) =~= "/"@);
                assert(occurs_at(s2, b, "/"@));
                assert(s2.subrange(b + 1, e1) =~= dc);
                lemma_digits_slice(s2, b + 1, e1, c as int);
                match v.encoding {
                    None => {
                        assert(s2.len() == e1);
                        lemma_token_end_no_stop(s2, b + 1, StopAt::NumDelim);
                        assert(spec_opt_slash_num(s2, b) == Some((e1, Some(c))));
                        assert(!occurs_at(s2, e1, "/"@));
                        assert(spec_opt_slash_num(s2, e1) == Some((e1, Option::<u32>::None)));
                        assert(skip_wsp(s2, s2.len() as int) == s2.len());
                    },
                    Some(e) => {
                        let de = dec_str(e as int);
                        lemma_dec_str_digits(e as int);
                        lemma_dec_str_val(e as int);
                        assert(s2[e1] == '/');
                        lemma_token_end_at(s2, b + 1, e1, StopAt::NumDelim);
                        assert(spec_opt_slash_num(s2, b) == Some((e1, Some(c))));
                        assert(s2.subrange(e1, e1 + 1) =~= "/"@);
                        assert(occurs_at(s2, e1, "/"@));
                        assert(s2.subrange(e1 + 1, s2.len() as int) =~= de);
                        lemma_digits_slice(s2, e1 + 1, s2.len() as int, e as int);
                        lemma_token_end_no_stop(s2, e1 + 1, StopAt::NumDelim);
                        assert(spec_opt_slash_num(s2, e1) == Some((s2.len() as int, Some(e))));
                        assert(skip_wsp(s2, s2.len() as int) == s2.len());
                    },
                }
            },
        }
    }
}

/// A connection line parsed from one line survives the cycle.
#[verifier::rlimit(100)]
pub proof fn lemma_connection_round_trip(s: Seq<char>)
    ensures
        spec_connection_line(s) matches Some(v) ==> spec_connection_line(
            spec_render_connection(v),
        ) == Some(v),
{
    reveal_strlit("c=");
    reveal_strlit("c=IN ");
    reveal_strlit("IN");
    reveal_strlit("IP4");
    reveal_strlit("IP6");
    reveal_strlit(" ");
    reveal_strlit("/");
    let r = spec_connection_line(s);
    if r is Some {
        let v = r->0;
        let i0 = skip_wsp(s, "c="@.len() as int);
        crate::parsers::lemma_skip_wsp_bounds(s, "c="@.len() as int);
        let k0 = skip_wsp(s, i0 + "IN"@.len());
        crate::parsers::lemma_skip_wsp_bounds(s, i0 + "IN"@.len());
        let ipv = spec_read_ipver(s, k0);
        let j1 = (ipv->0).0;
        let k1 = skip_wsp(s, j1);
        crate::parsers::lemma_skip_wsp_bounds(s, j1);
        let j2 = token_end(s, k1, StopAt::Slash);
        lemma_token_end_chars(s, k1, StopAt::Slash);
        crate::parsers::lemma_token_end_bounds(s, k1, StopAt::Slash);
        assert(match v.addr {
            IpAddressV::V6(t) => crate::parsers::spec_ipv6_ok(t) && forall|q: int|
                0 <= q < t.len() ==> !stops(StopAt::Slash, #[trigger] t[q]),
            IpAddressV::V4(o1, o2, o3, o4) => true,
        }) by {
            if v.addr is V6 {
                let t = v.addr->V6_0;
                assert(t =~= s.subrange(k1, j2));
                assert forall|q: int| 0 <= q < t.len() implies !stops(
                    StopAt::Slash,
                    #[trigger] t[q],
                ) by {
                    assert(t[q] == s.subrange(k1, j2)[q]);
                }
            }
        }
        let pv = spec_render_ipver(v.ip_ver);
        let ar = spec_render_addr(v.addr);
        let e1 = "c=IN "@ + pv;
        let e2 = e1 + " "@;
        let base = e2 + ar;
        let s2 = spec_render_connection(v);
        let b = 9 + ar.len() as int;
        assert(pv.len() == 3);
        assert(match v.mask {
            Some(m) => s2 == base + "/"@ + dec_str(m as int),
            None => s2 == base,
        });
        assert(s2.len() >= b);
        assert forall|q: int| 0 <= q < base.len() implies #[trigger] s2[q] == base[q] by {
            match v.mask {
                Some(m) => {
                    assert(s2[q] == (base + "/"@)[q]);
                },
                None => {},
            }
        }
        assert(s2[0] == 'c' && s2[1] == '=' && s2[2] == 'I' && s2[3] == 'N' && s2[4] == ' ')
            by {
            assert(s2[0] == base[0] && base[0] == e2[0] && e2[0] == e1[0] && e1[0]
                == "c=IN "@[0]);
            assert(s2[1] == base[1] && base[1] == e2[1] && e2[1] == e1[1] && e1[1]
                == "c=IN "@[1]);
            assert(s2[2] == base[2] && base[2] == e2[2] && e2[2] == e1[2] && e1[2]
                == "c=IN "@[2]);
            assert(s2[3] == base[3] && base[3] == e2[3] && e2[3] == e1[3] && e1[3]
                == "c=IN "@[3]);
            assert(s2[4] == base[4] && base[4] == e2[4] && e2[4] == e1[4] && e1[4]
                == "c=IN "@[4]);
        }
        assert(s2[5] == pv[0] && s2[6] == pv[1] && s2[7] == pv[2]) by {
            assert(s2[5] == base[5] && base[5] == e2[5] && e2[5] == e1[5] && e1[5] == pv[0]);
            assert(s2[6] == base[6] && base[6] == e2[6] && e2[6] == e1[6] && e1[6] == pv[1]);
            assert(s2[7] == base[7] && base[7] == e2[7] && e2[7] == e1[7] && e1[7] == pv[2]);
        }
        assert(s2[8] == ' ') by {
            assert(s2[8] == base[8] && base[8] == e2[8]);
        }
        assert(s2.subrange(0, 2) =~= "c="@);
        assert(occurs_at(s2, 0, "c="@));
        lemma_skip_wsp_at(s2, 2, 2);
        assert(s2.subrange(2, 4) =~= "IN"@);
        assert(occurs_at(s2, 2, "IN"@));
        lemma_skip_wsp_at(s2, 4, 5);
        assert(s2.subrange(5, 8) =~= pv);
        match v.ip_ver {
            IpVer::Ip4 => {
                assert(occurs_at(s2, 5, "IP4"@));
                assert(spec_read_ipver(s2, 5) == Some((8int, IpVer::Ip4)));
            },
            IpVer::Ip6 => {
                assert(occurs_at(s2, 5, "IP6"@));
                assert(!occurs_at(s2, 5, "IP4"@)) by {
                    if occurs_at(s2, 5, "IP4"@) {
                        assert(s2.subrange(5, 5 + "IP4"@.len() as int)[2] == s2[7]);
                    }
                }
                assert(spec_read_ipver(s2, 5) == Some((8int, IpVer::Ip6)));
            },
        }
        assert(ar.len() > 0);
        assert(!is_wsp(s2[9])) by {
            assert(s2[9] == base[9]);
            assert(base[9] == ar[0]);
            match v.addr {
                IpAddressV::V4(o1, o2, o3, o4) => {
                    lemma_dec_str_digits(o1 as int);
                    assert(ar[0] == dec_str(o1 as int)[0]);
                },
                IpAddressV::V6(t) => {
                    assert(ar[0] == t[0]);
                },
            }
        }
        lemma_skip_wsp_at(s2, 8, 9);
        assert(s2.subrange(9, b) =~= ar) by {
            assert forall|q: int| 0 <= q < ar.len() implies #[trigger] s2.subrange(9, b)[q]
                == ar[q] by {
                assert(s2[9 + q] == base[9 + q]);
                assert(base[9 + q] == ar[q]);
            }
        }
        match v.mask {
            None => {
                lemma_addr_embedded(s2, v.addr, 9, b);
                assert(!occurs_at(s2, b, "/"@));
                assert(skip_wsp(s2, s2.len() as int) == s2.len());
            },
            Some(m) => {
                assert(s2[b] == '/') by {
                    assert(s2[b] == (base + "/"@)[b]);
                }
                lemma_addr_embedded(s2, v.addr, 9, b);
                assert(s2.subrange(b, b + 1) =~= "/"@);
                assert(occurs_at(s2, b, "/"@));
                assert(s2.subrange(b + 1, s2.len() as int) =~= dec_str(m as int)) by {
                    assert forall|q: int|
                        0 <= q < dec_str(m as int).len() implies #[trigger] s2.subrange(
                        b + 1,
                        s2.len() as int,
                    )[q] == dec_str(m as int)[q] by {
                        assert(s2[b + 1 + q] == (base + "/"@ + dec_str(m as int))[b + 1 + q]);
                    }
                }
                lemma_digits_slice(s2, b + 1, s2.len() as int, m as int);
                lemma_token_end_no_stop(s2, b + 1, StopAt::NumDelim);
                assert(skip_wsp(s2, s2.len() as int) == s2.len());
            },
        }
    }
}

/// An origin line parsed from one line survives the cycle.
#[verifier::rlimit(100)]
pub proof fn lemma_origin_round_trip(s: Seq<char>)
    ensures
        spec_origin_line(s) matches Some(v) ==> spec_origin_line(spec_render_origin(v)) == Some(
            v,
        ),
{
    reveal_strlit("o=");
    reveal_strlit("IP4");
    reveal_strlit("IP6");
    reveal_strlit(" ");
    let r = spec_origin_line(s);
    if r is Some {
        let v = r->0;
        let i1 = skip_wsp(s, "o="@.len() as int);
        crate::parsers::lemma_skip_wsp_bounds(s, "o="@.len() as int);
        let j1 = token_end(s, i1, StopAt::Space);
        lemma_token_end_chars(s, i1, StopAt::Space);
        crate::parsers::lemma_token_end_bounds(s, i1, StopAt::Space);
        let k1 = skip_wsp(s, j1);
        crate::parsers::lemma_skip_wsp_bounds(s, j1);
        let j2 = token_end(s, k1, StopAt::NumDelim);
        crate::parsers::lemma_token_end_bounds(s, k1, StopAt::NumDelim);
        let k2 = skip_wsp(s, j2);
        crate::parsers::lemma_skip_wsp_bounds(s, j2);
        let j3 = token_end(s, k2, StopAt::NumDelim);
        crate::parsers::lemma_token_end_bounds(s, k2, StopAt::NumDelim);
        let k3 = skip_wsp(s, j3);
        crate::parsers::lemma_skip_wsp_bounds(s, j3);
        let j4 = token_end(s, k3, StopAt::Space);
        lemma_token_end_chars(s, k3, StopAt::Space);
        crate::parsers::lemma_token_end_bounds(s, k3, StopAt::Space);
        let k4 = skip_wsp(s, j4);
        crate::parsers::lemma_skip_wsp_bounds(s, j4);
        let j5 = (spec_read_ipver(s, k4)->0).0;
        let k5 = skip_wsp(s, j5);
        crate::parsers::lemma_skip_wsp_bounds(s, j5);
        let j6 = token_end(s, k5, StopAt::Slash);
        lemma_token_end_chars(s, k5, StopAt::Slash);
        crate::parsers::lemma_token_end_bounds(s, k5, StopAt::Slash);
        assert(v.user_name =~= s.subrange(i1, j1));
        assert(v.net_type =~= s.subrange(k3, j4));
        assert(match v.addr {
            IpAddressV::V6(t) => crate::parsers::spec_ipv6_ok(t) && forall|q: int|
                0 <= q < t.len() ==> !stops(StopAt::Slash, #[trigger] t[q]),
            IpAddressV::V4(o1, o2, o3, o4) => true,
        }) by {
            if v.addr is V6 {
                let t = v.addr->V6_0;
                assert(t =~= s.subrange(k5, j6));
                assert forall|q: int| 0 <= q < t.len() implies !stops(
                    StopAt::Slash,
                    #[trigger] t[q],
                ) by {
                    assert(t[q] == s.subrange(k5, j6)[q]);
                }
            }
        }
        let user = v.user_name;
        let net = v.net_type;
        let did = dec_str(v.session_id as int);
        let dver = dec_str(v.session_version as int);
        let pv = spec_render_ipver(v.ip_ver);
        let ar = spec_render_addr(v.addr);
        lemma_dec_str_digits(v.session_id as int);
        lemma_dec_str_val(v.session_id as int);
        lemma_dec_str_digits(v.session_version as int);
        lemma_dec_str_val(v.session_version as int);
        let e1 = "o="@;
        let e2 = e1 + user;
        let e3 = e2 + " "@;
        let e4 = e3 + did;
        let e5 = e4 + " "@;
        let e6 = e5 + dver;
        let e7 = e6 + " "@;
        let e8 = e7 + net;
        let e9 = e8 + " "@;
        let e10 = e9 + pv;
        let e11 = e10 + " "@;
        let e12 = e11 + ar;
        let rr = e12;
        let s2 = spec_render_origin(v);
        assert(s2 == rr);
        assert(pv.len() == 3);
        let a1 = 2 + user.len() as int;
        let a2 = a1 + 1 + did.len() as int;
        let a3 = a2 + 1 + dver.len() as int;
        let a4 = a3 + 1 + net.len() as int;
        let a5 = a4 + 1 + 3;
        let a6 = a5 + 1;
        assert(s2.len() == a6 + ar.len());
        assert(s2[0] == 'o' && s2[1] == '=') by {
                    assert(e12[0] == e11[0]);
                    assert(e11[0] == e10[0]);
                    assert(e10[0] == e9[0]);
                    assert(e9[0] == e8[0]);
                    assert(e8[0] == e7[0]);
                    assert(e7[0] == e6[0]);
                    assert(e6[0] == e5[0]);
                    assert(e5[0] == e4[0]);
                    assert(e4[0] == e3[0]);
                    assert(e3[0] == e2[0]);
                    assert(e2[0] == e1[0]);
            assert(e1[0] == 'o');
                    assert(e12[1] == e11[1]);
                    assert(e11[1] == e10[1]);
                    assert(e10[1] == e9[1]);
                    assert(e9[1] == e8[1]);
                    assert(e8[1] == e7[1]);
                    assert(e7[1] == e6[1]);
                    assert(e6[1] == e5[1]);
                    assert(e5[1] == e4[1]);
                    assert(e4[1] == e3[1]);
                    assert(e3[1] == e2[1]);
                    assert(e2[1] == e1[1]);
            assert(e1[1] == '=');
        }
        assert(s2.subrange(0, 2) =~= "o="@);
        assert(occurs_at(s2, 0, "o="@));
        assert(s2.subrange(2, a1) =~= user) by {
            assert forall|q: int| 0 <= q < user.len() implies #[trigger] s2.subrange(2, a1)[q]
                == user[q] by {
                let w = 2 + q;
                    assert(e12[w] == e11[w]);
                    assert(e11[w] == e10[w]);
                    assert(e10[w] == e9[w]);
                    assert(e9[w] == e8[w]);
                    assert(e8[w] == e7[w]);
                    assert(e7[w] == e6[w]);
                    assert(e6[w] == e5[w]);
                    assert(e5[w] == e4[w]);
                    assert(e4[w] == e3[w]);
                    assert(e3[w] == e2[w]);
                assert(e2[w] == user[w - 2]);
            }
        }
        assert(s2[a1] == ' ') by {
                    assert(e12[a1] == e11[a1]);
                    assert(e11[a1] == e10[a1]);
                    assert(e10[a1] == e9[a1]);
                    assert(e9[a1] == e8[a1]);
                    assert(e8[a1] == e7[a1]);
                    assert(e7[a1] == e6[a1]);
                    assert(e6[a1] == e5[a1]);
                    assert(e5[a1] == e4[a1]);
                    assert(e4[a1] == e3[a1]);
            assert(e3[a1] == ' ');
        }
        assert(s2.subrange(a1 + 1, a2) =~= did) by {
            assert forall|q: int| 0 <= q < did.len() implies #[trigger] s2.subrange(
                a1 + 1,
                a2,
            )[q] == did[q] by {
                let w = a1 + 1 + q;
                    assert(e12[w] == e11[w]);
                    assert(e11[w] == e10[w]);
                    assert(e10[w] == e9[w]);
                    assert(e9[w] == e8[w]);
                    assert(e8[w] == e7[w]);
                    assert(e7[w] == e6[w]);
                    assert(e6[w] == e5[w]);
                    assert(e5[w] == e4[w]);
                assert(e4[w] == did[w - e3.len()]);
            }
        }
        assert(s2[a2] == ' ') by {
                    assert(e12[a2] == e11[a2]);
                    assert(e11[a2] == e10[a2]);
                    assert(e10[a2] == e9[a2]);
                    assert(e9[a2] == e8[a2]);
                    assert(e8[a2] == e7[a2]);
                    assert(e7[a2] == e6[a2]);
                    assert(e6[a2] == e5[a2]);
            assert(e5[a2] == ' ');
        }
        assert(s2.subrange(a2 + 1, a3) =~= dver) by {
            assert forall|q: int| 0 <= q < dver.len() implies #[trigger] s2.subrange(
                a2 + 1,
                a3,
            )[q] == dver[q] by {
                let w = a2 + 1 + q;
                    assert(e12[w] == e11[w]);
                    assert(e11[w] == e10[w]);
                    assert(e10[w] == e9[w]);
                    assert(e9[w] == e8[w]);
                    assert(e8[w] == e7[w]);
                    assert(e7[w] == e6[w]);
                assert(e6[w] == dver[w - e5.len()]);
            }
        }
        assert(s2[a3] == ' ') by {
                    assert(e12[a3] == e11[a3]);
                    assert(e11[a3] == e10[a3]);
                    assert(e10[a3] == e9[a3]);
                    assert(e9[a3] == e8[a3]);
                    assert(e8[a3] == e7[a3]);
            assert(e7[a3] == ' ');
        }
        assert(s2.subrange(a3 + 1, a4) =~= net) by {
            assert forall|q: int| 0 <= q < net.len() implies #[trigger] s2.subrange(
                a3 + 1,
                a4,
            )[q] == net[q] by {
                let w = a3 + 1 + q;
                    assert(e12[w] == e11[w]);
                    assert(e11[w] == e10[w]);
                    assert(e10[w] == e9[w]);
                    assert(e9[w] == e8[w]);
                assert(e8[w] == net[w - e7.len()]);
            }
        }
        assert(s2[a4] == ' ') by {
                    assert(e12[a4] == e11[a4]);
                    assert(e11[a4] == e10[a4]);
                    assert(e10[a4] == e9[a4]);
            assert(e9[a4] == ' ');
        }
        assert(s2.subrange(a4 + 1, a5) =~= pv) by {
            assert forall|q: int| 0 <= q < 3 implies #[trigger] s2.subrange(a4 + 1, a5)[q]
                == pv[q] by {
                let w = a4 + 1 + q;
                    assert(e12[w] == e11[w]);
                    assert(e11[w] == e10[w]);
                assert(e10[w] == pv[w - e9.len()]);
            }
        }
        assert(s2[a5] == ' ') by {
                    assert(e12[a5] == e11[a5]);
            assert(e11[a5] == ' ');
        }
        assert(s2.subrange(a6, s2.len() as int) =~= ar) by {
            assert forall|q: int| 0 <= q < ar.len() implies #[trigger] s2.subrange(
                a6,
                s2.len() as int,
            )[q] == ar[q] by {
                let w = a6 + q;
                assert(e12[w] == ar[w - e11.len()]);
            }
        }
        assert(user[0] == s[i1]);
        assert(!is_wsp(s2[2]));
        lemma_skip_wsp_at(s2, 2, 2);
        lemma_token_end_at(s2, 2, a1, StopAt::Space);
        lemma_digits_slice(s2, a1 + 1, a2, v.session_id as int);
        lemma_skip_wsp_at(s2, a1, a1 + 1);
        lemma_token_end_at(s2, a1 + 1, a2, StopAt::NumDelim);
        lemma_digits_slice(s2, a2 + 1, a3, v.session_version as int);
        lemma_skip_wsp_at(s2, a2, a2 + 1);
        lemma_token_end_at(s2, a2 + 1, a3, StopAt::NumDelim);
        assert(net[0] == s[k3]);
        assert(!is_wsp(s2[a3 + 1]));
        lemma_skip_wsp_at(s2, a3, a3 + 1);
        lemma_token_end_at(s2, a3 + 1, a4, StopAt::Space);
        assert(s2[a4 + 1] == pv[0]);
        match v.ip_ver {
            IpVer::Ip4 => {
                assert(!is_wsp(s2[a4 + 1]));
                lemma_skip_wsp_at(s2, a4, a4 + 1);
                assert(occurs_at(s2, a4 + 1, "IP4"@));
                assert(spec_read_ipver(s2, a4 + 1) == Some((a5, IpVer::Ip4)));
            },
            IpVer::Ip6 => {
                assert(!is_wsp(s2[a4 + 1]));
                lemma_skip_wsp_at(s2, a4, a4 + 1);
                assert(occurs_at(s2, a4 + 1, "IP6"@));
                assert(!occurs_at(s2, a4 + 1, "IP4"@)) by {
                    if occurs_at(s2, a4 + 1, "IP4"@) {
                        assert(s2.subrange(a4 + 1, a4 + 1 + "IP4"@.len() as int)[2] == s2[a4
                            + 3]);
                    }
                }
                assert(spec_read_ipver(s2, a4 + 1) == Some((a5, IpVer::Ip6)));
            },
        }
        assert(ar.len() > 0);
        assert(!is_wsp(s2[a6])) by {
            assert(s2[a6] == ar[0]);
            match v.addr {
                IpAddressV::V4(o1, o2, o3, o4) => {
                    lemma_dec_str_digits(o1 as int);
                    assert(ar[0] == dec_str(o1 as int)[0]);
                },
                IpAddressV::V6(t) => {
                    assert(ar[0] == t[0]);
                },
            }
        }
        lemma_skip_wsp_at(s2, a5, a6);
        lemma_addr_embedded(s2, v.addr, a6, s2.len() as int);
        assert(skip_wsp(s2, s2.len() as int) == s2.len());
    }
}

/// A msid line parsed from one line survives the cycle.
pub proof fn lemma_msid_round_trip(s: Seq<char>)
    ensures
        spec_msid_line(s) matches Some(items) ==> spec_msid_line(spec_render_msid(items))
            == Some(items),
{
    reveal_strlit("a=msid:");
    reveal_strlit(" ");
    let r = spec_msid_line(s);
    if r is Some {
        let items = r->0;
        let p0 = "a=msid:"@.len() as int;
        let i1 = skip_wsp(s, p0);
        crate::parsers::lemma_skip_wsp_bounds(s, p0);
        assert(skip_wsp(s, i1) == i1);
        lemma_space_tokens_wf(s, i1);
        assert(items == spec_space_tokens(s, i1).1);
        let join = spec_join_sep(items, " "@);
        let s2 = spec_render_msid(items);
        assert(s2 == "a=msid:"@ + join);
        assert forall|q: int| 0 <= q < join.len() implies #[trigger] s2[p0 + q] == join[q] by {
            assert(s2[p0 + q] == ("a=msid:"@ + join)[p0 + q]);
        }
        assert(s2.subrange(0, p0) =~= "a=msid:"@);
        assert(occurs_at(s2, 0, "a=msid:"@));
        assert(s2.subrange(p0, s2.len() as int) =~= join) by {
            assert forall|q: int| 0 <= q < join.len() implies #[trigger] s2.subrange(
                p0,
                s2.len() as int,
            )[q] == join[q] by {
                assert(s2[p0 + q] == join[q]);
            }
        }
        if items.len() == 0 {
            assert(join.len() == 0);
            assert(s2.len() == p0);
            lemma_space_tokens_embedded(s2, items, p0);
            assert(spec_msid(s2, p0) == Some(items));
        } else {
            lemma_join_sep_first(items, " "@);
            assert(join[0] == items[0][0]) by {
                if items.len() >= 2 {
                    assert(join[0] == (items[0] + " "@)[0]);
                }
            }
            assert(!is_wsp(s2[p0])) by {
                assert(s2[p0 + 0] == join[0]);
            }
            lemma_skip_wsp_at(s2, p0, p0);
            lemma_space_tokens_embedded(s2, items, p0);
            assert(spec_msid(s2, p0) == Some(items));
        }
    }
}

/// A bundle-group line parsed from one line survives the cycle.
pub proof fn lemma_bundle_group_round_trip(s: Seq<char>)
    ensures
        spec_bundle_group_line(s) matches Some(items) ==> spec_bundle_group_line(
            spec_render_bundle_group(items),
        ) == Some(items),
{
    reveal_strlit("a=group:BUNDLE");
    reveal_strlit(" ");
    let r = spec_bundle_group_line(s);
    if r is Some {
        let items = r->0;
        let p0 = "a=group:BUNDLE"@.len() as int;
        let i1 = skip_wsp(s, p0);
        crate::parsers::lemma_skip_wsp_bounds(s, p0);
        assert(skip_wsp(s, i1) == i1);
        lemma_space_tokens_wf(s, i1);
        assert(items == spec_space_tokens(s, i1).1);
        let cat = spec_cat_prefixed(items, " "@);
        let s2 = spec_render_bundle_group(items);
        assert(s2 == "a=group:BUNDLE"@ + cat);
        assert forall|q: int| 0 <= q < cat.len() implies #[trigger] s2[p0 + q] == cat[q] by {
            assert(s2[p0 + q] == ("a=group:BUNDLE"@ + cat)[p0 + q]);
        }
        assert(s2.subrange(0, p0) =~= "a=group:BUNDLE"@);
        assert(occurs_at(s2, 0, "a=group:BUNDLE"@));
        if items.len() == 0 {
            assert(cat.len() == 0);
            assert(s2.len() == p0);
            assert(skip_wsp(s2, p0) == p0);
            assert(s2.subrange(p0, s2.len() as int) =~= spec_join_sep(items, " "@));
            lemma_space_tokens_embedded(s2, items, p0);
            assert(spec_space_tokens(s2, p0) == (p0, items));
        } else {
            let join = spec_join_sep(items, " "@);
            lemma_cat_prefixed_join(items, " "@);
            assert(cat == " "@ + join);
            assert(s2[p0] == ' ') by {
                assert(s2[p0 + 0] == cat[0]);
            }
            lemma_join_sep_first(items, " "@);
            assert(join[0] == items[0][0]) by {
                if items.len() >= 2 {
                    assert(join[0] == (items[0] + " "@)[0]);
                }
            }
            assert(!is_wsp(s2[p0 + 1])) by {
                assert(s2[p0 + 1] == cat[1]);
                assert(cat[1] == join[0]);
            }
            lemma_skip_wsp_at(s2, p0, p0 + 1);
            assert(s2.subrange(p0 + 1, s2.len() as int) =~= join) by {
                assert forall|q: int| 0 <= q < join.len() implies #[trigger] s2.subrange(
                    p0 + 1,
                    s2.len() as int,
                )[q] == join[q] by {
                    assert(s2[p0 + (1 + q)] == cat[1 + q]);
                    assert(cat[1 + q] == join[q]);
                }
            }
            lemma_space_tokens_embedded(s2, items, p0 + 1);
        }
    }
}

/// An RTCP endpoint line parsed from one line survives the cycle.
#[verifier::rlimit(100)]
pub proof fn lemma_rtcp_round_trip(s: Seq<char>)
    ensures
        spec_rtcp_attribute_line(s) matches Some(v) ==> spec_rtcp_attribute_line(
            spec_render_rtcp(v),
        ) == Some(v),
{
    reveal_strlit("a=rtcp:");
    reveal_strlit(" IN ");
    reveal_strlit("IN");
    reveal_strlit("IP4");
    reveal_strlit("IP6");
    reveal_strlit(" ");
    let r = spec_rtcp_attribute_line(s);
    if r is Some {
        let v = r->0;
        let i0 = skip_wsp(s, "a=rtcp:"@.len() as int);
        crate::parsers::lemma_skip_wsp_bounds(s, "a=rtcp:"@.len() as int);
        let j1 = token_end(s, i0, StopAt::NumDelim);
        crate::parsers::lemma_token_end_bounds(s, i0, StopAt::NumDelim);
        let k1 = skip_wsp(s, j1);
        crate::parsers::lemma_skip_wsp_bounds(s, j1);
        let k2 = skip_wsp(s, k1 + "IN"@.len());
        crate::parsers::lemma_skip_wsp_bounds(s, k1 + "IN"@.len());
        let j3 = (spec_read_ipver(s, k2)->0).0;
        let k3 = skip_wsp(s, j3);
        crate::parsers::lemma_skip_wsp_bounds(s, j3);
        let j4 = token_end(s, k3, StopAt::Slash);
        lemma_token_end_chars(s, k3, StopAt::Slash);
        crate::parsers::lemma_token_end_bounds(s, k3, StopAt::Slash);
        assert(match v.addr {
            IpAddressV::V6(t) => crate::parsers::spec_ipv6_ok(t) && forall|q: int|
                0 <= q < t.len() ==> !stops(StopAt::Slash, #[trigger] t[q]),
            IpAddressV::V4(o1, o2, o3, o4) => true,
        }) by {
            if v.addr is V6 {
                let t = v.addr->V6_0;
                assert(t =~= s.subrange(k3, j4));
                assert forall|q: int| 0 <= q < t.len() implies !stops(
                    StopAt::Slash,
                    #[trigger] t[q],
                ) by {
                    assert(t[q] == s.subrange(k3, j4)[q]);
                }
            }
        }
        let dp = dec_str(v.port as int);
        lemma_dec_str_digits(v.port as int);
        lemma_dec_str_val(v.port as int);
        let pv = spec_render_ipver(v.ip_ver);
        let ar = spec_render_addr(v.addr);
        let e1 = "a=rtcp:"@ + dp;
        let e2 = e1 + " IN "@;
        let e3 = e2 + pv;
        let e4 = e3 + " "@;
        let rr = e4 + ar;
        let s2 = spec_render_rtcp(v);
        assert(s2 == rr);
        assert(pv.len() == 3);
        let a1 = 7 + dp.len() as int;
        let b = a1 + 8;
        assert(s2.len() == b + ar.len());
        assert(s2.subrange(0, 7) =~= "a=rtcp:"@) by {
            assert forall|q: int| 0 <= q < 7 implies #[trigger] s2.subrange(0, 7)[q]
                == "a=rtcp:"@[q] by {
                assert(e4[q] == e3[q]);
                assert(e3[q] == e2[q]);
                assert(e2[q] == e1[q]);
                assert(e1[q] == "a=rtcp:"@[q]);
            }
        }
        assert(occurs_at(s2, 0, "a=rtcp:"@));
        assert(s2.subrange(7, a1) =~= dp) by {
            assert forall|q: int| 0 <= q < dp.len() implies #[trigger] s2.subrange(7, a1)[q]
                == dp[q] by {
                let w = 7 + q;
                assert(e4[w] == e3[w]);
                assert(e3[w] == e2[w]);
                assert(e2[w] == e1[w]);
                assert(e1[w] == dp[q]);
            }
        }
        lemma_digits_slice(s2, 7, a1, v.port as int);
        lemma_skip_wsp_at(s2, 7, 7);
        assert(s2[a1] == ' ' && s2[a1 + 1] == 'I' && s2[a1 + 2] == 'N' && s2[a1 + 3] == ' ')
            by {
                assert(e4[a1] == e3[a1]);
                assert(e3[a1] == e2[a1]);
            assert(e2[a1] == " IN "@[0]);
                assert(e4[a1 + 1] == e3[a1 + 1]);
                assert(e3[a1 + 1] == e2[a1 + 1]);
            assert(e2[a1 + 1] == " IN "@[1]);
                assert(e4[a1 + 2] == e3[a1 + 2]);
                assert(e3[a1 + 2] == e2[a1 + 2]);
            assert(e2[a1 + 2] == " IN "@[2]);
                assert(e4[a1 + 3] == e3[a1 + 3]);
                assert(e3[a1 + 3] == e2[a1 + 3]);
            assert(e2[a1 + 3] == " IN "@[3]);
        }
        lemma_token_end_at(s2, 7, a1, StopAt::NumDelim);
        lemma_skip_wsp_at(s2, a1, a1 + 1);
        assert(s2.subrange(a1 + 1, a1 + 3) =~= "IN"@);
        assert(occurs_at(s2, a1 + 1, "IN"@));
        assert(s2[a1 + 4] == pv[0] && s2[a1 + 5] == pv[1] && s2[a1 + 6] == pv[2]) by {
                assert(e4[a1 + 4] == e3[a1 + 4]);
            assert(e3[a1 + 4] == pv[0]);
                assert(e4[a1 + 5] == e3[a1 + 5]);
            assert(e3[a1 + 5] == pv[1]);
                assert(e4[a1 + 6] == e3[a1 + 6]);
            assert(e3[a1 + 6] == pv[2]);
        }
        assert(s2[a1 + 7] == ' ') by {
            assert(e4[a1 + 7] == ' ');
            assert(rr[a1 + 7] == e4[a1 + 7]);
        }
        lemma_skip_wsp_at(s2, a1 + 3, a1 + 4);
        assert(s2.subrange(a1 + 4, a1 + 7) =~= pv);
        match v.ip_ver {
            IpVer::Ip4 => {
                assert(occurs_at(s2, a1 + 4, "IP4"@));
                assert(spec_read_ipver(s2, a1 + 4) == Some((a1 + 7, IpVer::Ip4)));
            },
            IpVer::Ip6 => {
                assert(occurs_at(s2, a1 + 4, "IP6"@));
                assert(!occurs_at(s2, a1 + 4, "IP4"@)) by {
                    if occurs_at(s2, a1 + 4, "IP4"@) {
                        assert(s2.subrange(a1 + 4, a1 + 4 + "IP4"@.len() as int)[2] == s2[a1
                            + 6]);
                    }
                }
                assert(spec_read_ipver(s2, a1 + 4) == Some((a1 + 7, IpVer::Ip6)));
            },
        }
        assert(ar.len() > 0);
        assert(s2.subrange(b, s2.len() as int) =~= ar) by {
            assert forall|q: int| 0 <= q < ar.len() implies #[trigger] s2.subrange(
                b,
                s2.len() as int,
            )[q] == ar[q] by {
                let w = b + q;
                assert(rr[w] == ar[w - e4.len()]);
            }
        }
        assert(!is_wsp(s2[b])) by {
            assert(s2[b] == s2.subrange(b, s2.len() as int)[0]);
            match v.addr {
                IpAddressV::V4(o1, o2, o3, o4) => {
                    lemma_dec_str_digits(o1 as int);
                    assert(ar[0] == dec_str(o1 as int)[0]);
                },
                IpAddressV::V6(t) => {
                    assert(ar[0] == t[0]);
                },
            }
        }
        lemma_skip_wsp_at(s2, a1 + 7, b);
        lemma_addr_embedded(s2, v.addr, b, s2.len() as int);
        assert(skip_wsp(s2, s2.len() as int) == s2.len());
    }
}

/// A msid-semantic line parsed from one line survives the cycle.
#[verifier::rlimit(100)]
pub proof fn lemma_msid_semantic_round_trip(s: Seq<char>)
    ensures
        spec_msid_semantic_line(s) matches Some(v) ==> spec_msid_semantic_line(
            spec_render_msid_semantic(v),
        ) == Some(v),
{
    reveal_strlit("a=msid-semantic:");
    reveal_strlit("a=msid-semantic: ");
    reveal_strlit(" ");
    let r = spec_msid_semantic_line(s);
    if r is Some {
        let v = r->0;
        let p0 = "a=msid-semantic:"@.len() as int;
        let i1 = skip_wsp(s, p0);
        crate::parsers::lemma_skip_wsp_bounds(s, p0);
        let j1 = token_end(s, i1, StopAt::Space);
        lemma_token_end_chars(s, i1, StopAt::Space);
        crate::parsers::lemma_token_end_bounds(s, i1, StopAt::Space);
        let k = skip_wsp(s, j1);
        crate::parsers::lemma_skip_wsp_bounds(s, j1);
        let j2 = token_end(s, k, StopAt::Space);
        lemma_token_end_chars(s, k, StopAt::Space);
        crate::parsers::lemma_token_end_bounds(s, k, StopAt::Space);
        assert(v.semantic =~= s.subrange(i1, j1));
        let sem = v.semantic;
        let e1 = "a=msid-semantic: "@ + sem;
        let e2 = e1 + " "@;
        let rr = match v.token {
            Some(t) => e2 + t,
            None => e2,
        };
        let s2 = spec_render_msid_semantic(v);
        assert(s2 == rr);
        let a1 = 17 + sem.len() as int;
        assert forall|q: int| 0 <= q < e2.len() implies #[trigger] s2[q] == e2[q] by {
            match v.token {
                Some(t) => {
                    assert(s2[q] == (e2 + t)[q]);
                },
                None => {},
            }
        }
        assert(s2.subrange(0, p0) =~= "a=msid-semantic:"@) by {
            assert forall|q: int| 0 <= q < p0 implies #[trigger] s2.subrange(0, p0)[q]
                == "a=msid-semantic:"@[q] by {
                assert(s2[q] == e2[q]);
                assert(e2[q] == e1[q]);
                assert(e1[q] == "a=msid-semantic: "@[q]);
            }
        }
        assert(occurs_at(s2, 0, "a=msid-semantic:"@));
        assert(s2[16] == ' ') by {
            assert(s2[16] == e2[16] && e2[16] == e1[16] && e1[16] == "a=msid-semantic: "@[16]);
        }
        assert(s2.subrange(17, a1) =~= sem) by {
            assert forall|q: int| 0 <= q < sem.len() implies #[trigger] s2.subrange(17, a1)[q]
                == sem[q] by {
                let w = 17 + q;
                assert(s2[w] == e2[w] && e2[w] == e1[w] && e1[w] == sem[q]);
            }
        }
        assert(s2[17] == sem[0]) by {
            assert(s2.subrange(17, a1)[0] == s2[17]);
        }
        assert(sem[0] == s[i1]);
        assert(!is_wsp(s2[17]));
        lemma_skip_wsp_at(s2, 16, 17);
        assert forall|q: int| 17 <= q < a1 implies !stops(StopAt::Space, #[trigger] s2[q]) by {
            assert(s2.subrange(17, a1)[q - 17] == s2[q]);
            assert(sem[q - 17] == s.subrange(i1, j1)[q - 17]);
        }
        assert(s2[a1] == ' ') by {
            assert(s2[a1] == e2[a1]);
        }
        lemma_token_end_at(s2, 17, a1, StopAt::Space);
        assert(is_wsp(s2[a1]));
        match v.token {
            None => {
                assert(s2.len() == a1 + 1);
                lemma_skip_wsp_at(s2, a1, a1 + 1);
                assert(token_end(s2, a1 + 1, StopAt::Space) == a1 + 1);
            },
            Some(t) => {
                assert(t =~= s.subrange(k, j2));
                assert(t.len() > 0);
                assert(s2.subrange(a1 + 1, s2.len() as int) =~= t) by {
                    assert forall|q: int| 0 <= q < t.len() implies #[trigger] s2.subrange(
                        a1 + 1,
                        s2.len() as int,
                    )[q] == t[q] by {
                        assert(s2[a1 + 1 + q] == (e2 + t)[a1 + 1 + q]);
                    }
                }
                assert(s2[a1 + 1] == t[0]) by {
                    assert(s2.subrange(a1 + 1, s2.len() as int)[0] == s2[a1 + 1]);
                }
                assert(t[0] == s[k]);
                assert(!is_wsp(s2[a1 + 1]));
                lemma_skip_wsp_at(s2, a1, a1 + 1);
                assert forall|q: int| a1 + 1 <= q < s2.len() implies !stops(
                    StopAt::Space,
                    #[trigger] s2[q],
                ) by {
                    assert(s2.subrange(a1 + 1, s2.len() as int)[q - a1 - 1] == s2[q]);
                    assert(t[q - a1 - 1] == s.subrange(k, j2)[q - a1 - 1]);
                }
                lemma_token_end_no_stop(s2, a1 + 1, StopAt::Space);
                assert(skip_wsp(s2, s2.len() as int) == s2.len());
            },
        }
    }
}

/// A media-descriptor line parsed from one line survives the cycle.
#[verifier::rlimit(100)]
pub proof fn lemma_media_round_trip(s: Seq<char>)
    ensures
        spec_media_line(s) matches Some(v) ==> spec_media_line(spec_render_media(v)) == Some(v),
{
    reveal_strlit("m=");
    reveal_strlit(" ");
    reveal_strlit("/");
    let r = spec_media_line(s);
    if r is Some {
        let v = r->0;
        let i = skip_wsp(s, "m="@.len() as int);
        crate::parsers::lemma_skip_wsp_bounds(s, "m="@.len() as int);
        let j1 = token_end(s, i, StopAt::Space);
        lemma_token_end_chars(s, i, StopAt::Space);
        crate::parsers::lemma_token_end_bounds(s, i, StopAt::Space);
        let k1 = skip_wsp(s, j1);
        crate::parsers::lemma_skip_wsp_bounds(s, j1);
        let j2 = token_end(s, k1, StopAt::NumDelim);
        crate::parsers::lemma_token_end_bounds(s, k1, StopAt::NumDelim);
        let k2 = skip_wsp(s, j2);
        crate::parsers::lemma_skip_wsp_bounds(s, j2);
        let te = token_end(s, k2, StopAt::Slash);
        lemma_token_end_chars(s, k2, StopAt::Slash);
        crate::parsers::lemma_token_end_bounds(s, k2, StopAt::Slash);
        lemma_slash_tokens_wf(s, k2);
        let e1 = spec_slash_tokens(s, k2).0;
        let k3 = skip_wsp(s, e1);
        crate::parsers::lemma_slash_tokens_bounds(s, k2);
        crate::parsers::lemma_skip_wsp_bounds(s, e1);
        assert(skip_wsp(s, k3) == k3);
        lemma_space_tokens_wf(s, k3);
        assert(v.media_type =~= s.subrange(i, j1));
        assert(v.protocol == spec_slash_tokens(s, k2).1);
        assert(v.payloads == spec_space_tokens(s, k3).1);
        assert(v.protocol.len() > 0 ==> !is_wsp(v.protocol[0][0])) by {
            if v.protocol.len() > 0 {
                assert(te > k2);
                assert(v.protocol[0] == s.subrange(k2, te));
                assert(v.protocol[0][0] == s[k2]);
            }
        }
        assert(v.protocol.len() == 0 ==> e1 == k2);
        assert(v.protocol.len() == 0 && v.payloads.len() > 0 ==> v.payloads[0][0] == '/') by {
            if v.protocol.len() == 0 && v.payloads.len() > 0 {
                assert(e1 == k2);
                assert(skip_wsp(s, k2) == k2);
                assert(k3 == k2);
                let tp = token_end(s, k3, StopAt::Space);
                crate::parsers::lemma_token_end_bounds(s, k3, StopAt::Space);
                assert(tp > k3);
                assert(v.payloads[0] == s.subrange(k3, tp));
                assert(v.payloads[0][0] == s[k3]);
                assert(te == k2);
                assert(stops(StopAt::Slash, s[k2])) by {
                    if !stops(StopAt::Slash, s[k2]) {
                        crate::parsers::lemma_token_end_bounds(s, k2 + 1, StopAt::Slash);
                    }
                }
            }
        }
        let mt = v.media_type;
        let dp = dec_str(v.port as int);
        lemma_dec_str_digits(v.port as int);
        lemma_dec_str_val(v.port as int);
        let js = spec_join_sep(v.protocol, "/"@);
        let cat = spec_cat_prefixed(v.payloads, " "@);
        let e1r = "m="@ + mt;
        let e2r = e1r + " "@;
        let e3r = e2r + dp;
        let e4r = e3r + " "@;
        let e5r = e4r + js;
        let rr = e5r + cat;
        let s2 = spec_render_media(v);
        assert(s2 == rr);
        let a1 = 2 + mt.len() as int;
        let a2 = a1 + 1 + dp.len() as int;
        let pjs = a2 + 1;
        let pe = pjs + js.len() as int;
        assert(s2.len() == pe + cat.len());
        assert(s2[0] == 'm' && s2[1] == '=') by {
                assert(e5r[0] == e4r[0]);
                assert(e4r[0] == e3r[0]);
                assert(e3r[0] == e2r[0]);
                assert(e2r[0] == e1r[0]);
            assert(rr[0] == e5r[0]);
            assert(e1r[0] == 'm');
                assert(e5r[1] == e4r[1]);
                assert(e4r[1] == e3r[1]);
                assert(e3r[1] == e2r[1]);
                assert(e2r[1] == e1r[1]);
            assert(rr[1] == e5r[1]);
            assert(e1r[1] == '=');
        }
        assert(s2.subrange(0, 2) =~= "m="@);
        assert(occurs_at(s2, 0, "m="@));
        assert(s2.subrange(2, a1) =~= mt) by {
            assert forall|q: int| 0 <= q < mt.len() implies #[trigger] s2.subrange(2, a1)[q]
                == mt[q] by {
                let w = 2 + q;
                assert(rr[w] == e5r[w]);
                assert(e5r[w] == e4r[w]);
                assert(e4r[w] == e3r[w]);
                assert(e3r[w] == e2r[w]);
                assert(e2r[w] == mt[w - 2]);
            }
        }
        assert(s2[a1] == ' ') by {
            assert(rr[a1] == e5r[a1]);
                assert(e5r[a1] == e4r[a1]);
                assert(e4r[a1] == e3r[a1]);
                assert(e3r[a1] == e2r[a1]);
            assert(e2r[a1] == ' ');
        }
        assert(s2.subrange(a1 + 1, a2) =~= dp) by {
            assert forall|q: int| 0 <= q < dp.len() implies #[trigger] s2.subrange(
                a1 + 1,
                a2,
            )[q] == dp[q] by {
                let w = a1 + 1 + q;
                assert(rr[w] == e5r[w]);
                assert(e5r[w] == e4r[w]);
                assert(e4r[w] == e3r[w]);
                assert(e3r[w] == dp[w - e2r.len()]);
            }
        }
        assert(s2[a2] == ' ') by {
            assert(rr[a2] == e5r[a2]);
                assert(e5r[a2] == e4r[a2]);
            assert(e4r[a2] == ' ');
        }
        assert(s2.subrange(pjs, pe) =~= js) by {
            assert forall|q: int| 0 <= q < js.len() implies #[trigger] s2.subrange(pjs, pe)[q]
                == js[q] by {
                let w = pjs + q;
                assert(rr[w] == e5r[w]);
                assert(e5r[w] == js[w - e4r.len()]);
            }
        }
        assert forall|q: int| 0 <= q < cat.len() implies #[trigger] s2[pe + q] == cat[q] by {
            assert(rr[pe + q] == cat[pe + q - e5r.len()]);
        }
        assert(mt[0] == s[i]);
        assert(!is_wsp(s2[2])) by {
            assert(s2.subrange(2, a1)[0] == s2[2]);
        }
        lemma_skip_wsp_at(s2, 2, 2);
        assert forall|q: int| 2 <= q < a1 implies !stops(StopAt::Space, #[trigger] s2[q]) by {
            assert(s2.subrange(2, a1)[q - 2] == s2[q]);
            assert(mt[q - 2] == s.subrange(i, j1)[q - 2]);
        }
        lemma_token_end_at(s2, 2, a1, StopAt::Space);
        lemma_digits_slice(s2, a1 + 1, a2, v.port as int);
        lemma_skip_wsp_at(s2, a1, a1 + 1);
        lemma_token_end_at(s2, a1 + 1, a2, StopAt::NumDelim);
        if v.protocol.len() > 0 {
            lemma_join_sep_first(v.protocol, "/"@);
            assert(js[0] == v.protocol[0][0]) by {
                if v.protocol.len() >= 2 {
                    assert(js[0] == (v.protocol[0] + "/"@)[0]);
                }
            }
            assert(!is_wsp(s2[pjs])) by {
                assert(s2.subrange(pjs, pe)[0] == s2[pjs]);
            }
            lemma_skip_wsp_at(s2, a2, pjs);
            if v.payloads.len() > 0 {
                lemma_cat_prefixed_join(v.payloads, " "@);
                assert(s2[pe] == ' ') by {
                    assert(s2[pe + 0] == cat[0]);
                }
                lemma_slash_tokens_embedded(s2, v.protocol, pjs);
                let jp = spec_join_sep(v.payloads, " "@);
                lemma_join_sep_first(v.payloads, " "@);
                assert(jp[0] == v.payloads[0][0]) by {
                    if v.payloads.len() >= 2 {
                        assert(jp[0] == (v.payloads[0] + " "@)[0]);
                    }
                }
                assert(!is_wsp(s2[pe + 1])) by {
                    assert(s2[pe + 1] == cat[1]);
                    assert(cat[1] == jp[0]);
                }
                lemma_skip_wsp_at(s2, pe, pe + 1);
                assert(s2.subrange(pe + 1, s2.len() as int) =~= jp) by {
                    assert forall|q: int| 0 <= q < jp.len() implies #[trigger] s2.subrange(
                        pe + 1,
                        s2.len() as int,
                    )[q] == jp[q] by {
                        assert(s2[pe + (1 + q)] == cat[1 + q]);
                        assert(cat[1 + q] == jp[q]);
                    }
                }
                lemma_space_tokens_embedded(s2, v.payloads, pe + 1);
            } else {
                assert(cat.len() == 0);
                assert(s2.len() == pe);
                lemma_slash_tokens_embedded(s2, v.protocol, pjs);
                assert(token_end(s2, pe, StopAt::Space) == pe);
                assert(spec_space_tokens(s2, pe).1 =~= v.payloads);
            }
        } else {
            assert(js.len() == 0);
            assert(pe == pjs);
            if v.payloads.len() > 0 {
                lemma_cat_prefixed_join(v.payloads, " "@);
                let jp = spec_join_sep(v.payloads, " "@);
                assert(s2[pjs] == ' ') by {
                    assert(s2[pe + 0] == cat[0]);
                }
                assert(s2[pjs + 1] == '/') by {
                    assert(s2[pe + 1] == cat[1]);
                    assert(cat[1] == jp[0]);
                    lemma_join_sep_first(v.payloads, " "@);
                    assert(jp[0] == v.payloads[0][0]) by {
                        if v.payloads.len() >= 2 {
                            assert(jp[0] == (v.payloads[0] + " "@)[0]);
                        }
                    }
                }
                lemma_skip_wsp_at(s2, a2, pjs + 1);
                assert(token_end(s2, pjs + 1, StopAt::Slash) == pjs + 1);
                assert(spec_slash_tokens(s2, pjs + 1).1 =~= v.protocol);
                assert(skip_wsp(s2, pjs + 1) == pjs + 1);
                assert(s2.subrange(pjs + 1, s2.len() as int) =~= jp) by {
                    assert forall|q: int| 0 <= q < jp.len() implies #[trigger] s2.subrange(
                        pjs + 1,
                        s2.len() as int,
                    )[q] == jp[q] by {
                        assert(s2[pe + (1 + q)] == cat[1 + q]);
                        assert(cat[1 + q] == jp[q]);
                    }
                }
                lemma_space_tokens_embedded(s2, v.payloads, pjs + 1);
            } else {
                assert(cat.len() == 0);
                assert(s2.len() == pjs);
                lemma_skip_wsp_at(s2, a2, pjs);
                assert(token_end(s2, pjs, StopAt::Slash) == pjs);
                assert(spec_slash_tokens(s2, pjs).1 =~= v.protocol);
                assert(skip_wsp(s2, pjs) == pjs);
                assert(token_end(s2, pjs, StopAt::Space) == pjs);
                assert(spec_space_tokens(s2, pjs).1 =~= v.payloads);
            }
        }
        assert(skip_wsp(s2, s2.len() as int) == s2.len());
    }
}

/// A fully specified codec-mapping line parsed from one line survives the
/// cycle.
#[verifier::rlimit(100)]
pub proof fn lemma_rtp_round_trip(s: Seq<char>)
    ensures
        spec_rtp_attribute_line(s) matches Some(v) ==> spec_rtp_attribute_line(
            spec_render_rtp(v),
        ) == Some(v),
{
    reveal_strlit("a=rtpmap:");
    reveal_strlit(" ");
    reveal_strlit("/");
    let r = spec_rtp_attribute_line(s);
    if r is Some {
        let v = r->0;
        let p0 = "a=rtpmap:"@.len() as int;
        let i0 = skip_wsp(s, p0);
        crate::parsers::lemma_skip_wsp_bounds(s, p0);
        let j1 = token_end(s, i0, StopAt::NumDelim);
        crate::parsers::lemma_token_end_bounds(s, i0, StopAt::NumDelim);
        let k = skip_wsp(s, j1);
        crate::parsers::lemma_skip_wsp_bounds(s, j1);
        let j2 = token_end(s, k, StopAt::Slash);
        lemma_token_end_chars(s, k, StopAt::Slash);
        crate::parsers::lemma_token_end_bounds(s, k, StopAt::Slash);
        assert(v.codec =~= s.subrange(k, j2));
        assert(v.codec.len() > 0);
        let codec = v.codec;
        let dpay = dec_str(v.payload as int);
        let drate = dec_str(v.rate as int);
        let denc = dec_str(v.encoding as int);
        lemma_dec_str_digits(v.payload as int);
        lemma_dec_str_val(v.payload as int);
        lemma_dec_str_digits(v.rate as int);
        lemma_dec_str_val(v.rate as int);
        lemma_dec_str_digits(v.encoding as int);
        lemma_dec_str_val(v.encoding as int);
        let e1 = "a=rtpmap:"@ + dpay;
        let e2 = e1 + " "@;
        let e3 = e2 + codec;
        let e4 = e3 + "/"@;
        let e5 = e4 + drate;
        let e6 = e5 + "/"@;
        let rr = e6 + denc;
        let s2 = spec_render_rtp(v);
        assert(s2 == rr);
        let a1 = 9 + dpay.len() as int;
        let a2 = a1 + 1 + codec.len() as int;
        let a3 = a2 + 1 + drate.len() as int;
        assert(s2.len() == a3 + 1 + denc.len());
        assert(s2.subrange(0, 9) =~= "a=rtpmap:"@) by {
            assert forall|q: int| 0 <= q < 9 implies #[trigger] s2.subrange(0, 9)[q]
                == "a=rtpmap:"@[q] by {
                assert(e6[q] == e5[q]);
                assert(e5[q] == e4[q]);
                assert(e4[q] == e3[q]);
                assert(e3[q] == e2[q]);
                assert(e2[q] == e1[q]);
                assert(rr[q] == e6[q]);
                assert(e1[q] == "a=rtpmap:"@[q]);
            }
        }
        assert(occurs_at(s2, 0, "a=rtpmap:"@));
        assert(s2.subrange(9, a1) =~= dpay) by {
            assert forall|q: int| 0 <= q < dpay.len() implies #[trigger] s2.subrange(9, a1)[q]
                == dpay[q] by {
                let w = 9 + q;
                assert(rr[w] == e6[w]);
                assert(e6[w] == e5[w]);
                assert(e5[w] == e4[w]);
                assert(e4[w] == e3[w]);
                assert(e3[w] == e2[w]);
                assert(e2[w] == e1[w]);
                assert(e1[w] == dpay[q]);
            }
        }
        lemma_digits_slice(s2, 9, a1, v.payload as int);
        lemma_skip_wsp_at(s2, 9, 9);
        assert(s2[a1] == ' ') by {
            assert(rr[a1] == e6[a1]);
                assert(e6[a1] == e5[a1]);
                assert(e5[a1] == e4[a1]);
                assert(e4[a1] == e3[a1]);
                assert(e3[a1] == e2[a1]);
            assert(e2[a1] == ' ');
        }
        lemma_token_end_at(s2, 9, a1, StopAt::NumDelim);
        assert(s2.subrange(a1 + 1, a2) =~= codec) by {
            assert forall|q: int| 0 <= q < codec.len() implies #[trigger] s2.subrange(
                a1 + 1,
                a2,
            )[q] == codec[q] by {
                let w = a1 + 1 + q;
                assert(rr[w] == e6[w]);
                assert(e6[w] == e5[w]);
                assert(e5[w] == e4[w]);
                assert(e4[w] == e3[w]);
                assert(e3[w] == codec[w - e2.len()]);
            }
        }
        assert(s2[a1 + 1] == codec[0]) by {
            assert(s2.subrange(a1 + 1, a2)[0] == s2[a1 + 1]);
        }
        assert(codec[0] == s[k]);
        assert(!is_wsp(s2[a1 + 1]));
        lemma_skip_wsp_at(s2, a1, a1 + 1);
        assert forall|q: int| a1 + 1 <= q < a2 implies !stops(
            StopAt::Slash,
            #[trigger] s2[q],
        ) by {
            assert(s2.subrange(a1 + 1, a2)[q - a1 - 1] == s2[q]);
            assert(codec[q - a1 - 1] == s.subrange(k, j2)[q - a1 - 1]);
        }
        assert(s2[a2] == '/') by {
            assert(rr[a2] == e6[a2]);
                assert(e6[a2] == e5[a2]);
                assert(e5[a2] == e4[a2]);
            assert(e4[a2] == '/');
        }
        lemma_token_end_at(s2, a1 + 1, a2, StopAt::Slash);
        assert(s2.subrange(a2, a2 + 1) =~= "/"@);
        assert(occurs_at(s2, a2, "/"@));
        assert(s2.subrange(a2 + 1, a3) =~= drate) by {
            assert forall|q: int| 0 <= q < drate.len() implies #[trigger] s2.subrange(
                a2 + 1,
                a3,
            )[q] == drate[q] by {
                let w = a2 + 1 + q;
                assert(rr[w] == e6[w]);
                assert(e6[w] == e5[w]);
                assert(e5[w] == drate[w - e4.len()]);
            }
        }
        lemma_digits_slice(s2, a2 + 1, a3, v.rate as int);
        assert(s2[a3] == '/') by {
            assert(rr[a3] == e6[a3]);
            assert(e6[a3] == '/');
        }
        lemma_token_end_at(s2, a2 + 1, a3, StopAt::NumDelim);
        assert(s2.subrange(a3, a3 + 1) =~= "/"@);
        assert(occurs_at(s2, a3, "/"@));
        assert(s2.subrange(a3 + 1, s2.len() as int) =~= denc) by {
            assert forall|q: int| 0 <= q < denc.len() implies #[trigger] s2.subrange(
                a3 + 1,
                s2.len() as int,
            )[q] == denc[q] by {
                let w = a3 + 1 + q;
                assert(rr[w] == denc[w - e6.len()]);
            }
        }
        lemma_digits_slice(s2, a3 + 1, s2.len() as int, v.encoding as int);
        lemma_token_end_no_stop(s2, a3 + 1, StopAt::NumDelim);
        assert(skip_wsp(s2, s2.len() as int) == s2.len());
    }
}

/// An extension-map line parsed from one line survives the cycle.
#[verifier::rlimit(100)]
pub proof fn lemma_extmap_round_trip(s: Seq<char>)
    ensures
        spec_extmap_line(s) matches Some(v) ==> spec_extmap_line(spec_render_extmap(v)) == Some(
            v,
        ),
{
    reveal_strlit("a=extmap:");
    reveal_strlit(" ");
    reveal_strlit("/");
    reveal_strlit("sendrecv");
    reveal_strlit("sendonly");
    reveal_strlit("recvonly");
    reveal_strlit("inactive");
    let r = spec_extmap_line(s);
    if r is Some {
        let v = r->0;
        let p0 = "a=extmap:"@.len() as int;
        let i0 = skip_wsp(s, p0);
        crate::parsers::lemma_skip_wsp_bounds(s, p0);
        let j = token_end(s, i0, StopAt::NumDelim);
        crate::parsers::lemma_token_end_bounds(s, i0, StopAt::NumDelim);
        let j3 = match v.direction {
            Some(_) => (spec_read_direction(s, j + 1)->0).0,
            None => j,
        };
        let k = skip_wsp(s, j3);
        crate::parsers::lemma_skip_wsp_bounds(s, j3);
        let j4 = token_end(s, k, StopAt::Space);
        lemma_token_end_chars(s, k, StopAt::Space);
        crate::parsers::lemma_token_end_bounds(s, k, StopAt::Space);
        let k2 = skip_wsp(s, j4);
        crate::parsers::lemma_skip_wsp_bounds(s, j4);
        assert(skip_wsp(s, k2) == k2);
        lemma_space_tokens_wf(s, k2);
        assert(v.uri =~= s.subrange(k, j4));
        assert(v.uri.len() > 0);
        assert(v.attributes == spec_space_tokens(s, k2).1);
        let uri = v.uri;
        let dv = dec_str(v.value as int);
        lemma_dec_str_digits(v.value as int);
        lemma_dec_str_val(v.value as int);
        let cat = spec_cat_prefixed(v.attributes, " "@);
        let s2 = spec_render_extmap(v);
        let a1 = 9 + dv.len() as int;
        match v.direction {
            None => {
                let e1 = "a=extmap:"@ + dv;
                let e2 = e1 + " "@;
                let e3 = e2 + uri;
                let rr = e3 + cat;
                assert(s2 == rr);
                let ue = a1 + 1 + uri.len() as int;
                assert(s2.len() == ue + cat.len());
                assert(s2.subrange(0, 9) =~= "a=extmap:"@) by {
                    assert forall|q: int| 0 <= q < 9 implies #[trigger] s2.subrange(0, 9)[q]
                        == "a=extmap:"@[q] by {
                        assert(rr[q] == e3[q]);
                        assert(e3[q] == e2[q]);
                        assert(e2[q] == e1[q]);
                        assert(e1[q] == "a=extmap:"@[q]);
                    }
                }
                assert(occurs_at(s2, 0, "a=extmap:"@));
                assert(s2.subrange(9, a1) =~= dv) by {
                    assert forall|q: int|
                        0 <= q < dv.len() implies #[trigger] s2.subrange(9, a1)[q] == dv[q] by {
                        let w = 9 + q;
                        assert(rr[w] == e3[w]);
                        assert(e3[w] == e2[w]);
                        assert(e2[w] == e1[w]);
                        assert(e1[w] == dv[q]);
                    }
                }
                lemma_digits_slice(s2, 9, a1, v.value as int);
                lemma_skip_wsp_at(s2, 9, 9);
                assert(s2[a1] == ' ') by {
                    assert(rr[a1] == e3[a1]);
                    assert(e3[a1] == e2[a1]);
                    assert(e2[a1] == ' ');
                }
                lemma_token_end_at(s2, 9, a1, StopAt::NumDelim);
                assert(!occurs_at(s2, a1, "/"@)) by {
                    if occurs_at(s2, a1, "/"@) {
                        assert(s2.subrange(a1, a1 + 1)[0] == s2[a1]);
                    }
                }

            assert(s2.subrange(a1 + 1, ue) =~= uri) by {
                assert forall|q: int| 0 <= q < uri.len() implies #[trigger] s2.subrange(
                    a1 + 1,
                    ue,
                )[q] == uri[q] by {
                    let w = a1 + 1 + q;
                    assert(rr[w] == e3[w]);
                    assert(e3[w] == uri[w - e2.len()]);
                }
            }
            assert(s2[a1 + 1] == uri[0]) by {
                assert(s2.subrange(a1 + 1, ue)[0] == s2[a1 + 1]);
            }
            assert(uri[0] == s[k]);
            assert(!is_wsp(s2[a1 + 1]));
            lemma_skip_wsp_at(s2, a1 + 1 - 1, a1 + 1);
            assert forall|q: int| a1 + 1 <= q < ue implies !stops(
                StopAt::Space,
                #[trigger] s2[q],
            ) by {
                assert(s2.subrange(a1 + 1, ue)[q - (a1 + 1)] == s2[q]);
                assert(uri[q - (a1 + 1)] == s.subrange(k, j4)[q - (a1 + 1)]);
            }
            assert forall|q: int| 0 <= q < cat.len() implies #[trigger] s2[ue + q] == cat[q] by {
                assert(rr[ue + q] == cat[ue + q - e3.len()]);
            }
            if v.attributes.len() > 0 {
                lemma_cat_prefixed_join(v.attributes, " "@);
                let jp = spec_join_sep(v.attributes, " "@);
                assert(s2[ue] == ' ') by {
                    assert(s2[ue + 0] == cat[0]);
                }
                lemma_token_end_at(s2, a1 + 1, ue, StopAt::Space);
                lemma_join_sep_first(v.attributes, " "@);
                assert(jp[0] == v.attributes[0][0]) by {
                    if v.attributes.len() >= 2 {
                        assert(jp[0] == (v.attributes[0] + " "@)[0]);
                    }
                }
                assert(!is_wsp(s2[ue + 1])) by {
                    assert(s2[ue + 1] == cat[1]);
                    assert(cat[1] == jp[0]);
                }
                lemma_skip_wsp_at(s2, ue, ue + 1);
                assert(s2.subrange(ue + 1, s2.len() as int) =~= jp) by {
                    assert forall|q: int| 0 <= q < jp.len() implies #[trigger] s2.subrange(
                        ue + 1,
                        s2.len() as int,
                    )[q] == jp[q] by {
                        assert(s2[ue + (1 + q)] == cat[1 + q]);
                        assert(cat[1 + q] == jp[q]);
                    }
                }
                lemma_space_tokens_embedded(s2, v.attributes, ue + 1);
            } else {
                assert(cat.len() == 0);
                assert(s2.len() == ue);
                lemma_token_end_no_stop(s2, a1 + 1, StopAt::Space);
                assert(skip_wsp(s2, ue) == ue);
                assert(token_end(s2, ue, StopAt::Space) == ue);
                assert(spec_space_tokens(s2, ue).1 =~= v.attributes);
            }
            assert(skip_wsp(s2, s2.len() as int) == s2.len());
            },
            Some(d) => {
                let w8 = spec_render_direction_word(d);
                let e1a = "a=extmap:"@ + dv;
                let e1b = e1a + "/"@;
                let e1 = e1b + w8;
                let e2 = e1 + " "@;
                let e3 = e2 + uri;
                let rr = e3 + cat;
                assert(s2 == rr);
                assert(w8.len() == 8);
                let dw = a1 + 1;
                let de = dw + 8;
                let ue = de + 1 + uri.len() as int;
                assert(s2.len() == ue + cat.len());
                assert(s2.subrange(0, 9) =~= "a=extmap:"@) by {
                    assert forall|q: int| 0 <= q < 9 implies #[trigger] s2.subrange(0, 9)[q]
                        == "a=extmap:"@[q] by {
                        assert(rr[q] == e3[q]);
                        assert(e3[q] == e2[q]);
                        assert(e2[q] == e1[q]);
                        assert(e1[q] == e1b[q]);
                        assert(e1b[q] == e1a[q]);
                        assert(e1a[q] == "a=extmap:"@[q]);
                    }
                }
                assert(occurs_at(s2, 0, "a=extmap:"@));
                assert(s2.subrange(9, a1) =~= dv) by {
                    assert forall|q: int|
                        0 <= q < dv.len() implies #[trigger] s2.subrange(9, a1)[q] == dv[q] by {
                        let w = 9 + q;
                        assert(rr[w] == e3[w]);
                        assert(e3[w] == e2[w]);
                        assert(e2[w] == e1[w]);
                        assert(e1[w] == e1b[w]);
                        assert(e1b[w] == e1a[w]);
                        assert(e1a[w] == dv[q]);
                    }
                }
                lemma_digits_slice(s2, 9, a1, v.value as int);
                lemma_skip_wsp_at(s2, 9, 9);
                assert(s2[a1] == '/') by {
                    assert(rr[a1] == e3[a1]);
                    assert(e3[a1] == e2[a1]);
                    assert(e2[a1] == e1[a1]);
                    assert(e1[a1] == e1b[a1]);
                    assert(e1b[a1] == '/');
                }
                lemma_token_end_at(s2, 9, a1, StopAt::NumDelim);
                assert(s2.subrange(a1, a1 + 1) =~= "/"@);
                assert(occurs_at(s2, a1, "/"@));
                assert(s2.subrange(dw, de) =~= w8) by {
                    assert forall|q: int| 0 <= q < 8 implies #[trigger] s2.subrange(dw, de)[q]
                        == w8[q] by {
                        let w = dw + q;
                        assert(rr[w] == e3[w]);
                        assert(e3[w] == e2[w]);
                        assert(e2[w] == e1[w]);
                        assert(e1[w] == w8[w - e1b.len()]);
                    }
                }
                match d {
                    Direction::SendRecv => {
                        assert(occurs_at(s2, dw, "sendrecv"@));
                        assert(spec_read_direction(s2, dw) == Some((de, Direction::SendRecv)));
                    },
                    Direction::SendOnly => {
                        assert(occurs_at(s2, dw, "sendonly"@));
                        assert(!occurs_at(s2, dw, "sendrecv"@)) by {
                            if occurs_at(s2, dw, "sendrecv"@) {
                                assert(s2.subrange(dw, dw + "sendrecv"@.len() as int)[4]
                                    == s2[dw + 4]);
                                assert(s2.subrange(dw, de)[4] == s2[dw + 4]);
                            }
                        }
                        assert(spec_read_direction(s2, dw) == Some((de, Direction::SendOnly)));
                    },
                    Direction::RecvOnly => {
                        assert(occurs_at(s2, dw, "recvonly"@));
                        assert(!occurs_at(s2, dw, "sendrecv"@)) by {
                            if occurs_at(s2, dw, "sendrecv"@) {
                                assert(s2.subrange(dw, dw + "sendrecv"@.len() as int)[0]
                                    == s2[dw]);
                                assert(s2.subrange(dw, de)[0] == s2[dw]);
                            }
                        }
                        assert(!occurs_at(s2, dw, "sendonly"@)) by {
                            if occurs_at(s2, dw, "sendonly"@) {
                                assert(s2.subrange(dw, dw + "sendonly"@.len() as int)[0]
                                    == s2[dw]);
                                assert(s2.subrange(dw, de)[0] == s2[dw]);
                            }
                        }
                        assert(spec_read_direction(s2, dw) == Some((de, Direction::RecvOnly)));
                    },
                    Direction::Inactive => {
                        assert(occurs_at(s2, dw, "inactive"@));
                        assert(!occurs_at(s2, dw, "sendrecv"@)) by {
                            if occurs_at(s2, dw, "sendrecv"@) {
                                assert(s2.subrange(dw, dw + "sendrecv"@.len() as int)[0]
                                    == s2[dw]);
                                assert(s2.subrange(dw, de)[0] == s2[dw]);
                            }
                        }
                        assert(!occurs_at(s2, dw, "sendonly"@)) by {
                            if occurs_at(s2, dw, "sendonly"@) {
                                assert(s2.subrange(dw, dw + "sendonly"@.len() as int)[0]
                                    == s2[dw]);
                                assert(s2.subrange(dw, de)[0] == s2[dw]);
                            }
                        }
                        assert(!occurs_at(s2, dw, "recvonly"@)) by {
                            if occurs_at(s2, dw, "recvonly"@) {
                                assert(s2.subrange(dw, dw + "recvonly"@.len() as int)[0]
                                    == s2[dw]);
                                assert(s2.subrange(dw, de)[0] == s2[dw]);
                            }
                        }
                        assert(spec_read_direction(s2, dw) == Some((de, Direction::Inactive)));
                    },
                }
                assert(s2[de] == ' ') by {
                    assert(rr[de] == e3[de]);
                    assert(e3[de] == e2[de]);
                    assert(e2[de] == ' ');
                }

            assert(s2.subrange(de + 1, ue) =~= uri) by {
                assert forall|q: int| 0 <= q < uri.len() implies #[trigger] s2.subrange(
                    de + 1,
                    ue,
                )[q] == uri[q] by {
                    let w = de + 1 + q;
                    assert(rr[w] == e3[w]);
                    assert(e3[w] == uri[w - e2.len()]);
                }
            }
            assert(s2[de + 1] == uri[0]) by {
                assert(s2.subrange(de + 1, ue)[0] == s2[de + 1]);
            }
            assert(uri[0] == s[k]);
            assert(!is_wsp(s2[de + 1]));
            lemma_skip_wsp_at(s2, de + 1 - 1, de + 1);
            assert forall|q: int| de + 1 <= q < ue implies !stops(
                StopAt::Space,
                #[trigger] s2[q],
            ) by {
                assert(s2.subrange(de + 1, ue)[q - (de + 1)] == s2[q]);
                assert(uri[q - (de + 1)] == s.subrange(k, j4)[q - (de + 1)]);
            }
            assert forall|q: int| 0 <= q < cat.len() implies #[trigger] s2[ue + q] == cat[q] by {
                assert(rr[ue + q] == cat[ue + q - e3.len()]);
            }
            if v.attributes.len() > 0 {
                lemma_cat_prefixed_join(v.attributes, " "@);
                let jp = spec_join_sep(v.attributes, " "@);
                assert(s2[ue] == ' ') by {
                    assert(s2[ue + 0] == cat[0]);
                }
                lemma_token_end_at(s2, de + 1, ue, StopAt::Space);
                lemma_join_sep_first(v.attributes, " "@);
                assert(jp[0] == v.attributes[0][0]) by {
                    if v.attributes.len() >= 2 {
                        assert(jp[0] == (v.attributes[0] + " "@)[0]);
                    }
                }
                assert(!is_wsp(s2[ue + 1])) by {
                    assert(s2[ue + 1] == cat[1]);
                    assert(cat[1] == jp[0]);
                }
                lemma_skip_wsp_at(s2, ue, ue + 1);
                assert(s2.subrange(ue + 1, s2.len() as int) =~= jp) by {
                    assert forall|q: int| 0 <= q < jp.len() implies #[trigger] s2.subrange(
                        ue + 1,
                        s2.len() as int,
                    )[q] == jp[q] by {
                        assert(s2[ue + (1 + q)] == cat[1 + q]);
                        assert(cat[1 + q] == jp[q]);
                    }
                }
                lemma_space_tokens_embedded(s2, v.attributes, ue + 1);
            } else {
                assert(cat.len() == 0);
                assert(s2.len() == ue);
                lemma_token_end_no_stop(s2, de + 1, StopAt::Space);
                assert(skip_wsp(s2, ue) == ue);
                assert(token_end(s2, ue, StopAt::Space) == ue);
                assert(spec_space_tokens(s2, ue).1 =~= v.attributes);
            }
            assert(skip_wsp(s2, s2.len() as int) == s2.len());
            },
        }
    }
}

/// The ids of a source group, joined with single spaces.
pub open spec fn spec_num_join(ids: Seq<u32>) -> Seq<char>
    decreases ids.len(),
{
    if ids.len() == 0 {
        Seq::empty()
    } else if ids.len() == 1 {
        dec_str(ids[0] as int)
    } else {
        spec_num_join(ids.drop_last()) + " "@ + dec_str(ids.last() as int)
    }
}

/// The rendered ids are one space and then the joined ids, once there is an
/// id at all.
proof fn lemma_render_ids_join(ids: Seq<u32>)
    requires
        ids.len() >= 1,
    ensures
        spec_render_ids(ids) == " "@ + spec_num_join(ids),
    decreases ids.len(),
{
    if ids.len() == 1 {
        assert(spec_render_ids(ids.drop_last()) =~= Seq::<char>::empty());
        assert(Seq::<char>::empty() + " "@ + dec_str(ids[0] as int) =~= " "@ + dec_str(
            ids[0] as int,
        ));
    } else {
        lemma_render_ids_join(ids.drop_last());
        assert((" "@ + spec_num_join(ids.drop_last())) + " "@ + dec_str(ids.last() as int)
            =~= " "@ + (spec_num_join(ids.drop_last()) + " "@ + dec_str(ids.last() as int)));
    }
}

/// Joining the ids from the front: the first id, a space, and the rest.
proof fn lemma_num_join_first(ids: Seq<u32>)
    requires
        ids.len() >= 1,
    ensures
        ids.len() == 1 ==> spec_num_join(ids) == dec_str(ids[0] as int),
        ids.len() >= 2 ==> spec_num_join(ids) == dec_str(ids[0] as int) + " "@ + spec_num_join(
            ids.drop_first(),
        ),
    decreases ids.len(),
{
    if ids.len() >= 2 {
        lemma_num_join_first(ids.drop_last());
        if ids.len() == 2 {
            assert(ids.drop_first() =~= seq![ids[1]]);
            assert(spec_num_join(ids.drop_first()) == dec_str(ids[1] as int));
            assert(ids.drop_last()[0] == ids[0]);
        } else {
            assert(ids.drop_last().drop_first() =~= ids.drop_first().drop_last());
            assert(ids.drop_first().last() == ids.last());
            assert(ids.drop_last()[0] == ids[0]);
            assert((dec_str(ids[0] as int) + " "@ + spec_num_join(ids.drop_first().drop_last()))
                + " "@ + dec_str(ids.last() as int) =~= dec_str(ids[0] as int) + " "@ + (
            spec_num_join(ids.drop_first().drop_last()) + " "@ + dec_str(ids.last() as int)));
        }
    }
}

/// Space-joined numbers embedded at the end of a line scan back to the same
/// number list.
proof fn lemma_num_list_embedded(s2: Seq<char>, ids: Seq<u32>, i: int)
    requires
        0 <= i <= s2.len(),
        s2.subrange(i, s2.len() as int) == spec_num_join(ids),
        " "@.len() == 1 && " "@[0] == ' ',
    ensures
        crate::parsers::spec_num_list(s2, i) == (s2.len() as int, ids),
    decreases ids.len(),
{
    let rr = spec_num_join(ids);
    let sub = s2.subrange(i, s2.len() as int);
    assert forall|q: int| 0 <= q < s2.len() - i implies #[trigger] s2[i + q] == rr[q] by {
        assert(sub[q] == s2[i + q]);
    }
    if ids.len() == 0 {
        assert(rr.len() == 0);
        assert(s2.len() == i);
        assert(token_end(s2, i, StopAt::NumDelim) == i);
        assert(crate::parsers::spec_num_list(s2, i).1 =~= ids);
    } else {
        lemma_num_join_first(ids);
        let d0 = dec_str(ids[0] as int);
        lemma_dec_str_digits(ids[0] as int);
        lemma_dec_str_val(ids[0] as int);
        let j = i + d0.len() as int;
        if ids.len() == 1 {
            assert(rr == d0);
            assert(s2.len() == j);
            assert(s2.subrange(i, j) =~= d0) by {
                assert forall|q: int| 0 <= q < d0.len() implies #[trigger] s2.subrange(i, j)[q]
                    == d0[q] by {
                    assert(s2[i + q] == rr[q]);
                }
            }
            lemma_digits_slice(s2, i, j, ids[0] as int);
            lemma_token_end_no_stop(s2, i, StopAt::NumDelim);
            assert(skip_wsp(s2, j) == j);
            assert(token_end(s2, j, StopAt::NumDelim) == j);
            assert(crate::parsers::spec_num_list(s2, j).1 =~= Seq::<u32>::empty());
            assert(seq![ids[0]] + crate::parsers::spec_num_list(s2, j).1 =~= ids);
        } else {
            let rest = ids.drop_first();
            let tail = spec_num_join(rest);
            assert(rr == d0 + " "@ + tail);
            assert(s2.subrange(i, j) =~= d0) by {
                assert forall|q: int| 0 <= q < d0.len() implies #[trigger] s2.subrange(i, j)[q]
                    == d0[q] by {
                    assert(s2[i + q] == rr[q]);
                    assert(rr[q] == (d0 + " "@)[q]);
                    assert((d0 + " "@)[q] == d0[q]);
                }
            }
            lemma_digits_slice(s2, i, j, ids[0] as int);
            assert(s2[j] == ' ') by {
                let w = j - i;
                assert(s2[i + w] == rr[w]);
                assert(rr[w] == (d0 + " "@)[w]);
            }
            lemma_token_end_at(s2, i, j, StopAt::NumDelim);
            assert(s2.subrange(j + 1, s2.len() as int) =~= tail) by {
                assert forall|q: int|
                    0 <= q < s2.len() - j - 1 implies #[trigger] s2.subrange(
                    j + 1,
                    s2.len() as int,
                )[q] == tail[q] by {
                    let w = j + 1 - i + q;
                    assert(s2.subrange(j + 1, s2.len() as int)[q] == s2[i + w]);
                    assert(s2[i + w] == rr[w]);
                    assert(rr[w] == tail[w - d0.len() - 1]);
                }
            }
            lemma_num_list_embedded(s2, rest, j + 1);
            assert(tail.len() > 0) by {
                lemma_num_join_first(rest);
                lemma_dec_str_digits(rest[0] as int);
                if rest.len() >= 2 {
                    assert(tail == dec_str(rest[0] as int) + " "@ + spec_num_join(
                        rest.drop_first(),
                    ));
                }
            }
            assert(!is_wsp(s2[j + 1])) by {
                let w = j + 1 - i;
                assert(s2[i + w] == rr[w]);
                assert(rr[w] == tail[0]);
                assert(tail[0] == dec_str(rest[0] as int)[0]) by {
                    lemma_num_join_first(rest);
                    if rest.len() >= 2 {
                        assert(tail[0] == (dec_str(rest[0] as int) + " "@)[0]);
                    }
                }
                lemma_dec_str_digits(rest[0] as int);
            }
            lemma_skip_wsp_at(s2, j, j + 1);
            assert(seq![ids[0]] + rest =~= ids);
        }
    }
}

/// A source-group line parsed from one line survives the cycle.
#[verifier::rlimit(100)]
pub proof fn lemma_ssrc_group_round_trip(s: Seq<char>)
    ensures
        spec_ssrc_group_line(s) matches Some(v) ==> spec_ssrc_group_line(
            spec_render_ssrc_group(v),
        ) == Some(v),
{
    reveal_strlit("a=ssrc-group:");
    reveal_strlit("FID");
    reveal_strlit("FEC");
    reveal_strlit(" ");
    let r = spec_ssrc_group_line(s);
    if r is Some {
        let v = r->0;
        let sem = spec_render_ssrc_semantic(v.semantic);
        let ri = spec_render_ids(v.ids);
        let e1 = "a=ssrc-group:"@ + sem;
        let rr = e1 + ri;
        let s2 = spec_render_ssrc_group(v);
        assert(s2 == rr);
        assert(sem.len() == 3);
        let a1: int = 16;
        assert(s2.len() == a1 + ri.len());
        assert forall|q: int| 0 <= q < e1.len() implies #[trigger] s2[q] == e1[q] by {
            assert(s2[q] == (e1 + ri)[q]);
        }
        assert(s2.subrange(0, 13) =~= "a=ssrc-group:"@) by {
            assert forall|q: int| 0 <= q < 13 implies #[trigger] s2.subrange(0, 13)[q]
                == "a=ssrc-group:"@[q] by {
                assert(s2[q] == e1[q]);
                assert(e1[q] == "a=ssrc-group:"@[q]);
            }
        }
        assert(occurs_at(s2, 0, "a=ssrc-group:"@));
        assert(s2.subrange(13, a1) =~= sem) by {
            assert forall|q: int| 0 <= q < 3 implies #[trigger] s2.subrange(13, a1)[q]
                == sem[q] by {
                assert(s2[13 + q] == e1[13 + q]);
                assert(e1[13 + q] == sem[q]);
            }
        }
        match v.semantic {
            SsrcSemantic::FID => {
                assert(occurs_at(s2, 13, "FID"@));
            },
            SsrcSemantic::FEC => {
                assert(occurs_at(s2, 13, "FEC"@));
                assert(!occurs_at(s2, 13, "FID"@)) by {
                    if occurs_at(s2, 13, "FID"@) {
                        assert(s2.subrange(13, 13 + "FID"@.len() as int)[1] == s2[14]);
                        assert(s2.subrange(13, a1)[1] == s2[14]);
                    }
                }
            },
        }
        assert forall|q: int| 0 <= q < ri.len() implies #[trigger] s2[a1 + q] == ri[q] by {
            assert(s2[a1 + q] == (e1 + ri)[a1 + q]);
        }
        if v.ids.len() == 0 {
            assert(ri.len() == 0);
            assert(s2.len() == a1);
            assert(skip_wsp(s2, a1) == a1);
            assert(s2.subrange(a1, s2.len() as int) =~= spec_num_join(v.ids));
            lemma_num_list_embedded(s2, v.ids, a1);
        } else {
            lemma_render_ids_join(v.ids);
            assert(ri == " "@ + spec_num_join(v.ids));
            assert(s2[a1] == ' ') by {
                assert(s2[a1 + 0] == ri[0]);
            }
            lemma_num_join_first(v.ids);
            lemma_dec_str_digits(v.ids[0] as int);
            assert(spec_num_join(v.ids)[0] == dec_str(v.ids[0] as int)[0]) by {
                if v.ids.len() >= 2 {
                    assert(spec_num_join(v.ids)[0] == (dec_str(v.ids[0] as int) + " "@)[0]);
                }
            }
            assert(!is_wsp(s2[a1 + 1])) by {
                assert(s2[a1 + 1] == ri[1]);
                assert(ri[1] == spec_num_join(v.ids)[0]);
            }
            lemma_skip_wsp_at(s2, a1, a1 + 1);
            assert(s2.subrange(a1 + 1, s2.len() as int) =~= spec_num_join(v.ids)) by {
                assert forall|q: int|
                    0 <= q < spec_num_join(v.ids).len() implies #[trigger] s2.subrange(
                    a1 + 1,
                    s2.len() as int,
                )[q] == spec_num_join(v.ids)[q] by {
                    assert(s2[a1 + (1 + q)] == ri[1 + q]);
                    assert(ri[1 + q] == spec_num_join(v.ids)[q]);
                }
            }
            lemma_num_list_embedded(s2, v.ids, a1 + 1);
        }
        assert(skip_wsp(s2, s2.len() as int) == s2.len());
    }
}

} // verus!
