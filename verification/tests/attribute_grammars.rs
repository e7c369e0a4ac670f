//! Tests for the attribute grammars.

use sdp::attributes::candidate::{candidate, candidate_line, Candidate, CandidateComponent,
    CandidateProtocol, CandidateType};
use sdp::attributes::dtls::{read_setup_role, setup_role_line, SetupRole};
use sdp::attributes::extmap::{extmap_line, read_extmap, Extmap};
use sdp::attributes::ice::{ice_parameter_line, IceParameter};
use sdp::attributes::rtcp::{ack_param, fb_val, rtcp_attribute_line, rtcpfb_attribute_line, Fb,
    FbAckParam, FbNackParam, FbParam, FbVal};
use sdp::attributes::rtpmap::{read_p_time, rtpmap_line, PTime, RtpMap};
use sdp::attributes::ssrc::{ssrc_group_line, ssrc_line, Ssrc, SsrcGroup, SsrcSemantic};
use sdp::attributes::{attribute_line, fingerprint_line, key_val_attribute_line, mid_line,
    msid_semantic_line, AttributeLine, Direction};
use sdp::parsers::IpAddress;

#[test]
fn candidate_parses_candidate_line() {
    let prints = [
        "a=candidate:3348148302 1 udp 2113937151 192.0.2.1 56500 typ host",
        "a=candidate:3348148302 1 tcp 2113937151 192.0.2.1 56500 typ srflx",
        "a=candidate:3348148302 2 tcp 2113937151 192.0.2.1 56500 typ srflx",
        "a=candidate:2 1 tcp 2124414975 10.0.1.1 8998 typ host tcptype passive",
        "a=candidate:3 1 tcp 2120220671 10.0.1.1 8999 typ host tcptype so",
        "a=candidate:4 1 tcp 1688207359 192.0.2.3 9 typ srflx raddr 10.0.1.1 rport 9 tcptype active",
        "a=candidate:5 1 tcp 1684013055 192.0.2.3 45664 typ srflx raddr 10.0.1.1 rport 8998 tcptype passive generation 5",
        "a=candidate:6 1 tcp 1692401663 192.0.2.3 45687 typ srflx raddr 10.0.1.1 rport 8999 tcptype so",
        "a=candidate:2791055836 1 udp 2122262783 2001:9e8:b0b:8400:c5e3:8776:82fc:7704 58605 typ host generation 0 network-id 2",
    ];
    for line in &prints {
        let parsed = candidate_line(line).unwrap();
        assert_eq!(parsed.to_string(), *line, "print failed for {line:?}");
    }
    assert_eq!(
        candidate_line("a=candidate:1 1 TCP 2128609279 10.0.1.1 9 typ host tcptype active")
            .unwrap(),
        Candidate {
            foundation: 1,
            component: CandidateComponent::Rtp,
            protocol: CandidateProtocol::Tcp,
            priority: 2128609279,
            addr: IpAddress::V4(10, 0, 1, 1),
            port: 9,
            kind: CandidateType::Host,
            raddr: None,
            rport: None,
            tcptype: Some("active".to_string()),
            generation: None,
            network_id: None,
        }
    );
    assert!(candidate_line("a=candidate:3348148302 1 UDP 2113937151 192.0.2.1 56500 typ relay")
        .is_some());
    assert!(candidate_line("a=candidate:3348148302 1 UDP 2113937151 192.0.2.1 56500 typ srflx")
        .is_some());
}

#[test]
fn candidate_audio_lines() {
    let lines = [
        "a=candidate:1467250027 1 udp 2122260223 192.168.0.196 46243 typ host generation 0",
        "a=candidate:1467250027 2 udp 2122260222 192.168.0.196 56280 typ host generation 0",
        "a=candidate:435653019 1 tcp 1845501695 192.168.0.196 0 typ host tcptype active generation 0",
        "a=candidate:435653019 2 tcp 1845501695 192.168.0.196 0 typ host tcptype active generation 0",
        "a=candidate:1853887674 1 udp 1518280447 47.61.61.61 36768 typ srflx raddr 192.168.0.196 rport 36768 generation 0",
        "a=candidate:1853887674 2 udp 1518280447 47.61.61.61 36768 typ srflx raddr 192.168.0.196 rport 36768 generation 0",
        "a=candidate:750991856 2 udp 25108222 237.30.30.30 51472 typ relay raddr 47.61.61.61 rport 54763 generation 0",
        "a=candidate:750991856 1 udp 25108223 237.30.30.30 58779 typ relay raddr 47.61.61.61 rport 54761 generation 0",
    ];
    for line in &lines {
        assert!(candidate_line(line).is_some(), "failed to parse {line:?}");
    }
}

#[test]
fn candidate_options_any_order() {
    // the trailing pairs may arrive in any order, once each, and render in
    // a fixed order
    let parsed =
        candidate_line("a=candidate:1 1 udp 1 10.0.0.1 9 typ host generation 7 tcptype active")
            .unwrap();
    assert_eq!(parsed.generation, Some(7));
    assert_eq!(parsed.tcptype, Some("active".to_string()));
    assert_eq!(
        parsed.to_string(),
        "a=candidate:1 1 udp 1 10.0.0.1 9 typ host tcptype active generation 7"
    );
    // a repeated pair is no candidate; the generic fallback keeps the line
    let dup = "a=candidate:1 1 udp 1 10.0.0.1 9 typ host generation 7 generation 8";
    assert!(candidate_line(dup).is_none());
    assert!(matches!(attribute_line(dup), Some(AttributeLine::KeyValue { .. })));
}

#[test]
fn dtls_test_setup_role() {
    assert_eq!(read_setup_role("active"), Some(SetupRole::Active));
    assert_eq!(read_setup_role("passive"), Some(SetupRole::Passive));
}

#[test]
fn dtls_test_setup_role_line() {
    let parsed = setup_role_line("a=setup:active").unwrap();
    assert_eq!(parsed, SetupRole::Active);
    assert_eq!(parsed.to_string(), "a=setup:active");
    let parsed = setup_role_line("a=setup:actpass").unwrap();
    assert_eq!(parsed, SetupRole::ActPass);
    assert_eq!(parsed.to_string(), "a=setup:actpass");
    let parsed = setup_role_line("a=setup:passive").unwrap();
    assert_eq!(parsed, SetupRole::Passive);
    assert_eq!(parsed.to_string(), "a=setup:passive");
}

#[test]
fn dtls_parameters_test_setup_role() {
    assert_eq!(read_setup_role("active"), Some(SetupRole::Active));
    assert_eq!(read_setup_role("passive"), Some(SetupRole::Passive));
    assert_eq!(read_setup_role("actpass"), Some(SetupRole::ActPass));
}

#[test]
fn dtls_parameters_test_setup_role_line() {
    assert_eq!(setup_role_line("a=setup:active"), Some(SetupRole::Active));
    assert_eq!(setup_role_line("a=setup:actpass"), Some(SetupRole::ActPass));
    assert_eq!(setup_role_line("a=setup:passive"), Some(SetupRole::Passive));
}

#[test]
fn test_extmap() {
    assert_eq!(
        read_extmap("1/sendonly URI-toffset", 0).unwrap(),
        Extmap {
            value: 1,
            direction: Some(Direction::SendOnly),
            uri: "URI-toffset".to_string(),
            attributes: vec![],
        }
    );
    assert_eq!(
        read_extmap("2 urn:ietf:params:rtp-hdrext:toffset", 0).unwrap(),
        Extmap {
            value: 2,
            direction: None,
            uri: "urn:ietf:params:rtp-hdrext:toffset".to_string(),
            attributes: vec![],
        }
    );
    assert_eq!(
        read_extmap(
            "3 urn:ietf:params:rtp-hdrext:encrypt urn:ietf:params:rtp-hdrext:smpte-tc 25@600/24",
            0
        )
        .unwrap(),
        Extmap {
            value: 3,
            direction: None,
            uri: "urn:ietf:params:rtp-hdrext:encrypt".to_string(),
            attributes: vec![
                "urn:ietf:params:rtp-hdrext:smpte-tc".to_string(),
                "25@600/24".to_string()
            ],
        }
    );
    assert_eq!(
        read_extmap("4/recvonly urn:ietf:params:rtp-hdrext:encrypt URI-gps-string", 0).unwrap(),
        Extmap {
            value: 4,
            direction: Some(Direction::RecvOnly),
            uri: "urn:ietf:params:rtp-hdrext:encrypt".to_string(),
            attributes: vec!["URI-gps-string".to_string()],
        }
    );
}

#[test]
fn test_extmap_line() {
    assert!(extmap_line("a=extmap:1/sendonly URI-toffset").is_some());
    assert!(extmap_line("a=extmap:2 urn:ietf:params:rtp-hdrext:toffset").is_some());
    assert!(extmap_line(
        "a=extmap:3 urn:ietf:params:rtp-hdrext:encrypt urn:ietf:params:rtp-hdrext:smpte-tc 25@600/24"
    )
    .is_some());
    assert!(extmap_line("a=extmap:4/recvonly urn:ietf:params:rtp-hdrext:encrypt URI-gps-string")
        .is_some());
    assert!(extmap_line("a=extmap:2/sendrecv http://example.com/082005/ext.htm#xmeta short")
        .is_some());
}

#[test]
fn rtpmap_test_read_p_time() {
    let parsed = read_p_time("a=ptime:1").unwrap();
    assert_eq!(parsed, PTime::PTime(1));
    assert_eq!(parsed.to_string(), "a=ptime:1");
    let parsed = read_p_time("a=minptime:20").unwrap();
    assert_eq!(parsed, PTime::MinPTime(20));
    assert_eq!(parsed.to_string(), "a=minptime:20");
    let parsed = read_p_time("a=maxptime:120").unwrap();
    assert_eq!(parsed, PTime::MaxPTime(120));
    assert_eq!(parsed.to_string(), "a=maxptime:120");
}

#[test]
fn codec_test_read_p_time() {
    assert_eq!(read_p_time("a=ptime:1"), Some(PTime::PTime(1)));
    assert_eq!(read_p_time("a=minptime:20"), Some(PTime::MinPTime(20)));
    assert_eq!(read_p_time("a=maxptime:120"), Some(PTime::MaxPTime(120)));
}

#[test]
fn rtpmap_test_rtpmap_line() {
    let parsed = rtpmap_line("a=rtpmap:96 VP8/90000").unwrap();
    assert_eq!(
        parsed,
        RtpMap {
            payload: 96,
            encoding_name: "VP8".to_string(),
            clock_rate: Some(90000),
            encoding: None,
        }
    );
    assert_eq!(parsed.to_string(), "a=rtpmap:96 VP8/90000");
    let parsed = rtpmap_line("a=rtpmap:111 opus/48000/2").unwrap();
    assert_eq!(
        parsed,
        RtpMap {
            payload: 111,
            encoding_name: "opus".to_string(),
            clock_rate: Some(48000),
            encoding: Some(2),
        }
    );
    assert_eq!(parsed.to_string(), "a=rtpmap:111 opus/48000/2");
    for line in [
        "a=rtpmap:98 VP9/90000",
        "a=rtpmap:99 rtx/90000",
        "a=rtpmap:100 H264/90000",
        "a=rtpmap:101 rtx/90000",
        "a=rtpmap:102 H264/90000",
        "a=rtpmap:124 rtx/90000",
        "a=rtpmap:127 red/90000",
        "a=rtpmap:123 rtx/90000",
        "a=rtpmap:125 ulpfec/90000",
    ] {
        assert_eq!(rtpmap_line(line).unwrap().to_string(), line);
    }
    let parsed = rtpmap_line("a=rtpmap:113 telephone-event/16000").unwrap();
    assert_eq!(
        parsed,
        RtpMap {
            payload: 113,
            encoding_name: "telephone-event".to_string(),
            clock_rate: Some(16000),
            encoding: None,
        }
    );
    assert!(rtpmap_line("a=rtpmap:96 AppleLossless").is_some());
}

#[test]
fn codec_test_rtpmap_line() {
    assert_eq!(
        rtpmap_line("a=rtpmap:97 rtx/90000").unwrap(),
        RtpMap {
            payload: 97,
            encoding_name: "rtx".to_string(),
            clock_rate: Some(90000),
            encoding: None,
        }
    );
}

#[test]
fn test_rtcpfb_ack_param() {
    assert_eq!(ack_param("sli", 0), Some(FbAckParam::Sli(None)));
    assert_eq!(ack_param("sli 5432", 0), Some(FbAckParam::Sli(Some("5432".to_string()))));
}

#[test]
fn test_read_val() {
    assert_eq!(fb_val("trr-int 100", 0), Some(FbVal::TrrInt(100)));
    assert_eq!(fb_val("ack sli", 0), Some(FbVal::Ack(FbAckParam::Sli(None))));
    assert_eq!(
        fb_val("ack sli 5432", 0),
        Some(FbVal::Ack(FbAckParam::Sli(Some("5432".to_string()))))
    );
    assert_eq!(fb_val("nack rpsi", 0), Some(FbVal::Nack(FbNackParam::Rpsi)));
    assert_eq!(
        fb_val("goog-remb", 0),
        Some(FbVal::RtcpFbId { id: "goog-remb".to_string(), param: None })
    );
    assert_eq!(fb_val("ccm", 0), Some(FbVal::RtcpFbId { id: "ccm".to_string(), param: None }));
    assert_eq!(
        fb_val("ccm fir", 0),
        Some(FbVal::RtcpFbId {
            id: "ccm".to_string(),
            param: Some(FbParam::Single("fir".to_string()))
        })
    );
    assert_eq!(
        fb_val("fb foo bar", 0),
        Some(FbVal::RtcpFbId {
            id: "fb".to_string(),
            param: Some(FbParam::Pair("foo".to_string(), "bar".to_string()))
        })
    );
}

#[test]
fn test_rtcpfb_line() {
    assert!(rtcpfb_attribute_line("a=rtcp-fb:98 trr-int 100").is_some());
    assert!(rtcpfb_attribute_line("a=rtcp-fb:98 ack sli").is_some());
    assert!(rtcpfb_attribute_line("a=rtcp-fb:98 ack sli 5432").is_some());
    assert_eq!(
        rtcpfb_attribute_line("a=rtcp-fb:98 nack rpsi").unwrap(),
        Fb { payload: 98, val: FbVal::Nack(FbNackParam::Rpsi) }
    );
    assert_eq!(
        rtcpfb_attribute_line("a=rtcp-fb:96 goog-remb").unwrap(),
        Fb { payload: 96, val: FbVal::RtcpFbId { id: "goog-remb".to_string(), param: None } }
    );
    assert_eq!(
        rtcpfb_attribute_line("a=rtcp-fb:96 transport-cc").unwrap(),
        Fb { payload: 96, val: FbVal::RtcpFbId { id: "transport-cc".to_string(), param: None } }
    );
    assert_eq!(
        rtcpfb_attribute_line("a=rtcp-fb:96 ccm fir").unwrap(),
        Fb {
            payload: 96,
            val: FbVal::RtcpFbId {
                id: "ccm".to_string(),
                param: Some(FbParam::Single("fir".to_string()))
            }
        }
    );
}

#[test]
fn test_msid_semantic_line() {
    let parsed =
        msid_semantic_line("a=msid-semantic: WMS lgsCFqt9kN2fVKw5wg3NKqGdATQoltEwOdMS").unwrap();
    assert_eq!(parsed.semantic, "WMS");
    assert_eq!(parsed.token, Some("lgsCFqt9kN2fVKw5wg3NKqGdATQoltEwOdMS".to_string()));
    assert_eq!(
        parsed.to_string(),
        "a=msid-semantic: WMS lgsCFqt9kN2fVKw5wg3NKqGdATQoltEwOdMS"
    );
}

#[test]
fn test_mid_line() {
    assert!(mid_line("a=mid:1").is_some());
    assert!(mid_line("a=mid:a1").is_some());
    assert!(mid_line("a=mid:0").is_some());
    assert!(mid_line("a=mid:audio").is_some());
}

#[test]
fn test_ssrc_line() {
    assert_eq!(
        ssrc_line("a=ssrc:1366781084 cname:EocUG1f0fcg/yvY7").unwrap(),
        Ssrc {
            id: 1366781084,
            attribute: "cname".to_string(),
            value: "EocUG1f0fcg/yvY7".to_string(),
        }
    );
    assert_eq!(
        ssrc_line("a=ssrc: 1366781084 cname: EocUG1f0fcg/yvY7").unwrap(),
        Ssrc {
            id: 1366781084,
            attribute: "cname".to_string(),
            value: "EocUG1f0fcg/yvY7".to_string(),
        }
    );
}

#[test]
fn ssrc_group_roundtrip() {
    let parsed = ssrc_group_line("a=ssrc-group:FID 2231627014 632943048").unwrap();
    assert_eq!(
        parsed,
        SsrcGroup { semantic: SsrcSemantic::FID, ids: vec![2231627014, 632943048] }
    );
    assert_eq!(parsed.to_string(), "a=ssrc-group:FID 2231627014 632943048");
}

#[test]
fn ice_and_fingerprint_lines() {
    assert_eq!(
        ice_parameter_line("a=ice-ufrag:Oyef7uvBlwafI3hT").unwrap(),
        IceParameter::Ufrag("Oyef7uvBlwafI3hT".to_string())
    );
    assert_eq!(
        ice_parameter_line("a=ice-pwd:T0teqPLNQQOf+5W+ls+P2p16").unwrap(),
        IceParameter::Pwd("T0teqPLNQQOf+5W+ls+P2p16".to_string())
    );
    assert_eq!(ice_parameter_line("a=ice-lite").unwrap(), IceParameter::Lite);
    let line = "a=fingerprint:sha-256 49:66:12:17:0D:1C:91:AE:57:4C:C6:36:DD:D5:97:D2:7D:62:C9:9A:7F:B9:A3:F4:70:03:E7:43:91:73:23:5E";
    let parsed = fingerprint_line(line).unwrap();
    assert_eq!(parsed.kind, "sha-256");
    assert_eq!(parsed.to_string(), line);
}

#[test]
fn rtcp_endpoint_line() {
    let parsed = rtcp_attribute_line("a=rtcp:65179 IN IP4 10.23.34.56").unwrap();
    assert_eq!(parsed.port, 65179);
    assert_eq!(parsed.addr, IpAddress::V4(10, 23, 34, 56));
    assert_eq!(parsed.to_string(), "a=rtcp:65179 IN IP4 10.23.34.56");
}

#[test]
fn generic_fallback_preserves_unknown_attributes() {
    // a recognized-looking but unmatched body falls back without loss
    let (key, val) = key_val_attribute_line("a=x-custom:hello").unwrap();
    assert_eq!(key, "x-custom");
    assert_eq!(val, "hello");
    match attribute_line("a=x-custom:hello").unwrap() {
        AttributeLine::KeyValue { key, val } => {
            assert_eq!(key, "x-custom");
            assert_eq!(val, "hello");
        }
        other => panic!("unexpected parse: {other:?}"),
    }
    assert_eq!(attribute_line("a=x-custom:hello").unwrap().to_string(), "a=x-custom:hello");
    match attribute_line("a=x-custom").unwrap() {
        AttributeLine::KeyOnly(key) => assert_eq!(key, "x-custom"),
        other => panic!("unexpected parse: {other:?}"),
    }
    assert_eq!(attribute_line("a=x-custom").unwrap().to_string(), "a=x-custom");
}

#[test]
fn accepts_breaks() {
    // a candidate body with a trailing line break still parses
    let parsed =
        candidate("candidate:3348148302 1 udp 2113937151 192.0.2.1 56500 typ host\n", 10)
            .unwrap();
    assert_eq!(parsed.foundation, 3348148302);
    assert_eq!(parsed.kind, CandidateType::Host);
}

#[test]
fn bundle_only_and_end_of_candidates() {
    assert_eq!(attribute_line("a=bundle-only"), Some(AttributeLine::BundleOnly));
    assert_eq!(attribute_line("a=bundle-only").unwrap().to_string(), "a=bundle-only");
    assert_eq!(attribute_line("a=end-of-candidates"), Some(AttributeLine::EoC));
    assert_eq!(
        attribute_line("a=end-of-candidates").unwrap().to_string(),
        "a=end-of-candidates"
    );
    // a longer body falls to the generic fallback instead
    assert!(matches!(
        attribute_line("a=bundle-only-x"),
        Some(AttributeLine::KeyOnly(_))
    ));
}
