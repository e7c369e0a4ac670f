//! Document-level tests: dispatching, assembling, serializing, detaching.

use sdp::attributes::candidate::{CandidateComponent, CandidateProtocol, CandidateType};
use sdp::attributes::AttributeLine;
use sdp::lazy_session::LazySession;
use sdp::lines::Version;
use sdp::sdp_line::{sdp_line, sdp_lines, sdp_lines_all};
use sdp::session::{SdpError, Session};

#[test]
fn anatomy() {
    let anatomy_examples = [
        // Global Lines
        "o=- 4611731400430051336 2 IN IP4 127.0.0.1",
        "s=-",
        "t=0 0",
        "a=group:BUNDLE 0 1",
        "a=msid-semantic: WMS lgsCFqt9kN2fVKw5wg3NKqGdATQoltEwOdMS",
        "m=audio 58779 UDP/TLS/RTP/SAVPF 111 103 104 9 0 8 106 105 13 126",
        "c=IN IP4 217.130.243.155",
        "a=rtcp:51472 IN IP4 217.130.243.155",
        // Audio Lines
        "a=candidate:1467250027 1 udp 2122260223 192.168.0.196 46243 typ host generation 0",
        "a=candidate:1467250027 2 udp 2122260222 192.168.0.196 56280 typ host generation 0",
        "a=candidate:435653019 1 tcp 1845501695 192.168.0.196 0 typ host tcptype active generation 0",
        "a=candidate:435653019 2 tcp 1845501695 192.168.0.196 0 typ host tcptype active generation 0",
        "a=candidate:1853887674 1 udp 1518280447 47.61.61.61 36768 typ srflx raddr 192.168.0.196 rport 36768 generation 0",
        "a=candidate:1853887674 2 udp 1518280447 47.61.61.61 36768 typ srflx raddr 192.168.0.196 rport 36768 generation 0",
        "a=candidate:750991856 2 udp 25108222 237.30.30.30 51472 typ relay raddr 47.61.61.61 rport 54763 generation 0",
        "a=candidate:750991856 1 udp 25108223 237.30.30.30 58779 typ relay raddr 47.61.61.61 rport 54761 generation 0",
        // ICE Parameters
        "a=ice-ufrag:Oyef7uvBlwafI3hT",
        "a=ice-pwd:T0teqPLNQQOf+5W+ls+P2p16",
        // DTLS Parameters
        "a=fingerprint:sha-256 49:66:12:17:0D:1C:91:AE:57:4C:C6:36:DD:D5:97:D2:7D:62:C9:9A:7F:B9:A3:F4:70:03:E7:43:91:73:23:5E",
        "a=setup:actpass",
        "a=mid:0",
        "a=extmap:1 urn:ietf:params:rtp-hdrext:ssrc-audio-level",
        "a=extmap:3 http://www.webrtc.org/experiments/rtp-hdrext/abs-send-time",
        "a=sendrecv",
        "a=rtcp-mux",
        // Codec Parameters
        "a=rtpmap:111 opus/48000/2",
        "a=fmtp:111 minptime=10; useinbandfec=1",
        "a=rtpmap:103 ISAC/16000",
        "a=rtpmap:104 ISAC/32000",
        "a=rtpmap:9 G722/8000",
        "a=rtpmap:0 PCMU/8000",
        "a=rtpmap:8 PCMA/8000",
        "a=rtpmap:106 CN/32000",
        "a=rtpmap:105 CN/16000",
        "a=rtpmap:13 CN/8000",
        "a=rtpmap:126 telephone-event/8000",
        "a=maxptime:60",
        // SSRC Parameters
        "a=ssrc:3570614608 cname:4TOk42mSjXCkVIa6",
        "a=ssrc:3570614608 msid:lgsCFqt9kN2fVKw5wg3NKqGdATQoltEwOdMS 35429d94-5637-4686-9ecd-7d0622261ce8",
        "a=ssrc:3570614608 mslabel:lgsCFqt9kN2fVKw5wg3NKqGdATQoltEwOdMS",
        "a=ssrc:3570614608 label:35429d94-5637-4686-9ecd-7d0622261ce8",
        // Video Lines
        "m=video 60372 UDP/TLS/RTP/SAVPF 100 101 116 117 96",
        "c=IN IP4 217.130.243.155",
        "a=rtcp:64891 IN IP4 217.130.243.155",
        // ICE Candidates
        "a=candidate:1467250027 1 udp 2122260223 192.168.0.196 56143 typ host generation 0",
        "a=candidate:1467250027 2 udp 2122260222 192.168.0.196 58874 typ host generation 0",
        "a=candidate:435653019 1 tcp 1518280447 192.168.0.196 0 typ host tcptype active generation 0",
        "a=candidate:435653019 2 tcp 1518280446 192.168.0.196 0 typ host tcptype active generation 0",
        "a=candidate:1853887674 1 udp 1518280447 47.61.61.61 36768 typ srflx raddr 192.168.0.196 rport 36768 generation 0",
        "a=candidate:1853887674 1 udp 1518280447 47.61.61.61 36768 typ srflx raddr 192.168.0.196 rport 36768 generation 0",
        "a=candidate:750991856 1 udp 25108223 237.30.30.30 60372 typ relay raddr 47.61.61.61 rport 54765 generation 0",
        "a=candidate:750991856 2 udp 25108222 237.30.30.30 64891 typ relay raddr 47.61.61.61 rport 54767 generation 0",
        // ICE Parameters
        "a=ice-ufrag:Oyef7uvBlwafI3hT",
        "a=ice-pwd:T0teqPLNQQOf+5W+ls+P2p16",
        // DTLS Parameters
        "a=fingerprint:sha-256 49:66:12:17:0D:1C:91:AE:57:4C:C6:36:DD:D5:97:D2:7D:62:C9:9A:7F:B9:A3:F4:70:03:E7:43:91:73:23:5E",
        "a=setup:actpass",
        "a=mid:1",
        "a=extmap:2 urn:ietf:params:rtp-hdrext:toffset",
        "a=extmap:3 http://www.webrtc.org/experiments/rtp-hdrext/abs-send-time",
        "a=extmap:4 urn:3gpp:video-orientation",
        "a=sendrecv",
        "a=rtcp-mux",
        // Codec Parameters
        "a=rtpmap:100 VP8/90000",
        "a=rtcp-fb:100 ccm fir",
        "a=rtcp-fb:100 nack",
        "a=rtcp-fb:100 nack pli",
        "a=rtcp-fb:100 goog-remb",
        "a=rtpmap:101 VP9/90000",
        "a=rtcp-fb:101 ccm fir",
        "a=rtcp-fb:101 nack",
        "a=rtcp-fb:101 nack pli",
        "a=rtcp-fb:101 goog-remb",
        "a=rtpmap:116 red/90000",
        "a=rtpmap:117 ulpfec/90000",
        "a=rtpmap:96 rtx/90000",
        "a=fmtp:96 apt=100",
        // SSRC Parameters
        "a=ssrc-group:FID 2231627014 632943048",
        "a=ssrc:2231627014 cname:4TOk42mSjXCkVIa6",
        "a=ssrc:2231627014 msid:lgsCFqt9kN2fVKw5wg3NKqGdATQoltEwOdMS daed9400-d0dd-4db3-b949-422499e96e2d",
        "a=ssrc:2231627014 mslabel:lgsCFqt9kN2fVKw5wg3NKqGdATQoltEwOdMS",
        "a=ssrc:2231627014 label:daed9400-d0dd-4db3-b949-422499e96e2d",
        "a=ssrc:632943048 cname:4TOk42mSjXCkVIa6",
        "a=ssrc:632943048 msid:lgsCFqt9kN2fVKw5wg3NKqGdATQoltEwOdMS daed9400-d0dd-4db3-b949-422499e96e2d",
    ];
    for line in &anatomy_examples {
        assert!(sdp_line(line).is_some(), "failed to parse {line:?}");
    }
}

#[test]
fn seldom_lines() {
    let seldom = ["i=foobar", "e=email@example.com", "p=0118 999 881 999 119 7253"];
    for line in &seldom {
        assert!(sdp_line(line).is_some(), "failed to parse {line:?}");
    }
}

#[test]
fn parses_webrtc_offer() {
    let doc = "v=0\r\no=- 4611731400430051336 2 IN IP4 127.0.0.1\r\ns=-\r\nt=0 0\r\nm=audio 9 UDP/TLS/RTP/SAVPF 111\r\na=rtpmap:111 opus/48000/2\r\n";
    let session = Session::parse_strict(doc).unwrap();
    assert_eq!(session.version, Some(Version(0)));
    assert_eq!(session.origin.as_ref().unwrap().session_id, 4611731400430051336);
    assert_eq!(session.media.len(), 1);
    let m = &session.media[0];
    assert_eq!(m.media_type, "audio");
    assert_eq!(m.port, 9);
    assert_eq!(m.protocol, vec!["UDP", "TLS", "RTP", "SAVPF"]);
    assert_eq!(m.payloads, vec!["111"]);
    assert_eq!(m.rtp_map.len(), 1);
    assert_eq!(m.rtp_map[0].payload, 111);
    assert_eq!(m.rtp_map[0].encoding_name, "opus");
    assert_eq!(m.rtp_map[0].clock_rate, Some(48000));
    assert_eq!(m.rtp_map[0].encoding, Some(2));
}

#[test]
fn custom_attribute_in_media_section() {
    let doc = "m=audio 9 UDP/TLS/RTP/SAVPF 111\na=x-custom:hello\n";
    let session = Session::parse_lenient(doc);
    assert_eq!(session.media.len(), 1);
    match &session.media[0].attributes[0] {
        AttributeLine::KeyValue { key, val } => {
            assert_eq!(key, "x-custom");
            assert_eq!(val, "hello");
        }
        other => panic!("unexpected parse: {other:?}"),
    }
    assert!(session.to_string().contains("a=x-custom:hello\n"));
    let doc = "m=audio 9 UDP/TLS/RTP/SAVPF 111\na=x-custom\n";
    let session = Session::parse_lenient(doc);
    match &session.media[0].attributes[0] {
        AttributeLine::KeyOnly(key) => assert_eq!(key, "x-custom"),
        other => panic!("unexpected parse: {other:?}"),
    }
    assert!(session.to_string().contains("a=x-custom\n"));
}

#[test]
fn candidate_scenario_value() {
    let parsed = sdp::attributes::candidate::candidate_line(
        "a=candidate:1 1 tcp 2128609279 10.0.1.1 9 typ host tcptype active",
    )
    .unwrap();
    assert_eq!(parsed.foundation, 1);
    assert_eq!(parsed.component, CandidateComponent::Rtp);
    assert_eq!(parsed.protocol, CandidateProtocol::Tcp);
    assert_eq!(parsed.priority, 2128609279);
    assert_eq!(parsed.addr, sdp::parsers::IpAddress::V4(10, 0, 1, 1));
    assert_eq!(parsed.port, 9);
    assert_eq!(parsed.kind, CandidateType::Host);
    assert_eq!(parsed.tcptype, Some("active".to_string()));
    assert_eq!(parsed.raddr, None);
    assert_eq!(parsed.rport, None);
    assert_eq!(parsed.generation, None);
    assert_eq!(parsed.network_id, None);
}

#[test]
fn two_media_sections_own_their_lines() {
    let doc = "v=0\nm=audio 9 RTP/AVP 0\na=mid:0\nm=video 7 RTP/AVP 96\na=mid:1\n";
    let session = Session::parse_strict(doc).unwrap();
    assert_eq!(session.media.len(), 2);
    assert_eq!(session.media[0].mid.as_ref().unwrap().0, "0");
    assert_eq!(session.media[1].mid.as_ref().unwrap().0, "1");
    assert!(session.attributes.is_empty());
}

#[test]
fn media_section_count_matches_descriptors() {
    let doc = "v=0\nzz not a line\nm=audio 9 RTP/AVP 0\nm=video 7 RTP/AVP 96\n";
    let session = Session::parse_lenient(doc);
    assert_eq!(session.media.len(), 2);
    let lazy = LazySession::read_str(doc);
    assert_eq!(lazy.media.len(), 2);
}

#[test]
fn strict_mode_reports_bad_line() {
    let doc = "v=0\nt=;\n";
    match Session::parse_strict(doc) {
        Err(SdpError::ParseFailed { line_number, text }) => {
            assert_eq!(line_number, 1);
            assert_eq!(text, "t=;");
        }
        other => panic!("unexpected result: {other:?}"),
    }
    let session = Session::parse_lenient(doc);
    assert_eq!(session.timing, None);
    assert_eq!(session.version, Some(Version(0)));
}

#[test]
fn strict_mode_reports_duplicate_singleton() {
    let doc = "v=0\nv=1\n";
    match Session::parse_strict(doc) {
        Err(SdpError::AssemblyFailed { line_number, text }) => {
            assert_eq!(line_number, 1);
            assert_eq!(text, "v=1");
        }
        other => panic!("unexpected result: {other:?}"),
    }
    // the lenient policy keeps the first occurrence and skips the second
    let session = Session::parse_lenient(doc);
    assert_eq!(session.version, Some(Version(0)));
}

#[test]
fn strict_mode_reports_misplaced_session_line() {
    let doc = "m=audio 9 RTP/AVP 0\ns=name\n";
    match Session::parse_strict(doc) {
        Err(SdpError::AssemblyFailed { line_number, .. }) => assert_eq!(line_number, 1),
        other => panic!("unexpected result: {other:?}"),
    }
    let err = Session::parse_strict(doc).unwrap_err();
    assert!(err.message().contains("s=name"));
}

#[test]
fn structural_round_trip() {
    let doc = "v=0\r\no=- 4611731400430051336 2 IN IP4 127.0.0.1\r\ns=-\r\nt=0 0\r\na=group:BUNDLE 0 1\r\na=msid-semantic: WMS token\r\nm=audio 58779 UDP/TLS/RTP/SAVPF 111 103\r\nc=IN IP4 217.130.243.155\r\na=rtcp:51472 IN IP4 217.130.243.155\r\na=candidate:1467250027 1 udp 2122260223 192.168.0.196 46243 typ host generation 0\r\na=ice-ufrag:Oyef7uvBlwafI3hT\r\na=ice-pwd:T0teqPLNQQOf+5W+ls+P2p16\r\na=fingerprint:sha-256 49:66:12:17\r\na=setup:actpass\r\na=mid:0\r\na=extmap:1 urn:ietf:params:rtp-hdrext:ssrc-audio-level\r\na=sendrecv\r\na=rtcp-mux\r\na=rtpmap:111 opus/48000/2\r\na=fmtp:111 minptime=10; useinbandfec=1\r\na=rtpmap:103 ISAC/16000\r\na=maxptime:60\r\na=ssrc:3570614608 cname:4TOk42mSjXCkVIa6\r\nm=video 60372 UDP/TLS/RTP/SAVPF 100\r\na=mid:1\r\na=rtpmap:100 VP8/90000\r\na=rtcp-fb:100 ccm fir\r\na=rtcp-fb:100 nack\r\na=ssrc-group:FID 2231627014 632943048\r\na=x-unknown:kept\r\n";
    let first = Session::parse_lenient(doc);
    let text = first.to_string();
    let second = Session::parse_lenient(&text);
    assert_eq!(second, first);
    // and the re-serialization is stable
    assert_eq!(second.to_string(), text);
}

#[test]
fn byte_exact_round_trip_order_preserving() {
    let doc = "v=0\no=- 1 1 IN IP4 127.0.0.1\ns=-\nt=0 0\nm=audio 9 UDP/TLS/RTP/SAVPF 111\na=rtpmap:111 opus/48000/2\na=x-custom:hello\na=mid:0\n";
    let lazy = LazySession::read_str(doc);
    assert_eq!(lazy.to_string(), doc);
}

#[test]
fn serializer_groups_codec_lines_by_payload() {
    let doc = "m=audio 9 RTP/AVP 111 103\na=rtpmap:103 ISAC/16000\na=rtpmap:111 opus/48000/2\na=fmtp:111 minptime=10\n";
    let session = Session::parse_lenient(doc);
    assert_eq!(
        session.to_string(),
        "m=audio 9 RTP/AVP 111 103\na=rtpmap:111 opus/48000/2\na=fmtp:111 minptime=10\na=rtpmap:103 ISAC/16000\n"
    );
}

#[test]
fn detached_document_is_identical() {
    let owned = {
        let text = String::from(
            "v=0\nm=audio 9 RTP/AVP 0\na=mid:0\na=candidate:1 1 udp 1 10.0.0.1 9 typ host\n",
        );
        let session = Session::parse_lenient(&text);
        let detached = session.into_owned();
        assert_eq!(detached, session);
        detached
    };
    // the source buffer is gone; the detached document still serializes
    assert!(owned.to_string().contains("a=mid:0\n"));
    let lazy_owned = {
        let text = String::from("v=0\nm=audio 9 RTP/AVP 0\na=mid:0\n");
        let lazy = LazySession::read_str(&text);
        let detached = lazy.into_owned();
        assert_eq!(detached, lazy);
        detached
    };
    assert_eq!(lazy_owned.to_string(), "v=0\nm=audio 9 RTP/AVP 0\na=mid:0\n");
}

#[test]
fn retains_only_tcp_candidates() {
    let doc = "m=audio 9 RTP/AVP 0\na=candidate:1 1 udp 1 10.0.0.1 9 typ host\na=candidate:2 1 tcp 2 10.0.0.2 9 typ host tcptype active\n";
    let mut session = Session::parse_lenient(doc);
    assert_eq!(session.media[0].candidates.len(), 2);
    session.remove_direct_tcp_candidates();
    assert_eq!(session.media[0].candidates.len(), 1);
    assert_eq!(session.media[0].candidates[0].protocol, CandidateProtocol::Tcp);
}

#[test]
fn line_iteration_keeps_and_reports() {
    let doc = "v=0\nnot a line\na=mid:0\n";
    let kept = sdp_lines(doc);
    assert_eq!(kept.len(), 2);
    let all = sdp_lines_all(doc);
    assert_eq!(all.len(), 3);
    assert!(all[0].is_some());
    assert!(all[1].is_none());
    assert!(all[2].is_some());
}

#[test]
fn comments_are_tolerated_and_dropped() {
    let doc = "v=0\n; just a remark\nm=audio 9 RTP/AVP 0\n";
    let session = Session::parse_strict(doc).unwrap();
    assert_eq!(session.media.len(), 1);
    assert_eq!(session.to_string(), "v=0\nm=audio 9 RTP/AVP 0\n");
}

#[test]
fn nested_connection_and_bandwidth_stay_in_section() {
    let doc = "v=0\nc=IN IP4 10.0.0.1\nm=audio 9 RTP/AVP 0\nc=IN IP4 10.0.0.2\nb=AS:1024\n";
    let session = Session::parse_strict(doc).unwrap();
    assert_eq!(
        session.connection.as_ref().unwrap().addr,
        sdp::parsers::IpAddress::V4(10, 0, 0, 1)
    );
    let m = &session.media[0];
    assert_eq!(m.connection.as_ref().unwrap().addr, sdp::parsers::IpAddress::V4(10, 0, 0, 2));
    assert_eq!(m.band_width.unwrap().limit, 1024);
}
