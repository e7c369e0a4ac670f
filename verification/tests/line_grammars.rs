//! Tests for the session-line grammars, one record kind at a time.

use sdp::lines::connection::{connection_line, Connection};
use sdp::lines::media::{media_line, Media};
use sdp::lines::origin::{origin_line, Origin};
use sdp::lines::{bandwidth_line, comment_line, description_line, email_address_line, name_line,
    phone_number_line, timing_line, uri_line, version_line, BandWidth, BandWidthType,
    EmailAddress, PhoneNumber, SessionInformation, SessionName, Timing, Uri, Version};
use sdp::parsers::{create_test_vec, IpAddress, IpVer};

#[test]
fn test_version_line() {
    let parsed = version_line("v=0").unwrap();
    assert_eq!(parsed, Version(0));
    assert_eq!(parsed.to_string(), "v=0");
    assert_eq!(version_line("v= 0").unwrap(), Version(0));
}

#[test]
fn test_name_line() {
    let parsed = name_line("s=").unwrap();
    assert_eq!(parsed, SessionName("".to_string()));
    assert_eq!(parsed.to_string(), "s=");
    let parsed = name_line("s=testname").unwrap();
    assert_eq!(parsed, SessionName("testname".to_string()));
    assert_eq!(parsed.to_string(), "s=testname");
    assert_eq!(name_line("s= testname").unwrap(), SessionName("testname".to_string()));
    assert_eq!(name_line("s=testname ").unwrap(), SessionName("testname".to_string()));
    assert_eq!(name_line("s=test name ").unwrap(), SessionName("test name".to_string()));
}

#[test]
fn test_description_line() {
    let parsed = description_line("i=test description").unwrap();
    assert_eq!(parsed, SessionInformation("test description".to_string()));
    assert_eq!(parsed.to_string(), "i=test description");
    assert_eq!(
        description_line("i=test description ").unwrap(),
        SessionInformation("test description".to_string())
    );
}

#[test]
fn test_uri_line() {
    assert_eq!(
        uri_line("u=https://parse-my.sdp").unwrap(),
        Uri("https://parse-my.sdp".to_string())
    );
}

#[test]
fn test_email_address_line() {
    let parsed = email_address_line("e=test@example.com").unwrap();
    assert_eq!(parsed, EmailAddress("test@example.com".to_string()));
    assert_eq!(parsed.to_string(), "e=test@example.com");
}

#[test]
fn test_phone_number_line() {
    let parsed = phone_number_line("p=0118 999 881 999 119 7253").unwrap();
    assert_eq!(parsed, PhoneNumber("0118 999 881 999 119 7253".to_string()));
    assert_eq!(parsed.to_string(), "p=0118 999 881 999 119 7253");
}

#[test]
fn test_timing_line() {
    let parsed = timing_line("t=0 1").unwrap();
    assert_eq!(parsed, Timing { start: 0, stop: 1 });
    assert_eq!(parsed.to_string(), "t=0 1");
    assert_eq!(timing_line("t=  2 3 ").unwrap(), Timing { start: 2, stop: 3 });
    assert_eq!(timing_line("t=  2  3 ").unwrap(), Timing { start: 2, stop: 3 });
    let parsed = timing_line("t=23 42").unwrap();
    assert_eq!(parsed, Timing { start: 23, stop: 42 });
    assert_eq!(parsed.to_string(), "t=23 42");
}

#[test]
fn test_bandwidth_line() {
    let parsed = bandwidth_line("b=AS:30").unwrap();
    assert_eq!(parsed, BandWidth { kind: BandWidthType::AS, limit: 30 });
    assert_eq!(parsed.to_string(), "b=AS:30");
    let parsed = bandwidth_line("b=RR:1024").unwrap();
    assert_eq!(parsed, BandWidth { kind: BandWidthType::RR, limit: 1024 });
    assert_eq!(parsed.to_string(), "b=RR:1024");
}

#[test]
fn test_read_comment() {
    assert_eq!(
        comment_line("; this should not be part of the document").unwrap(),
        "this should not be part of the document"
    );
}

#[test]
fn media_test_mline() {
    let parsed = media_line("m=video 51744 RTP/AVP 126 97 98 34 31").unwrap();
    assert_eq!(
        parsed,
        Media {
            media_type: "video".to_string(),
            port: 51744,
            protocol: create_test_vec(&["RTP", "AVP"]),
            payloads: create_test_vec(&["126", "97", "98", "34", "31"]),
        }
    );
    assert_eq!(parsed.to_string(), "m=video 51744 RTP/AVP 126 97 98 34 31");
    let parsed =
        media_line("m=audio 9 UDP/TLS/RTP/SAVPF 111 103 104 9 0 8 106 105 13 110 112 113 126")
            .unwrap();
    assert_eq!(
        parsed,
        Media {
            media_type: "audio".to_string(),
            port: 9,
            protocol: create_test_vec(&["UDP", "TLS", "RTP", "SAVPF"]),
            payloads: create_test_vec(&[
                "111", "103", "104", "9", "0", "8", "106", "105", "13", "110", "112", "113", "126"
            ]),
        }
    );
    assert_eq!(
        parsed.to_string(),
        "m=audio 9 UDP/TLS/RTP/SAVPF 111 103 104 9 0 8 106 105 13 110 112 113 126"
    );
    let line = "m=video 9 UDP/TLS/RTP/SAVPF 96 98 100 102 127 125 97 99 101 124";
    assert_eq!(media_line(line).unwrap().to_string(), line);
    let line = "m=application 3238 UDP/BFCP *";
    assert_eq!(media_line(line).unwrap().to_string(), line);
}

#[test]
fn origin_parses_candidates() {
    let parsed = origin_line("o=test 4962303333179871722 1 IN IP4 0.0.0.0").unwrap();
    assert_eq!(
        parsed,
        Origin {
            user_name: "test".to_string(),
            session_id: 4962303333179871722,
            session_version: 1,
            net_type: "IN".to_string(),
            ip_ver: IpVer::Ip4,
            addr: IpAddress::V4(0, 0, 0, 0),
        }
    );
    assert_eq!(parsed.to_string(), "o=test 4962303333179871722 1 IN IP4 0.0.0.0");
    let line = "o=- 4962303333179871722 1 IN IP4 0.0.0.0";
    assert_eq!(origin_line(line).unwrap().to_string(), line);
}

#[test]
fn connection_line_roundtrip() {
    let parsed = connection_line("c=IN IP4 10.23.42.137").unwrap();
    assert_eq!(
        parsed,
        Connection { ip_ver: IpVer::Ip4, addr: IpAddress::V4(10, 23, 42, 137), mask: None }
    );
    assert_eq!(parsed.to_string(), "c=IN IP4 10.23.42.137");
    let parsed = connection_line("c=IN IP4 224.2.1.1/127").unwrap();
    assert_eq!(parsed.mask, Some(127));
    assert_eq!(parsed.to_string(), "c=IN IP4 224.2.1.1/127");
    let parsed = connection_line("c=IN IP6 FF15::101").unwrap();
    assert_eq!(
        parsed,
        Connection {
            ip_ver: IpVer::Ip6,
            addr: IpAddress::V6("FF15::101".to_string()),
            mask: None
        }
    );
    assert_eq!(parsed.to_string(), "c=IN IP6 FF15::101");
}

#[test]
fn rejects_malformed_lines() {
    assert!(version_line("v=x").is_none());
    assert!(timing_line("t=;").is_none());
    assert!(timing_line("t=1").is_none());
    assert!(bandwidth_line("b=XX:30").is_none());
    assert!(connection_line("c=OUT IP4 10.0.0.1").is_none());
    assert!(media_line("m=video notaport RTP/AVP 0").is_none());
    // numbers are parsed checked: out of range is a failure, not a truncation
    assert!(version_line("v=4294967296").is_none());
    assert_eq!(version_line("v=4294967295").unwrap(), Version(4294967295));
}
