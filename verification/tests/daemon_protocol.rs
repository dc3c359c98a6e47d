use rustguard::clock::get_boot_time_ns;
use rustguard::daemon::{
    active_keys, ban_value, encode_frame, frame_length, invalid_request, keys_in_block,
    list_response, plan_request, request_for_command, response_body_len, response_lines,
    stats_response, update_done, ban_progress, BanProgress, ClientError, Commands, DaemonAction, DaemonRequest,
    DaemonResponse, SOCKET_PATH,
};
use rustguard::target::{block_range, parse_block};
use rustguard::BanValue;
use rustguard::ipv4::{ipv4_to_string, key_octets, key_to_string, octets_key, parse_ipv4};
use rustguard::StatsValue;

#[test]
fn test_boot_time_monotonic_behavior() {
    let a = get_boot_time_ns(41, 999_999_999);
    let b = get_boot_time_ns(42, 0);
    assert!(b >= a);
    let c = get_boot_time_ns(42, 0);
    assert!(c >= b);
}

#[test]
fn boot_time_from_reading() {
    assert_eq!(get_boot_time_ns(0, 0), 0);
    assert_eq!(get_boot_time_ns(12, 345), 12_000_000_345);
    assert_eq!(get_boot_time_ns(86_400, 999_999_999), 86_400_999_999_999);
}

#[test]
fn socket_path() {
    assert_eq!(SOCKET_PATH, "/tmp/rustguard.sock");
}

#[test]
fn commands_become_requests() {
    assert_eq!(
        request_for_command(Commands::Ban { target: "1.2.3.4".into(), ttl: Some(5) }),
        Ok(DaemonRequest::Ban { target: "1.2.3.4".into(), ttl: Some(5) })
    );
    assert_eq!(
        request_for_command(Commands::Unban { target: "1.2.3.4".into() }),
        Ok(DaemonRequest::Unban { target: "1.2.3.4".into() })
    );
    assert_eq!(request_for_command(Commands::List), Ok(DaemonRequest::List));
    assert_eq!(request_for_command(Commands::Stats), Ok(DaemonRequest::Stats));
    assert_eq!(request_for_command(Commands::Monitor), Err(ClientError::NotImplemented));
    assert_eq!(
        request_for_command(Commands::Daemon { iface: "eth0".into() }),
        Err(ClientError::NotImplemented)
    );
}

#[test]
fn client_error_messages() {
    assert_eq!(ClientError::NotImplemented.message(), "Command not implemented for CLI");
    assert_eq!(ClientError::EmptyResponse.message(), "daemon returned empty response");
}

#[test]
fn frames_carry_their_length() {
    let body = b"\"List\"".to_vec();
    let f = encode_frame(&body);
    assert_eq!(f, vec![0, 0, 0, 6, b'"', b'L', b'i', b's', b't', b'"']);
    assert_eq!(frame_length([f[0], f[1], f[2], f[3]]), 6);
    assert_eq!(encode_frame(&Vec::new()), vec![0, 0, 0, 0]);
    let big = vec![7u8; 300];
    let f = encode_frame(&big);
    assert_eq!(&f[..4], &[0, 0, 1, 44]);
    assert_eq!(frame_length([0x01, 0x02, 0x03, 0x04]), 0x0102_0304);
}

#[test]
fn empty_answer_is_an_error() {
    assert_eq!(response_body_len(0), Err(ClientError::EmptyResponse));
    assert_eq!(response_body_len(12), Ok(12));
}

#[test]
fn ban_requests_take_dotted_quads() {
    let req = DaemonRequest::Ban { target: "1.2.3.4".into(), ttl: Some(10) };
    assert_eq!(
        plan_request(&req),
        DaemonAction::Ban { first: 0x0102_0304, last: 0x0102_0304, ttl: Some(10) }
    );
    let req = DaemonRequest::Ban { target: "255.255.255.255".into(), ttl: None };
    assert_eq!(plan_request(&req), DaemonAction::Ban { first: u32::MAX, last: u32::MAX, ttl: None });
    let req = DaemonRequest::Unban { target: "10.0.0.1".into() };
    assert_eq!(plan_request(&req), DaemonAction::Unban { first: 0x0a00_0001, last: 0x0a00_0001 });
    assert_eq!(plan_request(&DaemonRequest::List), DaemonAction::List);
    assert_eq!(plan_request(&DaemonRequest::Stats), DaemonAction::Stats);
}

#[test]
fn bad_addresses_are_refused() {
    let invalid = DaemonAction::Reply(DaemonResponse::Error("invalid ip".into()));
    for t in [
        "", "1.2.3", "1.2.3.4.5", "256.1.1.1", "01.2.3.4", "1.2.3.4 ", " 1.2.3.4", "1..2.3",
        "a.b.c.d", "1.2.3.4/33", "1.2.3.4/", "1.2.3.4/08", "1.2.3.4/24/1", "/24",
        "1.2.3/24", "1.2.3.4/-1", "1.2.3.4 /24", "AS123", "US", "1.2.3.-4", "+1.2.3.4", "1.2.3.4.",
        "1000.1.1.1", "::1",
    ] {
        let req = DaemonRequest::Ban { target: t.into(), ttl: None };
        assert_eq!(plan_request(&req), invalid, "{t}");
        let req = DaemonRequest::Unban { target: t.into() };
        assert_eq!(plan_request(&req), invalid, "{t}");
    }
}

#[test]
fn parse_and_write_addresses() {
    assert_eq!(parse_ipv4("1.2.3.4"), Some([1, 2, 3, 4]));
    assert_eq!(parse_ipv4("0.0.0.0"), Some([0, 0, 0, 0]));
    assert_eq!(parse_ipv4("192.168.100.7"), Some([192, 168, 100, 7]));
    assert_eq!(parse_ipv4("00.0.0.0"), None);
    assert_eq!(parse_ipv4("1.2.3.256"), None);
    assert_eq!(ipv4_to_string([192, 168, 1, 2]), "192.168.1.2");
    assert_eq!(ipv4_to_string([0, 10, 100, 255]), "0.10.100.255");
    assert_eq!(key_octets(0x0102_0304), [1, 2, 3, 4]);
    assert_eq!(octets_key([1, 2, 3, 4]), 0x0102_0304);
    assert_eq!(key_to_string(0xc0a8_0102), "192.168.1.2");
    for t in ["1.2.3.4", "255.0.10.99", "8.8.8.8"] {
        let o = parse_ipv4(t).unwrap();
        assert_eq!(key_to_string(octets_key(o)), t);
    }
}

#[test]
fn bans_end_after_their_ttl() {
    assert_eq!(ban_value(1_000, None).end_time, 0);
    assert_eq!(ban_value(1_000, Some(60)).end_time, 60_000_001_000);
    assert_eq!(ban_value(0, Some(0)).end_time, 0);
}

#[test]
fn daemon_answers() {
    assert_eq!(invalid_request(), DaemonResponse::Error("invalid request".into()));
    assert_eq!(
        list_response(&vec![0x0102_0304, 0x0808_0808]),
        DaemonResponse::List(vec!["1.2.3.4".into(), "8.8.8.8".into()])
    );
    assert_eq!(list_response(&Vec::new()), DaemonResponse::List(Vec::new()));
    assert_eq!(
        stats_response(Some(StatsValue { packets_dropped: 42, bytes_dropped: 0 })),
        DaemonResponse::Stats("Packets dropped: 42".into())
    );
    assert_eq!(stats_response(None), DaemonResponse::Stats("No stats".into()));
}

#[test]
fn client_prints_answers() {
    assert_eq!(response_lines(&DaemonResponse::Success), vec!["Success".to_string()]);
    assert_eq!(
        response_lines(&DaemonResponse::Error("fail".into())),
        vec!["Error: fail".to_string()]
    );
    assert_eq!(
        response_lines(&DaemonResponse::List(vec!["1.2.3.4".into(), "5.6.7.8".into()])),
        vec!["Active bans:".to_string(), "  1.2.3.4".to_string(), "  5.6.7.8".to_string()]
    );
    assert_eq!(
        response_lines(&DaemonResponse::Stats("ok".into())),
        vec!["Stats: ok".to_string()]
    );
}

#[test]
fn ban_requests_take_cidr_blocks() {
    let req = DaemonRequest::Ban { target: "192.168.1.0/24".into(), ttl: None };
    assert_eq!(
        plan_request(&req),
        DaemonAction::Ban { first: 0xc0a8_0100, last: 0xc0a8_01ff, ttl: None }
    );
    let req = DaemonRequest::Ban { target: "192.168.1.77/24".into(), ttl: Some(60) };
    assert_eq!(
        plan_request(&req),
        DaemonAction::Ban { first: 0xc0a8_0100, last: 0xc0a8_01ff, ttl: Some(60) }
    );
    let req = DaemonRequest::Unban { target: "10.0.0.0/8".into() };
    assert_eq!(plan_request(&req), DaemonAction::Unban { first: 0x0a00_0000, last: 0x0aff_ffff });
    let req = DaemonRequest::Ban { target: "1.2.3.4/32".into(), ttl: None };
    assert_eq!(
        plan_request(&req),
        DaemonAction::Ban { first: 0x0102_0304, last: 0x0102_0304, ttl: None }
    );
    let req = DaemonRequest::Unban { target: "0.0.0.0/0".into() };
    assert_eq!(plan_request(&req), DaemonAction::Unban { first: 0, last: u32::MAX });
}

#[test]
fn targets_and_blocks() {
    assert_eq!(parse_block("1.2.3.4"), Some(([1, 2, 3, 4], 32)));
    assert_eq!(parse_block("1.2.3.4/0"), Some(([1, 2, 3, 4], 0)));
    assert_eq!(parse_block("172.16.0.0/12"), Some(([172, 16, 0, 0], 12)));
    assert_eq!(parse_block("172.16.0.0/012"), None);
    assert_eq!(parse_block("172.16.0.0/40"), None);
    assert_eq!(block_range([172, 16, 5, 9], 12), (0xac10_0000, 0xac1f_ffff));
    assert_eq!(block_range([1, 2, 3, 4], 31), (0x0102_0304, 0x0102_0305));
    assert_eq!(block_range([1, 2, 3, 4], 32), (0x0102_0304, 0x0102_0304));
    assert_eq!(block_range([1, 2, 3, 4], 0), (0, u32::MAX));
}

#[test]
fn performed_updates_answer_success() {
    assert_eq!(update_done(), DaemonResponse::Success);
}

#[test]
fn only_active_bans_are_listed() {
    let entries = vec![
        (0x0102_0304, BanValue { end_time: 0 }),
        (0x0808_0808, BanValue { end_time: 100 }),
        (0x0909_0909, BanValue { end_time: 50 }),
        (0x0a0a_0a0a, BanValue { end_time: 99 }),
    ];
    assert_eq!(active_keys(&entries, 99), vec![0x0102_0304, 0x0808_0808, 0x0a0a_0a0a]);
    assert_eq!(active_keys(&entries, 100), vec![0x0102_0304, 0x0808_0808]);
    assert_eq!(active_keys(&entries, 1000), vec![0x0102_0304]);
    assert_eq!(active_keys(&Vec::new(), 5), Vec::<u32>::new());
    assert_eq!(
        list_response(&active_keys(&entries, 100)),
        DaemonResponse::List(vec!["1.2.3.4".into(), "8.8.8.8".into()])
    );
}

#[test]
fn unban_removes_the_keys_of_its_block() {
    let keys = vec![0xc0a8_0101, 0x0102_0304, 0xc0a8_01ff, 0xc0a8_0200];
    assert_eq!(keys_in_block(&keys, 0xc0a8_0100, 0xc0a8_01ff), vec![0xc0a8_0101, 0xc0a8_01ff]);
    assert_eq!(keys_in_block(&keys, 0x0102_0304, 0x0102_0304), vec![0x0102_0304]);
    assert_eq!(keys_in_block(&keys, 0, u32::MAX), keys);
    assert_eq!(keys_in_block(&keys, 5, 6), Vec::<u32>::new());
}

#[test]
fn bans_go_key_by_key() {
    assert_eq!(ban_progress(10, 12, true), BanProgress::Next(11));
    assert_eq!(ban_progress(12, 12, true), BanProgress::Done(DaemonResponse::Success));
    assert_eq!(ban_progress(u32::MAX, u32::MAX, true), BanProgress::Done(DaemonResponse::Success));
    assert_eq!(
        ban_progress(11, 12, false),
        BanProgress::Done(DaemonResponse::Error("ban not stored".into()))
    );
    let mut stored = Vec::new();
    let mut key = 0xc0a8_0100u32;
    let reply = loop {
        let ok = stored.len() < 3;
        if ok {
            stored.push(key);
        }
        match ban_progress(key, 0xc0a8_01ff, ok) {
            BanProgress::Next(k) => key = k,
            BanProgress::Done(r) => break r,
        }
    };
    assert_eq!(stored, vec![0xc0a8_0100, 0xc0a8_0101, 0xc0a8_0102]);
    assert_eq!(reply, DaemonResponse::Error("ban not stored".into()));
}
