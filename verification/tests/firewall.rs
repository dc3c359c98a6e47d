use rustguard::firewall::{
    ban_verdict, classify_frame, record_drop, rustguard, rustguard_step, FrameClass, XdpAction,
};
use rustguard::{BanValue, StatsValue};

fn ipv4_frame(src: [u8; 4]) -> Vec<u8> {
    let mut f = vec![0u8; 14 + 20 + 8];
    f[12] = 0x08;
    f[13] = 0x00;
    f[14] = 0x45;
    f[26..30].copy_from_slice(&src);
    f[30..34].copy_from_slice(&[10, 0, 0, 1]);
    f
}

#[test]
fn action_codes() {
    assert_eq!(XdpAction::Aborted.code(), 0);
    assert_eq!(XdpAction::Drop.code(), 1);
    assert_eq!(XdpAction::Pass.code(), 2);
}

#[test]
fn classify_frames() {
    assert_eq!(classify_frame(&[0u8; 13]), FrameClass::Truncated);
    let mut arp = vec![0u8; 60];
    arp[12] = 0x08;
    arp[13] = 0x06;
    assert_eq!(classify_frame(&arp), FrameClass::NotIpv4);
    let mut ipv6 = vec![0u8; 60];
    ipv6[12] = 0x86;
    ipv6[13] = 0xdd;
    assert_eq!(classify_frame(&ipv6), FrameClass::NotIpv4);
    let f = ipv4_frame([1, 2, 3, 4]);
    assert_eq!(classify_frame(&f), FrameClass::Ipv4Source(0x0102_0304));
    assert_eq!(classify_frame(&f[..33]), FrameClass::Truncated);
    assert_eq!(classify_frame(&f[..34]), FrameClass::Ipv4Source(0x0102_0304));
    let mut swapped = f.clone();
    swapped[12] = 0x00;
    swapped[13] = 0x08;
    assert_eq!(classify_frame(&swapped), FrameClass::NotIpv4);
}

#[test]
fn ban_verdicts() {
    assert_eq!(ban_verdict(None, 10), XdpAction::Pass);
    assert_eq!(ban_verdict(Some(BanValue { end_time: 0 }), u64::MAX), XdpAction::Drop);
    assert_eq!(ban_verdict(Some(BanValue { end_time: 100 }), 99), XdpAction::Drop);
    assert_eq!(ban_verdict(Some(BanValue { end_time: 100 }), 100), XdpAction::Drop);
    assert_eq!(ban_verdict(Some(BanValue { end_time: 100 }), 101), XdpAction::Pass);
}

#[test]
fn banned_source_is_dropped() {
    let f = ipv4_frame([1, 1, 1, 1]);
    assert_eq!(rustguard(&f, Some(BanValue { end_time: 0 }), 5), XdpAction::Drop);
    assert_eq!(rustguard(&f, None, 5), XdpAction::Pass);
    assert_eq!(rustguard(&f, Some(BanValue { end_time: 50 }), 40), XdpAction::Drop);
    assert_eq!(rustguard(&f, Some(BanValue { end_time: 50 }), 60), XdpAction::Pass);
}

#[test]
fn other_frames_pass_or_abort() {
    let mut arp = vec![0u8; 60];
    arp[12] = 0x08;
    arp[13] = 0x06;
    assert_eq!(rustguard(&arp, Some(BanValue { end_time: 0 }), 5), XdpAction::Pass);
    assert_eq!(rustguard(&[0u8; 10], None, 5), XdpAction::Aborted);
    let f = ipv4_frame([1, 1, 1, 1]);
    assert_eq!(rustguard(&f[..20], Some(BanValue { end_time: 0 }), 5), XdpAction::Aborted);
}

#[test]
fn drops_are_counted() {
    assert_eq!(record_drop(None), StatsValue { packets_dropped: 1, bytes_dropped: 0 });
    assert_eq!(
        record_drop(Some(StatsValue { packets_dropped: 41, bytes_dropped: 7 })),
        StatsValue { packets_dropped: 42, bytes_dropped: 7 }
    );
    assert_eq!(
        record_drop(Some(StatsValue { packets_dropped: u64::MAX, bytes_dropped: 3 })),
        StatsValue { packets_dropped: 0, bytes_dropped: 3 }
    );
}

#[test]
fn each_drop_is_counted_once() {
    let f = ipv4_frame([1, 1, 1, 1]);
    let seen = Some(StatsValue { packets_dropped: 9, bytes_dropped: 2 });
    assert_eq!(
        rustguard_step(&f, Some(BanValue { end_time: 0 }), seen, 5),
        (XdpAction::Drop, Some(StatsValue { packets_dropped: 10, bytes_dropped: 2 }))
    );
    assert_eq!(
        rustguard_step(&f, Some(BanValue { end_time: 0 }), None, 5),
        (XdpAction::Drop, Some(StatsValue { packets_dropped: 1, bytes_dropped: 0 }))
    );
    assert_eq!(rustguard_step(&f, Some(BanValue { end_time: 4 }), seen, 5), (XdpAction::Pass, None));
    assert_eq!(rustguard_step(&f, None, seen, 5), (XdpAction::Pass, None));
    assert_eq!(rustguard_step(&f[..20], Some(BanValue { end_time: 0 }), seen, 5), (XdpAction::Aborted, None));
}
