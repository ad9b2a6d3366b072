use trusdx_bridge::demux::{Mode, RxDemux, RxEvent, WAVE_BUF_MAX_SIZE};
use trusdx_bridge::rigctl::write_frequency_command;

fn heard(bytes: &[u8]) -> Vec<RxEvent> {
    RxDemux::new().feed(bytes)
}

#[test]
fn a_frame_is_played_and_frees_the_line() {
    assert_eq!(
        heard(b"US\x80\x81\x7f;"),
        [
            RxEvent::Streaming,
            RxEvent::Play(vec![0x80, 0x81, 0x7f]),
            RxEvent::SendPending,
        ]
    );
}

#[test]
fn an_empty_frame_plays_nothing() {
    assert_eq!(heard(b"US;"), [RxEvent::Streaming, RxEvent::SendPending]);
}

#[test]
fn a_long_frame_is_played_in_pieces() {
    let mut sent = b"US".to_vec();
    sent.extend(vec![7u8; WAVE_BUF_MAX_SIZE + 3]);
    sent.push(b';');
    assert_eq!(
        heard(&sent),
        [
            RxEvent::Streaming,
            RxEvent::Play(vec![7; 512]),
            RxEvent::Play(vec![7; 3]),
            RxEvent::SendPending,
        ]
    );
    let mut sent = b"US".to_vec();
    sent.extend(vec![7u8; 511]);
    assert_eq!(heard(&sent), [RxEvent::Streaming]);
    sent.push(7);
    assert_eq!(heard(&sent), [RxEvent::Streaming, RxEvent::Play(vec![7; 512])]);
}

#[test]
fn reads_may_be_cut_anywhere_in_the_stream() {
    let sent = b"FA00007074000;USabc;MD3;US\x01\x02";
    let whole = heard(sent);
    for cut in 0..=sent.len() {
        let mut demux = RxDemux::new();
        let mut events = demux.feed(&sent[..cut]);
        events.extend(demux.feed(&sent[cut..]));
        assert_eq!(events, whole);
    }
}

#[test]
fn a_frequency_reply_is_reported() {
    let pending = RxEvent::SendPending;
    assert_eq!(heard(b"FA00014074000;"), [RxEvent::Frequency(14_074_000), pending]);
    assert_eq!(heard(b"FA5xyz;"), [RxEvent::Frequency(5), RxEvent::SendPending]);
    assert_eq!(heard(b"FA5\xc3\xa9;"), [RxEvent::Frequency(5), RxEvent::SendPending]);
}

#[test]
fn an_unreadable_frequency_is_not_reported() {
    for reply in [
        b"FA;".as_slice(),
        b"FAx1;",
        b"FA+1;",
        b"FA18446744073709551616;",
        b"FA5\xff;",
        b"FB00014074000;",
        b";",
        b"F;",
    ] {
        assert_eq!(heard(reply), [RxEvent::SendPending]);
    }
}

#[test]
fn a_mode_reply_is_reported() {
    for (reply, mode, name) in [
        (b"MD1;".as_slice(), Mode::Lsb, "LSB"),
        (b"MD2;", Mode::Usb, "USB"),
        (b"MD3;", Mode::Cw, "CW"),
        (b"MD4;", Mode::Fm, "FM"),
        (b"MD5;", Mode::Am, "AM"),
        (b"MD9;", Mode::Usb, "USB"),
        (b"MD;", Mode::Usb, "USB"),
        (b"MD1junk;", Mode::Lsb, "LSB"),
    ] {
        assert_eq!(heard(reply), [RxEvent::ModeChange(mode), RxEvent::SendPending]);
        assert_eq!(mode.name(), name);
    }
}

#[test]
fn a_stream_starts_only_at_the_start_of_a_reply() {
    assert_eq!(heard(b"xUS\x01;"), [RxEvent::SendPending]);
    assert_eq!(heard(b"U;S;"), [RxEvent::SendPending, RxEvent::SendPending]);
    assert_eq!(heard(b"USUS"), [RxEvent::Streaming]);
}

#[test]
fn a_reset_forgets_what_was_unfinished() {
    let mut demux = RxDemux::new();
    demux.feed(b"US\x01\x02");
    demux.reset();
    assert_eq!(
        demux.feed(b"FA7;"),
        [RxEvent::Frequency(7), RxEvent::SendPending]
    );
    demux.feed(b"FA9");
    demux.reset();
    assert_eq!(demux.feed(b"9;"), [RxEvent::SendPending]);
}

#[test]
fn one_byte_at_a_time() {
    let mut demux = RxDemux::new();
    let mut events = Vec::new();
    demux.push(b'U', &mut events);
    assert!(events.is_empty());
    demux.push(b'S', &mut events);
    demux.push(b'a', &mut events);
    demux.push(b';', &mut events);
    assert_eq!(events.len(), 3);
}

#[test]
fn tuning_commands_are_heard_back() {
    for hz in [0, 1, 7_074_000, 99_999_999_999, 100_000_000_000, u64::MAX] {
        let command = write_frequency_command(hz);
        assert_eq!(command, format!("FA{:011};", hz).into_bytes());
        assert_eq!(heard(&command), [RxEvent::Frequency(hz), RxEvent::SendPending]);
    }
}

#[test]
fn a_frame_is_cut_into_full_pieces_and_a_rest() {
    for len in [0usize, 1, 511, 512, 513, 1024, 1300] {
        let payload: Vec<u8> = (0..len).map(|i| (i % 50) as u8).collect();
        let mut sent = b"US".to_vec();
        sent.extend_from_slice(&payload);
        sent.push(b';');
        let mut expected = vec![RxEvent::Streaming];
        for piece in payload.chunks(512) {
            expected.push(RxEvent::Play(piece.to_vec()));
        }
        expected.push(RxEvent::SendPending);
        assert_eq!(RxDemux::new().feed(&sent), expected);
    }
}
