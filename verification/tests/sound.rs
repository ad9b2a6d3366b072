use trusdx_bridge::audio::{
    bytes_to_i16_le, cleanup_trusdx_audio_interfaces, create_buffer_attr,
    create_trusdx_audio_interface, peak_deviation, read_module_number, setup_pulseaudio,
    transmit_bytes, trusdx_module_ids, wave_offsets, BufferAttr, Direction, SampleFormat,
};
use trusdx_bridge::demux::{RxDemux, RxEvent};

#[test]
fn modules_of_the_radio_are_picked_out() {
    let listing = "1\tmodule-device-restore\t\n\
        23\tmodule-null-sink\tsink_name=TRUSDX\t\n\
        TRUSDX\r\n\
        42 \u{2003}TRUSDX.monitor";
    assert_eq!(trusdx_module_ids(listing), ["23", "TRUSDX", "42"]);
    assert!(trusdx_module_ids("").is_empty());
    assert!(trusdx_module_ids("5 trusdx\n").is_empty());
}

#[test]
fn a_listing_need_not_be_utf8() {
    assert_eq!(
        cleanup_trusdx_audio_interfaces(b"\xff 1 x\n7\xc3\xa9 TRUSDX\n\xfe TRUSDX\n"),
        ["7\u{e9}", "\u{fffd}"]
    );
    assert_eq!(cleanup_trusdx_audio_interfaces(b"536870913\tTRUSDX"), ["536870913"]);
}

#[test]
fn the_new_module_has_a_number() {
    assert_eq!(create_trusdx_audio_interface(true, b" 536870916\n"), Some(536_870_916));
    assert_eq!(create_trusdx_audio_interface(false, b"536870916\n"), None);
    assert_eq!(create_trusdx_audio_interface(true, b""), None);
    assert_eq!(create_trusdx_audio_interface(true, b"1\xff"), None);
    assert_eq!(read_module_number("4294967295"), Some(u32::MAX));
    assert_eq!(read_module_number("4294967296"), None);
    assert_eq!(read_module_number("1 2"), None);
}

#[test]
fn buffers_follow_the_rate() {
    assert_eq!(
        create_buffer_attr(11520, 2),
        BufferAttr { maxlength: 5760, tlength: 460, prebuf: 230, minreq: 114, fragsize: 230 }
    );
    assert_eq!(create_buffer_attr(u32::MAX, 4).maxlength, u32::MAX - 3);
    assert_eq!(
        create_buffer_attr(0, usize::MAX),
        BufferAttr { maxlength: 0, tlength: 0, prebuf: 0, minreq: 0, fragsize: 0 }
    );
}

#[test]
fn streams_are_set_up() {
    let setup = setup_pulseaudio(7812, 11520);
    assert_eq!(setup.playback.application, "trusdxAudio");
    assert_eq!(setup.record.application, "trusdxAudio");
    assert_eq!(setup.playback.direction, Direction::Playback);
    assert_eq!(setup.playback.device, "TRUSDX");
    assert_eq!(setup.playback.description, "Radio RX Audio");
    assert_eq!(setup.playback.format, SampleFormat::Float32Le);
    assert_eq!((setup.playback.channels, setup.playback.rate), (1, 7812));
    assert_eq!(
        setup.playback.attr,
        BufferAttr { maxlength: 7812, tlength: 624, prebuf: 312, minreq: 156, fragsize: 312 }
    );
    assert_eq!(setup.record.direction, Direction::Record);
    assert_eq!(setup.record.device, "TRUSDX.monitor");
    assert_eq!(setup.record.description, "Radio TX Audio");
    assert_eq!(setup.record.format, SampleFormat::Signed16Le);
    assert_eq!((setup.record.channels, setup.record.rate), (1, 11520));
    assert_eq!(setup.record.attr, create_buffer_attr(11520, 2));
}

#[test]
fn samples_are_read_low_byte_first() {
    let mut out = [9i16; 4];
    bytes_to_i16_le(&[0x34, 0x12, 0xff, 0xff, 0x00, 0x80, 0x7f], &mut out);
    assert_eq!(out, [0x1234, -1, i16::MIN, 9]);
    let mut out = [9i16; 1];
    bytes_to_i16_le(&[1, 0, 2, 0], &mut out);
    assert_eq!(out, [1]);
    bytes_to_i16_le(&[5], &mut out);
    assert_eq!(out, [1]);
    for x in [i16::MIN, -257, -1, 0, 1, 255, 256, i16::MAX] {
        let mut out = [0i16];
        bytes_to_i16_le(&x.to_le_bytes(), &mut out);
        assert_eq!(out, [x]);
    }
}

#[test]
fn samples_are_scaled_for_the_line() {
    assert_eq!(
        transmit_bytes(&[i16::MIN, -256, -255, 0, 255, 256, i16::MAX]),
        [0, 127, 128, 128, 128, 129, 255]
    );
    for x in i16::MIN..=i16::MAX {
        let scaled = (x as f32 * 1.0).clamp(-32768.0, 32767.0) as i16;
        let byte = (128i16 + scaled / 256).clamp(0, 255) as u8;
        let expected = if byte == b';' { b':' } else { byte };
        assert_eq!(transmit_bytes(&[x]), [expected]);
        assert!((i32::from(x) - 256 * (i32::from(expected) - 128)).abs() < 512);
    }
    assert!(transmit_bytes(&[]).is_empty());
}

#[test]
fn sent_audio_ends_no_frame() {
    let samples: Vec<i16> = (-128i16..128).map(|n| n * 256).collect();
    let bytes = transmit_bytes(&samples);
    assert!(!bytes.contains(&b';'));
    let mut sent = b"US".to_vec();
    sent.extend(&bytes);
    sent.push(b';');
    assert_eq!(
        RxDemux::new().feed(&sent),
        [RxEvent::Streaming, RxEvent::Play(bytes), RxEvent::SendPending]
    );
}

#[test]
fn the_peak_is_the_greatest_distance_from_the_middle() {
    assert_eq!(peak_deviation(&[]), 0);
    assert_eq!(peak_deviation(&[128, 128]), 0);
    assert_eq!(peak_deviation(&[128, 120, 133]), 8);
    assert_eq!(peak_deviation(&[0]), 128);
    assert_eq!(peak_deviation(&[255]), 127);
    for b in 0u8..=255 {
        let level = ((b as f32 - 128.0) / 128.0).abs();
        assert_eq!(f32::from(peak_deviation(&[b])) / 128.0, level);
    }
}

#[test]
fn received_samples_are_centred() {
    assert_eq!(wave_offsets(&[0, 127, 128, 255]), [-128, -1, 0, 127]);
    for b in 0u8..=255 {
        let sample = (b as f32 - 128.0) / 128.0;
        assert_eq!(f32::from(wave_offsets(&[b])[0]) / 128.0, sample);
    }
}

#[test]
fn buffers_hold_whole_samples_of_a_quarter_of_a_second_at_most() {
    for (rate, size) in [(7812u32, 4u32), (11520, 2), (48000, 3), (3, 7)] {
        let attr = create_buffer_attr(rate, size as usize);
        assert!(4 * attr.maxlength <= rate * size);
        for length in [attr.maxlength, attr.tlength, attr.prebuf, attr.minreq, attr.fragsize] {
            assert_eq!(length % size, 0);
        }
    }
}
