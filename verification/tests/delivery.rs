use tts_bot::tts::{
    build_sound_status, deliver_all, deliver_buffer, DeliveryAction, FrameStream,
    MutableMediaSource, TeamSpeakEvent,
};

/// The ogg page checksum: CRC-32 with polynomial 0x04c11db7, zero initial
/// value, no reflection and no final xor, computed with the checksum field
/// zeroed.
fn ogg_crc(data: &[u8]) -> u32 {
    let mut crc: u32 = 0;
    for &b in data {
        crc ^= (b as u32) << 24;
        for _ in 0..8 {
            if crc & 0x8000_0000 != 0 {
                crc = (crc << 1) ^ 0x04c1_1db7;
            } else {
                crc <<= 1;
            }
        }
    }
    crc
}

/// One ogg page holding whole packets (each shorter than 255 bytes).
fn ogg_page(header_type: u8, granule: u64, serial: u32, seq: u32, packets: &[&[u8]]) -> Vec<u8> {
    let mut page = Vec::new();
    page.extend_from_slice(b"OggS");
    page.push(0);
    page.push(header_type);
    page.extend_from_slice(&granule.to_le_bytes());
    page.extend_from_slice(&serial.to_le_bytes());
    page.extend_from_slice(&seq.to_le_bytes());
    page.extend_from_slice(&[0, 0, 0, 0]);
    page.push(packets.len() as u8);
    for p in packets {
        assert!(p.len() < 255);
        page.push(p.len() as u8);
    }
    for p in packets {
        page.extend_from_slice(p);
    }
    let crc = ogg_crc(&page);
    page[22..26].copy_from_slice(&crc.to_le_bytes());
    page
}

/// A minimal single-stream ogg opus container with one audio packet.
fn valid_opus_ogg(audio: &[u8]) -> Vec<u8> {
    valid_opus_ogg_multi(&[audio])
}

/// A minimal single-stream ogg opus container with the given audio packets.
fn valid_opus_ogg_multi(audio: &[&[u8]]) -> Vec<u8> {
    valid_opus_ogg_stream(0x4242, audio)
}

/// One physical ogg opus stream under the given serial.
fn valid_opus_ogg_stream(serial: u32, audio: &[&[u8]]) -> Vec<u8> {
    let mut head = Vec::new();
    head.extend_from_slice(b"OpusHead");
    head.push(1); // version
    head.push(1); // channels
    head.extend_from_slice(&0u16.to_le_bytes()); // pre-skip
    head.extend_from_slice(&48_000u32.to_le_bytes()); // input sample rate
    head.extend_from_slice(&0u16.to_le_bytes()); // output gain
    head.push(0); // mapping family

    let mut tags = Vec::new();
    tags.extend_from_slice(b"OpusTags");
    tags.extend_from_slice(&0u32.to_le_bytes()); // vendor length
    tags.extend_from_slice(&0u32.to_le_bytes()); // comment count

    let mut out = Vec::new();
    out.extend_from_slice(&ogg_page(0x02, 0, serial, 0, &[&head]));
    out.extend_from_slice(&ogg_page(0x00, 0, serial, 1, &[&tags]));
    out.extend_from_slice(&ogg_page(0x04, 960 * audio.len() as u64, serial, 2, audio));
    out
}

#[test]
fn malformed_buffer_costs_one_error_notice() {
    let actions = deliver_buffer(b"this is not an ogg container".to_vec());
    assert_eq!(actions.len(), 1);
    assert!(matches!(&actions[0], DeliveryAction::Notice(s) if s == "Read stream error"));
}

#[test]
fn valid_buffer_runs_unmute_frames_mute() {
    // TOC byte 0x08: configuration 1 (20 ms), one frame.
    let audio: &[u8] = &[0x08, 0xAA, 0xBB, 0xCC];
    let actions = deliver_buffer(valid_opus_ogg(audio));
    assert_eq!(actions.len(), 5);
    assert!(matches!(&actions[0], DeliveryAction::Notice(s) if s == "Sending audio"));
    assert!(matches!(&actions[1], DeliveryAction::SetMuted(false)));
    assert!(matches!(&actions[2], DeliveryAction::Frame(f) if f == audio));
    assert!(matches!(&actions[3], DeliveryAction::SetMuted(true)));
    assert!(matches!(&actions[4], DeliveryAction::Notice(s) if s == "Send audio successful"));
}

#[test]
fn decode_isolation_between_queued_buffers() {
    // one malformed buffer, then one valid buffer: exactly one error
    // notice, then exactly one full successful run, in that order.
    let audio: &[u8] = &[0x08, 0x01, 0x02, 0x03];
    let queue = vec![b"garbage".to_vec(), valid_opus_ogg(audio)];
    let actions = deliver_all(queue);
    assert_eq!(actions.len(), 6);
    assert!(matches!(&actions[0], DeliveryAction::Notice(s) if s == "Read stream error"));
    assert!(matches!(&actions[1], DeliveryAction::Notice(s) if s == "Sending audio"));
    assert!(matches!(&actions[2], DeliveryAction::SetMuted(false)));
    assert!(matches!(&actions[3], DeliveryAction::Frame(f) if f == audio));
    assert!(matches!(&actions[4], DeliveryAction::SetMuted(true)));
    assert!(matches!(&actions[5], DeliveryAction::Notice(s) if s == "Send audio successful"));
}

#[test]
fn media_source_append_then_sequential_read() {
    let mut source = MutableMediaSource::new();
    assert_eq!(source.byte_len(), 0);
    source.append(&[1, 2, 3]);
    source.append(&[4, 5]);
    assert_eq!(source.byte_len(), 5);
    assert_eq!(source.read_chunk(2), vec![1, 2]);
    assert_eq!(source.read_chunk(2), vec![3, 4]);
    // the writer may append while the reader is mid-stream.
    source.append(&[6]);
    assert_eq!(source.read_chunk(10), vec![5, 6]);
    assert_eq!(source.read_chunk(10), Vec::<u8>::new());
}

#[test]
fn sound_status_moves_both_flags_together() {
    let muted = build_sound_status(true);
    assert!(muted.output_muted);
    assert!(!muted.output_hardware_enabled);
    let unmuted = build_sound_status(false);
    assert!(!unmuted.output_muted);
    assert!(unmuted.output_hardware_enabled);
}

#[test]
fn mute_event_turns_into_update_command() {
    let event = TeamSpeakEvent::Muted(false);
    let status = event.to_sound_status();
    assert!(!status.output_muted);
    assert!(status.output_hardware_enabled);
}

#[test]
fn frames_keep_decode_order() {
    let first: &[u8] = &[0x08, 0x11];
    let second: &[u8] = &[0x08, 0x22];
    let third: &[u8] = &[0x08, 0x33];
    let actions = deliver_buffer(valid_opus_ogg_multi(&[first, second, third]));
    assert_eq!(actions.len(), 7);
    assert!(matches!(&actions[2], DeliveryAction::Frame(f) if f == first));
    assert!(matches!(&actions[3], DeliveryAction::Frame(f) if f == second));
    assert!(matches!(&actions[4], DeliveryAction::Frame(f) if f == third));
}

#[test]
fn empty_queue_emits_nothing() {
    assert!(deliver_all(Vec::new()).is_empty());
}

#[test]
fn chained_container_ends_at_stream_boundary() {
    // two physical streams concatenated: one item plays only the first;
    // the demuxer's reset at the boundary reads as the end of the item.
    let first: &[u8] = &[0x08, 0x01];
    let mut chained = valid_opus_ogg_stream(0x1111, &[first]);
    chained.extend_from_slice(&valid_opus_ogg_stream(0x2222, &[&[0x08, 0x02]]));
    let actions = deliver_buffer(chained);
    assert_eq!(actions.len(), 5);
    assert!(matches!(&actions[2], DeliveryAction::Frame(f) if f == first));
    assert!(matches!(&actions[3], DeliveryAction::SetMuted(true)));
}

#[test]
fn frame_stream_end_is_sticky() {
    let data = valid_opus_ogg(&[0x08, 0x0A]);
    let stream = symphonia::core::io::MediaSourceStream::new(
        Box::new(std::io::Cursor::new(data)),
        symphonia::core::io::MediaSourceStreamOptions::default(),
    );
    let reader = symphonia::default::formats::OggReader::try_new(
        stream,
        symphonia::core::formats::FormatOptions::default(),
    )
    .unwrap();
    let mut source = FrameStream::from_reader(reader);
    assert_eq!(source.next(), Some(vec![0x08, 0x0A]));
    assert_eq!(source.next(), None);
    assert_eq!(source.next(), None);
}
