use flatpak_smoke::apple_dh::{
    append, copy_padded_field, encrypt_aes128_ecb, left_pad_bytes,
    vnc_apple_dh_response_with_secret,
};
use flatpak_smoke::result::FailureReason;
use flatpak_smoke::time::Duration;
use flatpak_smoke::vnc::{
    bytes_begin, click, holds_byte, move_pointer, park_pointer, pointer_event, ppm,
    request_framebuffer_update, scale_color, vnc_read_error, vnc_security_types_message, Handshake,
    UpdateReader, UpdateState, VncPixelFormat, VncScreen,
};
use md5::{Digest, Md5};

const FORMAT: VncPixelFormat = VncPixelFormat {
    bits_per_pixel: 32,
    big_endian: false,
    red_max: 255,
    green_max: 255,
    blue_max: 255,
    red_shift: 16,
    green_shift: 8,
    blue_shift: 0,
};

fn screen(width: u16, height: u16) -> VncScreen {
    VncScreen { width, height, format: FORMAT }
}

fn read(screen: VncScreen, stream: &[u8]) -> UpdateReader {
    let mut reader = UpdateReader::new(screen);
    let mut rest = stream;
    while !matches!(reader.state, UpdateState::Done | UpdateState::Failed { .. }) {
        let (bytes, after) = rest.split_at(reader.wanted());
        reader = reader.advance(bytes);
        rest = after;
    }
    assert!(rest.is_empty());
    reader
}

fn complaint(reader: UpdateReader) -> String {
    match reader.state {
        UpdateState::Failed { error } => error.message,
        other => panic!("unexpected {other:?}"),
    }
}

#[test]
fn decodes_little_endian_vnc_pixel_format() {
    let pixel_format =
        VncPixelFormat::parse(&[32, 24, 0, 1, 0, 255, 0, 255, 0, 255, 16, 8, 0, 0, 0, 0])
            .unwrap();

    assert_eq!(
        pixel_format.decode(&[0x33, 0x22, 0x11, 0x00]),
        (0x11, 0x22, 0x33)
    );
}

#[test]
fn pixel_formats_are_checked() {
    let big = VncPixelFormat::parse(&[32, 24, 1, 1, 0, 255, 0, 255, 0, 255, 16, 8, 0]).unwrap();
    assert_eq!(big.decode(&[0x00, 0x11, 0x22, 0x33]), (0x11, 0x22, 0x33));
    let small = VncPixelFormat::parse(&[16, 16, 0, 1, 0, 31, 0, 63, 0, 31, 11, 5, 0]).unwrap();
    assert_eq!(small.decode(&[0xff, 0xff]), (255, 255, 255));
    assert_eq!(small.decode(&[0x00, 0xf8]), (255, 0, 0));
    assert!(small.is_decodable());
    let error = VncPixelFormat::parse(&[24, 24, 0, 1, 0, 255, 0, 255, 0, 255, 16, 8, 0])
        .unwrap_err();
    assert_eq!(error.message, "unsupported VNC bits-per-pixel value 24");
    let error =
        VncPixelFormat::parse(&[8, 8, 0, 0, 0, 255, 0, 255, 0, 255, 16, 8, 0]).unwrap_err();
    assert_eq!(error.message, "unsupported VNC color-map pixel format");
    let far = VncPixelFormat { red_shift: 32, ..FORMAT };
    assert!(!far.is_decodable());
}

#[test]
fn colors_reach_both_ends_of_the_scale() {
    assert_eq!(scale_color(0, 0, 31), 0);
    assert_eq!(scale_color(31, 0, 31), 255);
    assert_eq!(scale_color(16, 0, 31), 131);
    assert_eq!(scale_color(31 << 5, 5, 31), 255);
    assert_eq!(scale_color(7, 0, 0), 0);
}

#[test]
fn builds_apple_dh_response_with_padded_public_key() {
    let response = vnc_apple_dh_response_with_secret(
        5,
        &[0x00, 0x17],
        &[0x00, 0x08],
        "root",
        "flatpak-smoke",
        &[0x03],
    )
    .unwrap();

    assert_eq!(response.len(), 130);
    assert_ne!(&response[..64], b"root");
    assert_eq!(&response[128..], &[0x00, 0x0a]);

    let mut expected_credentials = [0u8; 128];
    copy_padded_field(b"root", &mut expected_credentials[..64]);
    copy_padded_field(b"flatpak-smoke", &mut expected_credentials[64..]);
    encrypt_aes128_ecb(&Md5::digest([0x00, 0x06]), &mut expected_credentials).unwrap();
    assert_eq!(&response[..128], expected_credentials);

    let mut unpadded_credentials = [0u8; 128];
    copy_padded_field(b"root", &mut unpadded_credentials[..64]);
    copy_padded_field(b"flatpak-smoke", &mut unpadded_credentials[64..]);
    encrypt_aes128_ecb(&Md5::digest([0x06]), &mut unpadded_credentials).unwrap();
    assert_ne!(&response[..128], unpadded_credentials);
}

#[test]
fn blocks_are_encrypted_as_published() {
    let key: Vec<u8> = (0u8..16).collect();
    let mut data: Vec<u8> = (0u8..16).map(|i| i * 0x11).collect();
    encrypt_aes128_ecb(&key, &mut data).unwrap();
    assert_eq!(
        data,
        [
            0x69, 0xc4, 0xe0, 0xd8, 0x6a, 0x7b, 0x04, 0x30, 0xd8, 0xcd, 0xb7, 0x80, 0x70, 0xb4,
            0xc5, 0x5a
        ]
    );
    let mut two = [7u8; 32];
    encrypt_aes128_ecb(&key, &mut two).unwrap();
    assert_eq!(two[..16], two[16..]);
    let error = encrypt_aes128_ecb(&key[..15], &mut two).unwrap_err();
    assert_eq!(error.reason, FailureReason::InternalError);
}

#[test]
fn keys_are_padded_on_the_left() {
    assert_eq!(left_pad_bytes(&[1, 2], 4).unwrap(), vec![0, 0, 1, 2]);
    assert_eq!(left_pad_bytes(&[1, 2], 2).unwrap(), vec![1, 2]);
    let error = left_pad_bytes(&[1, 2, 3], 2).unwrap_err();
    assert_eq!(error.message, "VNC Apple-DH public key exceeded the server key length");
    let mut field = [9u8; 4];
    copy_padded_field(b"ab", &mut field);
    assert_eq!(field, [b'a', b'b', 9, 9]);
    let mut short = [9u8; 2];
    copy_padded_field(b"abc", &mut short);
    assert_eq!(short, [b'a', b'b']);
    let mut bytes = vec![1u8];
    append(&mut bytes, &[2, 3]);
    assert_eq!(bytes, vec![1, 2, 3]);
}

#[test]
fn both_ends_of_a_key_exchange_agree() {
    // 5^3 = 125 = 10 and 5^7 = 78125 = 17 (mod 23): each end raises the other's key.
    let client =
        vnc_apple_dh_response_with_secret(5, &[23], &[17], "u", "p", &[3]).unwrap();
    let server = vnc_apple_dh_response_with_secret(5, &[23], &[10], "u", "p", &[7]).unwrap();
    assert_eq!(client[128..], [10]);
    assert_eq!(server[128..], [17]);
    assert_eq!(client[..128], server[..128]);
    let error = vnc_apple_dh_response_with_secret(5, &[], &[], "u", "p", &[3]).unwrap_err();
    assert_eq!(error.message, "VNC Apple-DH server sent an empty modulus");
}

#[test]
fn consumes_server_cut_text_padding_before_next_framebuffer_update() {
    let stream = [3, 0, 0, 0, 0, 0, 0, 3, b'a', b'b', b'c', 0, 0, 0, 0];
    assert_eq!(read(screen(1, 1), &stream).rgb, vec![0, 0, 0]);
}

#[test]
fn reads_raw_framebuffer_rows() {
    // One raw 2x2 rectangle, followed by little-endian BGRX pixels.
    let stream = [
        0, 0, 0, 1, 0, 0, 0, 0, 0, 2, 0, 2, 0, 0, 0, 0, 0, 0, 255, 0, 0, 255, 0, 0, 255, 0, 0, 0,
        255, 255, 255, 0,
    ];
    assert_eq!(
        read(screen(2, 2), &stream).rgb,
        vec![255, 0, 0, 0, 255, 0, 0, 0, 255, 255, 255, 255]
    );
}

#[test]
fn bells_are_skipped_and_rectangles_lie_where_they_belong() {
    let stream = [2, 2, 0, 0, 0, 1, 0, 1, 0, 1, 0, 1, 0, 1, 0, 0, 0, 0, 3, 2, 1, 0];
    assert_eq!(
        read(screen(2, 2), &stream).rgb,
        vec![0, 0, 0, 0, 0, 0, 0, 0, 0, 1, 2, 3]
    );
}

#[test]
fn broken_updates_are_refused() {
    assert_eq!(complaint(read(screen(1, 1), &[9])), "unexpected VNC server message type 9");
    let outside = [0, 0, 0, 1, 0, 1, 0, 0, 0, 1, 0, 1, 0, 0, 0, 0];
    assert_eq!(
        complaint(read(screen(1, 1), &outside)),
        "VNC rectangle exceeds framebuffer bounds"
    );
    let packed = [0, 0, 0, 1, 0, 0, 0, 0, 0, 1, 0, 1, 255, 255, 255, 33];
    assert_eq!(
        complaint(read(screen(1, 1), &packed)),
        "unsupported VNC framebuffer encoding -223"
    );
}

#[test]
fn labels_vnc_security_types_for_errors() {
    assert_eq!(
        vnc_security_types_message(&[129, 5, 30, 77]),
        "rsa-aes256, rsa-aes128, apple-dh, unknown-77"
    );
    assert_eq!(vnc_security_types_message(&[1, 2, 19]), "none, vnc-auth, vencrypt");
}

fn server_init(name: &[u8]) -> Vec<u8> {
    let mut bytes = vec![0, 2, 0, 1, 32, 24, 0, 1, 0, 255, 0, 255, 0, 255, 16, 8, 0, 0, 0, 0];
    bytes.extend_from_slice(&[0, 0, 0, name.len() as u8]);
    bytes.extend_from_slice(name);
    bytes
}

fn shake_hands(stream: &[u8], secret: &[u8]) -> (Vec<u8>, Handshake) {
    let mut handshake = Handshake::Version;
    let mut sent = Vec::new();
    let mut rest = stream;
    while !matches!(handshake, Handshake::Ready { .. } | Handshake::Failed { .. }) {
        let (send, next) = if handshake.wants_secret() {
            handshake.advance("root", "pw", secret)
        } else {
            let (bytes, after) = rest.split_at(handshake.wanted());
            rest = after;
            handshake.advance("root", "pw", bytes)
        };
        sent.extend_from_slice(&send);
        handshake = next;
    }
    assert!(rest.is_empty());
    (sent, handshake)
}

fn refusal(stream: &[u8]) -> String {
    match shake_hands(stream, &[]).1 {
        Handshake::Failed { error } => {
            assert_eq!(error.reason, FailureReason::DisplayStartFailed);
            error.message
        }
        other => panic!("unexpected {other:?}"),
    }
}

#[test]
fn open_servers_are_entered() {
    let mut stream = b"RFB 003.008\n".to_vec();
    stream.extend_from_slice(&[2, 30, 1, 0, 0, 0, 0]);
    stream.extend_from_slice(&server_init(b"weston"));
    let (sent, end) = shake_hands(&stream, &[]);
    let mut expected = b"RFB 003.008\n".to_vec();
    expected.extend_from_slice(&[1, 1, 2, 0, 0, 1, 0, 0, 0, 0]);
    assert_eq!(sent, expected);
    match end {
        Handshake::Ready { screen } => {
            assert_eq!((screen.width, screen.height), (2, 1));
            assert_eq!(screen.format, FORMAT);
        }
        other => panic!("unexpected {other:?}"),
    }
}

#[test]
fn old_servers_are_entered() {
    let mut stream = b"RFB 003.003\n".to_vec();
    stream.extend_from_slice(&[0, 0, 0, 1]);
    stream.extend_from_slice(&server_init(b""));
    let (sent, end) = shake_hands(&stream, &[]);
    assert_eq!(sent[12..], [1, 2, 0, 0, 1, 0, 0, 0, 0]);
    assert!(matches!(end, Handshake::Ready { .. }));
}

#[test]
fn key_exchange_servers_get_encrypted_credentials() {
    let secret = [3u8; 512];
    let mut stream = b"RFB 003.008\n".to_vec();
    stream.extend_from_slice(&[1, 30, 0, 5, 0, 2, 0, 23, 0, 8, 0, 0, 0, 0]);
    stream.extend_from_slice(&server_init(b"weston"));
    let (sent, end) = shake_hands(&stream, &secret);
    let response =
        vnc_apple_dh_response_with_secret(5, &[0, 23], &[0, 8], "root", "pw", &secret).unwrap();
    assert_eq!(sent[12], 30);
    assert_eq!(sent[13..143], response);
    assert!(matches!(end, Handshake::Ready { .. }));
    assert!(!sent.windows(4).any(|part| part == b"root"));
}

#[test]
fn refused_handshakes_tell_why() {
    let greeting = |rest: &[u8]| {
        let mut stream = b"RFB 003.008\n".to_vec();
        stream.extend_from_slice(rest);
        stream
    };
    assert_eq!(
        refusal(&greeting(&[2, 2, 77])),
        "VNC server did not offer a supported security type: vnc-auth, unknown-77"
    );
    assert_eq!(
        refusal(&greeting(&[0, 0, 0, 0, 4, b'b', b'u', b's', 0xff])),
        "VNC handshake failed: bus\u{fffd}"
    );
    assert_eq!(
        refusal(&greeting(&[1, 1, 0, 0, 0, 1, 0, 0, 0, 2, b'n', b'o'])),
        "VNC handshake failed: no"
    );
    assert_eq!(
        refusal(&greeting(&[1, 1, 0, 0, 0, 9])),
        "unknown VNC security result 9"
    );
    assert_eq!(
        refusal(&greeting(&[1, 30, 0, 0, 0, 2])),
        "unsupported VNC Apple-DH parameters: generator=0, key_len=2"
    );
    let mut legacy = b"RFB 003.003\n".to_vec();
    legacy.extend_from_slice(&[0, 0, 0, 2]);
    assert_eq!(refusal(&legacy), "unsupported VNC security type 2");
}

#[test]
fn unread_bytes_are_reported_by_stage() {
    let error = Handshake::Version.read_failure("eof");
    assert_eq!(error.reason, FailureReason::ScreenshotFailed);
    assert_eq!(error.message, "failed to read from Weston VNC server: eof");
    assert_eq!(Handshake::FailureLength.read_failure("eof").message, "VNC handshake failed");
    assert_eq!(vnc_read_error("eof").message, "failed to read from Weston VNC server: eof");
}

#[test]
fn pointers_are_moved_and_clicked_on_the_screen() {
    let screen = screen(1280, 720);
    assert_eq!(pointer_event(1, 0x102, 0x304), vec![5, 1, 1, 2, 3, 4]);
    assert_eq!(move_pointer(screen, (-5, 9999)), vec![5, 0, 0, 0, 2, 207]);
    assert_eq!(park_pointer(screen), vec![5, 0, 0, 1, 0, 1]);
    let steps = click(screen, (845, 533));
    let sent: Vec<_> = steps.iter().map(|step| step.message.clone()).collect();
    assert_eq!(
        sent,
        vec![vec![5, 0, 3, 77, 2, 21], vec![5, 1, 3, 77, 2, 21], vec![5, 0, 3, 77, 2, 21]]
    );
    let waits: Vec<_> = steps.iter().map(|step| step.settle).collect();
    assert_eq!(
        waits,
        vec![Duration::from_millis(150), Duration::from_millis(100), Duration::from_millis(500)]
    );
}

#[test]
fn frames_are_asked_for_and_written() {
    assert_eq!(
        request_framebuffer_update(screen(1280, 720)),
        vec![3, 0, 0, 0, 0, 0, 5, 0, 2, 208]
    );
    assert_eq!(ppm(screen(1, 1), &[1, 2, 3]), b"P6\n1 1\n255\n\x01\x02\x03".to_vec());
    assert!(holds_byte(&[1, 30], 30));
    assert!(!holds_byte(&[1], 30));
    assert!(bytes_begin(b"RFB 003.003\n", b"RFB 003.003"));
    assert!(!bytes_begin(b"RFB", b"RFB 003.003"));
}
