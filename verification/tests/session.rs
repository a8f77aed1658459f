use std::collections::VecDeque;

use u2f_hid::apdu::{decode_apdu_response, encode_apdu, APDU};
use u2f_hid::device::{is_fido_u2f, next_fido, parse_init_response};
use u2f_hid::device::{Device, HIDDeviceInfo, HidInterface, U2FDeviceInfo};
use u2f_hid::device::BROADCAST_CHANNEL_ID;
use u2f_hid::errors::{Error, IoCause, ProtocolCause};
use u2f_hid::fragment::fragment;
use u2f_hid::u2f_frame::{U2FFrame, U2FFrameContent};
use u2f_hid::u2f_hid_framed_transport::{frame_from_read, report_bytes, U2FHidFramedTransport};
use u2f_hid::{HidCmd, U2FINS};

/// What the simulated token does on the next read.
enum Reply {
    Report(Vec<u8>),
    Timeout,
    Fail(Error),
}

/// A transport that records what is written and answers from a script.
struct VirtualToken {
    written: Vec<Vec<u8>>,
    replies: VecDeque<Reply>,
    timeouts: Vec<u64>,
    fail_writes: bool,
    echo: bool,
}

impl VirtualToken {
    fn new() -> Self {
        VirtualToken {
            written: Vec::new(),
            replies: VecDeque::new(),
            timeouts: Vec::new(),
            fail_writes: false,
            echo: false,
        }
    }

    /// A token that sends back every report it is sent.
    fn loopback() -> Self {
        let mut token = VirtualToken::new();
        token.echo = true;
        token
    }

    fn answering(channel_id: u32, cmd: u8, payload: &[u8]) -> Self {
        let mut token = VirtualToken::new();
        token.answer(channel_id, cmd, payload);
        token
    }

    fn answer(&mut self, channel_id: u32, cmd: u8, payload: &[u8]) {
        for frame in fragment(channel_id, cmd, payload).unwrap() {
            self.replies.push_back(Reply::Report(frame.as_bytes().unwrap()));
        }
    }

    fn send(&mut self, frame: U2FFrame) {
        self.replies.push_back(Reply::Report(frame.as_bytes().unwrap()));
    }
}

impl U2FHidFramedTransport for VirtualToken {
    fn data_read(&mut self, buffer: &mut [u8; 64], timeout_ms: u64) -> Result<Option<usize>, Error> {
        self.timeouts.push(timeout_ms);
        match self.replies.pop_front() {
            Some(Reply::Report(bytes)) => {
                let n = bytes.len().min(64);
                buffer[..n].copy_from_slice(&bytes[..n]);
                Ok(Some(bytes.len()))
            }
            Some(Reply::Timeout) | None => Ok(None),
            Some(Reply::Fail(e)) => Err(e),
        }
    }

    fn data_write(&mut self, buffer: &[u8]) -> Result<usize, Error> {
        if self.fail_writes {
            return Err(Error::Hid("Write error.".to_string()));
        }
        self.written.push(buffer.to_vec());
        if self.echo {
            self.replies.push_back(Reply::Report(buffer[1..].to_vec()));
        }
        Ok(buffer.len())
    }
}

fn info() -> HIDDeviceInfo {
    HIDDeviceInfo {
        vendor_id: 0x1050,
        product_id: 0x0120,
        manufacturer_string: Some("Yubico".to_string()),
        product_string: None,
    }
}

fn init(channel_id: u32, cmd: u8, data_len: u16, data: Vec<u8>) -> U2FFrame {
    U2FFrame { channel_id, frame_content: U2FFrameContent::Init { cmd, data_len, data } }
}

fn cont(channel_id: u32, seq: u8, data: Vec<u8>) -> U2FFrame {
    U2FFrame { channel_id, frame_content: U2FFrameContent::Cont { seq, data } }
}

fn payload(len: usize) -> Vec<u8> {
    (0..len).map(|i| (i * 5 + 1) as u8).collect()
}

const NONCE: [u8; 8] = [0x8, 0x7, 0x6, 0x5, 0x4, 0x3, 0x2, 0x1];

fn init_response() -> Vec<u8> {
    let mut data = NONCE.to_vec();
    data.extend_from_slice(&[0x01, 0x02, 0x03, 0x04, 0x02, 0x01, 0x00, 0x04, 0x05]);
    data
}

#[test]
fn test_wink() {
    let mut token = VirtualToken::answering(BROADCAST_CHANNEL_ID, 0x06, &init_response());
    token.answer(0x0102_0304, 0x08, &[]);
    for mut dev in vec![Device::new(token, info())] {
        let init_result = dev.init([0x8, 0x7, 0x6, 0x5, 0x4, 0x3, 0x2, 0x1]);
        println!("Init result: {:?}", init_result);
        dev.wink().unwrap();
    }
}

#[test]
fn test_apdu() {
    let token = VirtualToken::answering(BROADCAST_CHANNEL_ID, 0x06, &init_response());
    for mut dev in vec![Device::new(token, info())] {
        let init_result = dev.init([0x8, 0x7, 0x6, 0x5, 0x4, 0x3, 0x2, 0x1]);
        println!("Init result: {:?}", init_result);
        let apdu = APDU::new(dev);
        assert_eq!(apdu.device().channel_id(), 0x0102_0304);
    }
}

#[test]
fn init_adopts_the_allocated_channel() {
    let mut token = VirtualToken::answering(BROADCAST_CHANNEL_ID, 0x06, &init_response());
    token.answer(0x0102_0304, 0x01, &[1, 2, 3]);
    let mut dev = Device::new(token, info());
    assert_eq!(dev.channel_id(), 0xffff_ffff);
    let result = dev.init(NONCE);
    assert_eq!(
        result,
        Ok(U2FDeviceInfo {
            protocol_version: 2,
            version_major: 1,
            version_minor: 0,
            version_build: 4,
            cap_flags: 5,
        })
    );
    assert_eq!(dev.channel_id(), 0x0102_0304);
    assert_eq!(dev.hid_device_info, info());
    let mut expected = vec![0x00, 0xff, 0xff, 0xff, 0xff, 0x86, 0x00, 0x08];
    expected.extend_from_slice(&NONCE);
    expected.resize(65, 0);
    assert_eq!(dev.handle().written, vec![expected]);
    assert_eq!(dev.ping(&[1, 2, 3]), Ok(vec![1, 2, 3]));
    assert_eq!(&dev.handle().written[1][..8], &[0x00, 0x01, 0x02, 0x03, 0x04, 0x81, 0x00, 0x03]);
}

#[test]
fn init_refuses_a_strangers_nonce() {
    let mut response = init_response();
    response[0] = 0x09;
    let token = VirtualToken::answering(BROADCAST_CHANNEL_ID, 0x06, &response);
    let mut dev = Device::new(token, info());
    assert_eq!(dev.init(NONCE), Err(Error::Protocol(ProtocolCause::NonceMismatch)));
    assert_eq!(dev.channel_id(), BROADCAST_CHANNEL_ID);
}

#[test]
fn init_refuses_a_short_response() {
    let response = init_response();
    let token = VirtualToken::answering(BROADCAST_CHANNEL_ID, 0x06, &response[..16]);
    let mut dev = Device::new(token, info());
    assert_eq!(dev.init(NONCE), Err(Error::IO(IoCause::UnexpectedEof)));
    assert_eq!(dev.channel_id(), BROADCAST_CHANNEL_ID);
}

#[test]
fn init_response_fields() {
    let mut response = init_response();
    assert_eq!(
        parse_init_response(&NONCE, &response),
        Ok((
            0x0102_0304,
            U2FDeviceInfo {
                protocol_version: 2,
                version_major: 1,
                version_minor: 0,
                version_build: 4,
                cap_flags: 5,
            }
        ))
    );
    response.extend_from_slice(&[0xee, 0xee]);
    assert!(parse_init_response(&NONCE, &response).is_ok());
    response[7] ^= 0x80;
    assert_eq!(
        parse_init_response(&NONCE, &response),
        Err(Error::Protocol(ProtocolCause::NonceMismatch))
    );
    assert_eq!(parse_init_response(&NONCE, &[]), Err(Error::IO(IoCause::UnexpectedEof)));
}

#[test]
fn hundred_byte_ping_over_the_transport() {
    let data = payload(100);
    let token = VirtualToken::answering(7, 0x01, &data);
    let mut dev = Device::new(token, info());
    assert_eq!(dev.ping(&data), Ok(data.clone()));
    let written = &dev.handle().written;
    assert_eq!(written.len(), 2);
    assert!(written.iter().all(|report| report.len() == 65 && report[0] == 0));
    assert_eq!(&written[0][1..8], &[0xff, 0xff, 0xff, 0xff, 0x81, 0x00, 100]);
    assert_eq!(&written[0][8..], &data[..57]);
    assert_eq!(&written[1][1..6], &[0xff, 0xff, 0xff, 0xff, 0x00]);
    assert_eq!(&written[1][6..49], &data[57..]);
    assert!(written[1][49..].iter().all(|b| *b == 0));
    assert!(dev.handle().timeouts.iter().all(|t| *t == 500));
}

#[test]
fn what_is_sent_reads_back_as_sent() {
    for len in [0usize, 1, 57, 58, 100, 116, 117, 1000, 7609] {
        for (channel, cmd) in [(0xffff_ffffu32, 0x06u8), (0x0102_0304, 0x03), (9, 0x7f)] {
            let data = payload(len);
            let mut token = VirtualToken::loopback();
            assert_eq!(token.send_cmd(cmd, channel, &data), Ok(()));
            assert_eq!(token.written.len(), if len <= 57 { 1 } else { 1 + (len - 57 + 58) / 59 });
            assert_eq!(token.read_response(cmd), Ok(data));
            assert!(token.replies.is_empty());
        }
    }
}

#[test]
fn too_long_a_message_writes_nothing() {
    let mut token = VirtualToken::new();
    assert_eq!(
        token.send_cmd(0x01, 1, &payload(7610)),
        Err(Error::Protocol(ProtocolCause::PayloadTooLong { len: 7610 }))
    );
    assert!(token.written.is_empty());
    let mut dev = Device::new(VirtualToken::new(), info());
    assert_eq!(
        dev.request(0x01, &payload(8000)),
        Err(Error::Protocol(ProtocolCause::PayloadTooLong { len: 8000 }))
    );
    assert!(dev.handle().written.is_empty());
}

#[test]
fn short_read_is_refused() {
    let mut token = VirtualToken::new();
    token.replies.push_back(Reply::Report(vec![0; 32]));
    assert_eq!(
        token.read_response(0x01),
        Err(Error::Protocol(ProtocolCause::UnexpectedDataSize { got: 32 }))
    );
    assert_eq!(
        frame_from_read(Some(32), &[0; 64]),
        Err(Error::Protocol(ProtocolCause::UnexpectedDataSize { got: 32 }))
    );
    assert_eq!(
        frame_from_read(Some(65), &[0; 64]),
        Err(Error::Protocol(ProtocolCause::UnexpectedDataSize { got: 65 }))
    );
}

#[test]
fn timeout_is_refused() {
    let mut token = VirtualToken::new();
    token.replies.push_back(Reply::Timeout);
    assert_eq!(token.read_frame(), Err(Error::Protocol(ProtocolCause::NoData)));
    assert_eq!(frame_from_read(None, &[0; 64]), Err(Error::Protocol(ProtocolCause::NoData)));
    let mut token = VirtualToken::new();
    token.send(init(1, 0x03, 100, vec![0; 57]));
    assert_eq!(token.read_response(0x03), Err(Error::Protocol(ProtocolCause::NoData)));
}

#[test]
fn whole_report_is_decoded() {
    let mut report = [0u8; 64];
    report[..8].copy_from_slice(&[0, 0, 0, 9, 0x83, 0x01, 0x00, 0xab]);
    let mut data = vec![0u8; 57];
    data[0] = 0xab;
    assert_eq!(frame_from_read(Some(64), &report), Ok(init(9, 0x03, 256, data)));
}

#[test]
fn transport_errors_are_handed_on() {
    let mut token = VirtualToken::new();
    token.replies.push_back(Reply::Fail(Error::Hid("Read error.".to_string())));
    assert_eq!(token.read_response(0x01), Err(Error::Hid("Read error.".to_string())));
    let mut token = VirtualToken::new();
    token.fail_writes = true;
    assert_eq!(token.send_cmd(0x01, 1, &[1]), Err(Error::Hid("Write error.".to_string())));
    let mut dev = Device::new(token, info());
    assert_eq!(dev.wink(), Err(Error::Hid("Write error.".to_string())));
}

#[test]
fn response_stream_is_checked() {
    let mut token = VirtualToken::new();
    token.send(init(1, 0x03, 120, vec![0; 57]));
    token.send(cont(1, 1, vec![0; 59]));
    assert_eq!(
        token.read_response(0x03),
        Err(Error::Protocol(ProtocolCause::SequenceError { expected: 0, got: 1 }))
    );
    let mut token = VirtualToken::new();
    token.send(cont(1, 0, vec![0; 59]));
    assert_eq!(token.read_response(0x03), Err(Error::Protocol(ProtocolCause::ExpectedInitFrame)));
    let mut token = VirtualToken::new();
    token.send(init(1, 0x03, 120, vec![0; 57]));
    token.send(init(1, 0x03, 120, vec![0; 57]));
    assert_eq!(token.read_response(0x03), Err(Error::Protocol(ProtocolCause::ExpectedContFrame)));
    let mut token = VirtualToken::new();
    token.send(init(1, 0x01, 1, vec![7]));
    assert_eq!(
        token.read_response(0x03),
        Err(Error::Protocol(ProtocolCause::UnexpectedCmd { expected: 0x03, got: 0x01 }))
    );
}

#[test]
fn frame_is_written_behind_a_report_id() {
    let frame = cont(0x0a0b_0c0d, 2, vec![1, 2]);
    let mut expected = vec![0x00, 0x0a, 0x0b, 0x0c, 0x0d, 0x02, 1, 2];
    expected.resize(65, 0);
    assert_eq!(report_bytes(&frame), Ok(expected.clone()));
    let mut token = VirtualToken::new();
    assert_eq!(token.send_frame(&frame), Ok(()));
    assert_eq!(token.written, vec![expected]);
    let long = cont(1, 0, vec![0; 60]);
    assert_eq!(
        token.send_frame(&long),
        Err(Error::Protocol(ProtocolCause::PayloadTooLong { len: 60 }))
    );
    assert_eq!(token.written.len(), 1);
}

#[test]
fn wink_sends_an_empty_message() {
    let token = VirtualToken::answering(BROADCAST_CHANNEL_ID, 0x08, &[]);
    let mut dev = Device::new(token, info());
    assert_eq!(dev.wink(), Ok(()));
    let mut expected = vec![0x00, 0xff, 0xff, 0xff, 0xff, 0x88, 0x00, 0x00];
    expected.resize(65, 0);
    assert_eq!(dev.handle().written, vec![expected]);
}

#[test]
fn fido_interfaces_are_recognised() {
    assert!(is_fido_u2f(0xf1d0, 0x01));
    assert!(!is_fido_u2f(0xf1d0, 0x02));
    assert!(!is_fido_u2f(0x0001, 0x01));
    assert!(!is_fido_u2f(0x0001, 0x06));
}

#[test]
fn discovery_finds_each_token_in_turn() {
    let interface = |usage_page: u16, usage: u16| HidInterface { usage_page, usage, info: info() };
    let interfaces = vec![
        interface(0x0001, 0x06),
        interface(0xf1d0, 0x01),
        interface(0xf1d0, 0x02),
        interface(0xff00, 0x01),
        interface(0xf1d0, 0x01),
        interface(0x0001, 0x02),
    ];
    assert_eq!(next_fido(&interfaces, 0), Some(1));
    assert_eq!(next_fido(&interfaces, 1), Some(1));
    assert_eq!(next_fido(&interfaces, 2), Some(4));
    assert_eq!(next_fido(&interfaces, 5), None);
    assert_eq!(next_fido(&interfaces, 6), None);
    assert_eq!(next_fido(&interfaces, 100), None);
    assert_eq!(next_fido(&[], 0), None);
}

#[test]
fn apdu_version() {
    assert_eq!(encode_apdu(0x03, 0, 0, &[]), Ok(vec![0x00, 0x03, 0x00, 0x00, 0x00, 0x00, 0x00]));
    let mut answer = b"U2F_V2".to_vec();
    answer.extend_from_slice(&[0x90, 0x00]);
    let token = VirtualToken::answering(BROADCAST_CHANNEL_ID, 0x03, &answer);
    let mut apdu = APDU::new(Device::new(token, info()));
    let response = apdu.send_apdu(U2FINS::Version.code(), 0, 0, &[]);
    assert_eq!(response, Ok(b"U2F_V2".to_vec()));
    let mut expected = vec![0x00, 0xff, 0xff, 0xff, 0xff, 0x83, 0x00, 0x07];
    expected.extend_from_slice(&[0x00, 0x03, 0x00, 0x00, 0x00, 0x00, 0x00]);
    expected.resize(65, 0);
    assert_eq!(apdu.device().handle().written, vec![expected]);
    assert_eq!(HidCmd::Msg.code(), 0x03);
}

#[test]
fn apdu_conditions_not_satisfied() {
    let token = VirtualToken::answering(BROADCAST_CHANNEL_ID, 0x03, &[0x69, 0x85]);
    let mut apdu = APDU::new(Device::new(token, info()));
    let response = apdu.send_apdu(U2FINS::Register.code(), 0, 0, &[0x11; 64]);
    assert_eq!(response, Err(Error::APDUError(0x6985, "conditions not satisfied", vec![])));
}

#[test]
fn apdu_with_data_has_a_length_field() {
    let data: Vec<u8> = (0..300).map(|i| i as u8).collect();
    let mut expected = vec![0x00, 0x01, 0x03, 0x00, 0x00, 0x01, 0x2c];
    expected.extend_from_slice(&data);
    expected.extend_from_slice(&[0x00, 0x00]);
    assert_eq!(encode_apdu(0x01, 0x03, 0x00, &data), Ok(expected));
    assert_eq!(
        encode_apdu(0x02, 0x07, 0x09, &[0xaa]),
        Ok(vec![0x00, 0x02, 0x07, 0x09, 0x00, 0x00, 0x01, 0xaa, 0x00, 0x00])
    );
    assert_eq!(encode_apdu(1, 0, 0, &vec![0; 0xffff]).unwrap().len(), 0xffff + 9);
    assert_eq!(
        encode_apdu(1, 0, 0, &vec![0; 0x10000]),
        Err(Error::Protocol(ProtocolCause::PayloadTooLong { len: 0x10000 }))
    );
}

#[test]
fn apdu_status_words() {
    assert_eq!(decode_apdu_response(vec![1, 2, 3, 0x90, 0x00]), Ok(vec![1, 2, 3]));
    assert_eq!(decode_apdu_response(vec![0x90, 0x00]), Ok(vec![]));
    assert_eq!(
        decode_apdu_response(vec![9, 0x69, 0x84]),
        Err(Error::APDUError(0x6984, "wrong data", vec![9]))
    );
    assert_eq!(
        decode_apdu_response(vec![9, 8, 0x69, 0x85]),
        Err(Error::APDUError(0x6985, "conditions not satisfied", vec![9, 8]))
    );
    assert_eq!(
        decode_apdu_response(vec![0x6d, 0x00]),
        Err(Error::APDUError(0x6d00, "ins not supported", vec![]))
    );
    assert_eq!(
        decode_apdu_response(vec![0x6e, 0x00]),
        Err(Error::APDUError(0x6e00, "cla not supported", vec![]))
    );
    assert_eq!(
        decode_apdu_response(vec![1, 0x00, 0x90]),
        Err(Error::Protocol(ProtocolCause::UnknownStatus { sw: 0x0090 }))
    );
    assert_eq!(
        decode_apdu_response(vec![0x67, 0x00]),
        Err(Error::Protocol(ProtocolCause::UnknownStatus { sw: 0x6700 }))
    );
    assert_eq!(
        decode_apdu_response(vec![0x90]),
        Err(Error::Protocol(ProtocolCause::ResponseTooShort { len: 1 }))
    );
    assert_eq!(
        decode_apdu_response(vec![]),
        Err(Error::Protocol(ProtocolCause::ResponseTooShort { len: 0 }))
    );
}

#[test]
fn apdu_too_long_for_a_message_is_refused() {
    let mut apdu = APDU::new(Device::new(VirtualToken::new(), info()));
    assert_eq!(
        apdu.send_apdu(0x01, 0, 0, &vec![0; 7601]),
        Err(Error::Protocol(ProtocolCause::PayloadTooLong { len: 7610 }))
    );
    assert!(apdu.device().handle().written.is_empty());
}
