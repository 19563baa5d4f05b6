use std::cell::RefCell;
use std::collections::VecDeque;

use open_mouse_memory::error::{AppError, Result};
use open_mouse_memory::hid::transport::HidIo;
use open_mouse_memory::hidpp::protocol::{
    classify_response, next_software_id, protocol_error_name, spaced_hex, HidppMessage, HidppTransport, ResponseKind,
    SoftwareIds,
};

struct FakeIo {
    writes: RefCell<Vec<Vec<u8>>>,
    reads: RefCell<VecDeque<Vec<u8>>>,
}

impl FakeIo {
    fn new(reads: impl IntoIterator<Item = Vec<u8>>) -> Self {
        Self {
            writes: RefCell::new(Vec::new()),
            reads: RefCell::new(reads.into_iter().collect()),
        }
    }
}

impl HidIo for FakeIo {
    fn write_report(&self, data: &[u8]) -> Result<usize> {
        self.writes.borrow_mut().push(data.to_vec());
        Ok(data.len())
    }

    fn read_report(&self, data: &mut [u8], timeout_ms: i32) -> Result<usize> {
        if timeout_ms == 1 {
            return Ok(0);
        }
        let Some(mut next) = self.reads.borrow_mut().pop_front() else {
            return Ok(0);
        };
        if let Some(request) = self.writes.borrow().last() {
            if next.get(2) == Some(&0xff) && next.get(4) == Some(&0xfe) {
                next[4] = request[3];
            } else if next.get(3) == Some(&0xfe) {
                next[3] = request[3];
            }
        }
        data[..next.len()].copy_from_slice(&next);
        Ok(next.len())
    }
}

#[test]
fn encodes_long_message() {
    let mut message = HidppMessage::request(1, 0x0a, 0x20, &[0x03, 0x20], true, &mut SoftwareIds::new()).unwrap();
    message.software_id = 8;
    let encoded = message.encode();
    assert_eq!(&encoded[..6], &[0x11, 0x01, 0x0a, 0x28, 0x03, 0x20]);
    assert_eq!(encoded.len(), 20);
}

#[test]
fn correlates_response_and_ignores_notification() {
    let io = FakeIo::new([]);
    let mut transport = HidppTransport::new(io, 1, 10, false, SoftwareIds::new());
    transport.io().reads.borrow_mut().extend([
        vec![0x10, 1, 0x0a, 0x20, 0, 0, 0],
        vec![0x11, 1, 0x0a, 0xfe, 0x03, 0x20, 0, 0],
    ]);
    let response = transport.transact(0x0a, 0x20, &[]).unwrap();
    assert_eq!(&response[..2], &[0x03, 0x20]);
}

#[test]
fn decodes_protocol_error() {
    let io = FakeIo::new([vec![0x11, 1, 0xff, 0x10, 0xfe, 0x07]]);
    let mut transport = HidppTransport::new(io, 1, 10, false, SoftwareIds::new());
    let error = transport.transact(0x10, 0x20, &[]).unwrap_err();
    assert!(matches!(error, AppError::Protocol { code: 7, .. }));
}

#[test]
fn retries_a_timed_out_read_once() {
    let io = FakeIo::new([vec![], vec![0x11, 1, 0x0a, 0xfe, 0x03, 0x20]]);
    let mut transport = HidppTransport::new(io, 1, 10, false, SoftwareIds::new());
    let response = transport.transact_read(0x0a, 0x20, &[]).unwrap();
    assert_eq!(&response[..2], &[0x03, 0x20]);
    assert_eq!(transport.io().writes.borrow().len(), 2);
}

#[test]
fn writes_are_never_sent_twice() {
    let mut transport = HidppTransport::new(FakeIo::new([]), 1, 10, false, SoftwareIds::new());
    let error = transport.transact(0x0a, 0x60, &[1, 2]).unwrap_err();
    assert!(matches!(error, AppError::Timeout { feature_index: 0x0a, function: 0x60, .. }));
    assert_eq!(transport.io().writes.borrow().len(), 1);
    let error = transport.transact_read(0x0a, 0x20, &[]).unwrap_err();
    assert!(matches!(error, AppError::Timeout { .. }));
    assert_eq!(transport.io().writes.borrow().len(), 3);
    transport.transact_no_reply(0x0a, 0x20, &[]).unwrap();
    assert_eq!(transport.io().writes.borrow().len(), 4);
}

#[test]
fn software_ids_change_from_request_to_request() {
    let mut transport = HidppTransport::new(FakeIo::new([]), 1, 10, false, SoftwareIds::new());
    for _ in 0..9 {
        transport.transact_no_reply(2, 0x10, &[]).unwrap();
    }
    let ids: Vec<u8> = transport.io().writes.borrow().iter().map(|report| report[3] & 0x0f).collect();
    assert_eq!(ids, [8, 9, 10, 11, 12, 13, 14, 15, 8]);
}

#[test]
fn software_ids_go_on_from_transport_to_transport() {
    let mut ids = SoftwareIds::new();
    assert_eq!(HidppMessage::request(1, 2, 0x10, &[], true, &mut ids).unwrap().software_id, 8);
    assert_eq!(HidppMessage::request(1, 2, 0x10, &[], true, &mut ids).unwrap().software_id, 9);
    assert!(HidppMessage::request(1, 2, 0x11, &[], true, &mut ids).is_err());
    let mut first = HidppTransport::new(FakeIo::new([]), 1, 10, false, ids);
    first.transact_no_reply(2, 0x10, &[]).unwrap();
    assert!(first.transact(2, 0x11, &[]).is_err());
    assert_eq!(first.io().writes.borrow()[0][3], 0x1a);
    let mut second = HidppTransport::new(FakeIo::new([]), 2, 10, false, first.into_software_ids());
    second.transact_no_reply(2, 0x10, &[]).unwrap();
    assert_eq!(second.io().writes.borrow()[0][3], 0x1b);
    let mut ids = second.into_software_ids();
    let rest: Vec<u8> = (0..5).map(|_| next_software_id(&mut ids)).collect();
    assert_eq!(rest, [12, 13, 14, 15, 8]);
}

#[test]
fn repetition_differs_in_its_software_id_only() {
    let mut transport = HidppTransport::new(FakeIo::new([]), 1, 10, false, SoftwareIds::new());
    transport.transact_read(0x0a, 0x20, &[7, 8]).unwrap_err();
    let writes = transport.io().writes.borrow();
    assert_eq!(writes.len(), 2);
    assert_eq!((writes[0][3], writes[1][3]), (0x28, 0x29));
    assert_eq!(writes[0][..3], writes[1][..3]);
    assert_eq!(writes[0][4..], writes[1][4..]);
}

#[test]
fn answers_to_earlier_requests_are_passed_over() {
    let io = FakeIo::new([vec![0x11, 1, 0x0a, 0x2f, 9, 9], vec![0x11, 1, 0x0a, 0xfe, 1, 1]]);
    let mut transport = HidppTransport::new(io, 1, 10, false, SoftwareIds::new());
    assert_eq!(transport.transact(0x0a, 0x20, &[]).unwrap(), [1, 1]);
}

#[test]
fn pings_with_a_short_report_first() {
    let io = FakeIo::new([vec![0x10, 1, 0, 0xfe, 4, 2, 0]]);
    let mut transport = HidppTransport::new(io, 1, 10, false, SoftwareIds::new());
    let version = transport.ping().unwrap();
    assert_eq!((version.major, version.minor), (4, 2));
    assert_eq!(version.text(), "4.2");
    assert_eq!(transport.io().writes.borrow()[0].len(), 7);

    let io = FakeIo::new([vec![], vec![0x11, 1, 0, 0xfe, 2, 0]]);
    let mut transport = HidppTransport::new(io, 1, 10, false, SoftwareIds::new());
    assert_eq!(transport.ping().unwrap().major, 2);
    assert_eq!(transport.io().writes.borrow()[1].len(), 20);

    let io = FakeIo::new([vec![0x10, 1, 0, 0xfe, 4]]);
    let mut transport = HidppTransport::new(io, 1, 10, false, SoftwareIds::new());
    assert_eq!(
        transport.ping().unwrap_err().message(),
        "ROOT.GetProtocolVersion returned fewer than two bytes"
    );
}

#[test]
fn traffic_is_traced_where_that_is_asked_for() {
    let io = FakeIo::new([vec![], vec![0x11, 1, 0x0a, 0xfe, 3]]);
    let mut transport = HidppTransport::new(io, 1, 10, true, SoftwareIds::new());
    transport.transact_read(0x0a, 0x20, &[7]).unwrap();
    assert_eq!(
        transport.take_trace(),
        [
            "TX dev=0x01 11 01 0A 28 07 00 00 00 00 00 00 00 00 00 00 00 00 00 00 00",
            "RETRY dev=0x01 feature=0x0a function=0x20",
            "TX dev=0x01 11 01 0A 29 07 00 00 00 00 00 00 00 00 00 00 00 00 00 00 00",
            "RX dev=0x01 11 01 0A 29 03",
        ]
    );
    assert!(transport.take_trace().is_empty());
}

#[test]
fn requests_must_fit_their_report() {
    assert!(HidppMessage::request(1, 2, 0x10, &[0; 16], true, &mut SoftwareIds::new()).is_ok());
    assert!(HidppMessage::request(1, 2, 0x10, &[0; 17], true, &mut SoftwareIds::new()).is_err());
    assert!(HidppMessage::request(1, 2, 0x10, &[0; 3], false, &mut SoftwareIds::new()).is_ok());
    assert!(HidppMessage::request(1, 2, 0x10, &[0; 4], false, &mut SoftwareIds::new()).is_err());
    assert!(HidppMessage::request(1, 2, 0x15, &[], true, &mut SoftwareIds::new()).is_err());
    let message = HidppMessage::request(0xff, 2, 0x10, &[1, 2, 3], false, &mut SoftwareIds::new()).unwrap();
    let encoded = message.encode();
    assert_eq!(encoded, [0x10, 0xff, 2, 0x10 | message.software_id, 1, 2, 3]);
}

#[test]
fn replies_are_told_apart() {
    assert_eq!(classify_response(&[0x11, 1, 3, 0x28, 5], 1, 3, 0x28), ResponseKind::Answered(vec![5]));
    assert_eq!(classify_response(&[0x11, 2, 3, 0x28, 5], 1, 3, 0x28), ResponseKind::Ignored);
    assert_eq!(classify_response(&[0x11, 1, 3], 1, 3, 0x28), ResponseKind::Ignored);
    assert_eq!(classify_response(&[0x11, 1, 0xff, 3, 0x28, 9], 1, 3, 0x28), ResponseKind::Failed(9));
    assert_eq!(classify_response(&[0x11, 1, 0xff, 3, 0x28], 1, 3, 0x28), ResponseKind::Ignored);
    assert_eq!(spaced_hex(&[0, 0x1f, 0xff]), "00 1F FF");
    assert_eq!(spaced_hex(&[]), "");
    assert_eq!(protocol_error_name(5), "LOGITECH_INTERNAL");
    assert_eq!(protocol_error_name(99), "UNKNOWN_ERROR");
}
