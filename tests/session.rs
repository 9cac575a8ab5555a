use rscpi::header::pack_dev_dep_msg_out;
use rscpi::session::{finish_message, is_query, split_response, Action, Event, Phase, Session};
use rscpi::UsbtmcErrors;

/// A device that answers each DEV_DEP_MSG_IN request with its next reply
/// (payload, end of message), handed out in reads of at most the length asked.
struct SimDevice {
    replies: Vec<(Vec<u8>, bool)>,
    sent: Vec<Vec<u8>>,
    pending: Vec<u8>,
    reads: Vec<usize>,
    fail_out_at: Option<usize>,
    fail_in: bool,
    wrong_tag: bool,
}

impl SimDevice {
    fn new(replies: Vec<(Vec<u8>, bool)>) -> SimDevice {
        SimDevice {
            replies,
            sent: Vec::new(),
            pending: Vec::new(),
            reads: Vec::new(),
            fail_out_at: None,
            fail_in: false,
            wrong_tag: false,
        }
    }

    fn bulk_out(&mut self, data: Vec<u8>) -> Event {
        if self.fail_out_at == Some(self.sent.len()) {
            self.sent.push(data);
            return Event::SendFailed;
        }
        if data[0] == 2 {
            let tag = if self.wrong_tag { data[1].wrapping_add(1) } else { data[1] };
            let (payload, eom) = self.replies.remove(0);
            let mut bytes = vec![2, tag, !tag, 0];
            bytes.extend_from_slice(&(payload.len() as u32).to_le_bytes());
            bytes.extend_from_slice(&[eom as u8, 0, 0, 0]);
            bytes.extend_from_slice(&payload);
            self.pending = bytes;
        }
        self.sent.push(data);
        Event::Sent
    }

    fn bulk_in(&mut self, len: usize) -> Event {
        if self.fail_in {
            return Event::ReceiveFailed;
        }
        let n = len.min(self.pending.len());
        let fragment: Vec<u8> = self.pending.drain(..n).collect();
        self.reads.push(n);
        Event::Received(fragment)
    }
}

fn run(session: &mut Session, device: &mut SimDevice, command: &str) -> Result<Vec<u8>, UsbtmcErrors> {
    let mut action = session.begin(command);
    loop {
        action = match action {
            Action::BulkOut { data, .. } => {
                let event = device.bulk_out(data);
                session.step(event)
            }
            Action::BulkIn { len, .. } => {
                let event = device.bulk_in(len);
                session.step(event)
            }
            Action::Done(result) => return Ok(result),
            Action::Failed(e) => return Err(e),
        }
    }
}

fn response(tag: u8, eom: bool, payload: &[u8]) -> Vec<u8> {
    let mut bytes = vec![2, tag, !tag, 0];
    bytes.extend_from_slice(&(payload.len() as u32).to_le_bytes());
    bytes.extend_from_slice(&[eom as u8, 0, 0, 0]);
    bytes.extend_from_slice(payload);
    bytes
}

#[test]
fn query_detection() {
    assert!(is_query(b"*IDN?"));
    assert!(!is_query(b"*RST"));
    assert!(is_query(b":SYSTem:ERRor?"));
    assert!(!is_query(b""));
    assert!(is_query(b"?"));
}

#[test]
fn idn_end_to_end() {
    let mut session = Session::new(0x81, 0x02, 64);
    let mut device = SimDevice::new(vec![(b"Vendor,Model,0,1.0\n".to_vec(), true)]);
    let result = run(&mut session, &mut device, "*IDN?");
    assert_eq!(result, Ok(b"Vendor,Model,0,1.0".to_vec()));
    assert_eq!(device.sent.len(), 2);
    assert_eq!(device.sent[0], pack_dev_dep_msg_out(b"*IDN?\n", 1));
    assert_eq!(device.sent[1], vec![2, 2, 253, 0, 0, 0, 0x10, 0, 0, 0, 0, 0]);
    assert_eq!(session.phase(), Phase::Idle);
    assert_eq!(session.tag(), 2);
}

#[test]
fn missing_terminator_is_invalid() {
    let mut session = Session::new(0x81, 0x02, 64);
    let mut device = SimDevice::new(vec![(b"Vendor,Model,0,1.0".to_vec(), true)]);
    let result = run(&mut session, &mut device, "*IDN?");
    assert_eq!(result, Err(UsbtmcErrors::InvalidData));
    assert_eq!(session.phase(), Phase::Idle);
}

#[test]
fn empty_response_is_invalid() {
    let mut session = Session::new(0x81, 0x02, 64);
    let mut device = SimDevice::new(vec![(Vec::new(), true)]);
    assert_eq!(run(&mut session, &mut device, "*IDN?"), Err(UsbtmcErrors::InvalidData));
}

#[test]
fn multi_fragment_assembly() {
    let mut payload = vec![b'a'; 27];
    payload.push(b'\n');
    let mut session = Session::new(0x81, 0x02, 16);
    let mut device = SimDevice::new(vec![(payload, true)]);
    let result = run(&mut session, &mut device, "DATA?");
    assert_eq!(device.reads, vec![16, 16, 8]);
    assert_eq!(result, Ok(vec![b'a'; 27]));
}

#[test]
fn multi_fragment_steps() {
    let mut session = Session::new(0x81, 0x02, 16);
    let action = session.begin("DATA?");
    assert!(matches!(action, Action::BulkOut { endpoint: 0x02, .. }));
    let action = session.step(Event::Sent);
    assert!(matches!(action, Action::BulkOut { endpoint: 0x02, .. }));
    let action = session.step(Event::Sent);
    assert!(matches!(action, Action::BulkIn { endpoint: 0x81, len: 16 }));
    let mut payload = vec![b'z'; 27];
    payload.push(b'\n');
    let bytes = response(session.tag(), true, &payload);
    assert_eq!(bytes.len(), 40);
    let action = session.step(Event::Received(bytes[0..16].to_vec()));
    assert!(matches!(action, Action::BulkIn { endpoint: 0x81, len: 16 }));
    let action = session.step(Event::Received(bytes[16..32].to_vec()));
    assert!(matches!(action, Action::BulkIn { endpoint: 0x81, len: 16 }));
    match session.step(Event::Received(bytes[32..40].to_vec())) {
        Action::Done(result) => assert_eq!(result, vec![b'z'; 27]),
        _ => panic!("the third, shorter fragment completes the response"),
    }
}

#[test]
fn full_last_fragment_needs_empty_read() {
    let payload = b"abc\n".to_vec();
    let mut session = Session::new(0x81, 0x02, 8);
    let mut device = SimDevice::new(vec![(payload, true)]);
    let result = run(&mut session, &mut device, "X?");
    assert_eq!(device.reads, vec![8, 8, 0]);
    assert_eq!(result, Ok(b"abc".to_vec()));
}

#[test]
fn multi_request_assembly() {
    let mut session = Session::new(0x81, 0x02, 64);
    let mut device = SimDevice::new(vec![
        (b"first half, ".to_vec(), false),
        (b"second half\n".to_vec(), true),
    ]);
    let result = run(&mut session, &mut device, ":WAVeform:DATA?");
    assert_eq!(result, Ok(b"first half, second half".to_vec()));
    assert_eq!(device.sent.len(), 3);
    assert_eq!(device.sent[1][1], 2);
    assert_eq!(device.sent[2][1], 3);
}

#[test]
fn non_query_sends_once() {
    let mut session = Session::new(0x81, 0x02, 64);
    let mut device = SimDevice::new(Vec::new());
    assert_eq!(run(&mut session, &mut device, "*RST"), Ok(Vec::new()));
    assert_eq!(device.sent, vec![pack_dev_dep_msg_out(b"*RST\n", 1)]);
    assert!(device.reads.is_empty());
}

#[test]
fn tags_advance_across_transactions() {
    let mut session = Session::new(0x81, 0x02, 64);
    let mut device = SimDevice::new(vec![(b"1\n".to_vec(), true), (b"0\n".to_vec(), true)]);
    assert_eq!(run(&mut session, &mut device, "*OPC?"), Ok(b"1".to_vec()));
    assert_eq!(run(&mut session, &mut device, "*CLS"), Ok(Vec::new()));
    assert_eq!(run(&mut session, &mut device, "*ESR?"), Ok(b"0".to_vec()));
    let tags: Vec<u8> = device.sent.iter().map(|m| m[1]).collect();
    assert_eq!(tags, vec![1, 2, 3, 4, 5]);
}

#[test]
fn bad_chunk_size() {
    for size in [0usize, 1024 * 1024 + 1] {
        let mut session = Session::new(0x81, 0x02, size);
        let mut device = SimDevice::new(vec![(b"x\n".to_vec(), true)]);
        assert_eq!(run(&mut session, &mut device, "*IDN?"), Err(UsbtmcErrors::BadBufferSize));
        assert_eq!(device.sent.len(), 1);
    }
    let mut session = Session::new(0x81, 0x02, 1024 * 1024);
    let mut device = SimDevice::new(vec![(b"x\n".to_vec(), true)]);
    assert_eq!(run(&mut session, &mut device, "*IDN?"), Ok(b"x".to_vec()));
}

#[test]
fn bulk_out_failure() {
    for at in [0usize, 1] {
        let mut session = Session::new(0x81, 0x02, 64);
        let mut device = SimDevice::new(vec![(b"x\n".to_vec(), true)]);
        device.fail_out_at = Some(at);
        assert_eq!(
            run(&mut session, &mut device, "*IDN?"),
            Err(UsbtmcErrors::BulkOutTransferError)
        );
        assert_eq!(session.phase(), Phase::Idle);
    }
}

#[test]
fn bulk_in_failure() {
    let mut session = Session::new(0x81, 0x02, 64);
    let mut device = SimDevice::new(vec![(b"x\n".to_vec(), true)]);
    device.fail_in = true;
    assert_eq!(run(&mut session, &mut device, "*IDN?"), Err(UsbtmcErrors::BulkInTransferError));
}

#[test]
fn mismatched_tag_is_invalid() {
    let mut session = Session::new(0x81, 0x02, 64);
    let mut device = SimDevice::new(vec![(b"x\n".to_vec(), true)]);
    device.wrong_tag = true;
    assert_eq!(run(&mut session, &mut device, "*IDN?"), Err(UsbtmcErrors::InvalidData));
}

#[test]
fn truncated_response_header_is_invalid() {
    let mut session = Session::new(0x81, 0x02, 64);
    session.begin("*IDN?");
    session.step(Event::Sent);
    session.step(Event::Sent);
    let action = session.step(Event::Received(vec![2, 2, 253, 0, 1]));
    assert!(matches!(action, Action::Failed(UsbtmcErrors::InvalidData)));
}

#[test]
fn unexpected_event_ends_transaction() {
    let mut session = Session::new(0x81, 0x02, 64);
    assert!(matches!(session.step(Event::Sent), Action::Failed(UsbtmcErrors::InvalidData)));
    session.begin("*IDN?");
    let action = session.step(Event::Received(vec![1, 2, 3]));
    assert!(matches!(action, Action::Failed(UsbtmcErrors::InvalidData)));
    assert_eq!(session.phase(), Phase::Idle);
}

#[test]
fn session_accessors() {
    let session = Session::new(0x83, 0x04, 512);
    assert_eq!(session.endpoint_in(), 0x83);
    assert_eq!(session.endpoint_out(), 0x04);
    assert_eq!(session.chunk_size(), 512);
    assert_eq!(session.tag(), 0);
    assert_eq!(session.phase(), Phase::Idle);
}

#[test]
fn split_response_strips_header() {
    let bytes = response(5, false, b"payload");
    assert_eq!(split_response(&bytes, 5), Ok((b"payload".to_vec(), false)));
    let bytes = response(5, true, b"");
    assert_eq!(split_response(&bytes, 5), Ok((Vec::new(), true)));
    assert_eq!(split_response(&bytes, 6), Err(UsbtmcErrors::InvalidData));
    assert_eq!(split_response(&bytes[..11], 5), Err(UsbtmcErrors::InvalidData));
}

#[test]
fn finish_message_checks_terminator() {
    assert_eq!(finish_message(b"abc\n".to_vec()), Ok(b"abc".to_vec()));
    assert_eq!(finish_message(b"\n".to_vec()), Ok(Vec::new()));
    assert_eq!(finish_message(b"abc".to_vec()), Err(UsbtmcErrors::InvalidData));
    assert_eq!(finish_message(Vec::new()), Err(UsbtmcErrors::InvalidData));
}
