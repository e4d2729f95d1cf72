use yubikey_piv::apdu::{Apdu, Response};
use yubikey_piv::chain::{Template, Transfer, TransferStep, CHAIN_CLA, INS_GET_RESPONSE};
use yubikey_piv::error::Error;

const TEMPL: Template = Template { cla: 0x00, ins: 0xdb, p1: 0x3f, p2: 0xff };

/// Runs a transfer against scripted replies; returns every frame sent and
/// the final step (or `None` when the replies ran out first).
fn drive(t: &mut Transfer, first: Apdu, replies: &[(u16, Vec<u8>)]) -> (Vec<Apdu>, Option<TransferStep>) {
    let mut sent = vec![first];
    for (code, data) in replies {
        match t.receive(Response { code: *code, data: data.clone() }) {
            TransferStep::Send(a) => sent.push(a),
            other => return (sent, Some(other)),
        }
    }
    (sent, None)
}

fn input(len: usize) -> Vec<u8> {
    (0..len).map(|i| (i % 256) as u8).collect()
}

#[test]
fn fragment_count_and_reassembly() {
    for len in [0usize, 1, 254, 255, 256, 509, 510, 511, 765, 1000] {
        let data = input(len);
        let (mut t, first) = Transfer::new(TEMPL, data.clone(), 1024);
        let replies = vec![(0x9000u16, vec![]); 10];
        let (sent, end) = drive(&mut t, first, &replies);
        let expected = if len == 0 { 1 } else { (len + 254) / 255 };
        assert_eq!(sent.len(), expected, "len {}", len);
        let joined: Vec<u8> = sent.iter().flat_map(|a| a.data.clone()).collect();
        assert_eq!(joined, data);
        for (i, a) in sent.iter().enumerate() {
            assert!(a.data.len() <= 255);
            assert_eq!((a.ins, a.p1, a.p2), (0xdb, 0x3f, 0xff));
            if i + 1 < sent.len() {
                assert_eq!(a.cla, CHAIN_CLA);
                assert_eq!(a.data.len(), 255);
            } else {
                assert_eq!(a.cla, 0x00);
            }
        }
        match end {
            Some(TransferStep::Finished(r)) => {
                assert_eq!(r.code, 0x9000);
                assert!(r.data.is_empty());
            }
            _ => panic!("transfer did not finish"),
        }
        assert!(t.is_done());
    }
}

#[test]
fn continuation_drains_more_data() {
    let (mut t, first) = Transfer::new(TEMPL, vec![1, 2, 3], 1024);
    let replies = vec![
        (0x6103u16, vec![0xa1]),
        (0x6102, vec![0xa2, 0xa3]),
        (0x6101, vec![0xa4]),
        (0x9000, vec![0xa5, 0xa6]),
    ];
    let (sent, end) = drive(&mut t, first, &replies);
    assert_eq!(sent.len(), 4);
    for a in &sent[1..] {
        assert_eq!((a.cla, a.ins, a.p1, a.p2), (0, INS_GET_RESPONSE, 0, 0));
        assert!(a.data.is_empty());
    }
    match end {
        Some(TransferStep::Finished(r)) => {
            assert_eq!(r.code, 0x9000);
            assert_eq!(r.data, vec![0xa1, 0xa2, 0xa3, 0xa4, 0xa5, 0xa6]);
        }
        _ => panic!("transfer did not finish"),
    }
}

#[test]
fn continuation_with_no_more_data() {
    let (mut t, first) = Transfer::new(TEMPL, vec![1], 1024);
    let (sent, end) = drive(&mut t, first, &[(0x9000, vec![7, 8])]);
    assert_eq!(sent.len(), 1);
    match end {
        Some(TransferStep::Finished(r)) => assert_eq!(r.data, vec![7, 8]),
        _ => panic!("transfer did not finish"),
    }
}

#[test]
fn failure_while_sending_stops_the_chain() {
    let (mut t, first) = Transfer::new(TEMPL, input(600), 1024);
    let (sent, end) = drive(&mut t, first, &[(0x9000, vec![5]), (0x6a80, vec![]), (0x9000, vec![])]);
    assert_eq!(sent.len(), 2);
    match end {
        Some(TransferStep::Finished(r)) => {
            assert_eq!(r.code, 0x6a80);
            assert_eq!(r.data, vec![5]);
        }
        _ => panic!("transfer did not finish"),
    }
}

#[test]
fn failure_while_draining_drops_output() {
    let (mut t, first) = Transfer::new(TEMPL, vec![1], 1024);
    let (sent, end) = drive(&mut t, first, &[(0x6102, vec![1, 2]), (0x6f00, vec![3])]);
    assert_eq!(sent.len(), 2);
    match end {
        Some(TransferStep::Finished(r)) => {
            assert_eq!(r.code, 0x6f00);
            assert!(r.data.is_empty());
        }
        _ => panic!("transfer did not finish"),
    }
}

#[test]
fn ceiling_while_sending() {
    // exactly at the ceiling passes
    let (mut t, first) = Transfer::new(TEMPL, input(300), 4);
    let (sent, end) = drive(&mut t, first, &[(0x9000, vec![1, 2]), (0x9000, vec![3, 4])]);
    assert_eq!(sent.len(), 2);
    match end {
        Some(TransferStep::Finished(r)) => assert_eq!(r.data, vec![1, 2, 3, 4]),
        _ => panic!("transfer did not finish"),
    }
    // one byte over fails and sends nothing more
    let (mut t, first) = Transfer::new(TEMPL, input(600), 3);
    let (sent, end) = drive(&mut t, first, &[(0x9000, vec![1, 2]), (0x9000, vec![3, 4]), (0x9000, vec![])]);
    assert_eq!(sent.len(), 2);
    assert!(matches!(end, Some(TransferStep::Failed(Error::SizeError))));
    assert!(t.is_done());
}

#[test]
fn ceiling_while_draining() {
    let (mut t, first) = Transfer::new(TEMPL, vec![1], 3);
    let (sent, end) = drive(&mut t, first, &[(0x6102, vec![1, 2]), (0x6101, vec![3]), (0x9000, vec![4])]);
    assert_eq!(sent.len(), 3);
    assert!(matches!(end, Some(TransferStep::Failed(Error::SizeError))));

    let (mut t, first) = Transfer::new(TEMPL, vec![1], 4);
    let (sent, end) = drive(&mut t, first, &[(0x6102, vec![1, 2]), (0x6101, vec![3]), (0x9000, vec![4])]);
    assert_eq!(sent.len(), 3);
    match end {
        Some(TransferStep::Finished(r)) => assert_eq!(r.data, vec![1, 2, 3, 4]),
        _ => panic!("transfer did not finish"),
    }
}

#[test]
fn transfer_wipe_clears_state() {
    let (mut t, _first) = Transfer::new(TEMPL, vec![0x31; 16], 255);
    t.wipe();
    assert!(t.is_done());
}
