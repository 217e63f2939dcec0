use fuelmint::digits::write_prefixed;
use fuelmint::receipt::{record_of, records_of, ExecutionReceipt, ReceiptKind, ReceiptRecord};
use fuelmint::relay::{relay_outcome, ConsensusAck, Delivery, RelayError};

#[test]
fn bytes_are_written_behind_the_prefix() {
    assert_eq!(write_prefixed(&[1, 2, 3, 15, 16]), "0x0102030f10");
    assert_eq!(write_prefixed(&[]), "0x");
    assert_eq!(write_prefixed(&[0xab, 0xcd, 0xef, 0x00, 0xff]), "0xabcdef00ff");
}

#[test]
fn a_record_shows_sort_and_payload() {
    let receipt = ExecutionReceipt { kind: ReceiptKind::LogData, payload: vec![0xde, 0xad] };
    assert_eq!(
        record_of(&receipt),
        ReceiptRecord { kind: ReceiptKind::LogData, data: "0xdead".to_string() }
    );
}

#[test]
fn records_keep_the_order_of_the_receipts() {
    let receipts = vec![
        ExecutionReceipt { kind: ReceiptKind::Call, payload: vec![3] },
        ExecutionReceipt { kind: ReceiptKind::Log, payload: vec![1] },
        ExecutionReceipt { kind: ReceiptKind::Return, payload: vec![2] },
        ExecutionReceipt { kind: ReceiptKind::ScriptResult, payload: vec![] },
    ];
    let records = records_of(&receipts);
    assert_eq!(
        records,
        vec![
            ReceiptRecord { kind: ReceiptKind::Call, data: "0x03".to_string() },
            ReceiptRecord { kind: ReceiptKind::Log, data: "0x01".to_string() },
            ReceiptRecord { kind: ReceiptKind::Return, data: "0x02".to_string() },
            ReceiptRecord { kind: ReceiptKind::ScriptResult, data: "0x".to_string() },
        ]
    );
}

#[test]
fn no_receipts_give_no_records() {
    assert_eq!(records_of(&vec![]), vec![]);
}

#[test]
fn an_answer_in_the_two_hundreds_is_a_commit() {
    for status in [200u16, 204, 299] {
        assert_eq!(
            relay_outcome(Delivery::Answered { status, height: Some(12) }),
            Ok(ConsensusAck { height: Some(12) })
        );
    }
    assert_eq!(
        relay_outcome(Delivery::Answered { status: 200, height: None }),
        Ok(ConsensusAck { height: None })
    );
}

#[test]
fn any_other_answer_is_a_rejection() {
    for status in [0u16, 100, 199, 300, 400, 429, 500, u16::MAX] {
        assert_eq!(
            relay_outcome(Delivery::Answered { status, height: Some(1) }),
            Err(RelayError::Rejected)
        );
    }
}

#[test]
fn a_passed_deadline_is_a_timeout() {
    assert_eq!(relay_outcome(Delivery::TimedOut), Err(RelayError::Timeout));
}

#[test]
fn a_failed_connection_is_unreachable() {
    assert_eq!(relay_outcome(Delivery::ConnectFailed), Err(RelayError::Unreachable));
}
