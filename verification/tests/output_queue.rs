//! Bounded output lanes and the budget that they share.

use termd::pty::supervisor::output_queue::{
    BoundedSupervisorOutputQueue, SupervisorOutputQueueBudget, SupervisorWriterQueues,
    TerminalFrameLane,
};
use termd::pty::supervisor::protocol::{
    SupervisorFrame, SupervisorResponse, SupervisorResponsePayload,
};
use termd::pty::{PtySize, PtyTerminalFrame};

const TEST_SUPERVISOR_OUTPUT_QUEUE_MAX_BYTES: usize = 8 * 1024 * 1024;

#[test]
fn shared_output_budget_releases_on_consume_drop_and_failed_send() {
    let mut budget = SupervisorOutputQueueBudget::new();
    let mut first: BoundedSupervisorOutputQueue<u8> = BoundedSupervisorOutputQueue::new();
    let mut second: BoundedSupervisorOutputQueue<u8> = BoundedSupervisorOutputQueue::new();
    first
        .try_send(&mut budget, 1, TEST_SUPERVISOR_OUTPUT_QUEUE_MAX_BYTES)
        .expect("first lane should reserve the full shared byte budget");
    let held = first
        .recv_reserved()
        .expect("reserved message should be received");
    assert!(second.try_send(&mut budget, 2, 1).is_err());
    assert_eq!(held.into_inner(&mut budget), 1);
    second
        .try_send(&mut budget, 2, 1)
        .expect("dropping the in-flight message should release its reservation");
    assert_eq!(second.try_recv(&mut budget), Some(2));

    let mut closed: BoundedSupervisorOutputQueue<u8> = BoundedSupervisorOutputQueue::new();
    closed.close();
    assert!(closed
        .try_send(&mut budget, 3, TEST_SUPERVISOR_OUTPUT_QUEUE_MAX_BYTES)
        .is_err());
    second
        .try_send(&mut budget, 4, TEST_SUPERVISOR_OUTPUT_QUEUE_MAX_BYTES)
        .expect("failed channel send must release its reservation");
    assert_eq!(second.try_recv(&mut budget), Some(4));

    for _ in 0..64 {
        first
            .try_send(&mut budget, 5, 0)
            .expect("first lane message should reserve");
        second
            .try_send(&mut budget, 6, 0)
            .expect("second lane message should reserve");
    }
    assert!(first.try_send(&mut budget, 7, 0).is_err());
    assert_eq!(first.try_recv(&mut budget), Some(5));
    first
        .try_send(&mut budget, 7, 0)
        .expect("consuming one message should release the shared count budget");
}

#[test]
fn lanes_keep_order_and_drop_what_a_snapshot_covers() {
    let mut lane = TerminalFrameLane::new();
    for seq in 1..=4u64 {
        lane.try_send(PtyTerminalFrame::Output {
            terminal_seq: seq,
            data: vec![seq as u8],
        })
        .unwrap();
    }
    assert_eq!(
        lane.try_recv(),
        Some(PtyTerminalFrame::Output {
            terminal_seq: 1,
            data: vec![1],
        })
    );
    assert_eq!(
        lane.drain_after_sync(3),
        vec![PtyTerminalFrame::Output {
            terminal_seq: 4,
            data: vec![4],
        }]
    );
    assert_eq!(lane.try_recv(), None);
    assert!(!lane.overflowed());
}

#[test]
fn full_lanes_say_that_they_overflowed() {
    let mut lane = TerminalFrameLane::new();
    for seq in 1..=128u64 {
        lane.try_send(PtyTerminalFrame::Resize {
            terminal_seq: seq,
            size: PtySize::default(),
        })
        .unwrap();
    }
    assert!(lane
        .try_send(PtyTerminalFrame::Exit {
            terminal_seq: 129,
            code: None,
        })
        .is_err());
    assert!(lane.overflowed());
}

#[test]
fn replies_are_written_before_output() {
    let output = SupervisorFrame::TerminalFrame {
        frame: PtyTerminalFrame::Output {
            terminal_seq: 1,
            data: b"data".to_vec(),
        },
    };
    let reply = SupervisorFrame::Response {
        request_id: 1,
        response: SupervisorResponse::Success {
            payload: SupervisorResponsePayload::Empty,
        },
    };
    let mut queues = SupervisorWriterQueues::new();
    queues.push_data(output, 4).unwrap();
    queues.push_control(reply, 4).unwrap();
    assert!(matches!(
        queues.begin_write(),
        Some(SupervisorFrame::Response { request_id: 1, .. })
    ));
    queues.finish_write();
    assert!(matches!(
        queues.begin_write(),
        Some(SupervisorFrame::TerminalFrame { .. })
    ));
    queues.finish_write();
    assert!(queues.begin_write().is_none());
}
