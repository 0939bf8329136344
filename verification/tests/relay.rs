use mcast_bridge::agent::{agent_step, AgentAction, AgentEvent};
use mcast_bridge::cancel::CancelFlag;
use mcast_bridge::cfg::CfgMulticastGroup;
use mcast_bridge::errors::RelayError;
use mcast_bridge::forwarder::{forwarder_step, ForwarderAction, ForwarderEvent};
use mcast_bridge::supervisor::{
    plan_tasks, subject_for_group, supervisor_verdict, FailurePolicy, JoinOutcome, SupervisorError,
};

fn grp(addr: &str, interface: &str) -> CfgMulticastGroup {
    CfgMulticastGroup {
        multicast_addr: addr.to_string(),
        interface: interface.to_string(),
    }
}

#[test]
fn forwarder_publishes_datagram_on_group_subject() {
    // A datagram "hello" on 239.0.0.1:5000 with a 1024-byte bound becomes
    // one publish of "hello" on the subject "239.0.0.1:5000".
    let g = grp("239.0.0.1:5000", "eth0");
    assert_eq!(subject_for_group(&g), "239.0.0.1:5000".to_string());
    let a = forwarder_step(ForwarderEvent::Datagram(b"hello".to_vec()), 1024);
    assert_eq!(a, ForwarderAction::Publish(b"hello".to_vec()));
}

#[test]
fn agent_reemits_bus_payload_verbatim() {
    // A bus message "world" on the group's subject becomes one datagram
    // "world" towards the resolved destination.
    let a = agent_step(AgentEvent::BusMessage(b"world".to_vec()));
    assert_eq!(a, AgentAction::SendDatagram(b"world".to_vec()));
}

#[test]
fn oversized_datagram_is_truncated_to_bound() {
    // Four bytes over an eight-byte bound: exactly eight bytes come out,
    // and no error.
    let a = forwarder_step(ForwarderEvent::Datagram(b"abcdefghijkl".to_vec()), 8);
    assert_eq!(a, ForwarderAction::Publish(b"abcdefgh".to_vec()));
}

#[test]
fn datagram_at_bound_passes_untouched() {
    let a = forwarder_step(ForwarderEvent::Datagram(b"abcdefgh".to_vec()), 8);
    assert_eq!(a, ForwarderAction::Publish(b"abcdefgh".to_vec()));
}

#[test]
fn forwarder_keeps_order_within_group() {
    let first = forwarder_step(ForwarderEvent::Datagram(b"first".to_vec()), 1024);
    let second = forwarder_step(ForwarderEvent::Datagram(b"second".to_vec()), 1024);
    assert_eq!(first, ForwarderAction::Publish(b"first".to_vec()));
    assert_eq!(second, ForwarderAction::Publish(b"second".to_vec()));
}

#[test]
fn agent_keeps_order_within_group() {
    let first = agent_step(AgentEvent::BusMessage(b"first".to_vec()));
    let second = agent_step(AgentEvent::BusMessage(b"second".to_vec()));
    assert_eq!(first, AgentAction::SendDatagram(b"first".to_vec()));
    assert_eq!(second, AgentAction::SendDatagram(b"second".to_vec()));
}

#[test]
fn cancellation_ends_both_directions_cleanly() {
    let f = forwarder_step(ForwarderEvent::Cancelled, 1024);
    assert_eq!(f, ForwarderAction::Finish(Ok(())));
    let a = agent_step(AgentEvent::Cancelled);
    assert_eq!(a, AgentAction::Finish(Ok(())));
}

#[test]
fn stream_end_is_clean_termination() {
    let a = agent_step(AgentEvent::StreamClosed);
    assert_eq!(a, AgentAction::Finish(Ok(())));
}

#[test]
fn io_failures_are_fatal_to_the_task() {
    assert_eq!(
        forwarder_step(ForwarderEvent::RecvFailure, 1024),
        ForwarderAction::Finish(Err(RelayError::ReceiveError))
    );
    assert_eq!(
        forwarder_step(ForwarderEvent::PublishFailure, 1024),
        ForwarderAction::Finish(Err(RelayError::PublishError))
    );
    assert_eq!(
        agent_step(AgentEvent::SendFailure),
        AgentAction::Finish(Err(RelayError::SendError))
    );
}

#[test]
fn cancel_twice_equals_cancel_once() {
    let mut once = CancelFlag::new();
    once.cancel();
    let mut twice = CancelFlag::new();
    twice.cancel();
    twice.cancel();
    assert_eq!(once, twice);
    assert!(once.is_cancelled());
    assert!(twice.is_cancelled());
}

#[test]
fn fresh_flag_is_not_cancelled() {
    let f = CancelFlag::new();
    assert!(!f.is_cancelled());
}

#[test]
fn one_task_per_group_in_order() {
    let groups = vec![
        grp("239.0.0.1:5000", "eth0"),
        grp("239.0.0.2:5001", "eth1"),
        grp("239.0.0.1:5000", "eth0"), // duplicates spawn duplicate tasks
    ];
    let plans = plan_tasks(&groups);
    assert_eq!(plans.len(), 3);
    for (plan, g) in plans.iter().zip(groups.iter()) {
        assert_eq!(plan.subject, g.multicast_addr);
        assert_eq!(plan.group.multicast_addr, g.multicast_addr);
        assert_eq!(plan.group.interface, g.interface);
    }
}

#[test]
fn zero_groups_plan_zero_tasks() {
    let plans = plan_tasks(&Vec::new());
    assert!(plans.is_empty());
}

#[test]
fn task_failures_do_not_fail_the_supervisor() {
    let outcomes = vec![
        JoinOutcome::Joined(Ok(())),
        JoinOutcome::Joined(Err(RelayError::PublishError)),
        JoinOutcome::Joined(Err(RelayError::BindError)),
    ];
    let r = supervisor_verdict(FailurePolicy::LogAndContinue, &outcomes);
    assert_eq!(r, Ok(()));
}

#[test]
fn unjoinable_task_fails_the_supervisor() {
    let outcomes = vec![JoinOutcome::Joined(Ok(())), JoinOutcome::JoinFailed];
    let r = supervisor_verdict(FailurePolicy::LogAndContinue, &outcomes);
    assert_eq!(r, Err(SupervisorError::JoinFailure));
}

#[test]
fn abort_all_surfaces_first_task_failure() {
    let outcomes = vec![
        JoinOutcome::Joined(Ok(())),
        JoinOutcome::Joined(Err(RelayError::SendError)),
        JoinOutcome::JoinFailed,
    ];
    let r = supervisor_verdict(FailurePolicy::AbortAll, &outcomes);
    assert_eq!(r, Err(SupervisorError::TaskFailure(RelayError::SendError)));
}

#[test]
fn all_clean_tasks_are_success_under_either_policy() {
    let outcomes = vec![JoinOutcome::Joined(Ok(())), JoinOutcome::Joined(Ok(()))];
    assert_eq!(supervisor_verdict(FailurePolicy::LogAndContinue, &outcomes), Ok(()));
    assert_eq!(supervisor_verdict(FailurePolicy::AbortAll, &outcomes), Ok(()));
}
