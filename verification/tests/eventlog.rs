use arcp::envelope::Envelope;
use arcp::ids::{JobId, SessionId};
use arcp::messages::{MessageType, PingPayload};
use arcp::runtime::eventlog::EventLog;

fn event(session: Option<&SessionId>, job: Option<&JobId>, seq: Option<u64>) -> Envelope {
    let mut env = Envelope::new(MessageType::Ping(PingPayload::default()));
    env.session_id = session.cloned();
    env.job_id = job.cloned();
    env.event_seq = seq;
    env
}

#[test]
fn replay_selects_later_events_of_the_session_in_order() {
    let s = SessionId::new();
    let other = SessionId::new();
    let job = JobId::new();
    let mut log = EventLog::new();
    log.append(event(Some(&s), None, Some(1)));
    log.append(event(Some(&other), None, Some(2)));
    log.append(event(Some(&s), Some(&job), Some(3)));
    log.append(event(Some(&s), None, None));
    log.append(event(Some(&s), Some(&job), Some(5)));
    assert_eq!(log.len(), 5);
    assert_eq!(log.max_event_seq_for_session(&s), 5);
    assert_eq!(log.max_event_seq_for_session(&other), 2);
    assert_eq!(log.max_event_seq_for_session(&SessionId::new()), 0);
    assert_eq!(log.replay_session_events_after_seq(&s, 1, 100), vec![2, 4]);
    assert_eq!(log.replay_session_events_after_seq(&s, 0, 2), vec![0, 2]);
    assert_eq!(log.replay_job_events_after_seq(&job, 3, 100), vec![4]);
    assert_eq!(log.get(4).event_seq, Some(5));
}

#[test]
fn empty_log_replays_nothing() {
    let log = EventLog::new();
    assert_eq!(log.len(), 0);
    assert!(log.replay_session_events_after_seq(&SessionId::new(), 0, 10).is_empty());
    assert!(log.replay_job_events_after_seq(&JobId::new(), 0, 10).is_empty());
}
