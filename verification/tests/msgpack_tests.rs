use hachimi::msgpack::{
    is_job_reminder_tag, job_reminder_content, plan_reminders, reminder_due, reminder_file_time,
    reminder_message_category, reminder_tag, reminder_text, MsgValue, NotificationFlags,
    ReminderKind, ResponseReader,
};
use rmpv::Value;

fn s(x: &str) -> Value {
    Value::from(x)
}

fn encode(v: &Value) -> Vec<u8> {
    let mut out = Vec::new();
    rmpv::encode::write_value(&mut out, v).unwrap();
    out
}

fn sample_response() -> Value {
    let job = Value::Map(vec![
        (s("jobs_reward_id"), Value::from(12)),
        (s("end_time"), s("2030-01-02 03:04:05")),
        (
            s("attend_card_info_array"),
            Value::Array(vec![Value::Map(vec![(s("card_id"), Value::from(100101))])]),
        ),
    ]);
    let data = Value::Map(vec![
        (s("user_info"), Value::Map(vec![(s("leader_chara_id"), Value::from(1046))])),
        (s("tp_info"), Value::Map(vec![(s("max_recovery_time"), Value::from(5000))])),
        (s("rp_info"), Value::Map(vec![(s("max_recovery_time"), Value::from(100))])),
        (
            s("jobs_load_info"),
            Value::Map(vec![(s("jobs_going_info_array"), Value::Array(vec![Value::Nil, job]))]),
        ),
    ]);
    Value::Map(vec![(s("data_headers"), Value::Nil), (s("data"), data)])
}

const ALL: NotificationFlags = NotificationFlags { tp: true, rp: true, jobs: true };

#[test]
fn response_is_read_through_message_pack() {
    let mut reader = ResponseReader::new();
    assert_eq!(reader.leader_chara_id, 1001);
    let reports = reader.read_response(&encode(&sample_response()), &ALL);
    assert_eq!(reports.len(), 1);
    let r = &reports[0];
    assert_eq!(r.leader_chara_id, 1046);
    assert_eq!(reader.leader_chara_id, 1046);
    assert_eq!(r.tp_recovery_time, Some(5000));
    assert_eq!(r.rp_recovery_time, Some(100));
    let jobs = r.jobs.as_ref().unwrap();
    assert_eq!(jobs.len(), 1);
    assert_eq!(jobs[0].index, 1);
    assert_eq!(jobs[0].reward_id, 12);
    assert_eq!(jobs[0].end_time, "2030-01-02 03:04:05");
    assert_eq!(jobs[0].leader_card_id, 100101);
}

#[test]
fn nothing_is_read_when_reminders_are_off() {
    let mut reader = ResponseReader::new();
    let off = NotificationFlags { tp: false, rp: false, jobs: false };
    assert!(reader.read_response(&encode(&sample_response()), &off).is_empty());
    assert_eq!(reader.leader_chara_id, 1001);
}

#[test]
fn garbage_and_non_maps_report_nothing() {
    let mut reader = ResponseReader::new();
    assert!(reader.read_response(&[0xc1], &ALL).is_empty());
    assert!(reader.read_response(&encode(&Value::from(3)), &ALL).is_empty());
    assert!(reader.read_response(&[], &ALL).is_empty());
}

#[test]
fn leader_id_persists_and_later_entries_win() {
    let mut reader = ResponseReader::new();
    let data = MsgValue::Dict(vec![
        (MsgValue::String(Some("tp_info".to_string())), MsgValue::Dict(vec![
            (MsgValue::String(Some("max_recovery_time".to_string())), MsgValue::Integer(Some(10))),
            (MsgValue::String(Some("max_recovery_time".to_string())), MsgValue::Float),
        ])),
        (MsgValue::String(Some("jobs_going_info_array".to_string())), MsgValue::Array(vec![])),
    ]);
    let top = MsgValue::Dict(vec![(MsgValue::String(Some("data".to_string())), data)]);
    let reports = reader.read_decoded(&top);
    assert_eq!(reports.len(), 1);
    assert_eq!(reports[0].leader_chara_id, 1001);
    assert_eq!(reports[0].tp_recovery_time, None);
    assert_eq!(reports[0].jobs.as_ref().unwrap().len(), 0);
}

#[test]
fn leader_id_is_truncated_to_32_bits() {
    let mut reader = ResponseReader::new();
    let user = MsgValue::Dict(vec![(
        MsgValue::String(Some("leader_chara_id".to_string())),
        MsgValue::Integer(Some(4294967296 + 7)),
    )]);
    let data = MsgValue::Dict(vec![(MsgValue::String(Some("user_info".to_string())), user)]);
    let top = MsgValue::Dict(vec![(MsgValue::String(Some("data".to_string())), data)]);
    reader.read_decoded(&top);
    assert_eq!(reader.leader_chara_id, 7);
}

#[test]
fn reminders_are_planned_for_future_times() {
    let mut reader = ResponseReader::new();
    let reports = reader.read_response(&encode(&sample_response()), &ALL);
    let plan = plan_reminders(&reports[0], &ALL, 1000);
    assert_eq!(plan.reminders.len(), 1);
    assert_eq!(plan.reminders[0].kind, ReminderKind::Tp);
    assert_eq!(plan.reminders[0].time, 5000);
    assert!(plan.replace_job_reminders);
    assert_eq!(plan.jobs.len(), 1);
    let only_rp = NotificationFlags { tp: false, rp: true, jobs: false };
    let plan = plan_reminders(&reports[0], &only_rp, 0);
    assert_eq!(plan.reminders.len(), 1);
    assert_eq!(plan.reminders[0].kind, ReminderKind::Rp);
    assert!(!plan.replace_job_reminders);
    assert!(plan.jobs.is_empty());
}

#[test]
fn reminder_details() {
    assert_eq!(reminder_message_category(ReminderKind::Tp), 184);
    assert_eq!(reminder_message_category(ReminderKind::Rp), 185);
    assert_eq!(reminder_tag(ReminderKind::Tp), "TP");
    assert_eq!(reminder_tag(ReminderKind::Rp), "RP");
    assert!(reminder_due(11, 10));
    assert!(!reminder_due(10, 10));
    assert_eq!(reminder_file_time(0), Some(116444736000000000));
    assert_eq!(reminder_file_time(1), Some(116444736010000000));
    assert_eq!(reminder_file_time(i64::MAX), None);
    assert!(is_job_reminder_tag("Jobs_0"));
    assert!(!is_job_reminder_tag("TP"));
    assert_eq!(reminder_text("a\\nb"), "a\nb");
    assert_eq!(
        job_reminder_content("Go to <jobs_placename>\\nnow", "Track", "Turf"),
        "Go to 【Track】Turf\nnow"
    );
}
