use cloud_p2p::job::{
    JobError, JobManagerError, JobRecord, JobReport, JobReportUpdate, JobStatus, RpcErrorCode,
};

fn record() -> JobRecord {
    JobRecord {
        id: (1u8..=16).collect(),
        name: "indexer".to_string(),
        action: Some("scan".to_string()),
        data: Some(vec![1, 2, 3]),
        metadata: Some(b"{\"files\":3}".to_vec()),
        errors_text: Some("first\n\nsecond".to_string()),
        date_created: 1_000,
        date_started: Some(2_000),
        date_completed: None,
        date_estimated_completion: Some(9_000),
        parent_id: None,
        status: 1,
        task_count: 10,
        completed_task_count: 4,
    }
}

#[test]
fn status_codes_decode() {
    let all = [
        JobStatus::Queued,
        JobStatus::Running,
        JobStatus::Completed,
        JobStatus::Canceled,
        JobStatus::Failed,
        JobStatus::Paused,
        JobStatus::CompletedWithErrors,
    ];
    for (i, s) in all.iter().enumerate() {
        assert_eq!(JobStatus::try_from(i as i32).unwrap(), *s);
        assert_eq!(s.code(), i as i32);
    }
}

#[test]
fn unknown_status_code_is_rejected() {
    assert!(matches!(JobStatus::try_from(7), Err(JobError::InvalidJobStatusInt(7))));
    assert!(matches!(JobStatus::try_from(-1), Err(JobError::InvalidJobStatusInt(-1))));
}

#[test]
fn new_report_is_queued() {
    let r = JobReport::new(7, "thumbnailer".to_string());
    assert_eq!(r.id, 7);
    assert_eq!(r.name, "thumbnailer");
    assert_eq!(r.status, JobStatus::Queued);
    assert_eq!(r.task_count, 0);
    assert!(r.action.is_none() && r.parent_id.is_none() && r.errors_text.is_empty());
    let a = JobReport::new_with_action(8, "copy".to_string(), "copy_files");
    assert_eq!(a.action.as_deref(), Some("copy_files"));
    let p = JobReport::new_with_parent(9, "child".to_string(), 8, None);
    assert_eq!(p.parent_id, Some(8));
    assert!(p.action.is_none());
}

#[test]
fn record_becomes_report() {
    let r = JobReport::from_record(record()).unwrap();
    assert_eq!(r.id, 0x0102030405060708090a0b0c0d0e0f10);
    assert_eq!(r.name, "indexer");
    assert_eq!(r.action.as_deref(), Some("scan"));
    assert_eq!(r.data, Some(vec![1, 2, 3]));
    assert!(r.metadata.is_some());
    assert_eq!(r.errors_text, vec!["first".to_string(), "second".to_string()]);
    assert_eq!(r.created_at, Some(1_000));
    assert_eq!(r.started_at, Some(2_000));
    assert_eq!(r.completed_at, None);
    assert_eq!(r.status, JobStatus::Running);
    assert_eq!(r.task_count, 10);
    assert_eq!(r.completed_task_count, 4);
    assert_eq!(r.estimated_completion, 9_000);
    assert!(!r.is_background);
}

#[test]
fn record_with_parent_and_null_metadata() {
    let mut rec = record();
    rec.parent_id = Some(vec![0; 15].into_iter().chain([255u8]).collect());
    rec.metadata = Some(b"null".to_vec());
    rec.errors_text = None;
    let r = JobReport::from_record(rec).unwrap();
    assert_eq!(r.parent_id, Some(255));
    assert!(r.metadata.is_none());
    assert!(r.errors_text.is_empty());
}

#[test]
fn corrupted_records_are_rejected() {
    let mut rec = record();
    rec.id = vec![1, 2, 3];
    assert!(matches!(JobReport::from_record(rec), Err(JobError::InvalidJobId(3))));
    let mut rec = record();
    rec.parent_id = Some(vec![0; 20]);
    assert!(matches!(JobReport::from_record(rec), Err(JobError::InvalidJobId(20))));
    let mut rec = record();
    rec.status = 42;
    assert!(matches!(JobReport::from_record(rec), Err(JobError::InvalidJobStatusInt(42))));
}

#[test]
fn errors_are_stored_joined() {
    let mut r = JobReport::new(1, "job".to_string());
    assert_eq!(r.errors_text_for_storage(), None);
    r.errors_text = vec!["a".to_string(), "b".to_string()];
    assert_eq!(r.errors_text_for_storage(), Some("a\n\nb".to_string()));
}

#[test]
fn progress_updates_are_values() {
    let u = JobReportUpdate::TaskCount(3);
    assert!(matches!(u, JobReportUpdate::TaskCount(3)));
    let m = JobReportUpdate::Message("halfway".to_string());
    assert!(matches!(m, JobReportUpdate::Message(ref s) if s == "halfway"));
}

#[test]
fn manager_errors_map_to_rpc_codes() {
    let running = JobManagerError::AlreadyRunningJob { name: "indexer".to_string(), hash: 1 };
    assert_eq!(running.rpc_code(), RpcErrorCode::BadRequest);
    assert_eq!(running.rpc_message(), "Tried to spawn a job that is already running!");
    let db = JobManagerError::Database("down".to_string());
    assert_eq!(db.rpc_code(), RpcErrorCode::InternalServerError);
    assert_eq!(db.rpc_message(), "Error accessing the database");
    let missing = JobManagerError::NotFound(3);
    assert_eq!(missing.rpc_code(), RpcErrorCode::NotFound);
    assert_eq!(missing.rpc_message(), "Job not found");
    let job = JobManagerError::Job(JobError::OsStr);
    assert_eq!(job.rpc_code(), RpcErrorCode::InternalServerError);
    assert_eq!(job.rpc_message(), "Job error");
}

#[test]
fn report_description_names_job_and_status() {
    let r = JobReport::new(0x0123456789abcdef0123456789abcdef, "indexer".to_string());
    assert_eq!(
        r.description(),
        "Job <name='indexer', uuid='01234567-89ab-cdef-0123-456789abcdef'> Queued"
    );
}

#[test]
fn created_report_keeps_its_other_fields() {
    let mut r = JobReport::new_with_parent(4, "child".to_string(), 2, Some("scan".to_string()));
    r.mark_created(1_234);
    assert_eq!(r.created_at, Some(1_234));
    assert_eq!(r.id, 4);
    assert_eq!(r.parent_id, Some(2));
    assert_eq!(r.action.as_deref(), Some("scan"));
    assert_eq!(r.status, JobStatus::Queued);
}

#[test]
fn stored_columns_of_a_report() {
    let mut r = JobReport::from_record(record()).unwrap();
    r.status = JobStatus::CompletedWithErrors;
    let c = r.columns();
    assert_eq!(c.id, 0x0102030405060708090a0b0c0d0e0f10);
    assert_eq!(c.name, "indexer");
    assert_eq!(c.action.as_deref(), Some("scan"));
    assert_eq!(c.data, Some(vec![1, 2, 3]));
    assert_eq!(c.errors_text.as_deref(), Some("first\n\nsecond"));
    assert_eq!(c.created_at, Some(1_000));
    assert_eq!(c.started_at, Some(2_000));
    assert_eq!(c.completed_at, None);
    assert_eq!(c.parent_id, None);
    assert_eq!(c.status, 6);
    assert_eq!(c.task_count, 10);
    assert_eq!(c.completed_task_count, 4);
}

#[test]
fn errors_split_at_leftmost_blank_line() {
    let mut rec = record();
    rec.errors_text = Some("a\n\n\nb\n\n".to_string());
    let r = JobReport::from_record(rec).unwrap();
    assert_eq!(r.errors_text, vec!["a".to_string(), "\nb".to_string(), String::new()]);
}

#[test]
fn unparsable_metadata_is_dropped() {
    let mut rec = record();
    rec.metadata = Some(b"{not json".to_vec());
    let r = JobReport::from_record(rec).unwrap();
    assert!(r.metadata.is_none());
}
