use forum_core::admission::{admit_comment_request, admit_post_request};
use forum_core::models::{CreateCommentRequest, CreatePostRequest};
use forum_core::queue::{AsyncQueueService, QueueTask};
use forum_core::status::{TaskPayload, TaskStatus};
use forum_core::storage::{ContentStore, StorageError};
use forum_core::verify::{LedgerLookup, TransactionDetails};

const CONTRACT: &str = "0xf0552b6b9b21100251e4a92b9e00cde7cdc54d49";
const POST_COST: u128 = 1000;

fn post_request(title: &str, content: &str, author: &str, tx: &str) -> CreatePostRequest {
    CreatePostRequest {
        title: title.to_string(),
        content: content.to_string(),
        author_address: author.to_string(),
        author_name: None,
        tags: Vec::new(),
        image: None,
        blockchain_transaction_hash: Some(tx.to_string()),
        blockchain_transaction_proof: None,
        blockchain_post_id: None,
    }
}

fn comment_request(post_id: &str, content: &str, author: &str, tx: &str) -> CreateCommentRequest {
    CreateCommentRequest {
        post_id: post_id.to_string(),
        content: content.to_string(),
        author_address: author.to_string(),
        author_name: None,
        parent_id: None,
        image: None,
        blockchain_transaction_hash: Some(tx.to_string()),
    }
}

fn mined(tx: &str, from: &str) -> LedgerLookup {
    LedgerLookup::Mined(TransactionDetails {
        hash: tx.to_string(),
        from: from.to_string(),
        to: Some(CONTRACT.to_string()),
        value: POST_COST,
        gas_used: 21000,
        block_number: 42,
        block_timestamp: 1700000000,
        log_addresses: vec![CONTRACT.to_string()],
    })
}

fn run_head_task(service: &mut AsyncQueueService, lookup: LedgerLookup, entity_id: &str, now: u64) -> String {
    let task = service.begin_next_task().expect("a task should be queued");
    let task_id = task.task_id().clone();
    service.process_task(task, lookup, CONTRACT, POST_COST, entity_id.to_string(), now);
    task_id
}

#[test]
fn submitted_task_reads_pending_before_any_worker_touches_it() {
    let mut service = AsyncQueueService::new();
    let id = service
        .submit_post_creation(post_request("A", "B", "0xAA", "0x01"), "0x01".to_string(), 1000)
        .unwrap();
    let rec = service.get_task_status(&id).expect("registered on submit");
    assert!(matches!(rec.status, TaskStatus::Pending));
    assert_eq!(rec.created_at, 1000);
    assert!(rec.completed_at.is_none());
    assert!(rec.result_data.is_none());
}

#[test]
fn statuses_observed_in_lifecycle_order() {
    let mut service = AsyncQueueService::new();
    let id = service
        .submit_post_creation(post_request("A", "B", "0xAA", "0x01"), "0x01".to_string(), 1000)
        .unwrap();
    assert!(matches!(service.get_task_status(&id).unwrap().status, TaskStatus::Pending));

    let task = service.begin_next_task().unwrap();
    assert!(matches!(service.get_task_status(&id).unwrap().status, TaskStatus::Processing));

    service.process_task(task, mined("0x01", "0xAA"), CONTRACT, POST_COST, "post-1".to_string(), 1010);
    let rec = service.get_task_status(&id).unwrap();
    assert!(matches!(rec.status, TaskStatus::Completed | TaskStatus::Failed(_)));
    assert_eq!(rec.completed_at, Some(1010));
}

#[test]
fn successful_post_creation_completes_with_payload() {
    let mut service = AsyncQueueService::new();
    let id = service
        .submit_post_creation(post_request("A", "B", "0xAA", "0x01"), "0x01".to_string(), 1000)
        .unwrap();
    run_head_task(&mut service, mined("0x01", "0xAA"), "post-1", 1010);

    let rec = service.get_task_status(&id).unwrap();
    assert!(matches!(rec.status, TaskStatus::Completed));
    match rec.result_data.as_ref().expect("completed tasks carry a payload") {
        TaskPayload::PostCreated { post_id, transaction_hash } => {
            assert_eq!(post_id, "post-1");
            assert_eq!(transaction_hash, "0x01");
        }
        other => panic!("unexpected payload {:?}", other),
    }
    assert_eq!(service.store.posts.len(), 1);
    let stored = &service.store.posts[0];
    assert_eq!(stored.post.id, "post-1");
    assert_eq!(stored.post.title, "A");
    assert_eq!(stored.post.content, "B");
    assert_eq!(stored.post.author_address, "0xAA");
    assert_eq!(stored.post.created_at, 1010);
    assert_eq!(stored.post.likes, 0);
    // The persistence layer's digest of the body "B".
    assert_eq!(stored.content_hash, "9d5ed678fe57bcca610140957afab571");
    assert_eq!(stored.blockchain_transaction_hash.as_deref(), Some("0x01"));
    assert_eq!(service.store.used_transactions.len(), 1);
    assert_eq!(service.store.used_transactions[0].transaction_hash, "0x01");
    assert_eq!(service.store.used_transactions[0].entity_id, "post-1");
    assert_eq!(service.store.used_transactions[0].block_number, 42);
}

#[test]
fn reusing_a_transaction_reference_completes_exactly_once() {
    let mut service = AsyncQueueService::new();
    let id1 = service
        .submit_post_creation(post_request("A", "B", "0xAA", "0x02"), "0x02".to_string(), 1000)
        .unwrap();
    let id2 = service
        .submit_post_creation(post_request("A2", "B2", "0xAA", "0x02"), "0x02".to_string(), 1001)
        .unwrap();

    run_head_task(&mut service, mined("0x02", "0xAA"), "post-1", 1010);
    run_head_task(&mut service, mined("0x02", "0xAA"), "post-2", 1020);

    let rec1 = service.get_task_status(&id1).unwrap();
    let rec2 = service.get_task_status(&id2).unwrap();
    assert!(matches!(rec1.status, TaskStatus::Completed));
    match &rec2.status {
        TaskStatus::Failed(reason) => assert!(reason.contains("used")),
        other => panic!("second task should fail, got {:?}", other),
    }
    assert_eq!(service.store.posts.len(), 1);
    assert_eq!(service.store.used_transactions.len(), 1);
}

#[test]
fn sender_mismatch_fails_task_and_persists_nothing() {
    let mut service = AsyncQueueService::new();
    let id = service
        .submit_post_creation(post_request("A", "B", "0xAA", "0x03"), "0x03".to_string(), 1000)
        .unwrap();
    run_head_task(&mut service, mined("0x03", "0xBB"), "post-1", 1010);

    let rec = service.get_task_status(&id).unwrap();
    match &rec.status {
        TaskStatus::Failed(reason) => {
            assert_eq!(reason, "Blockchain verification failed: Transaction sender mismatch");
        }
        other => panic!("expected failure, got {:?}", other),
    }
    assert!(service.store.posts.is_empty());
    assert!(service.store.comments.is_empty());
    assert!(service.store.used_transactions.is_empty());
    assert!(rec.result_data.is_none());
}

#[test]
fn each_verification_failure_reports_its_reason() {
    let cases: Vec<(LedgerLookup, &str)> = vec![
        (
            LedgerLookup::NotFound,
            "Blockchain verification failed: Transaction does not exist or is not yet confirmed",
        ),
        (
            LedgerLookup::NotMined,
            "Blockchain verification failed: Transaction has not been included in a block yet",
        ),
        (
            {
                let mut d = match mined("0x04", "0xAA") {
                    LedgerLookup::Mined(d) => d,
                    _ => unreachable!(),
                };
                d.to = None;
                LedgerLookup::Mined(d)
            },
            "Blockchain verification failed: Transaction target contract address incorrect",
        ),
        (
            {
                let mut d = match mined("0x04", "0xAA") {
                    LedgerLookup::Mined(d) => d,
                    _ => unreachable!(),
                };
                d.to = Some("0xsomewhereelse".to_string());
                LedgerLookup::Mined(d)
            },
            "Blockchain verification failed: Transaction target contract address incorrect",
        ),
        (
            {
                let mut d = match mined("0x04", "0xAA") {
                    LedgerLookup::Mined(d) => d,
                    _ => unreachable!(),
                };
                d.log_addresses = vec!["0xother".to_string()];
                LedgerLookup::Mined(d)
            },
            "Blockchain verification failed: No contract event found in transaction",
        ),
        (
            {
                let mut d = match mined("0x04", "0xAA") {
                    LedgerLookup::Mined(d) => d,
                    _ => unreachable!(),
                };
                d.value = POST_COST - 1;
                LedgerLookup::Mined(d)
            },
            "Blockchain verification failed: Insufficient payment amount",
        ),
    ];
    for (lookup, expected) in cases {
        let mut service = AsyncQueueService::new();
        let id = service
            .submit_post_creation(post_request("A", "B", "0xAA", "0x04"), "0x04".to_string(), 1000)
            .unwrap();
        run_head_task(&mut service, lookup, "post-1", 1010);
        match &service.get_task_status(&id).unwrap().status {
            TaskStatus::Failed(reason) => assert_eq!(reason, expected),
            other => panic!("expected failure, got {:?}", other),
        }
        assert!(service.store.posts.is_empty());
    }
}

#[test]
fn duplicate_comment_rejected_inside_window_and_accepted_after() {
    let mut service = AsyncQueueService::new();
    let content = "Hello duplicate world";

    let id1 = service
        .submit_comment_creation(comment_request("post-0", content, "0xAA", "0xc1"), "0xc1".to_string(), 1000)
        .unwrap();
    run_head_task(&mut service, mined("0xc1", "0xAA"), "comment-1", 1000);
    assert!(matches!(service.get_task_status(&id1).unwrap().status, TaskStatus::Completed));

    // Same author, same body, same post, 100 seconds later: inside the window.
    let id2 = service
        .submit_comment_creation(comment_request("post-0", content, "0xAA", "0xc2"), "0xc2".to_string(), 1100)
        .unwrap();
    run_head_task(&mut service, mined("0xc2", "0xAA"), "comment-2", 1100);
    match &service.get_task_status(&id2).unwrap().status {
        TaskStatus::Failed(reason) => assert!(reason.contains("same content")),
        other => panic!("expected duplicate rejection, got {:?}", other),
    }

    // Once the five-minute window has elapsed, the same comment goes through.
    let id3 = service
        .submit_comment_creation(comment_request("post-0", content, "0xAA", "0xc3"), "0xc3".to_string(), 1301)
        .unwrap();
    run_head_task(&mut service, mined("0xc3", "0xAA"), "comment-3", 1301);
    assert!(matches!(service.get_task_status(&id3).unwrap().status, TaskStatus::Completed));

    assert_eq!(service.store.comments.len(), 2);
    // The sink's digest of the comment body.
    assert_eq!(
        service.store.comments[0].comment.content_hash,
        "4fefa7c143bd1551644349d8a44fb6244279453f9d72734be4fcdbbafb5c6195"
    );
}

#[test]
fn duplicate_post_rejected_inside_window() {
    let mut service = AsyncQueueService::new();
    let id1 = service
        .submit_post_creation(post_request("T", "Same body", "0xAA", "0xd1"), "0xd1".to_string(), 2000)
        .unwrap();
    run_head_task(&mut service, mined("0xd1", "0xAA"), "post-1", 2000);
    assert!(matches!(service.get_task_status(&id1).unwrap().status, TaskStatus::Completed));

    let id2 = service
        .submit_post_creation(post_request("T2", "Same body", "0xAA", "0xd2"), "0xd2".to_string(), 2100)
        .unwrap();
    run_head_task(&mut service, mined("0xd2", "0xAA"), "post-2", 2100);
    match &service.get_task_status(&id2).unwrap().status {
        TaskStatus::Failed(reason) => assert!(reason.contains("same content")),
        other => panic!("expected duplicate rejection, got {:?}", other),
    }
}

#[test]
fn single_worker_drains_two_unrelated_tasks() {
    let mut service = AsyncQueueService::new();
    let id1 = service
        .submit_post_creation(post_request("One", "First body", "0xAA", "0xe1"), "0xe1".to_string(), 3000)
        .unwrap();
    let id2 = service
        .submit_comment_creation(
            comment_request("post-0", "A comment", "0xBB", "0xe2"),
            "0xe2".to_string(),
            3001,
        )
        .unwrap();

    // One worker: strictly sequential hand-off, head task first.
    let first = service.begin_next_task().unwrap();
    assert!(matches!(first, QueueTask::PostCreation { .. }));
    service.process_task(first, mined("0xe1", "0xAA"), CONTRACT, POST_COST, "post-1".to_string(), 3010);
    let second = service.begin_next_task().unwrap();
    assert!(matches!(second, QueueTask::CommentCreation { .. }));
    service.process_task(second, mined("0xe2", "0xBB"), CONTRACT, POST_COST, "comment-1".to_string(), 3020);
    assert!(service.begin_next_task().is_none());

    for id in [&id1, &id2] {
        let rec = service.get_task_status(id).unwrap();
        assert!(matches!(rec.status, TaskStatus::Completed | TaskStatus::Failed(_)));
    }
    assert!(matches!(service.get_task_status(&id1).unwrap().status, TaskStatus::Completed));
    assert!(matches!(service.get_task_status(&id2).unwrap().status, TaskStatus::Completed));
}

#[test]
fn polling_an_unknown_task_yields_none() {
    let service = AsyncQueueService::new();
    assert!(service.get_task_status("no-such-task").is_none());
}

#[test]
fn task_identifiers_are_long_and_distinct() {
    let mut service = AsyncQueueService::new();
    let id1 = service
        .submit_post_creation(post_request("A", "B", "0xAA", "0xf1"), "0xf1".to_string(), 1000)
        .unwrap();
    let id2 = service
        .submit_post_creation(post_request("A", "B", "0xAA", "0xf2"), "0xf2".to_string(), 1000)
        .unwrap();
    assert_eq!(id1.len(), 36);
    assert_eq!(id2.len(), 36);
    assert_ne!(id1, id2);
}

#[test]
fn admission_rejects_malformed_requests_synchronously() {
    let mut blank_title = post_request("  ", "B", "0xAA", "0x01");
    blank_title.title = " \t".to_string();
    assert_eq!(
        admit_post_request(&blank_title).unwrap_err(),
        "The title of the post cannot be empty"
    );

    let blank_content = post_request("A", "   ", "0xAA", "0x01");
    assert_eq!(
        admit_post_request(&blank_content).unwrap_err(),
        "The content of the post cannot be empty"
    );

    let mut no_hash = post_request("A", "B", "0xAA", "0x01");
    no_hash.blockchain_transaction_hash = None;
    assert_eq!(admit_post_request(&no_hash).unwrap_err(), "Lack of blockchain transaction hash");

    let good = post_request("A", "B", "0xAA", "0x01");
    assert_eq!(admit_post_request(&good).unwrap(), "0x01");

    let blank_comment = comment_request("post-0", "  ", "0xAA", "0x01");
    assert_eq!(
        admit_comment_request(&blank_comment).unwrap_err(),
        "The content of the comment cannot be empty"
    );
    let blank_post_id = comment_request("", "text", "0xAA", "0x01");
    assert_eq!(admit_comment_request(&blank_post_id).unwrap_err(), "The post ID cannot be empty");
    let good_comment = comment_request("post-0", "text", "0xAA", "0x01");
    assert_eq!(admit_comment_request(&good_comment).unwrap(), "0x01");
}

#[test]
fn colliding_entity_identifier_surfaces_as_persistence_failure() {
    let mut service = AsyncQueueService::new();
    service
        .submit_post_creation(post_request("A", "B", "0xAA", "0xg1"), "0xg1".to_string(), 1000)
        .unwrap();
    let id2 = service
        .submit_post_creation(post_request("A2", "B2", "0xAA", "0xg2"), "0xg2".to_string(), 1001)
        .unwrap();
    run_head_task(&mut service, mined("0xg1", "0xAA"), "post-1", 1010);
    // Reusing the entity identifier trips the sink's uniqueness constraint.
    run_head_task(&mut service, mined("0xg2", "0xAA"), "post-1", 1020);
    match &service.get_task_status(&id2).unwrap().status {
        TaskStatus::Failed(reason) => assert!(reason.contains("Database save failed")),
        other => panic!("expected persistence failure, got {:?}", other),
    }
    assert_eq!(service.store.posts.len(), 1);
}

#[test]
fn author_counters_grow_with_persisted_entities() {
    let mut service = AsyncQueueService::new();
    service
        .submit_post_creation(post_request("A", "B", "0xAA", "0xh1"), "0xh1".to_string(), 1000)
        .unwrap();
    run_head_task(&mut service, mined("0xh1", "0xAA"), "post-1", 1010);
    assert_eq!(service.store.users.len(), 1);
    let user = &service.store.users[0];
    assert_eq!(user.address, "0xAA");
    assert_eq!(user.posts_count, 1);
    assert_eq!(user.comments_count, 0);
    assert_eq!(user.reputation, 10);

    service
        .submit_comment_creation(
            comment_request("post-1", "reply", "0xAA", "0xh2"),
            "0xh2".to_string(),
            1020,
        )
        .unwrap();
    run_head_task(&mut service, mined("0xh2", "0xAA"), "comment-1", 1030);
    let user = &service.store.users[0];
    assert_eq!(user.comments_count, 1);
    assert_eq!(user.reputation, 15);
    // The comment counter of the parent post grew with it.
    assert_eq!(service.store.posts[0].post.comments_count, 1);
}

#[test]
fn one_step_submission_rejects_before_creating_any_task() {
    let mut service = AsyncQueueService::new();
    let mut bad = post_request(" ", "B", "0xAA", "0x01");
    bad.title = "   ".to_string();
    let err = service.create_post_async(bad, 1000).unwrap_err();
    assert_eq!(err, "The title of the post cannot be empty");
    assert!(service.begin_next_task().is_none());

    let good = post_request("A", "B", "0xAA", "0x01");
    let id = service.create_post_async(good, 1000).unwrap();
    assert!(matches!(service.get_task_status(&id).unwrap().status, TaskStatus::Pending));

    let mut bad_comment = comment_request("post-0", "x", "0xAA", "0x02");
    bad_comment.blockchain_transaction_hash = None;
    let err = service.create_comment_async(bad_comment, 1000).unwrap_err();
    assert_eq!(err, "Lack of blockchain transaction hash");
    let good_comment = comment_request("post-0", "x", "0xAA", "0x02");
    let cid = service.create_comment_async(good_comment, 1001).unwrap();
    assert!(matches!(service.get_task_status(&cid).unwrap().status, TaskStatus::Pending));
}

#[test]
fn replay_guard_record_is_atomic_test_and_set() {
    let mut store = ContentStore::new();
    assert!(!store.is_transaction_used("0xaa01"));
    store
        .record_post_transaction("0xaa01", "0xAA", 7, 1700000000, "post-1")
        .unwrap();
    assert!(store.is_transaction_used("0xaa01"));
    // The second record of the same reference is refused outright.
    let err = store
        .record_comment_transaction("0xaa01", "0xBB", 8, 1700000100, "comment-1")
        .unwrap_err();
    assert!(matches!(err, StorageError::TransactionAlreadyRecorded));
    assert_eq!(store.used_transactions.len(), 1);
}
