//! The task queue service: submission, status polling, and the worker-side
//! processing of each task.
//!
//! Submission registers a `Pending` record and appends the task to a FIFO
//! hand-off queue. A worker (driven by the surrounding application) takes
//! the head task with [`AsyncQueueService::begin_next_task`] — which flips
//! it to `Processing` — fetches the task's transaction from the ledger, and
//! hands the findings to [`AsyncQueueService::process_task`], which drives
//! the task through verification, the replay guard, the duplicate-content
//! guard and the persistence sink, and ends it `Completed` or `Failed`.
//!
//! Time and ledger findings enter as arguments; nothing here blocks.

use vstd::prelude::*;
use vstd::string::StringExecFns;
use crate::crypto::{generate_content_hash, generate_id, md5_hex_of, sha256_hex_of};
use crate::admission::{admit_comment_request, admit_post_request};
use crate::models::{Comment, CreateCommentRequest, CreatePostRequest, Post};
use crate::text::spec_is_blank;
use crate::status::{is_terminal, lemma_step_ok_forward, status_rank, step_ok, StatusStore, TaskPayload, TaskResult, TaskStatus};
use crate::storage::{sat_add32, ContentStore, TransactionKind};
use crate::verify::{spec_error_message, spec_verification_outcome, verify_comment_transaction, verify_post_transaction, LedgerLookup, TransactionDetails, VerificationError};

verus! {

/// One queued unit of work.
#[derive(Debug)]
pub enum QueueTask {
    PostCreation {
        task_id: String,
        request: CreatePostRequest,
        tx_hash: String,
        user_address: String,
        timestamp: u64,
    },
    CommentCreation {
        task_id: String,
        request: CreateCommentRequest,
        tx_hash: String,
        user_address: String,
        timestamp: u64,
    },
}

/// The task's identifier.
pub open spec fn task_id_of(t: QueueTask) -> Seq<char> {
    match t {
        QueueTask::PostCreation { task_id, .. } => task_id@,
        QueueTask::CommentCreation { task_id, .. } => task_id@,
    }
}

/// The task's claimed transaction reference.
pub open spec fn tx_of(t: QueueTask) -> Seq<char> {
    match t {
        QueueTask::PostCreation { tx_hash, .. } => tx_hash@,
        QueueTask::CommentCreation { tx_hash, .. } => tx_hash@,
    }
}

/// The transaction reference inside a success payload.
pub open spec fn payload_tx(p: TaskPayload) -> Seq<char> {
    match p {
        TaskPayload::PostCreated { transaction_hash, .. } => transaction_hash@,
        TaskPayload::CommentCreated { transaction_hash, .. } => transaction_hash@,
    }
}

/// The transaction reference a completed record's payload names; empty for
/// a record without payload.
pub open spec fn result_tx(r: TaskResult) -> Seq<char> {
    match r.result_data {
        Some(p) => payload_tx(p),
        None => Seq::<char>::empty(),
    }
}

/// Terminal reason when verification fails with `e`.
pub open spec fn verification_reason(e: VerificationError) -> Seq<char> {
    "Blockchain verification failed: "@ + spec_error_message(e)
}

/// Terminal reason when the transaction reference is already consumed.
pub open spec fn replay_reason() -> Seq<char> {
    "The transaction hash has been used"@
}

/// Terminal reason when an identical post is still inside the window.
pub open spec fn duplicate_post_reason() -> Seq<char> {
    "You have posted the same content within the last 5 minutes. Please avoid duplicate posts."@
}

/// Terminal reason when an identical comment is still inside the window.
pub open spec fn duplicate_comment_reason() -> Seq<char> {
    "You have posted a comment with the same content in the last 5 minutes"@
}

/// Terminal reason when the sink refuses the entity identifier.
pub open spec fn db_save_reason() -> Seq<char> {
    "Database save failed: an entity with this identifier already exists"@
}

/// The failure the post handler ends with, if any, given the store it
/// starts from and everything handed to it; `None` means success is owed.
pub open spec fn post_failure_reason(
    store: ContentStore,
    request: CreatePostRequest,
    tx_hash: Seq<char>,
    lookup: LedgerLookup,
    contract_address: Seq<char>,
    required_cost: u128,
    entity_id: Seq<char>,
    now: u64,
) -> Option<Seq<char>> {
    match spec_verification_outcome(lookup, request.author_address@, contract_address, required_cost) {
        Some(e) => Some(verification_reason(e)),
        None => if store.tx_used(tx_hash) {
            Some(replay_reason())
        } else if store.has_recent_duplicate_post(request.author_address@, request.content@, now) {
            Some(duplicate_post_reason())
        } else if store.has_post_id(entity_id) {
            Some(db_save_reason())
        } else {
            None
        },
    }
}

/// The failure the comment handler ends with, if any.
pub open spec fn comment_failure_reason(
    store: ContentStore,
    request: CreateCommentRequest,
    tx_hash: Seq<char>,
    lookup: LedgerLookup,
    contract_address: Seq<char>,
    required_cost: u128,
    entity_id: Seq<char>,
    now: u64,
) -> Option<Seq<char>> {
    match spec_verification_outcome(lookup, request.author_address@, contract_address, required_cost) {
        Some(e) => Some(verification_reason(e)),
        None => if store.tx_used(tx_hash) {
            Some(replay_reason())
        } else if store.has_recent_duplicate_comment(
            request.author_address@,
            request.content@,
            request.post_id@,
            now,
        ) {
            Some(duplicate_comment_reason())
        } else if store.has_comment_id(entity_id) {
            Some(db_save_reason())
        } else {
            None
        },
    }
}

/// How the store changes when a post is created and its transaction
/// consumed: the post is appended with the request's fields, stamped `now`,
/// zero counters, a digest of its body and the transaction reference
/// attached; the consumption record carries the facts of the mined
/// transaction `d`; comments are untouched and the author exists.
pub open spec fn post_success_store(
    old_store: ContentStore,
    new_store: ContentStore,
    request: CreatePostRequest,
    tx_hash: Seq<char>,
    d: TransactionDetails,
    entity_id: Seq<char>,
    now: u64,
) -> bool {
    &&& new_store.posts@.len() == old_store.posts@.len() + 1
    &&& new_store.posts@.subrange(0, old_store.posts@.len() as int) == old_store.posts@
    &&& {
        let sp = new_store.posts@.last();
        &&& sp.post.id@ == entity_id
        &&& sp.post.title == request.title
        &&& sp.post.content == request.content
        &&& sp.post.author_address == request.author_address
        &&& sp.post.author_id is None
        &&& sp.post.author_name == request.author_name
        &&& sp.post.author_avatar is None
        &&& sp.post.created_at == now
        &&& sp.post.updated_at == now
        &&& sp.post.likes == 0
        &&& sp.post.comments_count == 0
        &&& sp.post.tags == request.tags
        &&& sp.post.irys_transaction_id is None
        &&& sp.post.image == request.image
        &&& sp.post.blockchain_post_id == request.blockchain_post_id
        &&& !sp.post.is_liked_by_user
        &&& sp.post.views == 0
        &&& sp.content_hash@ == md5_hex_of(request.content@)
        &&& sp.blockchain_transaction_hash matches Some(h) && h@ == tx_hash
    }
    &&& new_store.comments == old_store.comments
    &&& new_store.has_user(request.author_address@)
    &&& new_store.posts_count_of(request.author_address@) == sat_add32(
        old_store.posts_count_of(request.author_address@),
        1,
    )
    &&& new_store.comments_count_of(request.author_address@) == old_store.comments_count_of(
        request.author_address@,
    )
    &&& new_store.reputation_of(request.author_address@) == sat_add32(
        old_store.reputation_of(request.author_address@),
        10,
    )
    &&& new_store.used_transactions@.len() == old_store.used_transactions@.len() + 1
    &&& new_store.used_transactions@.subrange(0, old_store.used_transactions@.len() as int)
        == old_store.used_transactions@
    &&& {
        let u = new_store.used_transactions@.last();
        &&& u.transaction_hash@ == tx_hash
        &&& u.kind == TransactionKind::Post
        &&& u.user_address@ == d.from@
        &&& u.block_number == d.block_number
        &&& u.block_timestamp == d.block_timestamp
        &&& u.entity_id@ == entity_id
    }
}

/// How the store changes when a comment is created and its transaction
/// consumed; the comment's body digest is part of the entity itself, and
/// the comment counter of its post grows if that post exists.
pub open spec fn comment_success_store(
    old_store: ContentStore,
    new_store: ContentStore,
    request: CreateCommentRequest,
    tx_hash: Seq<char>,
    d: TransactionDetails,
    entity_id: Seq<char>,
    now: u64,
) -> bool {
    &&& new_store.comments@.len() == old_store.comments@.len() + 1
    &&& new_store.comments@.subrange(0, old_store.comments@.len() as int) == old_store.comments@
    &&& {
        let sc = new_store.comments@.last();
        &&& sc.comment.id@ == entity_id
        &&& sc.comment.post_id == request.post_id
        &&& sc.comment.content == request.content
        &&& sc.comment.author_address == request.author_address
        &&& sc.comment.author_id is None
        &&& sc.comment.author_name == request.author_name
        &&& sc.comment.author_avatar is None
        &&& sc.comment.created_at == now
        &&& sc.comment.parent_id == request.parent_id
        &&& sc.comment.likes == 0
        &&& sc.comment.irys_transaction_id is None
        &&& sc.comment.image == request.image
        &&& sc.comment.content_hash@ == sha256_hex_of(request.content@)
        &&& !sc.comment.is_liked_by_user
        &&& sc.blockchain_transaction_hash matches Some(h) && h@ == tx_hash
    }
    &&& new_store.posts@.len() == old_store.posts@.len()
    &&& forall|i: int|
        0 <= i < old_store.posts@.len() ==> (#[trigger] new_store.posts@[i]).post.id@
            == old_store.posts@[i].post.id@
    &&& new_store.has_user(request.author_address@)
    &&& new_store.comments_count_of(request.author_address@) == sat_add32(
        old_store.comments_count_of(request.author_address@),
        1,
    )
    &&& new_store.posts_count_of(request.author_address@) == old_store.posts_count_of(
        request.author_address@,
    )
    &&& new_store.reputation_of(request.author_address@) == sat_add32(
        old_store.reputation_of(request.author_address@),
        5,
    )
    &&& new_store.used_transactions@.len() == old_store.used_transactions@.len() + 1
    &&& new_store.used_transactions@.subrange(0, old_store.used_transactions@.len() as int)
        == old_store.used_transactions@
    &&& {
        let u = new_store.used_transactions@.last();
        &&& u.transaction_hash@ == tx_hash
        &&& u.kind == TransactionKind::Comment
        &&& u.user_address@ == d.from@
        &&& u.block_number == d.block_number
        &&& u.block_timestamp == d.block_timestamp
        &&& u.entity_id@ == entity_id
    }
}

/// The full terminal reason for a verification failure.
fn verification_failure_reason(e: &VerificationError) -> (r: String)
    ensures
        r@ == verification_reason(*e),
{
    let msg = e.message();
    "Blockchain verification failed: ".to_owned().concat(msg.as_str())
}

impl AsyncQueueService {
    /// Drives a post-creation request through the handler steps against
    /// `store`: verification of the mined transaction, the replay guard's
    /// advisory lookup, the duplicate-content guard, persistence under
    /// `entity_id`, the transaction attach, and the atomic consumption
    /// record. Fails with the first failing step's reason and, on failure,
    /// leaves the store untouched.
    pub fn process_post_creation(
        store: &mut ContentStore,
        request: CreatePostRequest,
        tx_hash: String,
        lookup: LedgerLookup,
        contract_address: &str,
        required_cost: u128,
        entity_id: String,
        now: u64,
    ) -> (r: Result<TaskPayload, String>)
        requires
            old(store).wf(),
        ensures
            final(store).wf(),
            match post_failure_reason(
                *old(store),
                request,
                tx_hash@,
                lookup,
                contract_address@,
                required_cost,
                entity_id@,
                now,
            ) {
                Some(reason) => {
                    &&& r matches Err(m) && m@ == reason
                    &&& *final(store) == *old(store)
                },
                None => {
                    &&& r matches Ok(p) && p matches TaskPayload::PostCreated {
                        post_id,
                        transaction_hash,
                    } && post_id@ == entity_id@ && transaction_hash@ == tx_hash@
                    &&& lookup matches LedgerLookup::Mined(d) && post_success_store(
                        *old(store),
                        *final(store),
                        request,
                        tx_hash@,
                        d,
                        entity_id@,
                        now,
                    )
                },
            },
    {
        let verification = match verify_post_transaction(
            lookup,
            request.author_address.as_str(),
            contract_address,
            required_cost,
        ) {
            Ok(v) => v,
            Err(e) => {
                return Err(verification_failure_reason(&e));
            },
        };
        if store.is_transaction_used(tx_hash.as_str()) {
            return Err("The transaction hash has been used".to_owned());
        }
        if store.check_duplicate_post(request.author_address.as_str(), request.content.as_str(), now) {
            return Err(
                "You have posted the same content within the last 5 minutes. Please avoid duplicate posts.".to_owned(),
            );
        }
        let post = Post {
            id: entity_id.clone(),
            title: request.title,
            content: request.content,
            author_address: request.author_address,
            author_id: None,
            author_name: request.author_name,
            author_avatar: None,
            created_at: now,
            updated_at: now,
            likes: 0,
            comments_count: 0,
            tags: request.tags,
            irys_transaction_id: None,
            image: request.image,
            blockchain_post_id: request.blockchain_post_id,
            is_liked_by_user: false,
            views: 0,
        };
        let ghost s0 = *store;
        let ghost built = post;
        match store.create_post(post) {
            Ok(()) => {},
            Err(_) => {
                return Err(
                    "Database save failed: an entity with this identifier already exists".to_owned(),
                );
            },
        }
        let ghost s1 = *store;
        store.update_post_blockchain_hash(entity_id.as_str(), tx_hash.as_str());
        let ghost s2 = *store;
        proof {
            let n = s0.posts@.len() as int;
            assert forall|i: int| 0 <= i < n implies s2.posts@[i] == s0.posts@[i] by {
                assert(s1.posts@[i] == s1.posts@.subrange(0, n)[i]);
                assert(s1.posts@[i] == s0.posts@[i]);
                assert(s0.posts@[i].post.id@ != entity_id@);
            }
            assert(s2.posts@.subrange(0, n) =~= s0.posts@);
            assert(s1.posts@.last().post.id@ == entity_id@);
            assert(s2.posts@.last().post == built);
            assert(s2.posts@.last().content_hash@ == md5_hex_of(request.content@));
        }
        match store.record_post_transaction(
            tx_hash.as_str(),
            verification.sender.as_str(),
            verification.block_number,
            verification.block_timestamp,
            entity_id.as_str(),
        ) {
            Ok(()) => {},
            Err(_) => {
                proof {
                    assert(false);
                }
            },
        }
        proof {
            let n = s0.posts@.len() as int;
            assert(store.posts == s2.posts);
            assert(store.posts@.subrange(0, n) =~= s0.posts@);
            assert(store.used_transactions@.subrange(0, s0.used_transactions@.len() as int)
                =~= s0.used_transactions@);
            assert(store.users == s2.users && s2.users == s1.users);
            assert(store.has_user(request.author_address@));
            let a = request.author_address@;
            if s1.has_user(a) {
                let k = s1.user_idx(a);
                s1.lemma_user_at_index(k);
                store.lemma_user_at_index(k);
            }
            assert(store.posts_count_of(a) == s1.posts_count_of(a));
            assert(store.comments_count_of(a) == s1.comments_count_of(a));
            assert(store.reputation_of(a) == s1.reputation_of(a));
        }
        Ok(TaskPayload::PostCreated { post_id: entity_id, transaction_hash: tx_hash })
    }

    /// Drives a comment-creation request through the handler steps against
    /// `store`; as for posts, with the duplicate guard scoped to the
    /// comment's post.
    pub fn process_comment_creation(
        store: &mut ContentStore,
        request: CreateCommentRequest,
        tx_hash: String,
        lookup: LedgerLookup,
        contract_address: &str,
        required_cost: u128,
        entity_id: String,
        now: u64,
    ) -> (r: Result<TaskPayload, String>)
        requires
            old(store).wf(),
        ensures
            final(store).wf(),
            match comment_failure_reason(
                *old(store),
                request,
                tx_hash@,
                lookup,
                contract_address@,
                required_cost,
                entity_id@,
                now,
            ) {
                Some(reason) => {
                    &&& r matches Err(m) && m@ == reason
                    &&& *final(store) == *old(store)
                },
                None => {
                    &&& r matches Ok(p) && p matches TaskPayload::CommentCreated {
                        comment_id,
                        post_id,
                        transaction_hash,
                    } && comment_id@ == entity_id@ && post_id == request.post_id
                        && transaction_hash@ == tx_hash@
                    &&& lookup matches LedgerLookup::Mined(d) && comment_success_store(
                        *old(store),
                        *final(store),
                        request,
                        tx_hash@,
                        d,
                        entity_id@,
                        now,
                    )
                },
            },
    {
        let verification = match verify_comment_transaction(
            lookup,
            request.author_address.as_str(),
            contract_address,
            required_cost,
        ) {
            Ok(v) => v,
            Err(e) => {
                return Err(verification_failure_reason(&e));
            },
        };
        if store.is_transaction_used(tx_hash.as_str()) {
            return Err("The transaction hash has been used".to_owned());
        }
        if store.check_duplicate_comment(
            request.author_address.as_str(),
            request.content.as_str(),
            request.post_id.as_str(),
            now,
        ) {
            return Err(
                "You have posted a comment with the same content in the last 5 minutes".to_owned(),
            );
        }
        let content_hash = generate_content_hash(request.content.as_str());
        let comment = Comment {
            id: entity_id.clone(),
            post_id: request.post_id.clone(),
            content: request.content,
            author_address: request.author_address,
            author_id: None,
            author_name: request.author_name,
            author_avatar: None,
            created_at: now,
            parent_id: request.parent_id,
            likes: 0,
            irys_transaction_id: None,
            image: request.image,
            content_hash,
            is_liked_by_user: false,
        };
        let ghost s0 = *store;
        let ghost built = comment;
        match store.add_comment(comment) {
            Ok(()) => {},
            Err(_) => {
                return Err(
                    "Database save failed: an entity with this identifier already exists".to_owned(),
                );
            },
        }
        let ghost s1 = *store;
        store.update_comment_blockchain_hash(entity_id.as_str(), tx_hash.as_str());
        let ghost s2 = *store;
        proof {
            let n = s0.comments@.len() as int;
            assert forall|i: int| 0 <= i < n implies s2.comments@[i] == s0.comments@[i] by {
                assert(s1.comments@[i] == s1.comments@.subrange(0, n)[i]);
                assert(s1.comments@[i] == s0.comments@[i]);
                assert(s0.comments@[i].comment.id@ != entity_id@);
            }
            assert(s2.comments@.subrange(0, n) =~= s0.comments@);
            assert(s1.comments@.last().comment.id@ == entity_id@);
            assert(s2.comments@.last().comment == built);
        }
        match store.record_comment_transaction(
            tx_hash.as_str(),
            verification.sender.as_str(),
            verification.block_number,
            verification.block_timestamp,
            entity_id.as_str(),
        ) {
            Ok(()) => {},
            Err(_) => {
                proof {
                    assert(false);
                }
            },
        }
        proof {
            let n = s0.comments@.len() as int;
            assert(store.comments == s2.comments);
            assert(store.comments@.subrange(0, n) =~= s0.comments@);
            assert(store.used_transactions@.subrange(0, s0.used_transactions@.len() as int)
                =~= s0.used_transactions@);
            assert(store.users == s2.users && s2.users == s1.users);
            assert(store.has_user(request.author_address@));
            let a = request.author_address@;
            if s1.has_user(a) {
                let k = s1.user_idx(a);
                s1.lemma_user_at_index(k);
                store.lemma_user_at_index(k);
            }
            assert(store.posts_count_of(a) == s1.posts_count_of(a));
            assert(store.comments_count_of(a) == s1.comments_count_of(a));
            assert(store.reputation_of(a) == s1.reputation_of(a));
            assert(store.posts == s2.posts && s2.posts == s1.posts);
            assert forall|i: int| 0 <= i < s0.posts@.len() implies (#[trigger] store.posts@[i]).post.id@
                == s0.posts@[i].post.id@ by {
                assert(s1.posts@[i].post.id@ == s0.posts@[i].post.id@);
            }
        }
        Ok(TaskPayload::CommentCreated {
            comment_id: entity_id,
            post_id: request.post_id,
            transaction_hash: tx_hash,
        })
    }
}

/// The queue service: status store, FIFO hand-off queue and content store.
#[derive(Debug)]
pub struct AsyncQueueService {
    pub task_status: StatusStore,
    pub pending: Vec<QueueTask>,
    pub store: ContentStore,
}

impl QueueTask {
    /// The task's identifier.
    pub fn task_id(&self) -> (r: &String)
        ensures
            r@ == task_id_of(*self),
    {
        match self {
            QueueTask::PostCreation { task_id, .. } => task_id,
            QueueTask::CommentCreation { task_id, .. } => task_id,
        }
    }
}

/// The task map's domain is kept and nothing but the record under `id`
/// changes.
pub open spec fn only_task_changed(
    old_m: Map<Seq<char>, TaskResult>,
    new_m: Map<Seq<char>, TaskResult>,
    id: Seq<char>,
) -> bool {
    &&& new_m.dom() =~= old_m.dom().insert(id)
    &&& forall|k: Seq<char>| old_m.contains_key(k) && k != id ==> new_m[k] == old_m[k]
}

/// Every task's record either stays as it is or takes a single allowed
/// lifecycle step; no record disappears.
pub open spec fn statuses_advance(
    old_m: Map<Seq<char>, TaskResult>,
    new_m: Map<Seq<char>, TaskResult>,
) -> bool {
    forall|k: Seq<char>|
        old_m.contains_key(k) ==> new_m.contains_key(k) && (new_m[k] == old_m[k] || step_ok(
            (#[trigger] old_m[k]).status,
            new_m[k].status,
        ))
}

/// How one status may relate to the same task's status observed later:
/// the rank never goes back, and a terminal status never changes at all.
pub open spec fn status_evolves(a: TaskStatus, b: TaskStatus) -> bool {
    &&& status_rank(a) <= status_rank(b)
    &&& is_terminal(a) ==> b == a
}

/// A single operation's guarantee implies the observable one: every
/// record's status evolves forward.
pub proof fn lemma_advance_evolves(
    old_m: Map<Seq<char>, TaskResult>,
    new_m: Map<Seq<char>, TaskResult>,
)
    requires
        statuses_advance(old_m, new_m),
    ensures
        forall|k: Seq<char>|
            old_m.contains_key(k) ==> new_m.contains_key(k) && status_evolves(
                (#[trigger] old_m[k]).status,
                new_m[k].status,
            ),
{
    assert forall|k: Seq<char>| old_m.contains_key(k) implies new_m.contains_key(k)
        && status_evolves((#[trigger] old_m[k]).status, new_m[k].status) by {
        if new_m[k] != old_m[k] {
            lemma_step_ok_forward(old_m[k].status, new_m[k].status);
        }
    }
}

/// Observed evolution composes: over any number of operations, a task's
/// statuses read in order form a subsequence of `Pending`, `Processing`,
/// terminal — never out of order, and frozen once terminal.
pub proof fn lemma_evolves_trans(a: TaskStatus, b: TaskStatus, c: TaskStatus)
    requires
        status_evolves(a, b),
        status_evolves(b, c),
    ensures
        status_evolves(a, c),
{
}

impl AsyncQueueService {
    /// The service invariant: both stores are well formed; every queued
    /// task is registered `Pending`, under a queue-unique identifier; every
    /// completed task's payload names a consumed transaction reference; and
    /// no two completed tasks name the same reference.
    pub open spec fn wf(self) -> bool {
        &&& self.task_status.wf()
        &&& self.store.wf()
        &&& forall|i: int|
            0 <= i < self.pending@.len() ==> {
                let id = task_id_of(#[trigger] self.pending@[i]);
                self.task_status@.contains_key(id) && self.task_status@[id].status is Pending
            }
        &&& forall|i: int, j: int|
            0 <= i < j < self.pending@.len() ==> task_id_of(#[trigger] self.pending@[i])
                != task_id_of(#[trigger] self.pending@[j])
        &&& forall|id: Seq<char>|
            self.task_status@.contains_key(id) && (#[trigger] self.task_status@[id]).status
                is Completed ==> self.store.tx_used(result_tx(self.task_status@[id]))
        &&& forall|id1: Seq<char>, id2: Seq<char>|
            self.task_status@.contains_key(id1) && self.task_status@.contains_key(id2) && (
            #[trigger] self.task_status@[id1]).status is Completed && (
            #[trigger] self.task_status@[id2]).status is Completed && id1 != id2 ==> result_tx(
                self.task_status@[id1],
            ) != result_tx(self.task_status@[id2])
    }

    /// A fresh service with no tasks and an empty store.
    pub fn new() -> (r: Self)
        ensures
            r.wf(),
            r.task_status@ =~= Map::<Seq<char>, TaskResult>::empty(),
            r.pending@.len() == 0,
            r.store.posts@.len() == 0,
            r.store.comments@.len() == 0,
            r.store.used_transactions@.len() == 0,
            r.store.users@.len() == 0,
    {
        AsyncQueueService {
            task_status: StatusStore::new(),
            pending: Vec::new(),
            store: ContentStore::new(),
        }
    }

    /// Registers a fresh `Pending` record and queues a post-creation task.
    /// On success the new task identifier comes back; immediately after,
    /// the task's status reads `Pending`. Refused only when the drawn
    /// identifier is already taken — which requires some 36-character
    /// identifier to be registered already, so a fresh service always
    /// accepts — and then nothing changes.
    pub fn submit_post_creation(&mut self, request: CreatePostRequest, tx_hash: String, now: u64) -> (r:
        Result<String, String>)
        requires
            old(self).wf(),
        ensures
            final(self).wf(),
            statuses_advance(old(self).task_status@, final(self).task_status@),
            r is Err ==> *final(self) == *old(self),
            r matches Err(m) ==> m@ == "Failed to register task: identifier already in use"@
                && (exists|id: Seq<char>|
                #[trigger] old(self).task_status@.contains_key(id) && id.len() == 36),
            r matches Ok(id) ==> {
                &&& id@.len() == 36
                &&& !old(self).task_status@.contains_key(id@)
                &&& final(self).task_status@ =~= old(self).task_status@.insert(
                    id@,
                    TaskResult {
                        task_id: id,
                        status: TaskStatus::Pending,
                        created_at: now,
                        completed_at: None,
                        result_data: None,
                    },
                )
                &&& final(self).pending@.len() == old(self).pending@.len() + 1
                &&& final(self).pending@.subrange(0, old(self).pending@.len() as int) == old(
                    self,
                ).pending@
                &&& final(self).pending@.last() matches QueueTask::PostCreation {
                    task_id: t,
                    request: rq,
                    tx_hash: th,
                    user_address: ua,
                    timestamp: ts,
                } && t == id && rq == request && th == tx_hash && ua@ == Seq::<char>::empty() && ts
                    == now
                &&& final(self).store == old(self).store
            },
    {
        let task_id = generate_id();
        match self.task_status.get(task_id.as_str()) {
            Some(_) => {
                proof {
                    assert(self.task_status@.contains_key(task_id@) && task_id@.len() == 36);
                }
                return Err("Failed to register task: identifier already in use".to_owned());
            },
            None => {},
        }
        let ghost pre = *self;
        self.task_status.create(task_id.clone(), now);
        let task = QueueTask::PostCreation {
            task_id: task_id.clone(),
            request,
            tx_hash,
            user_address: "".to_owned(),
            timestamp: now,
        };
        self.pending.push(task);
        proof {
            reveal_strlit("");
            assert(""@ =~= Seq::<char>::empty());
            assert(self.pending@.subrange(0, pre.pending@.len() as int) =~= pre.pending@);
            self.lemma_submission_wf(pre, task_id@);
        }
        Ok(task_id)
    }

    /// Registers a fresh `Pending` record and queues a comment-creation
    /// task; as for posts, accepting whenever no registered identifier
    /// could collide with the drawn one.
    pub fn submit_comment_creation(
        &mut self,
        request: CreateCommentRequest,
        tx_hash: String,
        now: u64,
    ) -> (r: Result<String, String>)
        requires
            old(self).wf(),
        ensures
            final(self).wf(),
            statuses_advance(old(self).task_status@, final(self).task_status@),
            r is Err ==> *final(self) == *old(self),
            r matches Err(m) ==> m@ == "Failed to register task: identifier already in use"@
                && (exists|id: Seq<char>|
                #[trigger] old(self).task_status@.contains_key(id) && id.len() == 36),
            r matches Ok(id) ==> {
                &&& id@.len() == 36
                &&& !old(self).task_status@.contains_key(id@)
                &&& final(self).task_status@ =~= old(self).task_status@.insert(
                    id@,
                    TaskResult {
                        task_id: id,
                        status: TaskStatus::Pending,
                        created_at: now,
                        completed_at: None,
                        result_data: None,
                    },
                )
                &&& final(self).pending@.len() == old(self).pending@.len() + 1
                &&& final(self).pending@.subrange(0, old(self).pending@.len() as int) == old(
                    self,
                ).pending@
                &&& final(self).pending@.last() matches QueueTask::CommentCreation {
                    task_id: t,
                    request: rq,
                    tx_hash: th,
                    user_address: ua,
                    timestamp: ts,
                } && t == id && rq == request && th == tx_hash && ua@ == Seq::<char>::empty() && ts
                    == now
                &&& final(self).store == old(self).store
            },
    {
        let task_id = generate_id();
        match self.task_status.get(task_id.as_str()) {
            Some(_) => {
                proof {
                    assert(self.task_status@.contains_key(task_id@) && task_id@.len() == 36);
                }
                return Err("Failed to register task: identifier already in use".to_owned());
            },
            None => {},
        }
        let ghost pre = *self;
        self.task_status.create(task_id.clone(), now);
        let task = QueueTask::CommentCreation {
            task_id: task_id.clone(),
            request,
            tx_hash,
            user_address: "".to_owned(),
            timestamp: now,
        };
        self.pending.push(task);
        proof {
            reveal_strlit("");
            assert(""@ =~= Seq::<char>::empty());
            assert(self.pending@.subrange(0, pre.pending@.len() as int) =~= pre.pending@);
            self.lemma_submission_wf(pre, task_id@);
        }
        Ok(task_id)
    }

    /// After a submission — the only shapes of state change a submission
    /// makes — the whole service invariant holds again.
    proof fn lemma_submission_wf(self, pre: Self, id: Seq<char>)
        requires
            pre.wf(),
            !pre.task_status@.contains_key(id),
            self.task_status@.dom() =~= pre.task_status@.dom().insert(id),
            self.task_status@[id].status is Pending,
            forall|k: Seq<char>|
                pre.task_status@.contains_key(k) ==> (#[trigger] self.task_status@[k])
                    == pre.task_status@[k],
            self.task_status.wf(),
            self.store == pre.store,
            self.pending@.len() == pre.pending@.len() + 1,
            self.pending@.subrange(0, pre.pending@.len() as int) == pre.pending@,
            task_id_of(self.pending@.last()) == id,
        ensures
            self.wf(),
            statuses_advance(pre.task_status@, self.task_status@),
    {
        let n = pre.pending@.len() as int;
        assert forall|i: int| 0 <= i < self.pending@.len() implies {
            let tid = task_id_of(#[trigger] self.pending@[i]);
            self.task_status@.contains_key(tid) && self.task_status@[tid].status is Pending
        } by {
            if i < n {
                assert(self.pending@[i] == pre.pending@.subrange(0, n)[i] || self.pending@[i]
                    == pre.pending@[i]);
                assert(self.pending@[i] == pre.pending@[i]);
                let tid = task_id_of(self.pending@[i]);
                assert(pre.task_status@.contains_key(tid));
            }
        }
        assert forall|i: int, j: int| 0 <= i < j < self.pending@.len() implies task_id_of(
            #[trigger] self.pending@[i],
        ) != task_id_of(#[trigger] self.pending@[j]) by {
            if j < n {
                assert(self.pending@[i] == pre.pending@[i] && self.pending@[j] == pre.pending@[j]);
            } else {
                assert(self.pending@[i] == pre.pending@[i]);
                let tid = task_id_of(self.pending@[i]);
                assert(pre.task_status@.contains_key(tid));
                assert(tid != id);
            }
        }
        assert forall|k: Seq<char>|
            self.task_status@.contains_key(k) && (#[trigger] self.task_status@[k]).status
                is Completed implies self.store.tx_used(result_tx(self.task_status@[k])) by {
            if k != id {
                assert(self.task_status@[k] == pre.task_status@[k]);
            }
        }
        assert forall|k1: Seq<char>, k2: Seq<char>|
            self.task_status@.contains_key(k1) && self.task_status@.contains_key(k2) && (
            #[trigger] self.task_status@[k1]).status is Completed && (
            #[trigger] self.task_status@[k2]).status is Completed && k1 != k2 implies result_tx(
            self.task_status@[k1],
        ) != result_tx(self.task_status@[k2]) by {
            assert(k1 != id && k2 != id);
            assert(self.task_status@[k1] == pre.task_status@[k1]);
            assert(self.task_status@[k2] == pre.task_status@[k2]);
        }
    }

    /// The boundary's one-step post submission: admission first — a blank
    /// title or content or a missing transaction reference is rejected
    /// synchronously, with the first failing check's message, and creates
    /// no task — then registration and enqueueing, handing back the task
    /// identifier. A well-shaped request is refused only on an identifier
    /// collision.
    pub fn create_post_async(&mut self, request: CreatePostRequest, now: u64) -> (r: Result<
        String,
        String,
    >)
        requires
            old(self).wf(),
        ensures
            final(self).wf(),
            statuses_advance(old(self).task_status@, final(self).task_status@),
            r is Err ==> *final(self) == *old(self),
            spec_is_blank(request.title@) || spec_is_blank(request.content@)
                || request.blockchain_transaction_hash is None ==> r is Err,
            r matches Err(m) ==> if spec_is_blank(request.title@) {
                m@ == "The title of the post cannot be empty"@
            } else if spec_is_blank(request.content@) {
                m@ == "The content of the post cannot be empty"@
            } else if request.blockchain_transaction_hash is None {
                m@ == "Lack of blockchain transaction hash"@
            } else {
                m@ == "Failed to register task: identifier already in use"@ && (exists|id: Seq<char>|
                    #[trigger] old(self).task_status@.contains_key(id) && id.len() == 36)
            },
            r matches Ok(id) ==> {
                &&& !old(self).task_status@.contains_key(id@)
                &&& final(self).task_status@ =~= old(self).task_status@.insert(
                    id@,
                    TaskResult {
                        task_id: id,
                        status: TaskStatus::Pending,
                        created_at: now,
                        completed_at: None,
                        result_data: None,
                    },
                )
                &&& final(self).pending@.len() == old(self).pending@.len() + 1
                &&& final(self).pending@.subrange(0, old(self).pending@.len() as int) == old(
                    self,
                ).pending@
                &&& final(self).pending@.last() matches QueueTask::PostCreation {
                    task_id: t,
                    request: rq,
                    tx_hash: th,
                    ..
                } && t == id && rq == request && request.blockchain_transaction_hash == Some(th)
                &&& final(self).store == old(self).store
            },
    {
        let tx_hash = match admit_post_request(&request) {
            Ok(h) => h,
            Err(m) => {
                return Err(m);
            },
        };
        self.submit_post_creation(request, tx_hash, now)
    }

    /// The boundary's one-step comment submission; as for posts, with the
    /// comment's shape checks, and a well-shaped request refused only on
    /// an identifier collision.
    pub fn create_comment_async(&mut self, request: CreateCommentRequest, now: u64) -> (r: Result<
        String,
        String,
    >)
        requires
            old(self).wf(),
        ensures
            final(self).wf(),
            statuses_advance(old(self).task_status@, final(self).task_status@),
            r is Err ==> *final(self) == *old(self),
            spec_is_blank(request.content@) || spec_is_blank(request.post_id@)
                || request.blockchain_transaction_hash is None ==> r is Err,
            r matches Err(m) ==> if spec_is_blank(request.content@) {
                m@ == "The content of the comment cannot be empty"@
            } else if spec_is_blank(request.post_id@) {
                m@ == "The post ID cannot be empty"@
            } else if request.blockchain_transaction_hash is None {
                m@ == "Lack of blockchain transaction hash"@
            } else {
                m@ == "Failed to register task: identifier already in use"@ && (exists|id: Seq<char>|
                    #[trigger] old(self).task_status@.contains_key(id) && id.len() == 36)
            },
            r matches Ok(id) ==> {
                &&& !old(self).task_status@.contains_key(id@)
                &&& final(self).task_status@ =~= old(self).task_status@.insert(
                    id@,
                    TaskResult {
                        task_id: id,
                        status: TaskStatus::Pending,
                        created_at: now,
                        completed_at: None,
                        result_data: None,
                    },
                )
                &&& final(self).pending@.len() == old(self).pending@.len() + 1
                &&& final(self).pending@.subrange(0, old(self).pending@.len() as int) == old(
                    self,
                ).pending@
                &&& final(self).pending@.last() matches QueueTask::CommentCreation {
                    task_id: t,
                    request: rq,
                    tx_hash: th,
                    ..
                } && t == id && rq == request && request.blockchain_transaction_hash == Some(th)
                &&& final(self).store == old(self).store
            },
    {
        let tx_hash = match admit_comment_request(&request) {
            Ok(h) => h,
            Err(m) => {
                return Err(m);
            },
        };
        self.submit_comment_creation(request, tx_hash, now)
    }

    /// Polls a task: the record handed back equals the stored one, and an
    /// unknown identifier yields `None`, never an error.
    pub fn get_task_status(&self, task_id: &str) -> (r: Option<TaskResult>)
        requires
            self.wf(),
        ensures
            match r {
                Some(rec) => self.task_status@.contains_key(task_id@) && rec
                    == self.task_status@[task_id@],
                None => !self.task_status@.contains_key(task_id@),
            },
    {
        self.task_status.get(task_id)
    }

    /// Takes the head task off the queue and flips its record from
    /// `Pending` to `Processing`; the caller owns the task until it hands
    /// it to [`AsyncQueueService::process_task`]. An empty queue yields
    /// `None` and no change.
    pub fn begin_next_task(&mut self) -> (r: Option<QueueTask>)
        requires
            old(self).wf(),
        ensures
            final(self).wf(),
            statuses_advance(old(self).task_status@, final(self).task_status@),
            match r {
                None => *final(self) == *old(self) && old(self).pending@.len() == 0,
                Some(t) => {
                    &&& old(self).pending@.len() > 0
                    &&& t == old(self).pending@[0]
                    &&& final(self).pending@ =~= old(self).pending@.drop_first()
                    &&& final(self).store == old(self).store
                    &&& only_task_changed(
                        old(self).task_status@,
                        final(self).task_status@,
                        task_id_of(t),
                    )
                    &&& final(self).task_status@[task_id_of(t)] == TaskResult {
                        status: TaskStatus::Processing,
                        ..old(self).task_status@[task_id_of(t)]
                    }
                    &&& final(self).task_status@[task_id_of(t)].status is Processing
                },
            },
    {
        if self.pending.len() == 0 {
            return None;
        }
        let task = self.pending.remove(0);
        proof {
            assert(task == old(self).pending@[0]);
            assert(self.pending@ =~= old(self).pending@.drop_first());
        }
        self.task_status.set_processing(task.task_id().as_str());
        proof {
            let pre = *old(self);
            let id = task_id_of(task);
            assert forall|i: int| 0 <= i < self.pending@.len() implies {
                let tid = task_id_of(#[trigger] self.pending@[i]);
                self.task_status@.contains_key(tid) && self.task_status@[tid].status is Pending
            } by {
                assert(self.pending@[i] == pre.pending@[i + 1]);
                let tid = task_id_of(self.pending@[i]);
                assert(pre.task_status@.contains_key(tid) && pre.task_status@[tid].status
                    is Pending);
                assert(tid != id);
            }
            assert forall|i: int, j: int| 0 <= i < j < self.pending@.len() implies task_id_of(
                #[trigger] self.pending@[i],
            ) != task_id_of(#[trigger] self.pending@[j]) by {
                assert(self.pending@[i] == pre.pending@[i + 1]);
                assert(self.pending@[j] == pre.pending@[j + 1]);
            }
            assert forall|k: Seq<char>|
                self.task_status@.contains_key(k) && (#[trigger] self.task_status@[k]).status
                    is Completed implies self.store.tx_used(result_tx(self.task_status@[k])) by {
                assert(self.task_status@[k] == pre.task_status@[k]);
            }
            assert forall|k1: Seq<char>, k2: Seq<char>|
                self.task_status@.contains_key(k1) && self.task_status@.contains_key(k2) && (
                #[trigger] self.task_status@[k1]).status is Completed && (
                #[trigger] self.task_status@[k2]).status is Completed && k1 != k2 implies result_tx(
                self.task_status@[k1],
            ) != result_tx(self.task_status@[k2]) by {
                assert(self.task_status@[k1] == pre.task_status@[k1]);
                assert(self.task_status@[k2] == pre.task_status@[k2]);
            }
        }
        Some(task)
    }

    /// Runs one begun task to its terminal status. The ledger's answer for
    /// the task's transaction, the forum contract's address, the required
    /// cost, the identifier for the would-be entity and the time all come
    /// in as arguments; the task ends `Completed` exactly when verification,
    /// the replay guard, the duplicate guard and the sink all pass, and
    /// otherwise `Failed` with the first failing step's reason. No other
    /// task's record changes, and on failure the store is untouched.
    pub fn process_task(
        &mut self,
        task: QueueTask,
        lookup: LedgerLookup,
        contract_address: &str,
        required_cost: u128,
        entity_id: String,
        now: u64,
    )
        requires
            old(self).wf(),
            old(self).task_status@.contains_key(task_id_of(task)),
            old(self).task_status@[task_id_of(task)].status is Processing,
        ensures
            final(self).wf(),
            final(self).pending == old(self).pending,
            statuses_advance(old(self).task_status@, final(self).task_status@),
            only_task_changed(old(self).task_status@, final(self).task_status@, task_id_of(task)),
            ({
                let rec0 = old(self).task_status@[task_id_of(task)];
                let rec1 = final(self).task_status@[task_id_of(task)];
                &&& rec1.task_id == rec0.task_id
                &&& rec1.created_at == rec0.created_at
                &&& rec1.completed_at == Some(now)
                &&& is_terminal(rec1.status)
            }),
            task matches QueueTask::PostCreation { request, tx_hash, .. } ==> {
                let rec1 = final(self).task_status@[task_id_of(task)];
                match post_failure_reason(
                    old(self).store,
                    request,
                    tx_hash@,
                    lookup,
                    contract_address@,
                    required_cost,
                    entity_id@,
                    now,
                ) {
                    Some(reason) => {
                        &&& final(self).store == old(self).store
                        &&& rec1.status matches TaskStatus::Failed(m) && m@ == reason
                        &&& rec1.result_data is None
                    },
                    None => {
                        &&& rec1.status is Completed
                        &&& rec1.result_data matches Some(TaskPayload::PostCreated {
                            post_id,
                            transaction_hash,
                        }) && post_id@ == entity_id@ && transaction_hash@ == tx_hash@
                        &&& lookup matches LedgerLookup::Mined(d) && post_success_store(
                            old(self).store,
                            final(self).store,
                            request,
                            tx_hash@,
                            d,
                            entity_id@,
                            now,
                        )
                    },
                }
            },
            task matches QueueTask::CommentCreation { request, tx_hash, .. } ==> {
                let rec1 = final(self).task_status@[task_id_of(task)];
                match comment_failure_reason(
                    old(self).store,
                    request,
                    tx_hash@,
                    lookup,
                    contract_address@,
                    required_cost,
                    entity_id@,
                    now,
                ) {
                    Some(reason) => {
                        &&& final(self).store == old(self).store
                        &&& rec1.status matches TaskStatus::Failed(m) && m@ == reason
                        &&& rec1.result_data is None
                    },
                    None => {
                        &&& rec1.status is Completed
                        &&& rec1.result_data matches Some(TaskPayload::CommentCreated {
                            comment_id,
                            post_id,
                            transaction_hash,
                        }) && comment_id@ == entity_id@ && post_id == request.post_id
                            && transaction_hash@ == tx_hash@
                        &&& lookup matches LedgerLookup::Mined(d) && comment_success_store(
                            old(self).store,
                            final(self).store,
                            request,
                            tx_hash@,
                            d,
                            entity_id@,
                            now,
                        )
                    },
                }
            },
    {
        let ghost pre = *self;
        let (task_id, outcome) = match task {
            QueueTask::PostCreation { task_id, request, tx_hash, user_address: _, timestamp: _ } => {
                let ghost txv = tx_hash@;
                let r = Self::process_post_creation(
                    &mut self.store,
                    request,
                    tx_hash,
                    lookup,
                    contract_address,
                    required_cost,
                    entity_id,
                    now,
                );
                (task_id, r)
            },
            QueueTask::CommentCreation {
                task_id,
                request,
                tx_hash,
                user_address: _,
                timestamp: _,
            } => {
                let r = Self::process_comment_creation(
                    &mut self.store,
                    request,
                    tx_hash,
                    lookup,
                    contract_address,
                    required_cost,
                    entity_id,
                    now,
                );
                (task_id, r)
            },
        };
        match outcome {
            Ok(payload) => {
                let ghost paytx = payload_tx(payload);
                proof {
                    assert(paytx == tx_of(task));
                    assert(!pre.store.tx_used(paytx));
                    let n = self.store.used_transactions@.len() as int;
                    assert(self.store.used_transactions@[n - 1].transaction_hash@ == paytx);
                    assert(self.store.tx_used(paytx));
                }
                self.task_status.complete(task_id.as_str(), payload, now);
                proof {
                    self.lemma_terminal_wf(pre, task_id@, Some(paytx));
                }
            },
            Err(reason) => {
                self.task_status.fail(task_id.as_str(), reason, now);
                proof {
                    self.lemma_terminal_wf(pre, task_id@, None);
                }
            },
        }
    }

    /// After a worker ends a task — the only shapes of state change that
    /// ending a task makes — the whole service invariant holds again.
    proof fn lemma_terminal_wf(self, pre: Self, id: Seq<char>, completed_tx: Option<Seq<char>>)
        requires
            pre.wf(),
            pre.task_status@.contains_key(id),
            pre.task_status@[id].status is Processing,
            self.pending == pre.pending,
            self.task_status.wf(),
            self.store.wf(),
            self.task_status@.dom() =~= pre.task_status@.dom().insert(id),
            forall|k: Seq<char>|
                pre.task_status@.contains_key(k) && k != id ==> (#[trigger] self.task_status@[k])
                    == pre.task_status@[k],
            is_terminal(self.task_status@[id].status),
            match completed_tx {
                None => self.task_status@[id].status is Failed && self.store == pre.store,
                Some(tx) => {
                    &&& self.task_status@[id].status is Completed
                    &&& result_tx(self.task_status@[id]) == tx
                    &&& !pre.store.tx_used(tx)
                    &&& self.store.tx_used(tx)
                    &&& self.store.used_transactions@.len() >= pre.store.used_transactions@.len()
                    &&& self.store.used_transactions@.subrange(
                        0,
                        pre.store.used_transactions@.len() as int,
                    ) == pre.store.used_transactions@
                },
            },
        ensures
            self.wf(),
            statuses_advance(pre.task_status@, self.task_status@),
    {
        assert forall|i: int| 0 <= i < self.pending@.len() implies {
            let tid = task_id_of(#[trigger] self.pending@[i]);
            self.task_status@.contains_key(tid) && self.task_status@[tid].status is Pending
        } by {
            let tid = task_id_of(self.pending@[i]);
            assert(pre.task_status@.contains_key(tid) && pre.task_status@[tid].status is Pending);
            assert(tid != id);
        }
        assert forall|k: Seq<char>|
            self.task_status@.contains_key(k) && (#[trigger] self.task_status@[k]).status
                is Completed implies self.store.tx_used(result_tx(self.task_status@[k])) by {
            if k == id {
                assert(completed_tx is Some);
            } else {
                assert(self.task_status@[k] == pre.task_status@[k]);
                assert(pre.store.tx_used(result_tx(pre.task_status@[k])));
                if self.store != pre.store {
                    lemma_tx_used_grows(pre.store, self.store, result_tx(pre.task_status@[k]));
                }
            }
        }
        assert forall|k1: Seq<char>, k2: Seq<char>|
            self.task_status@.contains_key(k1) && self.task_status@.contains_key(k2) && (
            #[trigger] self.task_status@[k1]).status is Completed && (
            #[trigger] self.task_status@[k2]).status is Completed && k1 != k2 implies result_tx(
            self.task_status@[k1],
        ) != result_tx(self.task_status@[k2]) by {
            if k1 != id && k2 != id {
                assert(self.task_status@[k1] == pre.task_status@[k1]);
                assert(self.task_status@[k2] == pre.task_status@[k2]);
            } else {
                let other = if k1 == id {
                    k2
                } else {
                    k1
                };
                assert(self.task_status@[other] == pre.task_status@[other]);
                assert(pre.store.tx_used(result_tx(pre.task_status@[other])));
                assert(result_tx(self.task_status@[other]) != completed_tx->0);
            }
        }
        assert forall|k: Seq<char>| pre.task_status@.contains_key(k) implies self.task_status@.contains_key(
            k,
        ) && (self.task_status@[k] == pre.task_status@[k] || step_ok(
            (#[trigger] pre.task_status@[k]).status,
            self.task_status@[k].status,
        )) by {}
    }
}

/// A consumed transaction reference stays consumed when the record list
/// only grows at its end.
proof fn lemma_tx_used_grows(a: ContentStore, b: ContentStore, x: Seq<char>)
    requires
        a.tx_used(x),
        b.used_transactions@.len() >= a.used_transactions@.len(),
        b.used_transactions@.subrange(0, a.used_transactions@.len() as int)
            == a.used_transactions@,
    ensures
        b.tx_used(x),
{
    let n = a.used_transactions@.len() as int;
    let i = choose|i: int|
        0 <= i < a.used_transactions@.len() && (#[trigger] a.used_transactions@[i]).transaction_hash@
            == x;
    assert(b.used_transactions@[i] == b.used_transactions@.subrange(0, n)[i]);
    assert(b.used_transactions@[i].transaction_hash@ == x);
}

/// Replay protection: in a well-formed service, no transaction reference is
/// ever named by two completed tasks — submitting two tasks with the same
/// reference yields at most one `Completed`.
pub proof fn lemma_no_double_completion(s: AsyncQueueService, id1: Seq<char>, id2: Seq<char>)
    requires
        s.wf(),
        s.task_status@.contains_key(id1),
        s.task_status@.contains_key(id2),
        s.task_status@[id1].status is Completed,
        s.task_status@[id2].status is Completed,
        result_tx(s.task_status@[id1]) == result_tx(s.task_status@[id2]),
    ensures
        id1 == id2,
{
}

/// Duplicate content decides the task: when verification passes and the
/// reference is not yet consumed, an identical post by the same author
/// still inside the trailing window fixes the handler's outcome to exactly
/// the duplicate reason — and the handler's contract then ends the task
/// `Failed` with that reason and leaves the store untouched.
pub proof fn lemma_duplicate_post_rejected(
    store: ContentStore,
    request: CreatePostRequest,
    tx_hash: Seq<char>,
    lookup: LedgerLookup,
    contract_address: Seq<char>,
    required_cost: u128,
    entity_id: Seq<char>,
    now: u64,
)
    requires
        spec_verification_outcome(
            lookup,
            request.author_address@,
            contract_address,
            required_cost,
        ) is None,
        !store.tx_used(tx_hash),
        store.has_recent_duplicate_post(request.author_address@, request.content@, now),
    ensures
        post_failure_reason(
            store,
            request,
            tx_hash,
            lookup,
            contract_address,
            required_cost,
            entity_id,
            now,
        ) == Some(duplicate_post_reason()),
{
}

/// The same, for a comment duplicated within its post's scope.
pub proof fn lemma_duplicate_comment_rejected(
    store: ContentStore,
    request: CreateCommentRequest,
    tx_hash: Seq<char>,
    lookup: LedgerLookup,
    contract_address: Seq<char>,
    required_cost: u128,
    entity_id: Seq<char>,
    now: u64,
)
    requires
        spec_verification_outcome(
            lookup,
            request.author_address@,
            contract_address,
            required_cost,
        ) is None,
        !store.tx_used(tx_hash),
        store.has_recent_duplicate_comment(
            request.author_address@,
            request.content@,
            request.post_id@,
            now,
        ),
    ensures
        comment_failure_reason(
            store,
            request,
            tx_hash,
            lookup,
            contract_address,
            required_cost,
            entity_id,
            now,
        ) == Some(duplicate_comment_reason()),
{
}

/// Completion is owed: when verification passes, the reference is not
/// consumed, no identical post sits inside the window and the entity
/// identifier is fresh, the handler has no failure left — its contract
/// then ends the task `Completed`. With
/// [`lemma_duplicate_post_window_elapsed`] this gives the second half of
/// the duplicate-suppression story: once the window has elapsed, an
/// identical submission goes through.
pub proof fn lemma_post_completion_owed(
    store: ContentStore,
    request: CreatePostRequest,
    tx_hash: Seq<char>,
    lookup: LedgerLookup,
    contract_address: Seq<char>,
    required_cost: u128,
    entity_id: Seq<char>,
    now: u64,
)
    requires
        spec_verification_outcome(
            lookup,
            request.author_address@,
            contract_address,
            required_cost,
        ) is None,
        !store.tx_used(tx_hash),
        !store.has_recent_duplicate_post(request.author_address@, request.content@, now),
        !store.has_post_id(entity_id),
    ensures
        post_failure_reason(
            store,
            request,
            tx_hash,
            lookup,
            contract_address,
            required_cost,
            entity_id,
            now,
        ) is None,
{
}

/// The same, for comments.
pub proof fn lemma_comment_completion_owed(
    store: ContentStore,
    request: CreateCommentRequest,
    tx_hash: Seq<char>,
    lookup: LedgerLookup,
    contract_address: Seq<char>,
    required_cost: u128,
    entity_id: Seq<char>,
    now: u64,
)
    requires
        spec_verification_outcome(
            lookup,
            request.author_address@,
            contract_address,
            required_cost,
        ) is None,
        !store.tx_used(tx_hash),
        !store.has_recent_duplicate_comment(
            request.author_address@,
            request.content@,
            request.post_id@,
            now,
        ),
        !store.has_comment_id(entity_id),
    ensures
        comment_failure_reason(
            store,
            request,
            tx_hash,
            lookup,
            contract_address,
            required_cost,
            entity_id,
            now,
        ) is None,
{
}

/// Once every earlier post by `author` with body `content` has left the
/// trailing window, the duplicate-content guard no longer fires.
pub proof fn lemma_duplicate_post_window_elapsed(
    store: ContentStore,
    author: Seq<char>,
    content: Seq<char>,
    now: u64,
)
    requires
        forall|i: int|
            0 <= i < store.posts@.len() && (#[trigger] store.posts@[i]).post.author_address@
                == author && store.posts@[i].post.content@ == content ==> store.posts@[i].post.created_at
                + crate::storage::DUPLICATE_WINDOW_SECONDS <= now,
    ensures
        !store.has_recent_duplicate_post(author, content, now),
{
}

/// The same, for comments within one post's scope.
pub proof fn lemma_duplicate_comment_window_elapsed(
    store: ContentStore,
    author: Seq<char>,
    content: Seq<char>,
    post_id: Seq<char>,
    now: u64,
)
    requires
        forall|i: int|
            0 <= i < store.comments@.len() && (#[trigger] store.comments@[i]).comment.author_address@
                == author && store.comments@[i].comment.content@ == content
                && store.comments@[i].comment.post_id@ == post_id ==> store.comments@[i].comment.created_at
                + crate::storage::DUPLICATE_WINDOW_SECONDS <= now,
    ensures
        !store.has_recent_duplicate_comment(author, content, post_id, now),
{
}

} // verus!
