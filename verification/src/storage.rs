//! In-memory content store: the pipeline's persistence sink, replay guard
//! and duplicate-content queries, with the uniqueness guarantees the durable
//! layer is trusted for stated as invariants and proved here.
//!
//! The replay guard's record operation is atomic test-and-set: recording a
//! consumption fails exactly when the reference is already recorded, so the
//! uniqueness of consumed transaction references never rests on the earlier
//! advisory lookup.

use vstd::prelude::*;
use crate::crypto::{md5_hex, md5_hex_of};
use crate::models::{clone_opt_string, Comment, Post};
use crate::text::str_eq;

verus! {

/// Trailing window, in seconds, within which identical content from the
/// same author counts as a duplicate.
pub const DUPLICATE_WINDOW_SECONDS: u64 = 300;

/// What kind of entity a consumed transaction paid for.
#[derive(Debug, Clone, Copy, PartialEq, Eq, Structural)]
pub enum TransactionKind {
    Post,
    Comment,
}

/// Durable fact that a transaction reference has been consumed for one
/// entity.
#[derive(Debug)]
pub struct ConsumedTransaction {
    pub transaction_hash: String,
    pub kind: TransactionKind,
    pub user_address: String,
    pub block_number: u64,
    pub block_timestamp: u64,
    pub entity_id: String,
}

/// Per-author counters kept by the sink.
#[derive(Debug)]
pub struct UserRecord {
    pub address: String,
    pub name: Option<String>,
    pub posts_count: u32,
    pub comments_count: u32,
    pub reputation: u32,
}

/// A persisted post, with the hash the sink computes over its body and the
/// transaction reference attached after recording.
#[derive(Debug)]
pub struct StoredPost {
    pub post: Post,
    pub content_hash: String,
    pub blockchain_transaction_hash: Option<String>,
}

/// A persisted comment and its attached transaction reference.
#[derive(Debug)]
pub struct StoredComment {
    pub comment: Comment,
    pub blockchain_transaction_hash: Option<String>,
}

/// Why a store operation was refused.
#[derive(Debug, PartialEq, Eq, Structural)]
pub enum StorageError {
    /// An entity under that identifier already exists.
    DuplicateEntityId,
    /// The transaction reference is already consumed.
    TransactionAlreadyRecorded,
}

/// Saturating 32-bit increment.
pub open spec fn sat_add32(a: u32, b: u32) -> u32 {
    if a + b > u32::MAX {
        u32::MAX
    } else {
        (a + b) as u32
    }
}

/// The store.
#[derive(Debug)]
pub struct ContentStore {
    pub users: Vec<UserRecord>,
    pub posts: Vec<StoredPost>,
    pub comments: Vec<StoredComment>,
    pub used_transactions: Vec<ConsumedTransaction>,
}

impl ContentStore {
    /// Whether `h` is a consumed transaction reference.
    pub open spec fn tx_used(self, h: Seq<char>) -> bool {
        exists|i: int|
            0 <= i < self.used_transactions@.len() && (#[trigger] self.used_transactions@[i]).transaction_hash@
                == h
    }

    /// Whether a post under `id` exists.
    pub open spec fn has_post_id(self, id: Seq<char>) -> bool {
        exists|i: int| 0 <= i < self.posts@.len() && (#[trigger] self.posts@[i]).post.id@ == id
    }

    /// Whether a comment under `id` exists.
    pub open spec fn has_comment_id(self, id: Seq<char>) -> bool {
        exists|i: int| 0 <= i < self.comments@.len() && (#[trigger] self.comments@[i]).comment.id@ == id
    }

    /// Whether a user under `address` exists.
    pub open spec fn has_user(self, address: Seq<char>) -> bool {
        exists|i: int| 0 <= i < self.users@.len() && (#[trigger] self.users@[i]).address@ == address
    }

    /// Position of the user record under `address`.
    pub open spec fn user_idx(self, address: Seq<char>) -> int {
        choose|i: int| 0 <= i < self.users@.len() && (#[trigger] self.users@[i]).address@ == address
    }

    /// The user record under `address`.
    pub open spec fn user_rec(self, address: Seq<char>) -> UserRecord {
        self.users@[self.user_idx(address)]
    }

    /// The user's post counter, zero while no record exists.
    pub open spec fn posts_count_of(self, address: Seq<char>) -> u32 {
        if self.has_user(address) {
            self.user_rec(address).posts_count
        } else {
            0
        }
    }

    /// The user's comment counter, zero while no record exists.
    pub open spec fn comments_count_of(self, address: Seq<char>) -> u32 {
        if self.has_user(address) {
            self.user_rec(address).comments_count
        } else {
            0
        }
    }

    /// The user's reputation, zero while no record exists.
    pub open spec fn reputation_of(self, address: Seq<char>) -> u32 {
        if self.has_user(address) {
            self.user_rec(address).reputation
        } else {
            0
        }
    }

    /// In a well-formed store, the record at position `i` is the one its
    /// address resolves to.
    pub proof fn lemma_user_at_index(self, i: int)
        requires
            self.wf(),
            0 <= i < self.users@.len(),
        ensures
            self.has_user(self.users@[i].address@),
            self.user_idx(self.users@[i].address@) == i,
            self.user_rec(self.users@[i].address@) == self.users@[i],
    {
        let a = self.users@[i].address@;
        assert(self.has_user(a));
        let j = self.user_idx(a);
        assert(0 <= j < self.users@.len() && self.users@[j].address@ == a);
        if i != j {
            assert(false);
        }
    }

    /// Whether `author` has a stored post with body `content` still inside
    /// the duplicate window at time `now`.
    pub open spec fn has_recent_duplicate_post(
        self,
        author: Seq<char>,
        content: Seq<char>,
        now: u64,
    ) -> bool {
        exists|i: int|
            0 <= i < self.posts@.len() && {
                let p = (#[trigger] self.posts@[i]).post;
                p.author_address@ == author && p.content@ == content && p.created_at
                    + DUPLICATE_WINDOW_SECONDS > now
            }
    }

    /// Whether `author` has a stored comment with body `content` under the
    /// post `post_id` still inside the duplicate window at time `now`.
    pub open spec fn has_recent_duplicate_comment(
        self,
        author: Seq<char>,
        content: Seq<char>,
        post_id: Seq<char>,
        now: u64,
    ) -> bool {
        exists|i: int|
            0 <= i < self.comments@.len() && {
                let c = (#[trigger] self.comments@[i]).comment;
                c.author_address@ == author && c.content@ == content && c.post_id@ == post_id
                    && c.created_at + DUPLICATE_WINDOW_SECONDS > now
            }
    }

    /// Identifiers, addresses and consumed references are pairwise distinct.
    pub open spec fn wf(self) -> bool {
        &&& forall|i: int, j: int|
            0 <= i < j < self.posts@.len() ==> (#[trigger] self.posts@[i]).post.id@
                != (#[trigger] self.posts@[j]).post.id@
        &&& forall|i: int, j: int|
            0 <= i < j < self.comments@.len() ==> (#[trigger] self.comments@[i]).comment.id@
                != (#[trigger] self.comments@[j]).comment.id@
        &&& forall|i: int, j: int|
            0 <= i < j < self.used_transactions@.len() ==> (
            #[trigger] self.used_transactions@[i]).transaction_hash@
                != (#[trigger] self.used_transactions@[j]).transaction_hash@
        &&& forall|i: int, j: int|
            0 <= i < j < self.users@.len() ==> (#[trigger] self.users@[i]).address@
                != (#[trigger] self.users@[j]).address@
    }

    /// An empty store.
    pub fn new() -> (r: Self)
        ensures
            r.wf(),
            r.users@.len() == 0,
            r.posts@.len() == 0,
            r.comments@.len() == 0,
            r.used_transactions@.len() == 0,
    {
        ContentStore { users: Vec::new(), posts: Vec::new(), comments: Vec::new(), used_transactions: Vec::new() }
    }

    /// Position of the user under `address`, if any.
    fn find_user(&self, address: &str) -> (r: Option<usize>)
        ensures
            match r {
                Some(i) => i < self.users@.len() && self.users@[i as int].address@ == address@,
                None => !self.has_user(address@),
            },
    {
        let n = self.users.len();
        let mut i: usize = 0;
        while i < n
            invariant
                n == self.users@.len(),
                i <= n,
                forall|j: int| 0 <= j < i ==> (#[trigger] self.users@[j]).address@ != address@,
            decreases n - i,
        {
            if str_eq(self.users[i].address.as_str(), address) {
                return Some(i);
            }
            i = i + 1;
        }
        None
    }

    /// Creates the user under `address` with zeroed counters if it does not
    /// exist yet; an existing record is left as it is.
    pub fn ensure_user_exists(&mut self, address: &str, name: &Option<String>)
        requires
            old(self).wf(),
        ensures
            final(self).wf(),
            final(self).posts == old(self).posts,
            final(self).comments == old(self).comments,
            final(self).used_transactions == old(self).used_transactions,
            old(self).has_user(address@) ==> final(self).users == old(self).users,
            !old(self).has_user(address@) ==> {
                &&& final(self).users@.len() == old(self).users@.len() + 1
                &&& final(self).users@.subrange(0, old(self).users@.len() as int) == old(self).users@
                &&& final(self).users@.last().address@ == address@
                &&& final(self).users@.last().name == *name
                &&& final(self).users@.last().posts_count == 0
                &&& final(self).users@.last().comments_count == 0
                &&& final(self).users@.last().reputation == 0
            },
    {
        match self.find_user(address) {
            Some(_) => {},
            None => {
                let rec = UserRecord {
                    address: address.to_owned(),
                    name: clone_opt_string(name),
                    posts_count: 0,
                    comments_count: 0,
                    reputation: 0,
                };
                self.users.push(rec);
                proof {
                    assert forall|i: int, j: int|
                        0 <= i < j < self.users@.len() implies (#[trigger] self.users@[i]).address@
                        != (#[trigger] self.users@[j]).address@ by {
                        if j == self.users@.len() - 1 {
                            assert(old(self).users@[i].address@ != address@);
                        }
                    }
                }
            },
        }
    }

    /// Adds `delta_posts`/`delta_comments`/`delta_reputation` to the
    /// author's counters, saturating; the author must exist.
    fn bump_user(&mut self, address: &str, delta_posts: u32, delta_comments: u32, delta_reputation: u32)
        requires
            old(self).wf(),
            old(self).has_user(address@),
        ensures
            final(self).wf(),
            final(self).posts == old(self).posts,
            final(self).comments == old(self).comments,
            final(self).used_transactions == old(self).used_transactions,
            exists|i: int|
                0 <= i < old(self).users@.len() && (#[trigger] old(self).users@[i]).address@ == address@
                    && final(self).users@ == old(self).users@.update(
                    i,
                    UserRecord {
                        posts_count: sat_add32(old(self).users@[i].posts_count, delta_posts),
                        comments_count: sat_add32(old(self).users@[i].comments_count, delta_comments),
                        reputation: sat_add32(old(self).users@[i].reputation, delta_reputation),
                        ..old(self).users@[i]
                    },
                ),
    {
        let i = match self.find_user(address) {
            Some(i) => i,
            None => {
                proof {
                    assert(false);
                }
                0
            },
        };
        let pc = self.users[i].posts_count.saturating_add(delta_posts);
        let cc = self.users[i].comments_count.saturating_add(delta_comments);
        let rp = self.users[i].reputation.saturating_add(delta_reputation);
        self.users[i].posts_count = pc;
        self.users[i].comments_count = cc;
        self.users[i].reputation = rp;
        proof {
            let iv = i as int;
            assert(self.users@ =~= old(self).users@.update(
                iv,
                UserRecord {
                    posts_count: sat_add32(old(self).users@[iv].posts_count, delta_posts),
                    comments_count: sat_add32(old(self).users@[iv].comments_count, delta_comments),
                    reputation: sat_add32(old(self).users@[iv].reputation, delta_reputation),
                    ..old(self).users@[iv]
                },
            ));
            assert forall|a: int, b: int|
                0 <= a < b < self.users@.len() implies (#[trigger] self.users@[a]).address@
                != (#[trigger] self.users@[b]).address@ by {
                assert(old(self).users@[a].address@ != old(self).users@[b].address@);
            }
        }
    }

    /// After creating the author's row if it was missing and bumping its
    /// counters, the counters read as the old ones — zero for a fresh row —
    /// plus the deltas, and every other user is untouched.
    proof fn lemma_user_bump(
        pre: Self,
        mid: Self,
        bumped: Self,
        address: Seq<char>,
        dp: u32,
        dc: u32,
        dr: u32,
    )
        requires
            pre.wf(),
            mid.wf(),
            bumped.wf(),
            pre.has_user(address) ==> mid.users == pre.users,
            !pre.has_user(address) ==> {
                &&& mid.users@.len() == pre.users@.len() + 1
                &&& mid.users@.subrange(0, pre.users@.len() as int) == pre.users@
                &&& mid.users@.last().address@ == address
                &&& mid.users@.last().posts_count == 0
                &&& mid.users@.last().comments_count == 0
                &&& mid.users@.last().reputation == 0
            },
            exists|i: int|
                0 <= i < mid.users@.len() && (#[trigger] mid.users@[i]).address@ == address
                    && bumped.users@ == mid.users@.update(
                    i,
                    UserRecord {
                        posts_count: sat_add32(mid.users@[i].posts_count, dp),
                        comments_count: sat_add32(mid.users@[i].comments_count, dc),
                        reputation: sat_add32(mid.users@[i].reputation, dr),
                        ..mid.users@[i]
                    },
                ),
        ensures
            bumped.has_user(address),
            bumped.posts_count_of(address) == sat_add32(pre.posts_count_of(address), dp),
            bumped.comments_count_of(address) == sat_add32(pre.comments_count_of(address), dc),
            bumped.reputation_of(address) == sat_add32(pre.reputation_of(address), dr),
            forall|b: Seq<char>| b != address ==> #[trigger] bumped.has_user(b) == pre.has_user(b),
            forall|b: Seq<char>|
                b != address && pre.has_user(b) ==> #[trigger] bumped.user_rec(b) == pre.user_rec(
                    b,
                ),
    {
        let n = pre.users@.len() as int;
        let i = choose|i: int|
            0 <= i < mid.users@.len() && (#[trigger] mid.users@[i]).address@ == address
                && bumped.users@ == mid.users@.update(
                i,
                UserRecord {
                    posts_count: sat_add32(mid.users@[i].posts_count, dp),
                    comments_count: sat_add32(mid.users@[i].comments_count, dc),
                    reputation: sat_add32(mid.users@[i].reputation, dr),
                    ..mid.users@[i]
                },
            );
        assert(bumped.users@[i].address@ == address);
        bumped.lemma_user_at_index(i);
        assert(pre.has_user(address) ==> i == pre.user_idx(address) && mid.users@[i]
            == pre.user_rec(address)) by {
            if pre.has_user(address) {
                let j = pre.user_idx(address);
                pre.lemma_user_at_index(j);
                assert(mid.users@[j].address@ == address);
                if i != j {
                    assert(false);
                }
            }
        }
        assert(!pre.has_user(address) ==> i == n && mid.users@[i].posts_count == 0
            && mid.users@[i].comments_count == 0 && mid.users@[i].reputation == 0) by {
            if !pre.has_user(address) && i < n {
                assert(mid.users@[i] == mid.users@.subrange(0, n)[i]);
                assert(pre.users@[i].address@ == address);
                assert(pre.has_user(address));
            }
        }
        assert forall|b: Seq<char>| b != address implies #[trigger] bumped.has_user(b)
            == pre.has_user(b) by {
            if pre.has_user(b) {
                let k = pre.user_idx(b);
                pre.lemma_user_at_index(k);
                assert(mid.users@[k] == pre.users@[k]) by {
                    if !pre.has_user(address) {
                        assert(mid.users@[k] == mid.users@.subrange(0, n)[k]);
                    }
                }
                assert(k != i);
                assert(bumped.users@[k] == pre.users@[k]);
                bumped.lemma_user_at_index(k);
            }
            if bumped.has_user(b) {
                let k = bumped.user_idx(b);
                bumped.lemma_user_at_index(k);
                assert(k != i);
                assert(bumped.users@[k] == mid.users@[k]);
                assert(mid.users@[k].address@ == b);
                assert(pre.has_user(b)) by {
                    if pre.has_user(address) {
                        assert(pre.users@[k].address@ == b);
                    } else {
                        assert(k < n);
                        assert(mid.users@[k] == mid.users@.subrange(0, n)[k]);
                        assert(pre.users@[k].address@ == b);
                    }
                }
            }
        }
        assert forall|b: Seq<char>| b != address && pre.has_user(b) implies #[trigger] bumped.user_rec(
            b,
        ) == pre.user_rec(b) by {
            let k = pre.user_idx(b);
            pre.lemma_user_at_index(k);
            assert(mid.users@[k] == pre.users@[k]) by {
                if !pre.has_user(address) {
                    assert(mid.users@[k] == mid.users@.subrange(0, n)[k]);
                }
            }
            assert(k != i);
            assert(bumped.users@[k] == pre.users@[k]);
            bumped.lemma_user_at_index(k);
        }
    }

    /// Persists a post: refused exactly when a post under the same
    /// identifier exists; otherwise the post is appended with the digest of
    /// its body as content hash and no attached transaction yet, the author
    /// row is created if missing, the author's post counter and reputation
    /// grow by 1 and 10, and no other user changes.
    pub fn create_post(&mut self, post: Post) -> (r: Result<(), StorageError>)
        requires
            old(self).wf(),
        ensures
            final(self).wf(),
            r is Err <==> old(self).has_post_id(post.id@),
            r is Err ==> r == Err::<(), StorageError>(StorageError::DuplicateEntityId),
            r is Err ==> *final(self) == *old(self),
            r is Ok ==> {
                &&& final(self).posts@.len() == old(self).posts@.len() + 1
                &&& final(self).posts@.subrange(0, old(self).posts@.len() as int) == old(self).posts@
                &&& final(self).posts@.last().post == post
                &&& final(self).posts@.last().content_hash@ == md5_hex_of(post.content@)
                &&& final(self).posts@.last().blockchain_transaction_hash is None
                &&& final(self).comments == old(self).comments
                &&& final(self).used_transactions == old(self).used_transactions
                &&& final(self).has_user(post.author_address@)
                &&& final(self).posts_count_of(post.author_address@) == sat_add32(
                    old(self).posts_count_of(post.author_address@),
                    1,
                )
                &&& final(self).comments_count_of(post.author_address@) == old(
                    self,
                ).comments_count_of(post.author_address@)
                &&& final(self).reputation_of(post.author_address@) == sat_add32(
                    old(self).reputation_of(post.author_address@),
                    10,
                )
                &&& forall|b: Seq<char>|
                    b != post.author_address@ ==> #[trigger] final(self).has_user(b) == old(
                        self,
                    ).has_user(b) && (old(self).has_user(b) ==> final(self).user_rec(b) == old(
                        self,
                    ).user_rec(b))
            },
    {
        if self.contains_post_id(post.id.as_str()) {
            return Err(StorageError::DuplicateEntityId);
        }
        let ghost pre = *self;
        self.ensure_user_exists(post.author_address.as_str(), &post.author_name);
        let ghost mid = *self;
        self.bump_user(post.author_address.as_str(), 1, 0, 10);
        let ghost bumped_s = *self;
        proof {
            Self::lemma_user_bump(pre, mid, bumped_s, post.author_address@, 1, 0, 10);
        }
        let hash = md5_hex(post.content.as_str());
        let ghost post_g = post;
        let rec = StoredPost { post, content_hash: hash, blockchain_transaction_hash: None };
        self.posts.push(rec);
        proof {
            assert forall|i: int, j: int|
                0 <= i < j < self.posts@.len() implies (#[trigger] self.posts@[i]).post.id@
                != (#[trigger] self.posts@[j]).post.id@ by {
                if j == self.posts@.len() - 1 {
                    assert(pre.posts@[i].post.id@ != post_g.id@);
                }
            }
            assert(self.posts@.subrange(0, pre.posts@.len() as int) =~= pre.posts@);
            let a = post_g.author_address@;
            assert(self.users == bumped_s.users);
            let k = bumped_s.user_idx(a);
            bumped_s.lemma_user_at_index(k);
            assert(self.users@[k].address@ == a);
            self.lemma_user_at_index(k);
            assert(self.user_rec(a) == bumped_s.user_rec(a));
            assert(self.posts_count_of(a) == sat_add32(pre.posts_count_of(a), 1));
            assert(self.comments_count_of(a) == pre.comments_count_of(a));
            assert(self.reputation_of(a) == sat_add32(pre.reputation_of(a), 10));
            assert forall|b: Seq<char>| b != a implies #[trigger] self.has_user(b) == pre.has_user(
                b,
            ) && (pre.has_user(b) ==> self.user_rec(b) == pre.user_rec(b)) by {
                if bumped_s.has_user(b) {
                    let k2 = bumped_s.user_idx(b);
                    bumped_s.lemma_user_at_index(k2);
                    self.lemma_user_at_index(k2);
                }
                if self.has_user(b) {
                    let k2 = self.user_idx(b);
                    self.lemma_user_at_index(k2);
                    bumped_s.lemma_user_at_index(k2);
                }
            }
        }
        Ok(())
    }

    /// Persists a comment: refused exactly when a comment under the same
    /// identifier exists; otherwise the comment is appended, the author row
    /// is created if missing, the author's comment counter and reputation
    /// grow by 1 and 5, and the comment counter of its post — if that post
    /// exists — grows by 1.
    pub fn add_comment(&mut self, comment: Comment) -> (r: Result<(), StorageError>)
        requires
            old(self).wf(),
        ensures
            final(self).wf(),
            r is Err <==> old(self).has_comment_id(comment.id@),
            r is Err ==> r == Err::<(), StorageError>(StorageError::DuplicateEntityId),
            r is Err ==> *final(self) == *old(self),
            r is Ok ==> {
                &&& final(self).comments@.len() == old(self).comments@.len() + 1
                &&& final(self).comments@.subrange(0, old(self).comments@.len() as int) == old(
                    self,
                ).comments@
                &&& final(self).comments@.last().comment == comment
                &&& final(self).comments@.last().blockchain_transaction_hash is None
                &&& final(self).used_transactions == old(self).used_transactions
                &&& final(self).has_user(comment.author_address@)
                &&& final(self).comments_count_of(comment.author_address@) == sat_add32(
                    old(self).comments_count_of(comment.author_address@),
                    1,
                )
                &&& final(self).posts_count_of(comment.author_address@) == old(
                    self,
                ).posts_count_of(comment.author_address@)
                &&& final(self).reputation_of(comment.author_address@) == sat_add32(
                    old(self).reputation_of(comment.author_address@),
                    5,
                )
                &&& forall|b: Seq<char>|
                    b != comment.author_address@ ==> #[trigger] final(self).has_user(b) == old(
                        self,
                    ).has_user(b) && (old(self).has_user(b) ==> final(self).user_rec(b) == old(
                        self,
                    ).user_rec(b))
                &&& final(self).posts@.len() == old(self).posts@.len()
                &&& forall|i: int|
                    0 <= i < old(self).posts@.len() ==> (#[trigger] final(self).posts@[i]).post.id@
                        == old(self).posts@[i].post.id@
            },
    {
        if self.contains_comment_id(comment.id.as_str()) {
            return Err(StorageError::DuplicateEntityId);
        }
        let ghost pre = *self;
        self.ensure_user_exists(comment.author_address.as_str(), &comment.author_name);
        let ghost mid = *self;
        self.bump_user(comment.author_address.as_str(), 0, 1, 5);
        let ghost bumped_s = *self;
        proof {
            Self::lemma_user_bump(pre, mid, bumped_s, comment.author_address@, 0, 1, 5);
        }
        self.bump_post_comment_counter(comment.post_id.as_str());
        let ghost comment_g = comment;
        let rec = StoredComment { comment, blockchain_transaction_hash: None };
        self.comments.push(rec);
        proof {
            assert forall|i: int, j: int|
                0 <= i < j < self.comments@.len() implies (#[trigger] self.comments@[i]).comment.id@
                != (#[trigger] self.comments@[j]).comment.id@ by {
                if j == self.comments@.len() - 1 {
                    assert(pre.comments@[i].comment.id@ != comment_g.id@);
                }
            }
            assert(self.comments@.subrange(0, pre.comments@.len() as int) =~= pre.comments@);
            let a = comment_g.author_address@;
            assert(self.users == bumped_s.users);
            let k = bumped_s.user_idx(a);
            bumped_s.lemma_user_at_index(k);
            assert(self.users@[k].address@ == a);
            self.lemma_user_at_index(k);
            assert(self.user_rec(a) == bumped_s.user_rec(a));
            assert(self.comments_count_of(a) == sat_add32(pre.comments_count_of(a), 1));
            assert(self.posts_count_of(a) == pre.posts_count_of(a));
            assert(self.reputation_of(a) == sat_add32(pre.reputation_of(a), 5));
            assert forall|b: Seq<char>| b != a implies #[trigger] self.has_user(b) == pre.has_user(
                b,
            ) && (pre.has_user(b) ==> self.user_rec(b) == pre.user_rec(b)) by {
                if bumped_s.has_user(b) {
                    let k2 = bumped_s.user_idx(b);
                    bumped_s.lemma_user_at_index(k2);
                    self.lemma_user_at_index(k2);
                }
                if self.has_user(b) {
                    let k2 = self.user_idx(b);
                    self.lemma_user_at_index(k2);
                    bumped_s.lemma_user_at_index(k2);
                }
            }
        }
        Ok(())
    }

    /// Adds one to the comment counter of the post under `post_id`, if that
    /// post exists; post identities are untouched.
    fn bump_post_comment_counter(&mut self, post_id: &str)
        requires
            old(self).wf(),
        ensures
            final(self).wf(),
            final(self).users == old(self).users,
            final(self).comments == old(self).comments,
            final(self).used_transactions == old(self).used_transactions,
            final(self).posts@.len() == old(self).posts@.len(),
            forall|i: int|
                0 <= i < old(self).posts@.len() ==> (#[trigger] final(self).posts@[i]).post.id@ == old(
                    self,
                ).posts@[i].post.id@,
    {
        let n = self.posts.len();
        let mut i: usize = 0;
        while i < n
            invariant
                n == self.posts@.len(),
                i <= n,
                self.wf(),
                self.users == old(self).users,
                self.comments == old(self).comments,
                self.used_transactions == old(self).used_transactions,
                self.posts@.len() == old(self).posts@.len(),
                forall|j: int|
                    0 <= j < old(self).posts@.len() ==> (#[trigger] self.posts@[j]).post.id@ == old(
                        self,
                    ).posts@[j].post.id@,
            decreases n - i,
        {
            if str_eq(self.posts[i].post.id.as_str(), post_id) {
                let ghost pre = *self;
                let c = self.posts[i].post.comments_count.saturating_add(1);
                self.posts[i].post.comments_count = c;
                proof {
                    assert forall|a: int, b: int|
                        0 <= a < b < self.posts@.len() implies (#[trigger] self.posts@[a]).post.id@
                        != (#[trigger] self.posts@[b]).post.id@ by {
                        assert(pre.posts@[a].post.id@ != pre.posts@[b].post.id@);
                    }
                }
                return ;
            }
            i = i + 1;
        }
    }

    /// Whether a post under `id` exists.
    pub fn contains_post_id(&self, id: &str) -> (r: bool)
        ensures
            r == self.has_post_id(id@),
    {
        let n = self.posts.len();
        let mut i: usize = 0;
        while i < n
            invariant
                n == self.posts@.len(),
                i <= n,
                forall|j: int| 0 <= j < i ==> (#[trigger] self.posts@[j]).post.id@ != id@,
            decreases n - i,
        {
            if str_eq(self.posts[i].post.id.as_str(), id) {
                return true;
            }
            i = i + 1;
        }
        false
    }

    /// Whether a comment under `id` exists.
    pub fn contains_comment_id(&self, id: &str) -> (r: bool)
        ensures
            r == self.has_comment_id(id@),
    {
        let n = self.comments.len();
        let mut i: usize = 0;
        while i < n
            invariant
                n == self.comments@.len(),
                i <= n,
                forall|j: int| 0 <= j < i ==> (#[trigger] self.comments@[j]).comment.id@ != id@,
            decreases n - i,
        {
            if str_eq(self.comments[i].comment.id.as_str(), id) {
                return true;
            }
            i = i + 1;
        }
        false
    }

    /// The replay guard's lookup: whether `tx_hash` is already consumed.
    pub fn is_transaction_used(&self, tx_hash: &str) -> (r: bool)
        ensures
            r == self.tx_used(tx_hash@),
    {
        let n = self.used_transactions.len();
        let mut i: usize = 0;
        while i < n
            invariant
                n == self.used_transactions@.len(),
                i <= n,
                forall|j: int|
                    0 <= j < i ==> (#[trigger] self.used_transactions@[j]).transaction_hash@ != tx_hash@,
            decreases n - i,
        {
            if str_eq(self.used_transactions[i].transaction_hash.as_str(), tx_hash) {
                return true;
            }
            i = i + 1;
        }
        false
    }

    /// The duplicate-content guard for posts: whether `author` stored the
    /// same body within the trailing window before `now`.
    pub fn check_duplicate_post(&self, author_address: &str, content: &str, now: u64) -> (r: bool)
        ensures
            r == self.has_recent_duplicate_post(author_address@, content@, now),
    {
        let n = self.posts.len();
        let mut i: usize = 0;
        while i < n
            invariant
                n == self.posts@.len(),
                i <= n,
                forall|j: int|
                    0 <= j < i ==> !{
                        let p = (#[trigger] self.posts@[j]).post;
                        p.author_address@ == author_address@ && p.content@ == content@
                            && p.created_at + DUPLICATE_WINDOW_SECONDS > now
                    },
            decreases n - i,
        {
            let p = &self.posts[i].post;
            if str_eq(p.author_address.as_str(), author_address) && str_eq(p.content.as_str(), content) {
                if p.created_at >= now || now - p.created_at < DUPLICATE_WINDOW_SECONDS {
                    return true;
                }
            }
            i = i + 1;
        }
        false
    }

    /// The duplicate-content guard for comments: as for posts, but scoped to
    /// one post.
    pub fn check_duplicate_comment(
        &self,
        author_address: &str,
        content: &str,
        post_id: &str,
        now: u64,
    ) -> (r: bool)
        ensures
            r == self.has_recent_duplicate_comment(author_address@, content@, post_id@, now),
    {
        let n = self.comments.len();
        let mut i: usize = 0;
        while i < n
            invariant
                n == self.comments@.len(),
                i <= n,
                forall|j: int|
                    0 <= j < i ==> !{
                        let c = (#[trigger] self.comments@[j]).comment;
                        c.author_address@ == author_address@ && c.content@ == content@ && c.post_id@
                            == post_id@ && c.created_at + DUPLICATE_WINDOW_SECONDS > now
                    },
            decreases n - i,
        {
            let c = &self.comments[i].comment;
            if str_eq(c.author_address.as_str(), author_address) && str_eq(c.content.as_str(), content)
                && str_eq(c.post_id.as_str(), post_id) {
                if c.created_at >= now || now - c.created_at < DUPLICATE_WINDOW_SECONDS {
                    return true;
                }
            }
            i = i + 1;
        }
        false
    }

    /// The replay guard's atomic record: consumes `tx_hash` for a post,
    /// refused exactly when the reference is already consumed.
    pub fn record_post_transaction(
        &mut self,
        tx_hash: &str,
        user_address: &str,
        block_number: u64,
        block_timestamp: u64,
        post_id: &str,
    ) -> (r: Result<(), StorageError>)
        requires
            old(self).wf(),
        ensures
            final(self).wf(),
            r is Err <==> old(self).tx_used(tx_hash@),
            r is Err ==> r == Err::<(), StorageError>(StorageError::TransactionAlreadyRecorded),
            r is Err ==> *final(self) == *old(self),
            r is Ok ==> {
                &&& final(self).users == old(self).users
                &&& final(self).posts == old(self).posts
                &&& final(self).comments == old(self).comments
                &&& final(self).used_transactions@.len() == old(self).used_transactions@.len() + 1
                &&& final(self).used_transactions@.subrange(
                    0,
                    old(self).used_transactions@.len() as int,
                ) == old(self).used_transactions@
                &&& final(self).used_transactions@.last().transaction_hash@ == tx_hash@
                &&& final(self).used_transactions@.last().kind == TransactionKind::Post
                &&& final(self).used_transactions@.last().user_address@ == user_address@
                &&& final(self).used_transactions@.last().block_number == block_number
                &&& final(self).used_transactions@.last().block_timestamp == block_timestamp
                &&& final(self).used_transactions@.last().entity_id@ == post_id@
            },
    {
        self.record_transaction(tx_hash, TransactionKind::Post, user_address, block_number, block_timestamp, post_id)
    }

    /// The replay guard's atomic record: consumes `tx_hash` for a comment,
    /// refused exactly when the reference is already consumed.
    pub fn record_comment_transaction(
        &mut self,
        tx_hash: &str,
        user_address: &str,
        block_number: u64,
        block_timestamp: u64,
        comment_id: &str,
    ) -> (r: Result<(), StorageError>)
        requires
            old(self).wf(),
        ensures
            final(self).wf(),
            r is Err <==> old(self).tx_used(tx_hash@),
            r is Err ==> r == Err::<(), StorageError>(StorageError::TransactionAlreadyRecorded),
            r is Err ==> *final(self) == *old(self),
            r is Ok ==> {
                &&& final(self).users == old(self).users
                &&& final(self).posts == old(self).posts
                &&& final(self).comments == old(self).comments
                &&& final(self).used_transactions@.len() == old(self).used_transactions@.len() + 1
                &&& final(self).used_transactions@.subrange(
                    0,
                    old(self).used_transactions@.len() as int,
                ) == old(self).used_transactions@
                &&& final(self).used_transactions@.last().transaction_hash@ == tx_hash@
                &&& final(self).used_transactions@.last().kind == TransactionKind::Comment
                &&& final(self).used_transactions@.last().user_address@ == user_address@
                &&& final(self).used_transactions@.last().block_number == block_number
                &&& final(self).used_transactions@.last().block_timestamp == block_timestamp
                &&& final(self).used_transactions@.last().entity_id@ == comment_id@
            },
    {
        self.record_transaction(tx_hash, TransactionKind::Comment, user_address, block_number, block_timestamp, comment_id)
    }

    fn record_transaction(
        &mut self,
        tx_hash: &str,
        kind: TransactionKind,
        user_address: &str,
        block_number: u64,
        block_timestamp: u64,
        entity_id: &str,
    ) -> (r: Result<(), StorageError>)
        requires
            old(self).wf(),
        ensures
            final(self).wf(),
            r is Err <==> old(self).tx_used(tx_hash@),
            r is Err ==> r == Err::<(), StorageError>(StorageError::TransactionAlreadyRecorded),
            r is Err ==> *final(self) == *old(self),
            r is Ok ==> {
                &&& final(self).users == old(self).users
                &&& final(self).posts == old(self).posts
                &&& final(self).comments == old(self).comments
                &&& final(self).used_transactions@.len() == old(self).used_transactions@.len() + 1
                &&& final(self).used_transactions@.subrange(
                    0,
                    old(self).used_transactions@.len() as int,
                ) == old(self).used_transactions@
                &&& final(self).used_transactions@.last().transaction_hash@ == tx_hash@
                &&& final(self).used_transactions@.last().kind == kind
                &&& final(self).used_transactions@.last().user_address@ == user_address@
                &&& final(self).used_transactions@.last().block_number == block_number
                &&& final(self).used_transactions@.last().block_timestamp == block_timestamp
                &&& final(self).used_transactions@.last().entity_id@ == entity_id@
            },
    {
        if self.is_transaction_used(tx_hash) {
            return Err(StorageError::TransactionAlreadyRecorded);
        }
        let ghost pre = *self;
        let rec = ConsumedTransaction {
            transaction_hash: tx_hash.to_owned(),
            kind,
            user_address: user_address.to_owned(),
            block_number,
            block_timestamp,
            entity_id: entity_id.to_owned(),
        };
        self.used_transactions.push(rec);
        proof {
            assert forall|i: int, j: int|
                0 <= i < j < self.used_transactions@.len() implies (
            #[trigger] self.used_transactions@[i]).transaction_hash@ != (
            #[trigger] self.used_transactions@[j]).transaction_hash@ by {
                if j == self.used_transactions@.len() - 1 {
                    assert(pre.used_transactions@[i].transaction_hash@ != tx_hash@);
                }
            }
            assert(self.used_transactions@.subrange(0, pre.used_transactions@.len() as int)
                =~= pre.used_transactions@);
        }
        Ok(())
    }

    /// Attaches `tx_hash` to the stored post under `post_id`; a missing post
    /// leaves the store unchanged. Post identities are untouched.
    pub fn update_post_blockchain_hash(&mut self, post_id: &str, tx_hash: &str)
        requires
            old(self).wf(),
        ensures
            final(self).wf(),
            final(self).users == old(self).users,
            final(self).comments == old(self).comments,
            final(self).used_transactions == old(self).used_transactions,
            final(self).posts@.len() == old(self).posts@.len(),
            forall|i: int|
                0 <= i < old(self).posts@.len() && old(self).posts@[i].post.id@ != post_id@ ==> (
                #[trigger] final(self).posts@[i]) == old(self).posts@[i],
            forall|i: int|
                0 <= i < old(self).posts@.len() && old(self).posts@[i].post.id@ == post_id@ ==> {
                    &&& (#[trigger] final(self).posts@[i]).post == old(self).posts@[i].post
                    &&& final(self).posts@[i].content_hash == old(self).posts@[i].content_hash
                    &&& final(self).posts@[i].blockchain_transaction_hash matches Some(h) && h@
                        == tx_hash@
                },
    {
        let n = self.posts.len();
        let mut i: usize = 0;
        while i < n
            invariant
                n == self.posts@.len(),
                i <= n,
                self.wf(),
                self.users == old(self).users,
                self.comments == old(self).comments,
                self.used_transactions == old(self).used_transactions,
                self.posts@.len() == old(self).posts@.len(),
                forall|j: int|
                    0 <= j < i && old(self).posts@[j].post.id@ != post_id@ ==> (
                    #[trigger] self.posts@[j]) == old(self).posts@[j],
                forall|j: int|
                    0 <= j < i && old(self).posts@[j].post.id@ == post_id@ ==> {
                        &&& (#[trigger] self.posts@[j]).post == old(self).posts@[j].post
                        &&& self.posts@[j].content_hash == old(self).posts@[j].content_hash
                        &&& self.posts@[j].blockchain_transaction_hash matches Some(h) && h@
                            == tx_hash@
                    },
                forall|j: int| i <= j < n ==> (#[trigger] self.posts@[j]) == old(self).posts@[j],
            decreases n - i,
        {
            if str_eq(self.posts[i].post.id.as_str(), post_id) {
                let ghost pre = *self;
                self.posts[i].blockchain_transaction_hash = Some(tx_hash.to_owned());
                proof {
                    assert forall|a: int, b: int|
                        0 <= a < b < self.posts@.len() implies (#[trigger] self.posts@[a]).post.id@
                        != (#[trigger] self.posts@[b]).post.id@ by {
                        assert(pre.posts@[a].post.id@ != pre.posts@[b].post.id@);
                    }
                }
            }
            i = i + 1;
        }
    }

    /// Attaches `tx_hash` to the stored comment under `comment_id`; a
    /// missing comment leaves the store unchanged.
    pub fn update_comment_blockchain_hash(&mut self, comment_id: &str, tx_hash: &str)
        requires
            old(self).wf(),
        ensures
            final(self).wf(),
            final(self).users == old(self).users,
            final(self).posts == old(self).posts,
            final(self).used_transactions == old(self).used_transactions,
            final(self).comments@.len() == old(self).comments@.len(),
            forall|i: int|
                0 <= i < old(self).comments@.len() && old(self).comments@[i].comment.id@ != comment_id@
                    ==> (#[trigger] final(self).comments@[i]) == old(self).comments@[i],
            forall|i: int|
                0 <= i < old(self).comments@.len() && old(self).comments@[i].comment.id@ == comment_id@
                    ==> {
                    &&& (#[trigger] final(self).comments@[i]).comment == old(self).comments@[i].comment
                    &&& final(self).comments@[i].blockchain_transaction_hash matches Some(h) && h@
                        == tx_hash@
                },
    {
        let n = self.comments.len();
        let mut i: usize = 0;
        while i < n
            invariant
                n == self.comments@.len(),
                i <= n,
                self.wf(),
                self.users == old(self).users,
                self.posts == old(self).posts,
                self.used_transactions == old(self).used_transactions,
                self.comments@.len() == old(self).comments@.len(),
                forall|j: int|
                    0 <= j < i && old(self).comments@[j].comment.id@ != comment_id@ ==> (
                    #[trigger] self.comments@[j]) == old(self).comments@[j],
                forall|j: int|
                    0 <= j < i && old(self).comments@[j].comment.id@ == comment_id@ ==> {
                        &&& (#[trigger] self.comments@[j]).comment == old(self).comments@[j].comment
                        &&& self.comments@[j].blockchain_transaction_hash matches Some(h) && h@
                            == tx_hash@
                    },
                forall|j: int| i <= j < n ==> (#[trigger] self.comments@[j]) == old(self).comments@[j],
            decreases n - i,
        {
            if str_eq(self.comments[i].comment.id.as_str(), comment_id) {
                let ghost pre = *self;
                self.comments[i].blockchain_transaction_hash = Some(tx_hash.to_owned());
                proof {
                    assert forall|a: int, b: int|
                        0 <= a < b < self.comments@.len() implies (#[trigger] self.comments@[a]).comment.id@
                        != (#[trigger] self.comments@[b]).comment.id@ by {
                        assert(pre.comments@[a].comment.id@ != pre.comments@[b].comment.id@);
                    }
                }
            }
            i = i + 1;
        }
    }
}

} // verus!
