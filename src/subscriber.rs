//! Subscribers and the store that owns their lifecycle: a pending signup,
//! single-use verification, and unsubscription.
//!
//! Unsubscribing clears the subscription flag and keeps the record, so that
//! a later signup with the same address starts a fresh verification.

use crate::token::{token_accepted, unsubscribe_token_of};
use uuid::{NoContext, Timestamp, Uuid};
use validator::ValidateEmail;
use vstd::prelude::*;

verus! {

/// A subscriber record.
#[derive(Debug, Clone, PartialEq, Eq)]
pub struct User {
    pub id: String,
    pub email: String,
    pub is_verified: bool,
    pub verification_token: String,
    pub is_subscribed: bool,
}

/// What a subscriber record holds, as plain values.
pub struct UserView {
    pub id: Seq<char>,
    pub email: Seq<char>,
    pub is_verified: bool,
    pub verification_token: Seq<char>,
    pub is_subscribed: bool,
}

impl View for User {
    type V = UserView;

    open spec fn view(&self) -> UserView {
        UserView {
            id: self.id@,
            email: self.email@,
            is_verified: self.is_verified,
            verification_token: self.verification_token@,
            is_subscribed: self.is_subscribed,
        }
    }
}

/// The body of a signup request.
#[derive(Debug, Clone)]
pub struct SignUpRequest {
    pub email: String,
}

/// The query of a verification link.
#[derive(Debug, Clone)]
pub struct VerifyParams {
    pub token: String,
}

/// The query of an unsubscribe link.
#[derive(Debug, Clone)]
pub struct UnsubscribeParams {
    pub id: String,
    pub token: String,
}

/// Relies on `uuid::Uuid::new_v7` at the current time, written hyphenated
/// by its `Display` (36 characters).
#[verifier::external_body]
fn time_ordered_id() -> (r: String)
    ensures
        r@.len() == 36,
{
    Uuid::new_v7(Timestamp::now(NoContext)).to_string()
}

/// Relies on `uuid::Uuid::new_v4`, random, written hyphenated by its
/// `Display` (36 characters).
#[verifier::external_body]
fn random_token() -> (r: String)
    ensures
        r@.len() == 36,
{
    Uuid::new_v4().to_string()
}

impl User {
    /// A fresh, unverified and unsubscribed record with a new time-ordered id
    /// and a new random verification token.
    pub fn new(email: String) -> (r: User)
        ensures
            r.email@ == email@,
            r.id@.len() == 36,
            r.verification_token@.len() == 36,
            !r.is_verified,
            !r.is_subscribed,
    {
        let id = time_ordered_id();
        let verification_token = random_token();
        User { id, email, is_verified: false, verification_token, is_subscribed: false }
    }

    /// A copy of the record.
    pub fn duplicate(&self) -> (r: User)
        ensures
            r@ == self@,
    {
        User {
            id: self.id.clone(),
            email: self.email.clone(),
            is_verified: self.is_verified,
            verification_token: self.verification_token.clone(),
            is_subscribed: self.is_subscribed,
        }
    }

    /// The unsubscribe token of this subscriber under `secret`.
    pub fn generate_unsubscribe_token(&self, secret: &str) -> (r: String)
        ensures
            r@ == unsubscribe_token_of(self.id@, secret@),
            r@.len() == 64,
    {
        crate::token::issue(self.id.as_str(), secret)
    }

    /// Whether `token` is this subscriber's unsubscribe token under `secret`.
    pub fn verify_unsubscribe_token(&self, token: &str, secret: &str) -> (r: bool)
        ensures
            r == token_accepted(self.id@, token@, secret@),
            r ==> token@.len() == 64,
    {
        crate::token::verify(self.id.as_str(), token, secret)
    }
}

/// Why a signup was refused.
#[derive(Debug, Clone, Copy, PartialEq, Eq, Structural)]
pub enum SignupError {
    /// The address is not a well-formed email address.
    InvalidEmail,
    /// The address already belongs to a verified, subscribed record.
    Conflict,
    /// The candidate's id already belongs to another record.
    IdTaken,
}

impl SignupError {
    /// The HTTP status that reports this error.
    pub fn status_code(&self) -> (r: u16)
        ensures
            *self == SignupError::InvalidEmail ==> r == 400,
            *self == SignupError::Conflict ==> r == 409,
            *self == SignupError::IdTaken ==> r == 500,
    {
        match self {
            SignupError::InvalidEmail => 400,
            SignupError::Conflict => 409,
            SignupError::IdTaken => 500,
        }
    }

    /// The message that reports this error.
    pub fn message(&self) -> (r: &'static str)
        ensures
            *self == SignupError::InvalidEmail ==> r@ == "Please provide a valid email address."@,
            *self == SignupError::Conflict ==> r@ == "Email already registered and verified"@,
            *self == SignupError::IdTaken ==> r@ == "Internal server error"@,
    {
        match self {
            SignupError::InvalidEmail => "Please provide a valid email address.",
            SignupError::Conflict => "Email already registered and verified",
            SignupError::IdTaken => "Internal server error",
        }
    }
}

/// No pending record carries the presented verification token.
#[derive(Debug, Clone, Copy, PartialEq, Eq, Structural)]
pub struct NotFound;

impl NotFound {
    /// The HTTP status that reports a failed verification.
    pub fn status_code(&self) -> (r: u16)
        ensures
            r == 400,
    {
        400
    }

    /// The message that reports a failed verification, the same whether the
    /// token was used already or never issued.
    pub fn message(&self) -> (r: &'static str)
        ensures
            r@ == "Invalid or already used verification token"@,
    {
        "Invalid or already used verification token"
    }
}

/// The presented unsubscribe token does not belong to the subscriber id.
#[derive(Debug, Clone, Copy, PartialEq, Eq, Structural)]
pub struct InvalidToken;

impl InvalidToken {
    /// The HTTP status that reports a refused unsubscribe link.
    pub fn status_code(&self) -> (r: u16)
        ensures
            r == 400,
    {
        400
    }

    /// The message that reports a refused unsubscribe link.
    pub fn message(&self) -> (r: &'static str)
        ensures
            r@ == "Invalid unsubscribe link"@,
    {
        "Invalid unsubscribe link"
    }
}

/// Whether an address is accepted as an email address.
pub uninterp spec fn email_is_valid(email: Seq<char>) -> bool;

/// Relies on `validator::ValidateEmail` for `&str`: the verdict depends on
/// the text alone, and text without an `@` is refused.
#[verifier::external_body]
fn check_email(email: &str) -> (r: bool)
    ensures
        r == email_is_valid(email@),
        !email@.contains('@') ==> !r,
{
    email.validate_email()
}

/// A record that receives notifications.
pub open spec fn is_active(u: UserView) -> bool {
    u.is_verified && u.is_subscribed
}

/// A record still waiting for verification with `token`.
pub open spec fn is_pending_with(u: UserView, token: Seq<char>) -> bool {
    !u.is_verified && u.verification_token == token
}

pub open spec fn has_email(s: Seq<UserView>, email: Seq<char>) -> bool {
    exists|i: int| 0 <= i < s.len() && s[i].email == email
}

/// The position of the record with `email`, where there is one.
pub open spec fn index_of_email(s: Seq<UserView>, email: Seq<char>) -> int {
    choose|i: int| 0 <= i < s.len() && s[i].email == email
}

pub open spec fn has_id(s: Seq<UserView>, id: Seq<char>) -> bool {
    exists|i: int| 0 <= i < s.len() && s[i].id == id
}

/// No two records share an id.
pub open spec fn ids_unique(s: Seq<UserView>) -> bool {
    forall|i: int, j: int| 0 <= i < s.len() && 0 <= j < s.len() && i != j ==> s[i].id != s[j].id
}

/// No two records share an address.
pub open spec fn emails_unique(s: Seq<UserView>) -> bool {
    forall|i: int, j: int| 0 <= i < s.len() && 0 <= j < s.len() && i != j ==> s[i].email != s[j].email
}

/// The record that a signup creates from a candidate.
pub open spec fn fresh_record(c: UserView) -> UserView {
    UserView { is_verified: false, is_subscribed: false, ..c }
}

/// A record whose verification restarts with `token`.
pub open spec fn restarted(u: UserView, token: Seq<char>) -> UserView {
    UserView { verification_token: token, is_verified: false, is_subscribed: false, ..u }
}

/// The records after a signup with `candidate`, and its outcome.
pub open spec fn signup_outcome(s: Seq<UserView>, candidate: UserView) -> (Seq<UserView>, Result<UserView, SignupError>) {
    if !has_email(s, candidate.email) {
        if has_id(s, candidate.id) {
            (s, Err(SignupError::IdTaken))
        } else {
            (s.push(fresh_record(candidate)), Ok(fresh_record(candidate)))
        }
    } else {
        let i = index_of_email(s, candidate.email);
        if is_active(s[i]) {
            (s, Err(SignupError::Conflict))
        } else {
            let u = restarted(s[i], candidate.verification_token);
            (s.update(i, u), Ok(u))
        }
    }
}

pub open spec fn verified(u: UserView) -> UserView {
    UserView { is_verified: true, is_subscribed: true, ..u }
}

/// The records after verification with `token`: every record pending with
/// it becomes verified and subscribed.
pub open spec fn after_verification(s: Seq<UserView>, token: Seq<char>) -> Seq<UserView> {
    Seq::new(s.len(), |i: int| if is_pending_with(s[i], token) { verified(s[i]) } else { s[i] })
}

/// `i` is the first record pending with `token`.
pub open spec fn first_pending(s: Seq<UserView>, token: Seq<char>, i: int) -> bool {
    &&& 0 <= i < s.len()
    &&& is_pending_with(s[i], token)
    &&& forall|j: int| 0 <= j < i ==> !is_pending_with(#[trigger] s[j], token)
}

pub open spec fn has_pending(s: Seq<UserView>, token: Seq<char>) -> bool {
    exists|i: int| 0 <= i < s.len() && is_pending_with(s[i], token)
}

/// The records after unsubscribing `id`: its subscription flag is cleared.
pub open spec fn after_unsubscribe(s: Seq<UserView>, id: Seq<char>) -> Seq<UserView> {
    Seq::new(s.len(), |i: int| if s[i].id == id { UserView { is_subscribed: false, ..s[i] } } else { s[i] })
}

pub open spec fn is_subscribed_id(s: Seq<UserView>, id: Seq<char>) -> bool {
    exists|i: int| 0 <= i < s.len() && s[i].id == id && s[i].is_subscribed
}

/// The recipients of a notification, in store order.
pub open spec fn active_recipients(s: Seq<UserView>) -> Seq<UserView> {
    s.filter(|u: UserView| is_active(u))
}

/// The view of a returned record, or the error as it is.
pub open spec fn outcome_view<E>(r: Result<User, E>) -> Result<UserView, E> {
    match r {
        Ok(u) => Ok(u@),
        Err(e) => Err(e),
    }
}

/// Two signups in a row for an address that is not active both succeed,
/// and the second hands out a different verification token than the first
/// whenever the two candidates carry different tokens. (A first signup that
/// creates a record needs an id that is not taken yet.)
pub proof fn lemma_repeated_signup_renews_token(s: Seq<UserView>, c1: UserView, c2: UserView)
    requires
        emails_unique(s),
        c1.email == c2.email,
        c1.verification_token != c2.verification_token,
        ids_unique(s),
        !has_email(s, c1.email) ==> !has_id(s, c1.id),
        forall|i: int| 0 <= i < s.len() && s[i].email == c1.email ==> !is_active(s[i]),
    ensures
        ({
            let (s1, r1) = signup_outcome(s, c1);
            let (s2, r2) = signup_outcome(s1, c2);
            &&& r1 is Ok
            &&& r2 is Ok
            &&& r1->Ok_0.verification_token != r2->Ok_0.verification_token
            &&& r2->Ok_0.verification_token == c2.verification_token
        }),
{
    let (s1, r1) = signup_outcome(s, c1);
    lemma_signup_keeps_store_wf(s, c1);
    if !has_email(s, c1.email) {
        let n = s.len() as int;
        assert(s1[n].email == c1.email);
        assert(has_email(s1, c2.email));
        let k = index_of_email(s1, c2.email);
        assert(k == n);
    } else {
        let i = index_of_email(s, c1.email);
        assert(s1[i].email == c1.email);
        assert(has_email(s1, c2.email));
        let k = index_of_email(s1, c2.email);
        assert(k == i);
    }
}

/// A signup keeps addresses and ids unique.
pub proof fn lemma_signup_keeps_store_wf(s: Seq<UserView>, c: UserView)
    requires
        emails_unique(s),
        ids_unique(s),
    ensures
        emails_unique(signup_outcome(s, c).0),
        ids_unique(signup_outcome(s, c).0),
{
    if !has_email(s, c.email) && !has_id(s, c.id) {
        let s1 = s.push(fresh_record(c));
        assert forall|i: int, j: int| 0 <= i < s1.len() && 0 <= j < s1.len() && i != j implies s1[i].email != s1[j].email && s1[i].id != s1[j].id by {
            if i == s.len() {
                assert(s[j].email != c.email && s[j].id != c.id);
            } else if j == s.len() {
                assert(s[i].email != c.email && s[i].id != c.id);
            }
        }
    } else if has_email(s, c.email) {
        let i = index_of_email(s, c.email);
        let s1 = signup_outcome(s, c).0;
        assert forall|a: int, b: int| 0 <= a < s1.len() && 0 <= b < s1.len() && a != b implies s1[a].email != s1[b].email && s1[a].id != s1[b].id by {
            assert(s1[a].email == s[a].email && s1[a].id == s[a].id);
            assert(s1[b].email == s[b].email && s1[b].id == s[b].id);
        }
    }
}

/// A signup for an address whose record is verified and subscribed is
/// refused with `Conflict` and leaves every record as it was.
pub proof fn lemma_active_signup_conflicts(s: Seq<UserView>, c: UserView, i: int)
    requires
        emails_unique(s),
        0 <= i < s.len(),
        s[i].email == c.email,
        is_active(s[i]),
    ensures
        signup_outcome(s, c) == (s, Err::<UserView, SignupError>(SignupError::Conflict)),
{
    assert(has_email(s, c.email));
    assert(index_of_email(s, c.email) == i);
}

/// Once a token has been consumed, no record is pending with it, so a
/// second verification with the same token finds nothing.
pub proof fn lemma_verification_token_single_use(s: Seq<UserView>, token: Seq<char>)
    ensures
        !has_pending(after_verification(s, token), token),
{
    let s1 = after_verification(s, token);
    assert forall|i: int| 0 <= i < s1.len() implies !is_pending_with(#[trigger] s1[i], token) by {
        if is_pending_with(s[i], token) {
            assert(s1[i] == verified(s[i]));
        }
    }
}

/// The subscriber records, at most one per address.
pub struct SubscriberStore {
    users: Vec<User>,
}

impl View for SubscriberStore {
    type V = Seq<UserView>;

    closed spec fn view(&self) -> Seq<UserView> {
        self.users@.map_values(|u: User| u@)
    }
}

impl SubscriberStore {
    pub open spec fn wf(&self) -> bool {
        emails_unique(self@) && ids_unique(self@)
    }

    /// An empty store.
    pub fn new() -> (r: SubscriberStore)
        ensures
            r.wf(),
            r@ == Seq::<UserView>::empty(),
    {
        let r = SubscriberStore { users: Vec::new() };
        assert(r@ =~= Seq::<UserView>::empty());
        r
    }

    /// Adds a stored record, unless its address or its id is taken
    /// already. Tells whether it was added.
    pub fn load(&mut self, record: User) -> (r: bool)
        requires
            old(self).wf(),
        ensures
            final(self).wf(),
            r == (!has_email(old(self)@, record.email@) && !has_id(old(self)@, record.id@)),
            r ==> final(self)@ == old(self)@.push(record@),
            !r ==> final(self)@ == old(self)@,
    {
        if self.find_email(&record.email).is_some() || self.find_id(&record.id) {
            return false;
        }
        let ghost v = record@;
        self.users.push(record);
        assert(self@ =~= old(self)@.push(v));
        assert forall|i: int, j: int| 0 <= i < self@.len() && 0 <= j < self@.len() && i != j implies self@[i].email != self@[j].email && self@[i].id != self@[j].id by {
            if i == old(self)@.len() {
                assert(!(0 <= j < old(self)@.len() && (old(self)@[j].email == v.email || old(self)@[j].id == v.id)));
            } else if j == old(self)@.len() {
                assert(!(0 <= i < old(self)@.len() && (old(self)@[i].email == v.email || old(self)@[i].id == v.id)));
            }
        }
        true
    }

    /// Whether some record has `id`.
    fn find_id(&self, id: &String) -> (r: bool)
        ensures
            r == has_id(self@, id@),
    {
        let mut i: usize = 0;
        while i < self.users.len()
            invariant
                i <= self.users@.len(),
                forall|j: int| 0 <= j < i ==> self@[j].id != id@,
            decreases self.users@.len() - i,
        {
            if self.users[i].id == *id {
                assert(self@[i as int].id == id@);
                return true;
            }
            i = i + 1;
        }
        false
    }

    /// The number of records.
    pub fn len(&self) -> (r: usize)
        ensures
            r == self@.len(),
    {
        self.users.len()
    }

    /// A copy of the record at position `i`.
    pub fn get(&self, i: usize) -> (r: User)
        requires
            i < self@.len(),
        ensures
            r@ == self@[i as int],
    {
        self.users[i].duplicate()
    }

    /// The position of the record with `email`.
    fn find_email(&self, email: &String) -> (r: Option<usize>)
        requires
            self.wf(),
        ensures
            r is None <==> !has_email(self@, email@),
            r matches Some(i) ==> i == index_of_email(self@, email@) && i < self@.len(),
    {
        let mut i: usize = 0;
        while i < self.users.len()
            invariant
                self.wf(),
                i <= self.users@.len(),
                forall|j: int| 0 <= j < i ==> self@[j].email != email@,
            decreases self.users@.len() - i,
        {
            if self.users[i].email == *email {
                assert(self@[i as int].email == email@);
                return Some(i);
            }
            i = i + 1;
        }
        None
    }

    /// Records a pending signup for `candidate.email`.
    ///
    /// An unknown address gets a new unverified record built from the
    /// candidate's id and token; if that id already belongs to a record, the
    /// signup is refused with `IdTaken` and nothing changes. A known address that is not both verified
    /// and subscribed keeps its id, takes the candidate's token and restarts
    /// verification. A verified, subscribed address is refused with
    /// `Conflict` and left as it is.
    pub fn upsert_pending_signup(&mut self, candidate: User) -> (r: Result<User, SignupError>)
        requires
            old(self).wf(),
        ensures
            final(self).wf(),
            (final(self)@, outcome_view(r)) == signup_outcome(old(self)@, candidate@),
    {
        match self.find_email(&candidate.email) {
            None => {
                if self.find_id(&candidate.id) {
                    return Err(SignupError::IdTaken);
                }
                let u = User {
                    id: candidate.id,
                    email: candidate.email,
                    is_verified: false,
                    verification_token: candidate.verification_token,
                    is_subscribed: false,
                };
                let out = u.duplicate();
                self.users.push(u);
                assert(self@ =~= old(self)@.push(fresh_record(candidate@)));
                proof {
                    lemma_signup_keeps_store_wf(old(self)@, candidate@);
                }
                Ok(out)
            },
            Some(i) => {
                if self.users[i].is_verified && self.users[i].is_subscribed {
                    Err(SignupError::Conflict)
                } else {
                    self.users[i].verification_token = candidate.verification_token;
                    self.users[i].is_verified = false;
                    self.users[i].is_subscribed = false;
                    let out = self.users[i].duplicate();
                    assert(self@ =~= old(self)@.update(i as int, restarted(old(self)@[i as int], candidate@.verification_token)));
                    proof {
                        lemma_signup_keeps_store_wf(old(self)@, candidate@);
                    }
                    Ok(out)
                }
            },
        }
    }

    /// Validates the address, then records a pending signup for it.
    pub fn sign_up(&mut self, candidate: User) -> (r: Result<User, SignupError>)
        requires
            old(self).wf(),
        ensures
            final(self).wf(),
            !email_is_valid(candidate.email@) ==> r == Err::<User, SignupError>(SignupError::InvalidEmail)
                && final(self)@ == old(self)@,
            email_is_valid(candidate.email@) ==> (final(self)@, outcome_view(r)) == signup_outcome(
                old(self)@,
                candidate@,
            ),
    {
        if !check_email(candidate.email.as_str()) {
            return Err(SignupError::InvalidEmail);
        }
        self.upsert_pending_signup(candidate)
    }

    /// Consumes a verification token: every record still pending with it
    /// becomes verified and subscribed, and the first of them is returned.
    /// Fails with `NotFound` when no record is pending with it, whether the
    /// token was never issued or was used already.
    pub fn verify(&mut self, token: &String) -> (r: Result<User, NotFound>)
        requires
            old(self).wf(),
        ensures
            final(self).wf(),
            final(self)@ == after_verification(old(self)@, token@),
            r is Ok <==> has_pending(old(self)@, token@),
            r matches Ok(u) ==> exists|i: int|
                first_pending(old(self)@, token@, i) && u@ == verified(#[trigger] old(self)@[i]),
    {
        let ghost s0 = self@;
        assert(forall|j: int| 0 <= j < s0.len() ==> #[trigger] self.users@[j]@ == s0[j]);
        let mut first: Option<usize> = None;
        let mut i: usize = 0;
        while i < self.users.len()
            invariant
                self.users@.len() == s0.len(),
                i <= s0.len(),
                forall|j: int| 0 <= j < i ==> #[trigger] self.users@[j]@ == (if is_pending_with(s0[j], token@) { verified(s0[j]) } else { s0[j] }),
                forall|j: int| i <= j < s0.len() ==> #[trigger] self.users@[j]@ == s0[j],
                first is None <==> forall|j: int| 0 <= j < i ==> !is_pending_with(#[trigger] s0[j], token@),
                first matches Some(f) ==> f < i && first_pending(s0, token@, f as int),
            decreases s0.len() - i,
        {
            let ghost before = self.users@;
            assert(self.users@[i as int]@ == s0[i as int]);
            if !self.users[i].is_verified && self.users[i].verification_token == *token {
                self.users[i].is_verified = true;
                self.users[i].is_subscribed = true;
                assert(self.users@[i as int]@ == verified(s0[i as int]));
                if first.is_none() {
                    first = Some(i);
                }
            }
            assert(forall|j: int| 0 <= j < s0.len() && j != i ==> self.users@[j] == before[j]);
            i = i + 1;
        }
        assert(self@ =~= after_verification(s0, token@));
        match first {
            Some(f) => Ok(self.users[f].duplicate()),
            None => Err(NotFound),
        }
    }

    /// Clears the subscription of every record with `id`. Tells whether one
    /// of them was subscribed, so a repeated request is reported as done
    /// rather than as an error.
    pub fn unsubscribe(&mut self, id: &String) -> (r: bool)
        requires
            old(self).wf(),
        ensures
            final(self).wf(),
            final(self)@ == after_unsubscribe(old(self)@, id@),
            r == is_subscribed_id(old(self)@, id@),
    {
        let ghost s0 = self@;
        assert(forall|j: int| 0 <= j < s0.len() ==> #[trigger] self.users@[j]@ == s0[j]);
        let mut changed = false;
        let mut i: usize = 0;
        while i < self.users.len()
            invariant
                self.users@.len() == s0.len(),
                i <= s0.len(),
                forall|j: int| 0 <= j < i ==> #[trigger] self.users@[j]@ == (if s0[j].id == id@ { UserView { is_subscribed: false, ..s0[j] } } else { s0[j] }),
                forall|j: int| i <= j < s0.len() ==> #[trigger] self.users@[j]@ == s0[j],
                changed <==> exists|j: int| 0 <= j < i && s0[j].id == id@ && s0[j].is_subscribed,
            decreases s0.len() - i,
        {
            let ghost before = self.users@;
            assert(self.users@[i as int]@ == s0[i as int]);
            if self.users[i].id == *id {
                if self.users[i].is_subscribed {
                    changed = true;
                }
                self.users[i].is_subscribed = false;
            }
            assert(forall|j: int| 0 <= j < s0.len() && j != i ==> self.users@[j] == before[j]);
            i = i + 1;
        }
        assert(self@ =~= after_unsubscribe(s0, id@));
        changed
    }

    /// Unsubscribes `params.id` when `params.token` is its unsubscribe token
    /// under `secret`; otherwise changes nothing and fails.
    pub fn unsubscribe_with_token(&mut self, params: &UnsubscribeParams, secret: &str) -> (r: Result<bool, InvalidToken>)
        requires
            old(self).wf(),
        ensures
            final(self).wf(),
            !token_accepted(params.id@, params.token@, secret@) ==> r == Err::<bool, InvalidToken>(InvalidToken)
                && final(self)@ == old(self)@,
            token_accepted(params.id@, params.token@, secret@) ==> r == Ok::<bool, InvalidToken>(is_subscribed_id(old(self)@, params.id@))
                && final(self)@ == after_unsubscribe(old(self)@, params.id@),
    {
        if !crate::token::verify(params.id.as_str(), params.token.as_str(), secret) {
            return Err(InvalidToken);
        }
        Ok(self.unsubscribe(&params.id))
    }

    /// Every verified, subscribed record, in store order.
    pub fn list_active_recipients(&self) -> (r: Vec<User>)
        ensures
            r@.map_values(|u: User| u@) == active_recipients(self@),
    {
        let mut out: Vec<User> = Vec::new();
        let mut i: usize = 0;
        while i < self.users.len()
            invariant
                i <= self.users@.len(),
                out@.map_values(|u: User| u@) == active_recipients(self@.subrange(0, i as int)),
            decreases self.users@.len() - i,
        {
            proof {
                let p = self@.subrange(0, i as int);
                assert(self@.subrange(0, i + 1) =~= p.push(self@[i as int]));
                p.lemma_filter_push(self@[i as int], |u: UserView| is_active(u));
            }
            if self.users[i].is_verified && self.users[i].is_subscribed {
                out.push(self.users[i].duplicate());
            }
            assert(out@.map_values(|u: User| u@) =~= active_recipients(self@.subrange(0, i + 1)));
            i = i + 1;
        }
        assert(self@.subrange(0, self@.len() as int) =~= self@);
        out
    }
}

} // verus!
