//! The credential store: users with unique emails and identifiers, and the
//! set of revoked tokens.

use std::collections::BTreeMap;
use vstd::prelude::*;

use crate::error::ApiError;
use crate::schemas::{hyphenated, id_from_text, id_to_text, UserDbSchema, UserView};

verus! {

/// Some record in `recs` has this email.
pub open spec fn has_email(recs: Seq<UserView>, email: Seq<char>) -> bool {
    exists|i: int| 0 <= i < recs.len() && (#[trigger] recs[i]).email == email
}

/// Some record in `recs` has this identifier.
pub open spec fn has_id(recs: Seq<UserView>, id: u128) -> bool {
    exists|i: int| 0 <= i < recs.len() && (#[trigger] recs[i]).id == id
}

/// Some record in `recs` has an identifier whose hyphenated text form is `text`.
pub open spec fn has_id_text(recs: Seq<UserView>, text: Seq<char>) -> bool {
    exists|i: int| 0 <= i < recs.len() && hyphenated((#[trigger] recs[i]).id) == text
}

/// No two records share an email, and no two share an identifier.
pub open spec fn keys_distinct(recs: Seq<UserView>) -> bool {
    forall|i: int, j: int|
        0 <= i < recs.len() && 0 <= j < recs.len() && i != j ==> (#[trigger] recs[i]).email
            != (#[trigger] recs[j]).email && recs[i].id != recs[j].id
}

/// What storing `user` does to the records: it is refused when its email or its
/// identifier is taken, and appended otherwise.
pub open spec fn insertion(recs: Seq<UserView>, user: UserView) -> Result<Seq<UserView>, ApiError> {
    if has_email(recs, user.email) || has_id(recs, user.id) {
        Err(ApiError::AlreadyExist)
    } else {
        Ok(recs.push(user))
    }
}

/// Once a user is stored, a second user with the same email is refused with
/// `AlreadyExist`.
pub proof fn lemma_same_email_refused(recs: Seq<UserView>, first: UserView, second: UserView)
    requires
        insertion(recs, first) is Ok,
        second.email == first.email,
    ensures
        insertion(insertion(recs, first)->Ok_0, second) == Err::<Seq<UserView>, ApiError>(
            ApiError::AlreadyExist,
        ),
{
    let stored = recs.push(first);
    assert(stored[recs.len() as int] == first);
}

/// The characters of each string.
pub open spec fn texts(v: Seq<String>) -> Seq<Seq<char>> {
    v.map_values(|s: String| s@)
}

/// Whether some string of `v` has the characters of `t`.
fn contains_text(v: &Vec<String>, t: &String) -> (r: bool)
    ensures
        r == texts(v@).contains(t@),
{
    let mut i: usize = 0;
    while i < v.len()
        invariant
            i <= v@.len(),
            forall|j: int| 0 <= j < i ==> (#[trigger] texts(v@)[j]) != t@,
        decreases v@.len() - i,
    {
        if v[i] == *t {
            assert(texts(v@)[i as int] == t@);
            return true;
        }
        i = i + 1;
    }
    false
}

/// The volatile credential store: users keyed by email, with an index from
/// identifier to position, and the set of revoked tokens. Users sit in a vector
/// searched by email because vstd's ordered map carries its contracts only for
/// keys with a verified ordering, which `String` lacks; identifiers, being
/// integers, get the ordered index.
pub struct InMemDatabase {
    user_db: Vec<UserDbSchema>,
    id_index: BTreeMap<u128, usize>,
    black_listed_db: Vec<String>,
}

impl InMemDatabase {
    /// The stored users, in order of insertion.
    pub closed spec fn records(&self) -> Seq<UserView> {
        self.user_db@.map_values(|u: UserDbSchema| u@)
    }

    /// The revoked tokens, in the order they were added.
    closed spec fn revoked_list(&self) -> Seq<Seq<char>> {
        texts(self.black_listed_db@)
    }

    /// The revoked tokens.
    pub closed spec fn revoked(&self) -> Set<Seq<char>> {
        self.revoked_list().to_set()
    }

    /// The store's invariant: keys are unique and the identifier index maps each
    /// stored identifier, and nothing else, to its record's position.
    pub closed spec fn wf(&self) -> bool {
        &&& keys_distinct(self.records())
        &&& forall|id: u128| #[trigger]
            self.id_index@.contains_key(id) <==> has_id(self.records(), id)
        &&& forall|id: u128| #[trigger]
            self.id_index@.contains_key(id) ==> {
                let p = self.id_index@[id] as int;
                0 <= p < self.user_db@.len() && self.user_db@[p].id == id
            }
    }

    /// In every well-formed store, and so after any sequence of insertions, no
    /// two stored users share an email (nor an identifier).
    pub proof fn lemma_keys_distinct(&self)
        requires
            self.wf(),
        ensures
            keys_distinct(self.records()),
    {
    }

    /// An empty store.
    pub fn new() -> (r: Self)
        ensures
            r.wf(),
            r.records() == Seq::<UserView>::empty(),
            r.revoked() == Set::<Seq<char>>::empty(),
    {
        let r = InMemDatabase { user_db: Vec::new(), id_index: BTreeMap::new(), black_listed_db: Vec::new() };
        assert(r.records() =~= Seq::<UserView>::empty());
        assert(r.revoked() =~= Set::<Seq<char>>::empty());
        r
    }

    /// An empty user store whose revoked set holds exactly `tokens`.
    pub fn with_revoked(tokens: &Vec<String>) -> (r: Self)
        ensures
            r.wf(),
            r.records() == Seq::<UserView>::empty(),
            r.revoked() == texts(tokens@).to_set(),
    {
        let mut store = InMemDatabase::new();
        let n = tokens.len();
        for i in 0..n
            invariant
                n == tokens@.len(),
                store.wf(),
                store.records() == Seq::<UserView>::empty(),
                store.revoked() == texts(tokens@).subrange(0, i as int).to_set(),
        {
            let t = tokens[i].clone();
            store.insert_black_list(t);
            assert(texts(tokens@).subrange(0, i + 1) =~= texts(tokens@).subrange(0, i as int).push(t@));
            proof { texts(tokens@).subrange(0, i as int).lemma_push_to_set_commute(t@); }
        }
        assert(texts(tokens@).subrange(0, n as int) =~= texts(tokens@));
        store
    }

    /// Position of the record with this email, if any.
    fn find_email(&self, email: &str) -> (r: Option<usize>)
        ensures
            match r {
                Some(p) => p < self.records().len() && self.records()[p as int].email == email@,
                None => !has_email(self.records(), email@),
            },
    {
        let key = email.to_owned();
        let mut i: usize = 0;
        while i < self.user_db.len()
            invariant
                i <= self.user_db@.len(),
                key@ == email@,
                forall|j: int| 0 <= j < i ==> (#[trigger] self.records()[j]).email != email@,
            decreases self.user_db@.len() - i,
        {
            if self.user_db[i].email == key {
                return Some(i);
            }
            i = i + 1;
        }
        None
    }

    /// Stores `user`, checking in the same step that neither its email nor its
    /// identifier is taken; an existing record is never overwritten.
    pub fn insert_user(&mut self, user: UserDbSchema) -> (r: Result<(), ApiError>)
        requires
            old(self).wf(),
        ensures
            final(self).wf(),
            final(self).revoked() == old(self).revoked(),
            match insertion(old(self).records(), user@) {
                Ok(recs) => r == Ok::<(), ApiError>(()) && final(self).records() == recs,
                Err(e) => r == Err::<(), ApiError>(e) && final(self).records() == old(self).records(),
            },
    {
        if self.find_email(user.get_email()).is_some() {
            return Err(ApiError::AlreadyExist);
        }
        if self.id_index.contains_key(&user.id) {
            return Err(ApiError::AlreadyExist);
        }
        let pos = self.user_db.len();
        let id = user.id;
        let ghost old_recs = self.records();
        self.user_db.push(user);
        self.id_index.insert(id, pos);
        assert(self.records() =~= old_recs.push(user@));
        assert forall|k: u128| #[trigger] self.id_index@.contains_key(k) <==> has_id(self.records(), k) by {
            if has_id(old_recs, k) {
                let i = choose|i: int| 0 <= i < old_recs.len() && (#[trigger] old_recs[i]).id == k;
                assert(self.records()[i] == old_recs[i]);
            }
            if k == id {
                assert(self.records()[pos as int].id == id);
            } else if has_id(self.records(), k) {
                let i = choose|i: int| 0 <= i < self.records().len() && (#[trigger] self.records()[i]).id == k;
                assert(i < old_recs.len());
                assert(old_recs[i] == self.records()[i]);
            }
        }
        Ok(())
    }

    /// A copy of the user stored under `email` (exact, case-sensitive match).
    pub fn get_user_by_email(&self, email: &str) -> (r: Result<UserDbSchema, ApiError>)
        ensures
            has_email(self.records(), email@) <==> r is Ok,
            match r {
                Ok(u) => self.records().contains(u@) && u@.email == email@,
                Err(e) => e == ApiError::NonExistence,
            },
    {
        match self.find_email(email) {
            Some(p) => {
                let u = self.user_db[p].duplicate();
                assert(self.records()[p as int] == u@);
                Ok(u)
            },
            None => Err(ApiError::NonExistence),
        }
    }

    /// Whether a stored user's identifier, in its hyphenated text form, is `id`.
    /// The text is parsed to look the identifier up in the index, then compared
    /// with the stored identifier's own text.
    pub fn assert_user_exists(&self, id: &str) -> (r: Result<(), ApiError>)
        requires
            self.wf(),
        ensures
            r is Ok <==> has_id_text(self.records(), id@),
            r matches Err(e) ==> e == ApiError::SubjectNotFound,
    {
        let n = match id_from_text(id) {
            Some(n) => n,
            None => return Err(ApiError::SubjectNotFound),
        };
        if !self.id_index.contains_key(&n) {
            assert(!has_id_text(self.records(), id@)) by {
                if has_id_text(self.records(), id@) {
                    let i = choose|i: int| 0 <= i < self.records().len() && hyphenated((#[trigger] self.records()[i]).id) == id@;
                    assert(has_id(self.records(), self.records()[i].id));
                }
            }
            return Err(ApiError::SubjectNotFound);
        }
        let text = id_to_text(n);
        if text.as_str().to_owned() == id.to_owned() {
            let ghost p = self.id_index@[n];
            assert(self.records()[p as int].id == n);
            Ok(())
        } else {
            assert(!has_id_text(self.records(), id@)) by {
                if has_id_text(self.records(), id@) {
                    let i = choose|i: int| 0 <= i < self.records().len() && hyphenated((#[trigger] self.records()[i]).id) == id@;
                }
            }
            Err(ApiError::SubjectNotFound)
        }
    }

    /// Whether `token` is in the revoked set.
    fn is_revoked(&self, token: &str) -> (r: bool)
        ensures
            r == self.revoked().contains(token@),
    {
        let key = token.to_owned();
        let mut i: usize = 0;
        while i < self.black_listed_db.len()
            invariant
                i <= self.black_listed_db@.len(),
                key@ == token@,
                forall|j: int| 0 <= j < i ==> (#[trigger] self.black_listed_db@[j])@ != token@,
            decreases self.black_listed_db@.len() - i,
        {
            if self.black_listed_db[i] == key {
                assert(self.revoked_list()[i as int] == token@);
                return true;
            }
            i = i + 1;
        }
        assert forall|j: int| 0 <= j < self.black_listed_db@.len() implies #[trigger] self.revoked_list()[j] != token@ by {
            assert(self.revoked_list()[j] == self.black_listed_db@[j]@);
        }
        false
    }

    /// Adds a token to the revoked set; adding one already there changes nothing.
    pub fn insert_black_list(&mut self, new_token: String)
        requires
            old(self).wf(),
        ensures
            final(self).wf(),
            final(self).records() == old(self).records(),
            final(self).revoked() == old(self).revoked().insert(new_token@),
    {
        if self.is_revoked(new_token.as_str()) {
            assert(self.revoked().insert(new_token@) =~= self.revoked());
            return;
        }
        let ghost old_list = self.revoked_list();
        self.black_listed_db.push(new_token);
        assert(self.revoked_list() =~= old_list.push(new_token@));
        assert(old_list.push(new_token@).to_set() =~= old_list.to_set().insert(new_token@)) by {
            old_list.lemma_push_to_set_commute(new_token@);
        }
    }

    /// A copy of the revoked tokens.
    pub fn revoked_tokens(&self) -> (r: Vec<String>)
        ensures
            texts(r@).to_set() == self.revoked(),
    {
        let mut out: Vec<String> = Vec::new();
        let n = self.black_listed_db.len();
        for i in 0..n
            invariant
                n == self.black_listed_db@.len(),
                texts(out@) == self.revoked_list().subrange(0, i as int),
        {
            let c = self.black_listed_db[i].clone();
            let ghost prev = texts(out@);
            out.push(c);
            assert(texts(out@) =~= prev.push(c@));
            assert(self.revoked_list()[i as int] == c@);
            assert(texts(out@) =~= self.revoked_list().subrange(0, i + 1));
        }
        assert(self.revoked_list().subrange(0, n as int) =~= self.revoked_list());
        out
    }

    /// Removes the given tokens from the revoked set.
    pub fn forget_black_listed(&mut self, lapsed: &Vec<String>)
        requires
            old(self).wf(),
        ensures
            final(self).wf(),
            final(self).records() == old(self).records(),
            forall|t: Seq<char>|
                #[trigger] final(self).revoked().contains(t) <==> old(self).revoked().contains(t)
                    && !texts(lapsed@).contains(t),
    {
        let ghost before = self.revoked_list();
        let mut kept: Vec<String> = Vec::new();
        let n = self.black_listed_db.len();
        for i in 0..n
            invariant
                n == self.black_listed_db@.len(),
                before == self.revoked_list(),
                forall|k: int| 0 <= k < kept@.len() ==> before.contains(#[trigger] texts(kept@)[k])
                    && !texts(lapsed@).contains(texts(kept@)[k]),
                forall|j: int| 0 <= j < i && !texts(lapsed@).contains(#[trigger] before[j])
                    ==> texts(kept@).contains(before[j]),
        {
            let t = &self.black_listed_db[i];
            assert(before[i as int] == t@);
            if !contains_text(lapsed, t) {
                let ghost old_kept = texts(kept@);
                kept.push(t.clone());
                assert(texts(kept@) =~= old_kept.push(t@));
                assert(texts(kept@)[old_kept.len() as int] == t@);
                assert forall|j: int| 0 <= j < i + 1 && !texts(lapsed@).contains(#[trigger] before[j])
                    implies texts(kept@).contains(before[j]) by {
                    if j < i {
                        let k = choose|k: int| 0 <= k < old_kept.len() && old_kept[k] == before[j];
                        assert(texts(kept@)[k] == before[j]);
                    }
                }
            }
        }
        self.black_listed_db = kept;
        assert forall|t: Seq<char>|
            #[trigger] self.revoked().contains(t) <==> before.to_set().contains(t)
                && !texts(lapsed@).contains(t) by {
            if self.revoked().contains(t) {
                let k = choose|k: int| 0 <= k < self.revoked_list().len() && self.revoked_list()[k] == t;
                assert(texts(self.black_listed_db@)[k] == t);
            }
            if before.to_set().contains(t) && !texts(lapsed@).contains(t) {
                let j = choose|j: int| 0 <= j < before.len() && before[j] == t;
                assert(texts(self.black_listed_db@).contains(before[j]));
            }
        }
    }

    /// Fails with `TokenBlacklisted` when `token` has been revoked.
    pub fn check_token_black_listed(&self, token: &str) -> (r: Result<(), ApiError>)
        ensures
            r is Err <==> self.revoked().contains(token@),
            r matches Err(e) ==> e == ApiError::TokenBlacklisted,
    {
        if self.is_revoked(token) {
            Err(ApiError::TokenBlacklisted)
        } else {
            Ok(())
        }
    }
}

} // verus!
