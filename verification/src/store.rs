use vstd::prelude::*;
use vstd::string::StringExecFns;

use crate::model::{Credential, EncryptedValue};

verus! {

/// One identity's document in the authoritative store: its public-key name
/// and its credential list.
pub struct UserRecord {
    pub user_id: String,
    pub passwords: Vec<Credential>,
}

/// No two documents name the same identity.
pub open spec fn user_ids_unique(s: Seq<UserRecord>) -> bool {
    forall|i: int, j: int| 0 <= i < j < s.len() ==> s[i].user_id@ != s[j].user_id@
}

/// Whether some document names an identity.
pub open spec fn has_user(s: Seq<UserRecord>, user_id: Seq<char>) -> bool {
    exists|i: int| 0 <= i < s.len() && s[i].user_id@ == user_id
}

/// Whether some credential in a list carries an identifier.
pub open spec fn has_matching(s: Seq<Credential>, id: Seq<char>) -> bool {
    exists|k: int| 0 <= k < s.len() && s[k].id@ == id
}

/// The reference model of the remote credential store: each identity owns a
/// list of credentials, read and mutated only through its public-key name.
/// It states the request/response contract the vault's commit steps rely
/// on; a deployment answers the same requests from a database instead.
pub struct PasswordService {
    pub users: Vec<UserRecord>,
}

impl PasswordService {
    /// Identity names never repeat.
    pub open spec fn wf(&self) -> bool {
        user_ids_unique(self.users@)
    }

    /// An empty store.
    pub fn new() -> (r: PasswordService)
        ensures
            r.wf(),
            r.users@.len() == 0,
    {
        PasswordService { users: Vec::new() }
    }

    /// The index of the one document naming an identity, if any.
    fn user_index(&self, user_id: &str) -> (r: Option<usize>)
        requires
            self.wf(),
        ensures
            r is Some <==> has_user(self.users@, user_id@),
            r matches Some(i) ==> i < self.users@.len() && self.users@[i as int].user_id@
                == user_id@,
            r matches Some(i) ==> forall|j: int|
                0 <= j < self.users@.len() && self.users@[j].user_id@ == user_id@ ==> j == i,
    {
        let key = user_id.to_owned();
        let n = self.users.len();
        for i in 0..n
            invariant
                n == self.users@.len(),
                key@ == user_id@,
                self.wf(),
                forall|j: int| 0 <= j < i ==> self.users@[j].user_id@ != user_id@,
        {
            if self.users[i].user_id == key {
                return Some(i);
            }
        }
        None
    }

    /// Register an identity with an empty credential list; refused when the
    /// name is already taken.
    pub fn create_user(&mut self, user_id: &str) -> (r: Result<(), String>)
        requires
            old(self).wf(),
        ensures
            final(self).wf(),
            r is Ok <==> !has_user(old(self).users@, user_id@),
            r is Err ==> final(self).users@ == old(self).users@,
            r is Ok ==> {
                &&& final(self).users@.len() == old(self).users@.len() + 1
                &&& final(self).users@.last().user_id@ == user_id@
                &&& final(self).users@.last().passwords@.len() == 0
                &&& final(self).users@.drop_last() == old(self).users@
            },
    {
        match self.user_index(user_id) {
            Some(_) => Err(concat_msg("User with id ", user_id, " already exists")),
            None => {
                let record = UserRecord { user_id: user_id.to_owned(), passwords: Vec::new() };
                self.users.push(record);
                proof {
                    assert(self.users@.drop_last() =~= old(self).users@);
                }
                Ok(())
            },
        }
    }

    /// Every credential an identity owns, in storage order; refused with a
    /// distinct message when the identity is unknown.
    pub fn list_passwords(&self, user_id: &str) -> (r: Result<Vec<Credential>, String>)
        requires
            self.wf(),
        ensures
            r is Ok <==> has_user(self.users@, user_id@),
            r matches Ok(list) ==> forall|i: int|
                0 <= i < self.users@.len() && (#[trigger] self.users@[i]).user_id@ == user_id@
                    ==> list@ == self.users@[i].passwords@,
    {
        match self.user_index(user_id) {
            None => Err(concat_msg("User with id ", user_id, " not found")),
            Some(i) => {
                let record = &self.users[i];
                let mut out: Vec<Credential> = Vec::new();
                let n = record.passwords.len();
                for k in 0..n
                    invariant
                        n == record.passwords@.len(),
                        out@.len() == k,
                        forall|m: int| 0 <= m < k ==> out@[m] == record.passwords@[m],
                {
                    out.push(record.passwords[k].duplicate());
                }
                proof {
                    assert(out@ =~= record.passwords@);
                }
                Ok(out)
            },
        }
    }

    /// Add a credential to an identity's list, as a set keyed by the
    /// credential identifier: an entry already carrying the identifier is
    /// left in place. Echoes the credential back on success.
    pub fn add_password(&mut self, user_id: &str, password: Credential) -> (r: Result<
        Credential,
        String,
    >)
        requires
            old(self).wf(),
        ensures
            final(self).wf(),
            r is Ok <==> has_user(old(self).users@, user_id@),
            r matches Ok(c) ==> c == password,
            r is Err ==> final(self).users@ == old(self).users@,
            r is Ok ==> {
                &&& final(self).users@.len() == old(self).users@.len()
                &&& forall|i: int|
                    0 <= i < old(self).users@.len() && (#[trigger] old(self).users@[i]).user_id@
                        != user_id@ ==> final(self).users@[i] == old(self).users@[i]
                &&& forall|i: int|
                    0 <= i < old(self).users@.len() && (#[trigger] old(self).users@[i]).user_id@
                        == user_id@ ==> {
                        let before = old(self).users@[i].passwords@;
                        &&& final(self).users@[i].user_id@ == user_id@
                        &&& ((exists|k: int| 0 <= k < before.len() && (#[trigger] before[k]).id@
                            == password.id@)
                            ==> final(self).users@[i].passwords@ == before)
                        &&& (!(exists|k: int| 0 <= k < before.len() && (#[trigger] before[k]).id@
                            == password.id@)
                            ==> final(self).users@[i].passwords@ == before.push(password))
                    }
            },
    {
        match self.user_index(user_id) {
            None => Err(concat_msg("User with id ", user_id, " not found")),
            Some(i) => {
                let echo = password.duplicate();
                let mut record = self.users.remove(i);
                if !contains_id(&record.passwords, password.id.as_str()) {
                    record.passwords.push(password);
                }
                self.users.insert(i, record);
                proof {
                    assert(final(self).users@ =~= old(self).users@.update(
                        i as int,
                        final(self).users@[i as int],
                    ));
                }
                Ok(echo)
            },
        }
    }

    /// Remove every credential with an identifier from an identity's list;
    /// removing an absent identifier leaves the list as it is.
    pub fn delete_password(&mut self, user_id: &str, password_id: &str) -> (r: Result<(), String>)
        requires
            old(self).wf(),
        ensures
            final(self).wf(),
            r is Ok <==> has_user(old(self).users@, user_id@),
            r is Err ==> final(self).users@ == old(self).users@,
            r is Ok ==> {
                &&& final(self).users@.len() == old(self).users@.len()
                &&& forall|i: int|
                    0 <= i < old(self).users@.len() && (#[trigger] old(self).users@[i]).user_id@
                        != user_id@ ==> final(self).users@[i] == old(self).users@[i]
                &&& forall|i: int|
                    0 <= i < old(self).users@.len() && (#[trigger] old(self).users@[i]).user_id@
                        == user_id@ ==> {
                        &&& final(self).users@[i].user_id@ == user_id@
                        &&& final(self).users@[i].passwords@ == old(
                            self,
                        ).users@[i].passwords@.filter(|c: Credential| c.id@ != password_id@)
                    }
            },
    {
        match self.user_index(user_id) {
            None => Err(concat_msg("User with id ", user_id, " not found")),
            Some(i) => {
                let mut record = self.users.remove(i);
                let kept = retain_without_id(record.passwords, password_id);
                record.passwords = kept;
                self.users.insert(i, record);
                proof {
                    assert(final(self).users@ =~= old(self).users@.update(
                        i as int,
                        final(self).users@[i as int],
                    ));
                }
                Ok(())
            },
        }
    }

    /// Replace the whole password field of the credentials carrying an
    /// identifier in an identity's list, leaving every other entry alone.
    /// An unknown identity and an unmatched identifier each fail with their
    /// own message, so the caller can tell a missing credential apart.
    pub fn modify_password(
        &mut self,
        user_id: &str,
        password_id: &str,
        password: &EncryptedValue,
    ) -> (r: Result<(), String>)
        requires
            old(self).wf(),
        ensures
            final(self).wf(),
            r is Ok <==> exists|i: int|
                0 <= i < old(self).users@.len() && (#[trigger] old(self).users@[i]).user_id@
                    == user_id@ && has_matching(old(self).users@[i].passwords@, password_id@),
            r is Err ==> final(self).users@ == old(self).users@,
            !has_user(old(self).users@, user_id@) ==> (r matches Err(m) && m@ == "User with id "@
                + user_id@ + " not found"@),
            has_user(old(self).users@, user_id@) && !(exists|i: int|
                0 <= i < old(self).users@.len() && (#[trigger] old(self).users@[i]).user_id@
                    == user_id@ && has_matching(old(self).users@[i].passwords@, password_id@))
                ==> (r matches Err(m) && m@ == "Credential with id "@ + password_id@
                + " not found"@),
            r is Ok ==> {
                &&& final(self).users@.len() == old(self).users@.len()
                &&& forall|i: int|
                    0 <= i < old(self).users@.len() && (#[trigger] old(self).users@[i]).user_id@
                        != user_id@ ==> final(self).users@[i] == old(self).users@[i]
                &&& forall|i: int|
                    0 <= i < old(self).users@.len() && (#[trigger] old(self).users@[i]).user_id@
                        == user_id@ ==> {
                        let before = old(self).users@[i].passwords@;
                        let after = final(self).users@[i].passwords@;
                        &&& final(self).users@[i].user_id@ == user_id@
                        &&& after.len() == before.len()
                        &&& forall|k: int|
                            0 <= k < before.len() && (#[trigger] before[k]).id@ != password_id@
                                ==> after[k] == before[k]
                        &&& forall|k: int|
                            0 <= k < before.len() && (#[trigger] before[k]).id@ == password_id@
                                ==> after[k] == crate::cache::with_password(before[k], *password)
                    }
            },
    {
        match self.user_index(user_id) {
            None => Err(concat_msg("User with id ", user_id, " not found")),
            Some(i) => {
                if !contains_id(&self.users[i].passwords, password_id) {
                    return Err(concat_msg("Credential with id ", password_id, " not found"));
                }
                let mut record = self.users.remove(i);
                let updated = overwrite_passwords(record.passwords, password_id, password);
                record.passwords = updated;
                self.users.insert(i, record);
                proof {
                    assert(final(self).users@ =~= old(self).users@.update(
                        i as int,
                        final(self).users@[i as int],
                    ));
                }
                Ok(())
            },
        }
    }
}

/// Whether some credential in the list carries the identifier.
fn contains_id(list: &Vec<Credential>, id: &str) -> (r: bool)
    ensures
        r <==> exists|k: int| 0 <= k < list@.len() && (#[trigger] list@[k]).id@ == id@,
{
    let key = id.to_owned();
    let n = list.len();
    for k in 0..n
        invariant
            n == list@.len(),
            key@ == id@,
            forall|m: int| 0 <= m < k ==> list@[m].id@ != id@,
    {
        if list[k].id == key {
            return true;
        }
    }
    false
}

/// The list without the credentials carrying the identifier, order kept.
fn retain_without_id(list: Vec<Credential>, id: &str) -> (r: Vec<Credential>)
    ensures
        r@ == list@.filter(|c: Credential| c.id@ != id@),
{
    broadcast use vstd::seq_lib::group_seq_properties;

    let key = id.to_owned();
    let mut out: Vec<Credential> = Vec::new();
    let n = list.len();
    for k in 0..n
        invariant
            n == list@.len(),
            key@ == id@,
            out@ =~= list@.take(k as int).filter(|c: Credential| c.id@ != id@),
    {
        if !(list[k].id == key) {
            out.push(list[k].duplicate());
        }
        proof {
            reveal(Seq::filter);
            assert(list@.take(k + 1).drop_last() =~= list@.take(k as int));
            assert(list@.take(k + 1).last() == list@[k as int]);
        }
    }
    proof {
        assert(list@.take(n as int) =~= list@);
    }
    out
}

/// The list with the whole password field of the matching credentials
/// replaced, every other entry untouched.
fn overwrite_passwords(list: Vec<Credential>, id: &str, password: &EncryptedValue) -> (r: Vec<
    Credential,
>)
    ensures
        r@.len() == list@.len(),
        forall|k: int|
            0 <= k < list@.len() && (#[trigger] list@[k]).id@ != id@ ==> r@[k] == list@[k],
        forall|k: int|
            0 <= k < list@.len() && (#[trigger] list@[k]).id@ == id@ ==> r@[k]
                == crate::cache::with_password(list@[k], *password),
{
    let key = id.to_owned();
    let mut out: Vec<Credential> = Vec::new();
    let n = list.len();
    for k in 0..n
        invariant
            n == list@.len(),
            key@ == id@,
            out@.len() == k,
            forall|m: int|
                0 <= m < k && (#[trigger] list@[m]).id@ != id@ ==> out@[m] == list@[m],
            forall|m: int|
                0 <= m < k && (#[trigger] list@[m]).id@ == id@ ==> out@[m]
                    == crate::cache::with_password(list@[m], *password),
    {
        let entry = list[k].duplicate();
        if entry.id == key {
            let replaced = Credential {
                id: entry.id,
                user_id: entry.user_id,
                site: entry.site,
                username: entry.username,
                password: password.duplicate(),
            };
            out.push(replaced);
        } else {
            out.push(entry);
        }
    }
    out
}

/// A store message built from three parts.
fn concat_msg(prefix: &str, middle: &str, suffix: &str) -> (r: String)
    ensures
        r@ == prefix@ + middle@ + suffix@,
{
    let mut out = prefix.to_owned();
    out.append(middle);
    out.append(suffix);
    out
}

} // verus!
