//! Registered accounts, kept under their email address.

use crate::time::Timestamp;
use vstd::prelude::*;

verus! {

/// A registered account.
pub struct UserAccount {
    pub display_name: String,
    pub password_hash: String,
    pub created_at: Timestamp,
}

#[verifier::ext_equal]
pub struct UserAccountView {
    pub display_name: Seq<char>,
    pub password_hash: Seq<char>,
    pub created_at: Timestamp,
}

impl View for UserAccount {
    type V = UserAccountView;

    open spec fn view(&self) -> UserAccountView {
        UserAccountView {
            display_name: self.display_name@,
            password_hash: self.password_hash@,
            created_at: self.created_at,
        }
    }
}

impl Clone for UserAccount {
    fn clone(&self) -> (result: Self)
        ensures
            result == *self,
    {
        UserAccount {
            display_name: self.display_name.clone(),
            password_hash: self.password_hash.clone(),
            created_at: self.created_at,
        }
    }
}

/// An account with the address it is kept under.
pub struct UserRecord {
    pub email: String,
    pub account: UserAccount,
}

impl Clone for UserRecord {
    fn clone(&self) -> (result: Self)
        ensures
            result == *self,
    {
        UserRecord { email: self.email.clone(), account: self.account.clone() }
    }
}

/// The accounts that `records` leave, each under its address; of two records with one
/// address the later stands.
pub open spec fn stored(records: Seq<UserRecord>) -> Map<Seq<char>, UserAccountView>
    decreases records.len(),
{
    if records.len() == 0 {
        Map::empty()
    } else {
        stored(records.drop_last()).insert(records.last().email@, records.last().account@)
    }
}

/// Whether no address occurs twice.
pub open spec fn distinct_emails(records: Seq<UserRecord>) -> bool {
    forall|i: int, j: int|
        0 <= i < j < records.len() ==> (#[trigger] records[i]).email@ != (
        #[trigger] records[j]).email@
}

proof fn lemma_stored_record(records: Seq<UserRecord>, i: int)
    requires
        distinct_emails(records),
        0 <= i < records.len(),
    ensures
        stored(records).contains_key(records[i].email@),
        stored(records)[records[i].email@] == records[i].account@,
    decreases records.len(),
{
    if i < records.len() - 1 {
        let shorter = records.drop_last();
        lemma_stored_record(shorter, i);
    }
}

proof fn lemma_stored_origin(records: Seq<UserRecord>, email: Seq<char>)
    requires
        stored(records).contains_key(email),
    ensures
        exists|i: int| 0 <= i < records.len() && (#[trigger] records[i]).email@ == email,
    decreases records.len(),
{
    if records.last().email@ != email {
        let shorter = records.drop_last();
        lemma_stored_origin(shorter, email);
    }
}

/// The registered accounts; no address is kept twice.
pub struct UserTable {
    records: Vec<UserRecord>,
}

impl View for UserTable {
    type V = Map<Seq<char>, UserAccountView>;

    closed spec fn view(&self) -> Map<Seq<char>, UserAccountView> {
        stored(self.records@)
    }
}

impl UserTable {
    #[verifier::type_invariant]
    spec fn no_email_twice(self) -> bool {
        distinct_emails(self.records@)
    }

    pub fn new() -> (result: Self)
        ensures
            result@ == Map::<Seq<char>, UserAccountView>::empty(),
    {
        UserTable { records: Vec::new() }
    }

    /// The accounts with their addresses, in the order in which they came.
    pub fn records(&self) -> (result: &Vec<UserRecord>)
        ensures
            distinct_emails(result@),
            stored(result@) == self@,
            forall|i: int|
                0 <= i < result@.len() ==> self@.contains_key((#[trigger] result@[i]).email@)
                    && self@[result@[i].email@] == result@[i].account@,
            forall|email: Seq<char>| #[trigger]
                self@.contains_key(email) ==> exists|i: int|
                    0 <= i < result@.len() && (#[trigger] result@[i]).email@ == email,
    {
        proof {
            use_type_invariant(self);
            assert forall|i: int| 0 <= i < self.records@.len() implies self@.contains_key(
                (#[trigger] self.records@[i]).email@,
            ) && self@[self.records@[i].email@] == self.records@[i].account@ by {
                lemma_stored_record(self.records@, i);
            }
            assert forall|email: Seq<char>| #[trigger] self@.contains_key(email) implies exists|
                i: int,
            |
                0 <= i < self.records@.len() && (#[trigger] self.records@[i]).email@ == email by {
                lemma_stored_origin(self.records@, email);
            }
        }
        &self.records
    }

    /// The account kept under `email`.
    pub fn get(&self, email: &String) -> (result: Option<&UserAccount>)
        ensures
            match result {
                Some(account) => self@.contains_key(email@) && self@[email@] == account@,
                None => !self@.contains_key(email@),
            },
    {
        let records = self.records();
        let mut i: usize = 0;
        while i < records.len()
            invariant
                i <= records@.len(),
                forall|k: int| 0 <= k < i ==> (#[trigger] records@[k]).email@ != email@,
                forall|k: int|
                    0 <= k < records@.len() ==> self@.contains_key((#[trigger] records@[k]).email@)
                        && self@[records@[k].email@] == records@[k].account@,
            decreases records@.len() - i,
        {
            if records[i].email == *email {
                return Some(&records[i].account);
            }
            i = i + 1;
        }
        None
    }

    /// Keeps `account` under `email`, in place of what was there.
    pub fn insert(&mut self, email: String, account: UserAccount)
        ensures
            final(self)@ == old(self)@.insert(email@, account@),
    {
        proof {
            use_type_invariant(&*self);
        }
        let mut records: Vec<UserRecord> = Vec::new();
        std::mem::swap(&mut records, &mut self.records);
        let ghost before = records@;
        let mut i: usize = 0;
        while i < records.len()
            invariant
                records@ == before,
                i <= records@.len(),
                forall|k: int| 0 <= k < i ==> (#[trigger] records@[k]).email@ != email@,
            ensures
                i < records@.len() ==> records@[i as int].email@ == email@,
            decreases records@.len() - i,
        {
            if records[i].email == email {
                break;
            }
            i = i + 1;
        }
        if i < records.len() {
            records.set(i, UserRecord { email, account });
        } else {
            records.push(UserRecord { email, account });
        }
        proof {
            let after = records@;
            lemma_stored_replaced(before, after, i as int);
        }
        self.records = records;
    }
}

proof fn lemma_stored_replaced(before: Seq<UserRecord>, after: Seq<UserRecord>, i: int)
    requires
        distinct_emails(before),
        distinct_emails(after),
        0 <= i <= before.len(),
        i < before.len() ==> after.len() == before.len() && after[i].email@ == before[i].email@,
        i == before.len() ==> after.len() == before.len() + 1,
        forall|k: int| 0 <= k < before.len() && k != i ==> #[trigger] after[k] == before[k],
    ensures
        stored(after) == stored(before).insert(after[i].email@, after[i].account@),
{
    let expected = stored(before).insert(after[i].email@, after[i].account@);
    assert forall|email: Seq<char>| #[trigger]
        stored(after).contains_key(email) == expected.contains_key(email) by {
        if stored(after).contains_key(email) {
            lemma_stored_origin(after, email);
            let k = choose|k: int| 0 <= k < after.len() && (#[trigger] after[k]).email@ == email;
            if k != i {
                lemma_stored_record(before, k);
            }
        }
        if expected.contains_key(email) {
            if email == after[i].email@ {
                lemma_stored_record(after, i);
            } else {
                lemma_stored_origin(before, email);
                let k = choose|k: int|
                    0 <= k < before.len() && (#[trigger] before[k]).email@ == email;
                lemma_stored_record(after, k);
            }
        }
    }
    assert forall|email: Seq<char>| stored(after).contains_key(email) implies #[trigger] stored(
        after,
    )[email] == expected[email] by {
        lemma_stored_origin(after, email);
        let k = choose|k: int| 0 <= k < after.len() && (#[trigger] after[k]).email@ == email;
        lemma_stored_record(after, k);
        if k != i {
            lemma_stored_record(before, k);
        }
    }
}

impl Clone for UserTable {
    fn clone(&self) -> (result: Self)
        ensures
            result@ == self@,
    {
        proof {
            use_type_invariant(self);
        }
        let mut records: Vec<UserRecord> = Vec::new();
        let mut i: usize = 0;
        while i < self.records.len()
            invariant
                i <= self.records@.len(),
                records@ == self.records@.take(i as int),
            decreases self.records@.len() - i,
        {
            records.push(self.records[i].clone());
            i = i + 1;
        }
        assert(records@ =~= self.records@);
        UserTable { records }
    }
}

} // verus!
