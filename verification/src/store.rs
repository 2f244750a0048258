//! The user/code store and the code sequence engine over it: an
//! in-memory model of the two relational tables, with the uniqueness
//! constraints the persistence layer enforces stated as an invariant.
//! Insertion order is creation order: every insert stamps the current
//! instant, so the invariant keeps `created_at` nondecreasing along
//! the table, the row inserted last is the most recently created one,
//! and the reads that want the newest rows return rows that also
//! maximize `created_at`, ties broken toward the latest insertion.

use vstd::prelude::*;

use crate::errors::{
    AddNumberError, CheckUserPasswordError, CreateUserError, DeleteUserError, PasswordChangeError,
    ReadUserError, ReadUsersError, ResetCodesError,
};
use crate::models::{at_or_before, spec_format_date, Code, Timestamp, User, UserEntity};
use crate::password::{hash_matches, hash_password, verify_password};
use crate::sequence::{code_string, code_suffix, make_code, parse_code_suffix};
use crate::text::{parse_dec, starts_with, str_starts_with};

verus! {

/// A row of the code table: the unique code string, its creation
/// instant, and the owning user.
#[derive(Debug, Clone)]
pub struct CodeRow {
    pub id: i64,
    pub code: String,
    pub created_at: Timestamp,
    pub user_id: i64,
}

/// The two tables, with the counters the next inserted rows draw their
/// identities from.
#[derive(Debug)]
pub struct Store {
    pub users: Vec<UserEntity>,
    pub codes: Vec<CodeRow>,
    pub next_user_id: i64,
    pub next_code_id: i64,
}

/// The first user of `id`, in table order.
pub open spec fn find_by_id(users: Seq<UserEntity>, id: int) -> Option<UserEntity>
    decreases users.len(),
{
    if users.len() == 0 {
        None
    } else if users[0].id == id {
        Some(users[0])
    } else {
        find_by_id(users.drop_first(), id)
    }
}

/// The first user of `name`, in table order.
pub open spec fn find_by_name(users: Seq<UserEntity>, name: Seq<char>) -> Option<UserEntity>
    decreases users.len(),
{
    if users.len() == 0 {
        None
    } else if users[0].name@ == name {
        Some(users[0])
    } else {
        find_by_name(users.drop_first(), name)
    }
}

/// The most recently created code under `prefix`: the last row, in
/// creation order, whose code string starts with it.
pub open spec fn latest_match(codes: Seq<CodeRow>, prefix: Seq<char>) -> Option<CodeRow>
    decreases codes.len(),
{
    if codes.len() == 0 {
        None
    } else if starts_with(codes.last().code@, prefix) {
        Some(codes.last())
    } else {
        latest_match(codes.drop_last(), prefix)
    }
}

/// Whether some row already carries this code string.
pub open spec fn contains_code(codes: Seq<CodeRow>, code: Seq<char>) -> bool {
    exists|i: int| 0 <= i < codes.len() && #[trigger] codes[i].code@ == code
}

/// How many administrators remain when the user of `id` is left out.
pub open spec fn admins_excluding(users: Seq<UserEntity>, id: int) -> nat
    decreases users.len(),
{
    if users.len() == 0 {
        0
    } else {
        admins_excluding(users.drop_last(), id) + if users.last().is_admin == 1
            && users.last().id != id {
            1nat
        } else {
            0nat
        }
    }
}

/// A name that finds no user occurs in no row at all.
proof fn lemma_find_by_name_none(users: Seq<UserEntity>, name: Seq<char>)
    requires
        find_by_name(users, name) is None,
    ensures
        forall|k: int| 0 <= k < users.len() ==> (#[trigger] users[k]).name@ != name,
    decreases users.len(),
{
    if users.len() > 0 {
        lemma_find_by_name_none(users.drop_first(), name);
        assert forall|k: int| 0 <= k < users.len() implies (#[trigger] users[k]).name@ != name by {
            if k > 0 {
                assert(users[k] == users.drop_first()[k - 1]);
            }
        }
    }
}

impl Store {
    /// The store's well-formedness: unique user ids and names, unique
    /// code strings, and ids below the counters that hand out the next
    /// ones — what the persistence layer's constraints guarantee.
    pub open spec fn wf(self) -> bool {
        &&& 1 <= self.next_user_id
        &&& 1 <= self.next_code_id
        &&& forall|i: int, j: int|
            #![trigger self.users@[i], self.users@[j]]
            0 <= i < j < self.users@.len() ==> self.users@[i].id != self.users@[j].id
        &&& forall|i: int, j: int|
            #![trigger self.users@[i], self.users@[j]]
            0 <= i < j < self.users@.len() ==> self.users@[i].name@ != self.users@[j].name@
        &&& forall|i: int|
            0 <= i < self.users@.len() ==> 1 <= #[trigger] self.users@[i].id < self.next_user_id
        &&& forall|i: int, j: int|
            #![trigger self.codes@[i], self.codes@[j]]
            0 <= i < j < self.codes@.len() ==> self.codes@[i].code@ != self.codes@[j].code@
        &&& forall|i: int, j: int|
            #![trigger self.codes@[i], self.codes@[j]]
            0 <= i < j < self.codes@.len() ==> at_or_before(
                self.codes@[i].created_at,
                self.codes@[j].created_at,
            )
        &&& forall|i: int|
            0 <= i < self.codes@.len() ==> 1 <= #[trigger] self.codes@[i].id < self.next_code_id
    }

    /// Whether `self` and `other` hold exactly the same rows and
    /// counters.
    pub open spec fn same_as(self, other: Store) -> bool {
        self.users@ == other.users@ && self.codes@ == other.codes@ && self.next_user_id
            == other.next_user_id && self.next_code_id == other.next_code_id
    }

    /// An empty store; the first row of either table draws identity 1.
    pub fn new() -> (s: Store)
        ensures
            s.wf(),
            s.users@.len() == 0,
            s.codes@.len() == 0,
            s.next_user_id == 1,
            s.next_code_id == 1,
    {
        Store { users: Vec::new(), codes: Vec::new(), next_user_id: 1, next_code_id: 1 }
    }
}

/// The position of the user of `id`, when there is one.
fn position_by_id(users: &Vec<UserEntity>, id: i64) -> (r: Option<usize>)
    ensures
        match r {
            Some(k) => k < users@.len() && users@[k as int].id == id && find_by_id(users@, id as int)
                == Some(users@[k as int]) && forall|j: int| 0 <= j < k ==> (#[trigger] users@[j]).id != id,
            None => find_by_id(users@, id as int) is None,
        },
{
    let n = users.len();
    let mut i: usize = 0;
    proof {
        assert(users@.subrange(0, n as int) =~= users@);
    }
    while i < n
        invariant
            i <= n == users@.len(),
            find_by_id(users@, id as int) == find_by_id(
                users@.subrange(i as int, n as int),
                id as int,
            ),
            forall|j: int| 0 <= j < i ==> (#[trigger] users@[j]).id != id,
        decreases n - i,
    {
        let t = Ghost(users@.subrange(i as int, n as int));
        proof {
            assert(t@[0] == users@[i as int]);
            assert(t@.drop_first() =~= users@.subrange(i + 1, n as int));
        }
        if users[i].id == id {
            return Some(i);
        }
        i += 1;
    }
    proof {
        assert(users@.subrange(n as int, n as int) =~= Seq::<UserEntity>::empty());
    }
    None
}

/// The position of the user of `name`, when there is one.
fn position_by_name(users: &Vec<UserEntity>, name: &String) -> (r: Option<usize>)
    ensures
        match r {
            Some(k) => k < users@.len() && users@[k as int].name@ == name@ && find_by_name(
                users@,
                name@,
            ) == Some(users@[k as int]),
            None => find_by_name(users@, name@) is None,
        },
{
    let n = users.len();
    let mut i: usize = 0;
    proof {
        assert(users@.subrange(0, n as int) =~= users@);
    }
    while i < n
        invariant
            i <= n == users@.len(),
            find_by_name(users@, name@) == find_by_name(
                users@.subrange(i as int, n as int),
                name@,
            ),
        decreases n - i,
    {
        let t = Ghost(users@.subrange(i as int, n as int));
        proof {
            assert(t@[0] == users@[i as int]);
            assert(t@.drop_first() =~= users@.subrange(i + 1, n as int));
        }
        if users[i].name == *name {
            return Some(i);
        }
        i += 1;
    }
    proof {
        assert(users@.subrange(n as int, n as int) =~= Seq::<UserEntity>::empty());
    }
    None
}

/// Under nondecreasing stamps, the last row filed under a prefix also
/// carries the greatest creation instant among the rows filed under it.
proof fn lemma_latest_match_max(codes: Seq<CodeRow>, prefix: Seq<char>)
    requires
        forall|i: int, j: int|
            #![trigger codes[i], codes[j]]
            0 <= i < j < codes.len() ==> at_or_before(codes[i].created_at, codes[j].created_at),
    ensures
        match latest_match(codes, prefix) {
            Some(row) => forall|i: int|
                0 <= i < codes.len() && starts_with((#[trigger] codes[i]).code@, prefix)
                    ==> at_or_before(codes[i].created_at, row.created_at),
            None => true,
        },
    decreases codes.len(),
{
    if codes.len() > 0 {
        if starts_with(codes.last().code@, prefix) {
            assert forall|i: int|
                0 <= i < codes.len() && starts_with(
                    (#[trigger] codes[i]).code@,
                    prefix,
                ) implies at_or_before(codes[i].created_at, codes.last().created_at) by {
                if i < codes.len() - 1 {
                    assert(at_or_before(
                        codes[i].created_at,
                        codes[codes.len() - 1].created_at,
                    ));
                }
            }
        } else {
            let prev = codes.drop_last();
            assert(forall|i: int| 0 <= i < prev.len() ==> #[trigger] prev[i] == codes[i]);
            assert forall|i: int, j: int|
                #![trigger prev[i], prev[j]]
                0 <= i < j < prev.len() implies at_or_before(
                prev[i].created_at,
                prev[j].created_at,
            ) by {
                assert(prev[i] == codes[i]);
                assert(prev[j] == codes[j]);
            }
            lemma_latest_match_max(prev, prefix);
            match latest_match(codes, prefix) {
                Some(row) => {
                    assert forall|i: int|
                        0 <= i < codes.len() && starts_with(
                            (#[trigger] codes[i]).code@,
                            prefix,
                        ) implies at_or_before(codes[i].created_at, row.created_at) by {
                        assert(codes[i] == prev[i]);
                        assert(starts_with((prev[i]).code@, prefix));
                    }
                },
                None => {},
            }
        }
    }
}

/// The most recently created code under `code_prefix`, as its bare code
/// string, scanning newest first. On a well-formed store the returned
/// row also carries the greatest creation instant among the rows filed
/// under the prefix, ties broken toward the latest insertion.
pub fn read_latest_today(store: &Store, code_prefix: &str) -> (r: Option<crate::models::CodeValue>)
    ensures
        match latest_match(store.codes@, code_prefix@) {
            Some(row) => r matches Some(cv) && cv.code@ == row.code@,
            None => r is None,
        },
        store.wf() ==> match latest_match(store.codes@, code_prefix@) {
            Some(row) => forall|i: int|
                0 <= i < store.codes@.len() && starts_with(
                    (#[trigger] store.codes@[i]).code@,
                    code_prefix@,
                ) ==> at_or_before(store.codes@[i].created_at, row.created_at),
            None => true,
        },
{
    let n = store.codes.len();
    let mut i = n;
    proof {
        assert(store.codes@.subrange(0, n as int) =~= store.codes@);
    }
    while i > 0
        invariant
            i <= n == store.codes@.len(),
            latest_match(store.codes@, code_prefix@) == latest_match(
                store.codes@.subrange(0, i as int),
                code_prefix@,
            ),
        decreases i,
    {
        let j = i - 1;
        let t = Ghost(store.codes@.subrange(0, i as int));
        proof {
            assert(t@.last() == store.codes@[j as int]);
            assert(t@.drop_last() =~= store.codes@.subrange(0, j as int));
        }
        if str_starts_with(store.codes[j].code.as_str(), code_prefix) {
            proof {
                if store.wf() {
                    lemma_latest_match_max(store.codes@, code_prefix@);
                }
            }
            return Some(crate::models::CodeValue { code: store.codes[j].code.clone() });
        }
        i = j;
    }
    None
}

/// Clears every code; the user table is untouched.
pub fn reset_codes(store: &mut Store) -> (r: Result<(), ResetCodesError>)
    ensures
        r is Ok,
        final(store).codes@.len() == 0,
        final(store).users@ == old(store).users@,
        final(store).next_user_id == old(store).next_user_id,
        old(store).wf() ==> final(store).wf(),
{
    store.codes.clear();
    Ok(())
}

/// The raw constraint-checked insert under the code table's unique
/// index: the only coordination point two concurrent allocations share.
/// Succeeds exactly when no row carries the code string yet; a
/// duplicate leaves the store unchanged and reports the candidate.
pub fn insert_code(store: &mut Store, code: String, created_at: Timestamp, user_id: i64) -> (r:
    Result<i64, AddNumberError>)
    requires
        old(store).wf(),
        old(store).next_code_id < i64::MAX,
        old(store).codes@.len() > 0 ==> at_or_before(
            old(store).codes@.last().created_at,
            created_at,
        ),
    ensures
        final(store).wf(),
        final(store).users@ == old(store).users@,
        final(store).next_user_id == old(store).next_user_id,
        r is Ok <==> !contains_code(old(store).codes@, code@),
        match r {
            Ok(id) => id == old(store).next_code_id && final(store).codes@ == old(
                store,
            ).codes@.push(CodeRow { id, code, created_at, user_id }) && final(store).next_code_id
                == old(store).next_code_id + 1,
            Err(e) => final(store).same_as(*old(store)) && (e matches
                AddNumberError::DuplicateCode(c) && c@ == code@),
        },
{
    let n = store.codes.len();
    let mut i: usize = 0;
    while i < n
        invariant
            store.same_as(*old(store)),
            old(store).wf(),
            i <= n == store.codes@.len(),
            forall|j: int| 0 <= j < i ==> (#[trigger] store.codes@[j]).code@ != code@,
        decreases n - i,
    {
        if store.codes[i].code == code {
            return Err(AddNumberError::DuplicateCode(code));
        }
        i += 1;
    }
    let id = store.next_code_id;
    store.codes.push(CodeRow { id, code, created_at, user_id });
    store.next_code_id = id + 1;
    Ok(id)
}

/// The first code row of `id`, in table order.
pub open spec fn find_code_by_id(codes: Seq<CodeRow>, id: int) -> Option<CodeRow>
    decreases codes.len(),
{
    if codes.len() == 0 {
        None
    } else if codes[0].id == id {
        Some(codes[0])
    } else {
        find_code_by_id(codes.drop_first(), id)
    }
}

/// The position of the code row of `id`, when there is one.
fn position_code_by_id(codes: &Vec<CodeRow>, id: i64) -> (r: Option<usize>)
    ensures
        match r {
            Some(k) => k < codes@.len() && find_code_by_id(codes@, id as int) == Some(
                codes@[k as int],
            ),
            None => find_code_by_id(codes@, id as int) is None,
        },
{
    let n = codes.len();
    let mut i: usize = 0;
    proof {
        assert(codes@.subrange(0, n as int) =~= codes@);
    }
    while i < n
        invariant
            i <= n == codes@.len(),
            find_code_by_id(codes@, id as int) == find_code_by_id(
                codes@.subrange(i as int, n as int),
                id as int,
            ),
        decreases n - i,
    {
        let t = Ghost(codes@.subrange(i as int, n as int));
        proof {
            assert(t@[0] == codes@[i as int]);
            assert(t@.drop_first() =~= codes@.subrange(i + 1, n as int));
        }
        if codes[i].id == id {
            return Some(i);
        }
        i += 1;
    }
    proof {
        assert(codes@.subrange(n as int, n as int) =~= Seq::<CodeRow>::empty());
    }
    None
}

/// A freshly pushed row with a fresh id is the one its id finds.
proof fn lemma_find_code_pushed(codes: Seq<CodeRow>, row: CodeRow)
    requires
        forall|k: int| 0 <= k < codes.len() ==> (#[trigger] codes[k]).id != row.id,
    ensures
        find_code_by_id(codes.push(row), row.id as int) == Some(row),
    decreases codes.len(),
{
    let s = codes.push(row);
    if codes.len() == 0 {
        assert(s[0] == row);
    } else {
        assert(s[0] == codes[0]);
        assert(s.drop_first() =~= codes.drop_first().push(row));
        assert(forall|k: int|
            0 <= k < codes.drop_first().len() ==> (#[trigger] codes.drop_first()[k]).id
                != row.id) by {
            assert(forall|k: int|
                0 <= k < codes.drop_first().len() ==> codes.drop_first()[k] == codes[k + 1]);
        }
        lemma_find_code_pushed(codes.drop_first(), row);
    }
}

/// One code row joined with its owning user and rendered for display,
/// looked up by row id. A row whose owner is gone joins to nothing, as
/// the relational join drops it.
pub fn read_code(store: &Store, id: i64, today: Timestamp) -> (r: Option<Code>)
    ensures
        match find_code_by_id(store.codes@, id as int) {
            Some(row) => match find_by_id(store.users@, row.user_id as int) {
                Some(u) => r matches Some(c) && c.code@ == row.code@ && c.created_at@
                    == spec_format_date(row.created_at, today) && c.user_name@ == u.name@,
                None => r is None,
            },
            None => r is None,
        },
{
    let k = match position_code_by_id(&store.codes, id) {
        Some(k) => k,
        None => {
            return None;
        },
    };
    let j = match position_by_id(&store.users, store.codes[k].user_id) {
        Some(j) => j,
        None => {
            return None;
        },
    };
    Some(
        Code {
            code: store.codes[k].code.clone(),
            created_at: crate::models::format_date(store.codes[k].created_at, today),
            user_name: store.users[j].name.clone(),
        },
    )
}

/// One user looked up by the id a token subject carries, as text. An id
/// that is not a plain decimal number matches no row.
pub fn read_user_by_id(store: &Store, user_id: &str) -> (r: Result<User, ReadUserError>)
    ensures
        match parse_dec(user_id@) {
            Some(uid) => match find_by_id(store.users@, uid) {
                Some(u) => r matches Ok(ru) && ru.id == u.id && ru.name@ == u.name@ && ru.is_admin
                    == (u.is_admin == 1),
                None => r matches Err(e) && (e matches ReadUserError::UserNotFound(s) && s@
                    == user_id@),
            },
            None => r matches Err(e) && (e matches ReadUserError::UserNotFound(s) && s@
                == user_id@),
        },
{
    let uid = match crate::text::parse_dec_str(user_id) {
        Some(v) => v as i64,
        None => {
            return Err(ReadUserError::UserNotFound(user_id.to_owned()));
        },
    };
    match position_by_id(&store.users, uid) {
        Some(k) => {
            let u = &store.users[k];
            Ok(User { id: u.id, name: u.name.clone(), is_admin: u.is_admin == 1 })
        },
        None => Err(ReadUserError::UserNotFound(user_id.to_owned())),
    }
}

/// One user looked up by id.
pub fn read_user(store: &Store, id: i64) -> (r: Result<Option<User>, ReadUsersError>)
    ensures
        match find_by_id(store.users@, id as int) {
            Some(u) => r matches Ok(ru) && (ru matches Some(ru) && ru.id == u.id && ru.name@
                == u.name@ && ru.is_admin == (u.is_admin == 1)),
            None => r matches Ok(ru) && ru is None,
        },
{
    match position_by_id(&store.users, id) {
        Some(k) => {
            let u = &store.users[k];
            Ok(Some(User { id: u.id, name: u.name.clone(), is_admin: u.is_admin == 1 }))
        },
        None => Ok(None),
    }
}

/// Every user, in table order, without password material.
pub fn read_all_users(store: &Store) -> (r: Result<Vec<User>, ReadUsersError>)
    ensures
        r matches Ok(v) && v@.len() == store.users@.len() && forall|k: int|
            0 <= k < v@.len() ==> (#[trigger] v@[k]).id == store.users@[k].id && v@[k].name@
                == store.users@[k].name@ && v@[k].is_admin == (store.users@[k].is_admin == 1),
{
    let n = store.users.len();
    let mut v: Vec<User> = Vec::new();
    let mut i: usize = 0;
    while i < n
        invariant
            i <= n == store.users@.len(),
            v@.len() == i,
            forall|k: int|
                0 <= k < i ==> (#[trigger] v@[k]).id == store.users@[k].id && v@[k].name@
                    == store.users@[k].name@ && v@[k].is_admin == (store.users@[k].is_admin == 1),
        decreases n - i,
    {
        let u = &store.users[i];
        v.push(User { id: u.id, name: u.name.clone(), is_admin: u.is_admin == 1 });
        i += 1;
    }
    Ok(v)
}

/// Credentials check: look the user up by name, then verify the
/// password against the stored hash. A missing user and a wrong
/// password are indistinguishable to the caller, on purpose.
pub fn check_email_password(email: String, password: String, store: &Store) -> (r: Result<
    User,
    CheckUserPasswordError,
>)
    ensures
        match find_by_name(store.users@, email@) {
            Some(u) => {
                if hash_matches(password@, u.password@) {
                    r matches Ok(ru) && ru.id == u.id && ru.name@ == u.name@ && ru.is_admin == (
                    u.is_admin == 1)
                } else {
                    r matches Err(e) && e is NotValid
                }
            },
            None => r matches Err(e) && e is NotValid,
        },
{
    match position_by_name(&store.users, &email) {
        Some(k) => {
            let u = &store.users[k];
            if verify_password(password.as_str(), u.password.as_str()) {
                Ok(User { id: u.id, name: u.name.clone(), is_admin: u.is_admin == 1 })
            } else {
                Err(CheckUserPasswordError::NotValid)
            }
        },
        None => Err(CheckUserPasswordError::NotValid),
    }
}

/// Replaces the stored password hash of every row of `user_id` — at
/// most one, under the store's invariant — leaving all else untouched.
pub fn change_password(store: &mut Store, user_id: i64, hashed_password: &str) -> (r: Result<
    (),
    PasswordChangeError,
>)
    ensures
        r is Ok,
        final(store).codes@ == old(store).codes@,
        final(store).next_user_id == old(store).next_user_id,
        final(store).next_code_id == old(store).next_code_id,
        final(store).users@.len() == old(store).users@.len(),
        forall|k: int|
            0 <= k < old(store).users@.len() ==> {
                let was = old(store).users@[k];
                let now = #[trigger] final(store).users@[k];
                if was.id == user_id {
                    now.id == was.id && now.name@ == was.name@ && now.password@
                        == hashed_password@ && now.is_admin == was.is_admin
                } else {
                    now == was
                }
            },
        old(store).wf() ==> final(store).wf(),
{
    let n = store.users.len();
    let mut i: usize = 0;
    while i < n
        invariant
            i <= n == store.users@.len(),
            n == old(store).users@.len(),
            store.codes@ == old(store).codes@,
            store.next_user_id == old(store).next_user_id,
            store.next_code_id == old(store).next_code_id,
            forall|k: int|
                0 <= k < i ==> {
                    let was = old(store).users@[k];
                    let now = #[trigger] store.users@[k];
                    if was.id == user_id {
                        now.id == was.id && now.name@ == was.name@ && now.password@
                            == hashed_password@ && now.is_admin == was.is_admin
                    } else {
                        now == was
                    }
                },
            forall|k: int| i <= k < n ==> #[trigger] store.users@[k] == old(store).users@[k],
        decreases n - i,
    {
        if store.users[i].id == user_id {
            let updated = UserEntity {
                id: store.users[i].id,
                name: store.users[i].name.clone(),
                password: hashed_password.to_owned(),
                is_admin: store.users[i].is_admin,
            };
            store.users[i] = updated;
        }
        i += 1;
    }
    proof {
        if old(store).wf() {
            assert(forall|a: int|
                0 <= a < n ==> (#[trigger] store.users@[a]).id == old(store).users@[a].id
                    && store.users@[a].name@ == old(store).users@[a].name@);
        }
    }
    Ok(())
}

/// Creates a user: the password is hashed with a fresh salt, the name
/// must be free — the unique-name constraint otherwise rejects the
/// insert — and the new row draws the next identity.
pub fn create_user(store: &mut Store, username: String, password: String, is_admin: bool) -> (r:
    Result<User, CreateUserError>)
    requires
        old(store).wf(),
        old(store).next_user_id < i64::MAX,
        crate::password::hashable(password@),
    ensures
        final(store).wf(),
        final(store).codes@ == old(store).codes@,
        final(store).next_code_id == old(store).next_code_id,
        r is Ok <==> find_by_name(old(store).users@, username@) is None,
        match r {
            Ok(u) => {
                let row = final(store).users@.last();
                &&& final(store).users@.len() == old(store).users@.len() + 1
                &&& final(store).users@.drop_last() =~= old(store).users@
                &&& row.id == old(store).next_user_id
                &&& row.name@ == username@
                &&& hash_matches(password@, row.password@)
                &&& row.is_admin == if is_admin { 1int } else { 0int }
                &&& final(store).next_user_id == old(store).next_user_id + 1
                &&& u.id == row.id && u.name@ == username@ && u.is_admin == is_admin
            },
            Err(e) => final(store).same_as(*old(store)) && e is DbError,
        },
{
    let hashed_password = hash_password(password.as_str());
    if let Some(_) = position_by_name(&store.users, &username) {
        return Err(CreateUserError::DbError);
    }
    proof {
        lemma_find_by_name_none(store.users@, username@);
    }
    let id = store.next_user_id;
    let row = UserEntity {
        id,
        name: username.clone(),
        password: hashed_password,
        is_admin: if is_admin { 1 } else { 0 },
    };
    store.users.push(row);
    store.next_user_id = id + 1;
    proof {
        assert(store.users@.drop_last() =~= old(store).users@);
    }
    Ok(User { id, name: username, is_admin })
}

/// Deletes the user of `id`, refusing when no administrator would
/// remain: the admins are counted with the target left out, and a count
/// of zero rejects the deletion with nothing changed. An id that
/// matches no row deletes nothing and still succeeds.
pub fn delete_user(store: &mut Store, id: i64) -> (r: Result<(), DeleteUserError>)
    requires
        old(store).wf(),
    ensures
        final(store).wf(),
        final(store).codes@ == old(store).codes@,
        final(store).next_user_id == old(store).next_user_id,
        final(store).next_code_id == old(store).next_code_id,
        r is Ok <==> admins_excluding(old(store).users@, id as int) > 0,
        match r {
            Ok(_) => {
                &&& find_by_id(old(store).users@, id as int) is Some ==> final(store).users@.len()
                    == old(store).users@.len() - 1 && exists|k: int|
                    0 <= k < old(store).users@.len() && (#[trigger] old(store).users@[k]).id == id
                        && final(store).users@ == old(store).users@.remove(k)
                &&& find_by_id(old(store).users@, id as int) is None ==> final(store).users@ == old(
                    store,
                ).users@
            },
            Err(e) => e is CantDeleteLastAdmin && final(store).same_as(*old(store)),
        },
{
    let n = store.users.len();
    let mut count: usize = 0;
    let mut i: usize = 0;
    proof {
        assert(store.users@.subrange(0, 0) =~= Seq::<UserEntity>::empty());
    }
    while i < n
        invariant
            i <= n == store.users@.len(),
            count <= i,
            count == admins_excluding(store.users@.subrange(0, i as int), id as int),
        decreases n - i,
    {
        let t = Ghost(store.users@.subrange(0, i + 1));
        proof {
            assert(t@.last() == store.users@[i as int]);
            assert(t@.drop_last() =~= store.users@.subrange(0, i as int));
        }
        if store.users[i].is_admin == 1 && store.users[i].id != id {
            count += 1;
        }
        i += 1;
    }
    proof {
        assert(store.users@.subrange(0, n as int) =~= store.users@);
    }
    if count == 0 {
        return Err(DeleteUserError::CantDeleteLastAdmin);
    }
    match position_by_id(&store.users, id) {
        Some(k) => {
            store.users.remove(k);
            proof {
                let was = old(store).users@;
                assert forall|a: int, b: int|
                    0 <= a < b < store.users@.len() implies (#[trigger] store.users@[a]).id != (
                #[trigger] store.users@[b]).id && store.users@[a].name@
                    != store.users@[b].name@ by {
                    let ra = if a < k { a } else { a + 1 };
                    let rb = if b < k { b } else { b + 1 };
                    assert(store.users@[a] == was[ra]);
                    assert(store.users@[b] == was[rb]);
                }
                assert(forall|a: int|
                    0 <= a < store.users@.len() ==> 1 <= (#[trigger] store.users@[a]).id
                        < store.next_user_id) by {
                    assert(forall|a: int|
                        0 <= a < store.users@.len() ==> #[trigger] store.users@[a] == (if a < k {
                            was[a]
                        } else {
                            was[a + 1]
                        }));
                }
            }
            Ok(())
        },
        None => Ok(()),
    }
}

/// What the engine derives from the most recent code under the prefix:
/// the suffix base it will increment, or the offending code string when
/// that code's suffix is not a plain decimal number. A fresh prefix
/// starts from base zero.
pub open spec fn engine_base(codes: Seq<CodeRow>, prefix: Seq<char>) -> Result<int, Seq<char>> {
    match latest_match(codes, prefix) {
        None => Ok(0int),
        Some(row) => match code_suffix(row.code@) {
            Some(v) => Ok(v),
            None => Err(row.code@),
        },
    }
}

/// The code sequence engine: reads the most recent code under `code`,
/// derives the next suffix, forms the next code string, and inserts it
/// under the unique-code constraint — the only safety net against a
/// concurrent allocation of the same suffix — then returns the new code
/// joined with its owning user. Succeeds exactly when the latest code
/// parses and the computed code string is still free.
pub fn create_code(store: &mut Store, code: &str, user_id: &str, now: Timestamp) -> (r: Result<
    Code,
    AddNumberError,
>)
    requires
        old(store).wf(),
        old(store).next_code_id < i64::MAX,
        old(store).codes@.len() > 0 ==> at_or_before(old(store).codes@.last().created_at, now),
        parse_dec(user_id@) matches Some(uid) && find_by_id(old(store).users@, uid) is Some,
        engine_base(old(store).codes@, code@) matches Ok(b) ==> b < i64::MAX,
    ensures
        final(store).wf(),
        final(store).users@ == old(store).users@,
        final(store).next_user_id == old(store).next_user_id,
        r is Ok <==> (engine_base(old(store).codes@, code@) matches Ok(b) && !contains_code(
            old(store).codes@,
            code_string(code@, b + 1),
        )),
        match r {
            Ok(c) => {
                let b = engine_base(old(store).codes@, code@)->Ok_0;
                let new_code = code_string(code@, b + 1);
                let uid = parse_dec(user_id@)->Some_0;
                &&& c.code@ == new_code
                &&& c.user_name@ == find_by_id(old(store).users@, uid)->Some_0.name@
                &&& c.created_at@ == spec_format_date(now, now)
                &&& final(store).codes@.len() == old(store).codes@.len() + 1
                &&& final(store).codes@.drop_last() =~= old(store).codes@
                &&& final(store).codes@.last().code@ == new_code
                &&& final(store).codes@.last().id == old(store).next_code_id
                &&& final(store).codes@.last().created_at == now
                &&& final(store).codes@.last().user_id == uid
                &&& final(store).next_code_id == old(store).next_code_id + 1
            },
            Err(e) => match e {
                AddNumberError::ParseSuffixError(s) => engine_base(old(store).codes@, code@)
                    matches Err(off) && s@ == off && final(store).same_as(*old(store)),
                AddNumberError::DuplicateCode(s) => engine_base(old(store).codes@, code@) matches
                    Ok(b) && s@ == code_string(code@, b + 1) && contains_code(
                    old(store).codes@,
                    s@,
                ) && final(store).same_as(*old(store)),
                AddNumberError::DbError => false,
            },
        },
{
    let uid = crate::text::parse_dec_str(user_id).unwrap() as i64;
    let latest = read_latest_today(store, code);
    let base: u64 = match latest {
        Some(cv) => match parse_code_suffix(cv.code.as_str()) {
            Some(v) => v,
            None => {
                return Err(AddNumberError::ParseSuffixError(cv.code));
            },
        },
        None => 0,
    };
    let new_code = make_code(code, base + 1);
    let ghost pre = *store;
    let id = match insert_code(store, new_code, now, uid) {
        Ok(id) => id,
        Err(e) => {
            return Err(e);
        },
    };
    proof {
        assert(store.codes@.last().id == id);
        lemma_find_code_pushed(pre.codes@, store.codes@.last());
        assert(store.codes@ =~= pre.codes@.push(store.codes@.last()));
    }
    let created = read_code(store, id, now);
    Ok(created.unwrap())
}

/// The codes joined with their owning users, newest first. A row whose
/// owner is gone pairs with nothing, as the relational join drops it.
pub open spec fn rev_joined(codes: Seq<CodeRow>, users: Seq<UserEntity>) -> Seq<
    (CodeRow, UserEntity),
>
    decreases codes.len(),
{
    if codes.len() == 0 {
        Seq::empty()
    } else {
        (match find_by_id(users, codes.last().user_id as int) {
            Some(u) => seq![(codes.last(), u)],
            None => Seq::empty(),
        }) + rev_joined(codes.drop_last(), users)
    }
}

/// Joining newest-first distributes over splitting the rows, with the
/// later half's pairs coming first.
proof fn lemma_rev_joined_concat(a: Seq<CodeRow>, b: Seq<CodeRow>, users: Seq<UserEntity>)
    ensures
        rev_joined(a + b, users) =~= rev_joined(b, users) + rev_joined(a, users),
    decreases b.len(),
{
    if b.len() == 0 {
        assert(a + b =~= a);
        assert(rev_joined(b, users) + rev_joined(a, users) =~= rev_joined(a, users));
    } else {
        assert((a + b).last() == b.last());
        assert((a + b).drop_last() =~= a + b.drop_last());
        lemma_rev_joined_concat(a, b.drop_last(), users);
        assert(rev_joined(a + b, users) =~= rev_joined(b, users) + rev_joined(a, users));
    }
}

/// Every row a join lists falls at or before a bound that every
/// underlying row respects.
proof fn lemma_rev_joined_bound(codes: Seq<CodeRow>, users: Seq<UserEntity>, t: Timestamp)
    requires
        forall|i: int|
            0 <= i < codes.len() ==> at_or_before((#[trigger] codes[i]).created_at, t),
    ensures
        forall|k: int|
            0 <= k < rev_joined(codes, users).len() ==> at_or_before(
                (#[trigger] rev_joined(codes, users)[k]).0.created_at,
                t,
            ),
    decreases codes.len(),
{
    if codes.len() > 0 {
        let prev = codes.drop_last();
        assert(forall|i: int| 0 <= i < prev.len() ==> #[trigger] prev[i] == codes[i]);
        assert forall|i: int|
            0 <= i < prev.len() implies at_or_before((#[trigger] prev[i]).created_at, t) by {
            assert(prev[i] == codes[i]);
        }
        lemma_rev_joined_bound(prev, users, t);
        let rj = rev_joined(codes, users);
        let tail = rev_joined(prev, users);
        assert forall|k: int|
            0 <= k < rj.len() implies at_or_before((#[trigger] rj[k]).0.created_at, t) by {
            match find_by_id(users, codes.last().user_id as int) {
                Some(u) => {
                    if k == 0 {
                        assert(rj[0] == (codes.last(), u));
                        assert(at_or_before(codes[codes.len() - 1].created_at, t));
                    } else {
                        assert(rj[k] == tail[k - 1]);
                    }
                },
                None => {
                    assert(rj[k] == tail[k]);
                },
            }
        }
    }
}

/// Under nondecreasing stamps, the newest-first join lists rows whose
/// creation instants never increase along the list.
proof fn lemma_rev_joined_desc(codes: Seq<CodeRow>, users: Seq<UserEntity>)
    requires
        forall|i: int, j: int|
            #![trigger codes[i], codes[j]]
            0 <= i < j < codes.len() ==> at_or_before(codes[i].created_at, codes[j].created_at),
    ensures
        forall|k1: int, k2: int|
            #![trigger rev_joined(codes, users)[k1], rev_joined(codes, users)[k2]]
            0 <= k1 < k2 < rev_joined(codes, users).len() ==> at_or_before(
                rev_joined(codes, users)[k2].0.created_at,
                rev_joined(codes, users)[k1].0.created_at,
            ),
    decreases codes.len(),
{
    if codes.len() > 0 {
        let prev = codes.drop_last();
        assert(forall|i: int| 0 <= i < prev.len() ==> #[trigger] prev[i] == codes[i]);
        assert forall|i: int, j: int|
            #![trigger prev[i], prev[j]]
            0 <= i < j < prev.len() implies at_or_before(
            prev[i].created_at,
            prev[j].created_at,
        ) by {
            assert(prev[i] == codes[i]);
            assert(prev[j] == codes[j]);
        }
        lemma_rev_joined_desc(prev, users);
        assert forall|i: int|
            0 <= i < prev.len() implies at_or_before(
            (#[trigger] prev[i]).created_at,
            codes.last().created_at,
        ) by {
            assert(prev[i] == codes[i]);
            assert(at_or_before(codes[i].created_at, codes[codes.len() - 1].created_at));
        }
        lemma_rev_joined_bound(prev, users, codes.last().created_at);
        let rj = rev_joined(codes, users);
        let tail = rev_joined(prev, users);
        assert forall|k1: int, k2: int|
            0 <= k1 < k2 < rj.len() implies at_or_before(
            (#[trigger] rj[k2]).0.created_at,
            (#[trigger] rj[k1]).0.created_at,
        ) by {
            match find_by_id(users, codes.last().user_id as int) {
                Some(u) => {
                    assert(rj[0] == (codes.last(), u));
                    assert(rj[k2] == tail[k2 - 1]);
                    if k1 > 0 {
                        assert(rj[k1] == tail[k1 - 1]);
                    }
                },
                None => {
                    assert(rj[k1] == tail[k1]);
                    assert(rj[k2] == tail[k2]);
                },
            }
        }
    }
}

/// The ten most recently created codes, newest first, each joined with
/// its owning user and rendered for display. On a well-formed store
/// the listing is also ordered by creation instant, newest first, ties
/// broken toward the latest insertion.
pub fn read_last_ten(store: &Store, today: Timestamp) -> (r: Vec<Code>)
    ensures
        ({
            let j = rev_joined(store.codes@, store.users@);
            &&& r@.len() == if j.len() < 10 { j.len() as int } else { 10int }
            &&& forall|k: int|
                0 <= k < r@.len() ==> (#[trigger] r@[k]).code@ == j[k].0.code@ && r@[k].user_name@
                    == j[k].1.name@ && r@[k].created_at@ == spec_format_date(
                    j[k].0.created_at,
                    today,
                )
            &&& store.wf() ==> forall|k1: int, k2: int|
                #![trigger j[k1], j[k2]]
                0 <= k1 < k2 < r@.len() ==> at_or_before(j[k2].0.created_at, j[k1].0.created_at)
        }),
{
    proof {
        if store.wf() {
            lemma_rev_joined_desc(store.codes@, store.users@);
        }
    }
    let n = store.codes.len();
    let mut r: Vec<Code> = Vec::new();
    let mut i = n;
    proof {
        assert(store.codes@.subrange(n as int, n as int) =~= Seq::<CodeRow>::empty());
    }
    while i > 0 && r.len() < 10
        invariant
            i <= n == store.codes@.len(),
            r@.len() <= 10,
            ({
                let part = rev_joined(store.codes@.subrange(i as int, n as int), store.users@);
                &&& r@.len() == part.len()
                &&& forall|k: int|
                    0 <= k < r@.len() ==> (#[trigger] r@[k]).code@ == part[k].0.code@
                        && r@[k].user_name@ == part[k].1.name@ && r@[k].created_at@
                        == spec_format_date(part[k].0.created_at, today)
            }),
        decreases i,
    {
        let idx = i - 1;
        proof {
            let c = store.codes@[idx as int];
            let single = seq![c];
            assert(store.codes@.subrange(idx as int, n as int) =~= single + store.codes@.subrange(
                i as int,
                n as int,
            ));
            lemma_rev_joined_concat(single, store.codes@.subrange(i as int, n as int), store.users@);
            assert(single.last() == c);
            assert(single.drop_last() =~= Seq::<CodeRow>::empty());
            assert(rev_joined(Seq::<CodeRow>::empty(), store.users@) =~= Seq::<
                (CodeRow, UserEntity),
            >::empty());
            assert(rev_joined(single, store.users@) =~= (match find_by_id(
                store.users@,
                c.user_id as int,
            ) {
                Some(u) => seq![(c, u)],
                None => Seq::<(CodeRow, UserEntity)>::empty(),
            }));
        }
        match position_by_id(&store.users, store.codes[idx].user_id) {
            Some(ju) => {
                r.push(
                    Code {
                        code: store.codes[idx].code.clone(),
                        created_at: crate::models::format_date(store.codes[idx].created_at, today),
                        user_name: store.users[ju].name.clone(),
                    },
                );
            },
            None => {},
        }
        i = idx;
    }
    proof {
        if r@.len() < 10 {
            assert(store.codes@.subrange(0, n as int) =~= store.codes@);
        } else {
            assert(store.codes@ =~= store.codes@.subrange(0, i as int) + store.codes@.subrange(
                i as int,
                n as int,
            ));
            lemma_rev_joined_concat(
                store.codes@.subrange(0, i as int),
                store.codes@.subrange(i as int, n as int),
                store.users@,
            );
        }
    }
    r
}

/// Law: the persisted result set never holds duplicate code strings.
/// Under the store's invariant — which every operation preserves, the
/// constraint-checked insert included — any run of allocations, racing
/// callers that retry after a duplicate report included, leaves as many
/// distinct code strings as there are rows.
pub proof fn lemma_persisted_codes_distinct(s: Store)
    requires
        s.wf(),
    ensures
        s.codes@.map_values(|c: CodeRow| c.code@).to_set().len() == s.codes@.len(),
{
    let strs = s.codes@.map_values(|c: CodeRow| c.code@);
    assert forall|i: int, j: int|
        0 <= i < strs.len() && 0 <= j < strs.len() && i != j implies strs[i] != strs[j] by {
        assert(strs[i] == s.codes@[i].code@);
        assert(strs[j] == s.codes@[j].code@);
        if i < j {
            assert(s.codes@[i].code@ != s.codes@[j].code@);
        } else {
            assert(s.codes@[j].code@ != s.codes@[i].code@);
        }
    }
    assert(strs.no_duplicates());
    strs.unique_seq_to_set();
}

/// No code is filed under a prefix exactly when no row's code string
/// starts with it.
proof fn lemma_latest_match_none_iff(codes: Seq<CodeRow>, prefix: Seq<char>)
    ensures
        latest_match(codes, prefix) is None <==> forall|i: int|
            0 <= i < codes.len() ==> !starts_with((#[trigger] codes[i]).code@, prefix),
    decreases codes.len(),
{
    if codes.len() > 0 {
        lemma_latest_match_none_iff(codes.drop_last(), prefix);
        assert(forall|i: int|
            0 <= i < codes.len() - 1 ==> #[trigger] codes.drop_last()[i] == codes[i]);
        if latest_match(codes, prefix) is None {
            assert forall|i: int|
                0 <= i < codes.len() implies !starts_with(
                (#[trigger] codes[i]).code@,
                prefix,
            ) by {
                if i < codes.len() - 1 {
                    assert(codes[i] == codes.drop_last()[i]);
                }
            }
        } else {
            if starts_with(codes.last().code@, prefix) {
                assert(starts_with((codes[codes.len() - 1]).code@, prefix));
            } else {
                assert(latest_match(codes.drop_last(), prefix) is Some);
                let w = choose|i: int|
                    0 <= i < codes.drop_last().len() && starts_with(
                        (#[trigger] codes.drop_last()[i]).code@,
                        prefix,
                    );
                assert(starts_with((codes[w]).code@, prefix));
            }
        }
    }
}

/// The shape the code table has part-way through a run of allocations
/// under one prefix: the first `base` rows predate the run and none of
/// them is filed under the prefix; behind them stand the run's codes,
/// in order, the `j`-th carrying suffix `j`.
spec fn run_shape(codes: Seq<CodeRow>, base: int, prefix: Seq<char>, m: int) -> bool {
    &&& codes.len() == base + m
    &&& forall|i: int| 0 <= i < base ==> !starts_with((#[trigger] codes[i]).code@, prefix)
    &&& forall|j: int|
        1 <= j <= m ==> (#[trigger] codes[base + j - 1]).code@ == code_string(prefix, j)
}

/// Part-way through a run, the engine's base is the number of codes
/// allocated so far, and the next code string is still free.
proof fn lemma_run_step(codes: Seq<CodeRow>, base: int, prefix: Seq<char>, m: int)
    requires
        run_shape(codes, base, prefix, m),
        0 <= base,
        0 <= m < i64::MAX,
    ensures
        engine_base(codes, prefix) == Ok::<int, Seq<char>>(m),
        !contains_code(codes, code_string(prefix, m + 1)),
{
    crate::sequence::lemma_code_string_round_trip(prefix, m + 1);
    if m == 0 {
        lemma_latest_match_none_iff(codes, prefix);
        assert(latest_match(codes, prefix) is None);
    } else {
        crate::sequence::lemma_code_string_round_trip(prefix, m);
        assert(codes.last() == codes[base + m - 1]);
        assert(starts_with(codes.last().code@, prefix));
        assert(latest_match(codes, prefix) == Some(codes.last()));
    }
    assert forall|i: int|
        0 <= i < codes.len() implies (#[trigger] codes[i]).code@ != code_string(
        prefix,
        m + 1,
    ) by {
        if i < base {
            assert(!starts_with(codes[i].code@, prefix));
        } else {
            let j = i - base + 1;
            crate::sequence::lemma_code_string_round_trip(prefix, j);
            assert((codes[base + j - 1]).code@ == code_string(prefix, j));
            assert(base + j - 1 == i);
            assert(code_suffix(code_string(prefix, j)) == Some(j));
        }
    }
}

/// Law: on a store holding nothing under `prefix`, four successive
/// allocations for one owner all succeed and yield exactly the
/// suffixes `.01`, `.02`, `.03` and `.04`, in order.
pub fn allocate_four_under_fresh_prefix(
    store: &mut Store,
    prefix: &str,
    user_id: &str,
    now: Timestamp,
) -> (r: (Code, Code, Code, Code))
    requires
        old(store).wf(),
        old(store).next_code_id <= i64::MAX - 4,
        old(store).codes@.len() > 0 ==> at_or_before(old(store).codes@.last().created_at, now),
        parse_dec(user_id@) matches Some(uid) && find_by_id(old(store).users@, uid) is Some,
        latest_match(old(store).codes@, prefix@) is None,
    ensures
        final(store).wf(),
        final(store).users@ == old(store).users@,
        final(store).codes@.len() == old(store).codes@.len() + 4,
        r.0.code@ == code_string(prefix@, 1),
        r.1.code@ == code_string(prefix@, 2),
        r.2.code@ == code_string(prefix@, 3),
        r.3.code@ == code_string(prefix@, 4),
{
    let ghost base = old(store).codes@.len() as int;
    proof {
        lemma_latest_match_none_iff(old(store).codes@, prefix@);
        assert(run_shape(old(store).codes@, base, prefix@, 0));
        lemma_run_step(old(store).codes@, base, prefix@, 0);
    }
    let first = match create_code(store, prefix, user_id, now) {
        Ok(c) => c,
        Err(_) => {
            proof {
                assert(false);
            }
            unreached()
        },
    };
    proof {
        lemma_run_shape_grows(old(store).codes@, store.codes@, base, prefix@, 1);
        lemma_run_step(store.codes@, base, prefix@, 1);
    }
    let ghost s1 = store.codes@;
    let second = match create_code(store, prefix, user_id, now) {
        Ok(c) => c,
        Err(_) => {
            proof {
                assert(false);
            }
            unreached()
        },
    };
    proof {
        lemma_run_shape_grows(s1, store.codes@, base, prefix@, 2);
        lemma_run_step(store.codes@, base, prefix@, 2);
    }
    let ghost s2 = store.codes@;
    let third = match create_code(store, prefix, user_id, now) {
        Ok(c) => c,
        Err(_) => {
            proof {
                assert(false);
            }
            unreached()
        },
    };
    proof {
        lemma_run_shape_grows(s2, store.codes@, base, prefix@, 3);
        lemma_run_step(store.codes@, base, prefix@, 3);
    }
    let fourth = match create_code(store, prefix, user_id, now) {
        Ok(c) => c,
        Err(_) => {
            proof {
                assert(false);
            }
            unreached()
        },
    };
    (first, second, third, fourth)
}

/// A run keeps its shape when the next code in line is appended.
proof fn lemma_run_shape_grows(
    prev: Seq<CodeRow>,
    curr: Seq<CodeRow>,
    base: int,
    prefix: Seq<char>,
    m: int,
)
    requires
        run_shape(prev, base, prefix, m - 1),
        0 <= base,
        1 <= m,
        curr.len() == prev.len() + 1,
        curr.drop_last() =~= prev,
        curr.last().code@ == code_string(prefix, m),
    ensures
        run_shape(curr, base, prefix, m),
{
    assert(forall|i: int| 0 <= i < prev.len() ==> #[trigger] curr[i] == prev[i]);
    assert(curr[base + m - 1] == curr.last());
}

/// Whether `form`'s old password authenticates `user` against the
/// stored rows: the user is found under the name and the old password
/// matches the stored hash of the row carrying the user's id.
pub open spec fn old_password_authenticates(
    users: Seq<UserEntity>,
    user: User,
    form: crate::forms::ChangePasswordSchema,
) -> bool {
    match find_by_name(users, user.name@) {
        Some(u) => hash_matches(form.old_password@, u.password@) && u.id == user.id,
        None => false,
    }
}

/// The password-change flow for an authenticated user: the old
/// password must authenticate, the new one must differ from it, and
/// the retyped copy must match it; only then is the new password
/// hashed afresh and stored. The checks run in that order, and a
/// failed check leaves the store untouched.
pub fn apply_password_change(
    store: &mut Store,
    user: &User,
    form: &crate::forms::ChangePasswordSchema,
) -> (r: Result<(), PasswordChangeError>)
    requires
        crate::password::hashable(form.new_password@),
    ensures
        old(store).wf() ==> final(store).wf(),
        final(store).codes@ == old(store).codes@,
        final(store).next_user_id == old(store).next_user_id,
        final(store).next_code_id == old(store).next_code_id,
        r is Ok <==> (old_password_authenticates(old(store).users@, *user, *form)
            && form.old_password@ != form.new_password@ && form.new_password@
            == form.retype_password@),
        match r {
            Ok(_) => {
                &&& final(store).users@.len() == old(store).users@.len()
                &&& forall|k: int|
                    0 <= k < old(store).users@.len() ==> {
                        let was = old(store).users@[k];
                        let upd = #[trigger] final(store).users@[k];
                        if was.id == user.id {
                            upd.id == was.id && upd.name@ == was.name@ && hash_matches(
                                form.new_password@,
                                upd.password@,
                            ) && upd.is_admin == was.is_admin
                        } else {
                            upd == was
                        }
                    }
            },
            Err(e) => final(store).same_as(*old(store)) && match e {
                PasswordChangeError::OldPasswordIsIncorrect => !old_password_authenticates(
                    old(store).users@,
                    *user,
                    *form,
                ),
                PasswordChangeError::PasswordIsSameAsOld => old_password_authenticates(
                    old(store).users@,
                    *user,
                    *form,
                ) && form.old_password@ == form.new_password@,
                PasswordChangeError::PasswordsDontMatch => old_password_authenticates(
                    old(store).users@,
                    *user,
                    *form,
                ) && form.old_password@ != form.new_password@ && form.new_password@
                    != form.retype_password@,
                PasswordChangeError::DbError => false,
            },
        },
{
    let is_valid = match check_email_password(user.name.clone(), form.old_password.clone(), store) {
        Ok(found) => found.id == user.id,
        Err(_) => false,
    };
    if !is_valid {
        return Err(PasswordChangeError::OldPasswordIsIncorrect);
    }
    if form.old_password == form.new_password {
        return Err(PasswordChangeError::PasswordIsSameAsOld);
    }
    if !(form.new_password == form.retype_password) {
        return Err(PasswordChangeError::PasswordsDontMatch);
    }
    let hashed_password = hash_password(form.new_password.as_str());
    match change_password(store, user.id, hashed_password.as_str()) {
        Ok(_) => Ok(()),
        Err(_) => Err(PasswordChangeError::DbError),
    }
}

} // verus!
