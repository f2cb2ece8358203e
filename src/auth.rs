use crate::status::Status;
use vstd::prelude::*;
use vstd::string::StringSliceAdditionalSpecFns;
use vstd::utf8::is_char_boundary;

verus! {

/// The bytes of `Bearer ` (the scheme followed by its one separating space).
pub open spec fn bearer_prefix() -> Seq<u8> {
    seq![66u8, 101u8, 97u8, 114u8, 101u8, 114u8, 32u8]
}

/// An `Authorization` value of the form `Bearer <token>`: the scheme, a single
/// space, then a non-empty token that holds no further space.
pub open spec fn is_bearer(b: Seq<u8>) -> bool {
    &&& b.len() > 7
    &&& b.subrange(0, 7) == bearer_prefix()
    &&& forall|i: int| 7 <= i < b.len() ==> b[i] != 32u8
    &&& is_char_boundary(b, 7)
}

/// Extracts the token of an `Authorization: Bearer <token>` header; a missing
/// header, another scheme or a missing token is a bad request.
pub fn parse_token(header: Option<&str>) -> (r: Result<String, Status>)
    ensures
        header is None ==> r == Err::<String, Status>(Status::BadRequest),
        header is Some ==> (r is Ok <==> is_bearer(header->0.spec_bytes())),
        header is Some && !is_bearer(header->0.spec_bytes()) ==> r == Err::<String, Status>(
            Status::BadRequest,
        ),
        r is Ok ==> vstd::utf8::encode_utf8(r->Ok_0@) == header->0.spec_bytes().subrange(
            7,
            header->0.spec_bytes().len() as int,
        ),
{
    let h = match header {
        None => return Err(Status::BadRequest),
        Some(h) => h,
    };
    let b = h.as_bytes();
    let n = b.len();
    if n <= 7 {
        return Err(Status::BadRequest);
    }
    if !(b[0] == 66u8 && b[1] == 101u8 && b[2] == 97u8 && b[3] == 114u8 && b[4] == 101u8 && b[5]
        == 114u8 && b[6] == 32u8) {
        proof {
            if b@.subrange(0, 7) == bearer_prefix() {
                assert(b@.subrange(0, 7)[0] == b@[0]);
                assert(b@.subrange(0, 7)[1] == b@[1]);
                assert(b@.subrange(0, 7)[2] == b@[2]);
                assert(b@.subrange(0, 7)[3] == b@[3]);
                assert(b@.subrange(0, 7)[4] == b@[4]);
                assert(b@.subrange(0, 7)[5] == b@[5]);
                assert(b@.subrange(0, 7)[6] == b@[6]);
            }
        }
        return Err(Status::BadRequest);
    }
    assert(b@.subrange(0, 7) =~= bearer_prefix());
    let mut i: usize = 7;
    while i < n
        invariant
            7 <= i <= n,
            n == b@.len(),
            b@ == h.spec_bytes(),
            header == Some(h),
            forall|j: int| 7 <= j < i ==> b@[j] != 32u8,
        decreases n - i,
    {
        if b[i] == 32u8 {
            return Err(Status::BadRequest);
        }
        i = i + 1;
    }
    if !h.is_char_boundary(7) {
        return Err(Status::BadRequest);
    }
    let (_, tail) = h.split_at(7);
    let token = tail.to_owned();
    Ok(token)
}

/// A stored account: the password is held only as its hash; `token` is the
/// current session token, absent while logged out.
pub struct UserRow {
    pub id: i32,
    pub username: String,
    pub password: String,
    pub token: Option<String>,
}

/// What the account handlers hand back: `{id, username, token}`.
pub struct ResponseUser {
    pub id: i32,
    pub username: String,
    pub token: String,
}

/// Credentials as a client sends them.
pub struct CreateUser {
    pub username: String,
    pub password: String,
}

pub open spec fn token_of(u: UserRow) -> Option<Seq<char>> {
    match u.token {
        Some(t) => Some(t@),
        None => None,
    }
}

pub open spec fn holds_token(u: UserRow, t: Seq<char>) -> bool {
    token_of(u) == Some(t)
}

/// Some stored account currently holds token `t`: `t` names a live session.
pub open spec fn resolves(rows: Seq<UserRow>, t: Seq<char>) -> bool {
    exists|i: int| 0 <= i < rows.len() && #[trigger] holds_token(rows[i], t)
}

pub open spec fn has_username(rows: Seq<UserRow>, name: Seq<char>) -> bool {
    exists|i: int| 0 <= i < rows.len() && #[trigger] rows[i].username@ == name
}

/// Ids, usernames and non-null tokens each identify at most one account.
pub open spec fn rows_wf(rows: Seq<UserRow>) -> bool {
    forall|i: int, j: int|
        0 <= i < rows.len() && 0 <= j < rows.len() && i != j ==> {
            &&& (#[trigger] rows[i]).id != (#[trigger] rows[j]).id
            &&& rows[i].username@ != rows[j].username@
            &&& (rows[i].token is Some ==> token_of(rows[i]) != token_of(rows[j]))
        }
}

/// `after` is `before` with only the token of account `i` set to `t`.
pub open spec fn token_set(
    before: Seq<UserRow>,
    after: Seq<UserRow>,
    i: int,
    t: Option<Seq<char>>,
) -> bool {
    &&& 0 <= i < before.len()
    &&& after.len() == before.len()
    &&& forall|j: int| 0 <= j < before.len() && j != i ==> after[j] == before[j]
    &&& after[i].id == before[i].id
    &&& after[i].username == before[i].username
    &&& after[i].password == before[i].password
    &&& token_of(after[i]) == t
}

/// Why a session with token `t` is refused, if it is.
pub open spec fn session_error(rows: Seq<UserRow>, t: Seq<char>, signature_valid: bool) -> Option<
    Status,
> {
    if !signature_valid {
        Some(Status::BadRequest)
    } else if !resolves(rows, t) {
        Some(Status::NotFound)
    } else {
        None
    }
}

/// The outcome of logging in account `i` with a password check result
/// `verdict` and a freshly issued `token`.
pub open spec fn login_effect(
    before: Seq<UserRow>,
    after: Seq<UserRow>,
    i: int,
    verdict: Option<bool>,
    token: Seq<char>,
    r: Result<ResponseUser, Status>,
) -> bool {
    if verdict != Some(true) {
        r == Err::<ResponseUser, Status>(Status::Unauthorized) && after == before
    } else if resolves(before, token) {
        r == Err::<ResponseUser, Status>(Status::InternalError) && after == before
    } else {
        &&& r is Ok
        &&& r->Ok_0.id == before[i].id
        &&& r->Ok_0.username == before[i].username
        &&& r->Ok_0.token@ == token
        &&& token_set(before, after, i, Some(token))
    }
}

fn copy_token(t: &Option<String>) -> (r: Option<String>)
    ensures
        r == *t,
{
    match t {
        Some(s) => Some(s.clone()),
        None => None,
    }
}

impl UserRow {
    pub fn duplicate(&self) -> (r: UserRow)
        ensures
            r == *self,
    {
        UserRow {
            id: self.id,
            username: self.username.clone(),
            password: self.password.clone(),
            token: copy_token(&self.token),
        }
    }
}

/// The persisted accounts.
pub struct UserTable {
    rows: Vec<UserRow>,
    next_id: i32,
}

impl View for UserTable {
    type V = Seq<UserRow>;

    closed spec fn view(&self) -> Seq<UserRow> {
        self.rows@
    }
}

impl UserTable {
    /// The id the next created account receives.
    pub closed spec fn next_id(&self) -> int {
        self.next_id as int
    }

    pub open spec fn wf(&self) -> bool {
        &&& rows_wf(self@)
        &&& 1 <= self.next_id() <= i32::MAX
        &&& forall|i: int| 0 <= i < self@.len() ==> 1 <= #[trigger] self@[i].id < self.next_id()
    }

    pub fn new() -> (r: UserTable)
        ensures
            r.wf(),
            r@.len() == 0,
            r.next_id() == 1,
    {
        UserTable { rows: Vec::new(), next_id: 1 }
    }

    pub fn len(&self) -> (r: usize)
        ensures
            r == self@.len(),
    {
        self.rows.len()
    }

    /// The stored accounts, in creation order.
    pub fn rows(&self) -> (r: &Vec<UserRow>)
        ensures
            r@ == self@,
    {
        &self.rows
    }

    /// The account that currently holds `token`.
    pub fn find_by_token(&self, token: &String) -> (r: Option<usize>)
        ensures
            r is Some ==> r->0 < self@.len() && holds_token(self@[r->0 as int], token@),
            r is None ==> !resolves(self@, token@),
    {
        let mut i: usize = 0;
        while i < self.rows.len()
            invariant
                i <= self.rows@.len(),
                forall|j: int| 0 <= j < i ==> !holds_token(#[trigger] self.rows@[j], token@),
            decreases self.rows@.len() - i,
        {
            match &self.rows[i].token {
                Some(t) => {
                    if t.eq(token) {
                        return Some(i);
                    }
                },
                None => {},
            }
            i = i + 1;
        }
        None
    }

    /// The account named `username`.
    pub fn find_by_username(&self, username: &String) -> (r: Option<usize>)
        ensures
            r is Some ==> r->0 < self@.len() && self@[r->0 as int].username@ == username@,
            r is None ==> !has_username(self@, username@),
    {
        let mut i: usize = 0;
        while i < self.rows.len()
            invariant
                i <= self.rows@.len(),
                forall|j: int| 0 <= j < i ==> (#[trigger] self.rows@[j]).username@ != username@,
            decreases self.rows@.len() - i,
        {
            if self.rows[i].username.eq(username) {
                return Some(i);
            }
            i = i + 1;
        }
        None
    }

    /// The account with id `id`.
    pub fn find_by_id(&self, id: i32) -> (r: Option<usize>)
        ensures
            r is Some ==> r->0 < self@.len() && self@[r->0 as int].id == id,
            r is None ==> forall|j: int| 0 <= j < self@.len() ==> #[trigger] self@[j].id != id,
    {
        let mut i: usize = 0;
        while i < self.rows.len()
            invariant
                i <= self.rows@.len(),
                forall|j: int| 0 <= j < i ==> (#[trigger] self.rows@[j]).id != id,
            decreases self.rows@.len() - i,
        {
            if self.rows[i].id == id {
                return Some(i);
            }
            i = i + 1;
        }
        None
    }

    /// Resolves a session from a token whose signature check gave
    /// `signature_valid`: a bad signature is a bad request, a token that no
    /// account holds any longer is not found.
    pub fn authorize(&self, token: &String, signature_valid: bool) -> (r: Result<UserRow, Status>)
        requires
            self.wf(),
        ensures
            r is Err <==> session_error(self@, token@, signature_valid) is Some,
            r is Err ==> Some(r->Err_0) == session_error(self@, token@, signature_valid),
            r is Ok ==> self@.contains(r->Ok_0) && holds_token(r->Ok_0, token@),
    {
        if !signature_valid {
            return Err(Status::BadRequest);
        }
        match self.find_by_token(token) {
            None => Err(Status::NotFound),
            Some(i) => Ok(self.rows[i].duplicate()),
        }
    }
}


/// What `bcrypt::verify` gives for a password and a stored hash: `None` when
/// the hash cannot be read, else whether the password matches it.
pub uninterp spec fn bcrypt_verdict(password: Seq<char>, hash: Seq<char>) -> Option<bool>;

/// Relies on `bcrypt::hash`: hashes `password` at `cost` under a random salt;
/// `None` when the crate reports an error. The hash is `$2b$`, the two-digit
/// cost, `$`, then 22 characters of salt and 31 of hash; it records its cost
/// and salt, so `bcrypt::verify` accepts `password` against it.
#[verifier::external_body]
fn bcrypt_hash(password: &str, cost: u32) -> (r: Option<String>)
    ensures
        r is Some ==> bcrypt_verdict(password@, r->0@) == Some(true),
        r is Some ==> r->0@.len() == 60 && r->0@.subrange(0, 4) == "$2b$"@,
{
    bcrypt::hash(password, cost).ok()
}

/// Relies on `bcrypt::verify`: whether `password` matches `hash`, a function
/// of the two alone; `None` when the crate reports an error.
#[verifier::external_body]
fn bcrypt_check(password: &str, hash: &str) -> (r: Option<bool>)
    ensures
        r == bcrypt_verdict(password@, hash@),
{
    bcrypt::verify(password, hash).ok()
}

/// The bcrypt cost factor of stored password hashes.
pub const HASH_COST: u32 = 8;

/// Hashes a password for storage; a failure of the hasher is an internal error.
pub fn hash_password(password: &String) -> (r: Result<String, Status>)
    ensures
        r is Err ==> r == Err::<String, Status>(Status::InternalError),
        r is Ok ==> bcrypt_verdict(password@, r->Ok_0@) == Some(true),
        r is Ok ==> r->Ok_0@.len() == 60 && r->Ok_0@.subrange(0, 4) == "$2b$"@,
{
    match bcrypt_hash(password.as_str(), HASH_COST) {
        Some(h) => Ok(h),
        None => Err(Status::InternalError),
    }
}

impl UserTable {
    /// Stores a new account that is logged in with `token` at once. A taken
    /// username or token (the store's uniqueness constraints) or exhausted ids
    /// are internal errors.
    pub fn register(&mut self, username: String, password_hash: String, token: String) -> (r: Result<
        ResponseUser,
        Status,
    >)
        requires
            old(self).wf(),
        ensures
            final(self).wf(),
            (has_username(old(self)@, username@) || resolves(old(self)@, token@)
                || old(self).next_id() == i32::MAX) ==> r == Err::<ResponseUser, Status>(
                Status::InternalError,
            ) && final(self)@ == old(self)@ && final(self).next_id() == old(self).next_id(),
            !(has_username(old(self)@, username@) || resolves(old(self)@, token@)
                || old(self).next_id() == i32::MAX) ==> {
                &&& r is Ok
                &&& r->Ok_0.id == old(self).next_id()
                &&& r->Ok_0.username == username
                &&& r->Ok_0.token == token
                &&& final(self)@ == old(self)@.push(
                    (UserRow {
                        id: old(self).next_id() as i32,
                        username: username,
                        password: password_hash,
                        token: Some(token),
                    }),
                )
                &&& final(self).next_id() == old(self).next_id() + 1
            },
    {
        if self.find_by_username(&username).is_some() || self.find_by_token(&token).is_some()
            || self.next_id == i32::MAX {
            return Err(Status::InternalError);
        }
        let id = self.next_id;
        let row = UserRow {
            id: id,
            username: username.clone(),
            password: password_hash,
            token: Some(token.clone()),
        };
        proof {
            let old_rows = self.rows@;
            assert forall|j: int| 0 <= j < old_rows.len() implies #[trigger] old_rows[j].id
                != id && old_rows[j].username@ != username@ && !holds_token(
                old_rows[j],
                token@,
            ) by {}
        }
        self.rows.push(row);
        self.next_id = id + 1;
        Ok(ResponseUser { id: id, username: username, token: token })
    }

    /// Creates an account from client credentials and a freshly issued
    /// token: both credentials must be non-empty; the password is stored
    /// hashed, and the account starts logged in with `token`.
    pub fn create_user(&mut self, params: CreateUser, token: String) -> (r: Result<
        ResponseUser,
        Status,
    >)
        requires
            old(self).wf(),
        ensures
            final(self).wf(),
            (params.username@.len() == 0 || params.password@.len() == 0) ==> r == Err::<
                ResponseUser,
                Status,
            >(Status::BadRequest),
            (params.username@.len() == 0 || params.password@.len() == 0 || has_username(
                old(self)@,
                params.username@,
            ) || resolves(old(self)@, token@) || old(self).next_id() == i32::MAX) ==> r is Err,
            r is Err ==> final(self)@ == old(self)@,
            r is Err && params.username@.len() != 0 && params.password@.len() != 0 ==> r == Err::<
                ResponseUser,
                Status,
            >(Status::InternalError),
            r is Ok ==> {
                &&& r->Ok_0.id == old(self).next_id()
                &&& r->Ok_0.username == params.username
                &&& r->Ok_0.token == token
                &&& final(self)@.len() == old(self)@.len() + 1
                &&& final(self)@.subrange(0, old(self)@.len() as int) == old(self)@
                &&& final(self)@.last().id == old(self).next_id()
                &&& final(self)@.last().username == params.username
                &&& final(self)@.last().token == Some(token)
                &&& bcrypt_verdict(params.password@, final(self)@.last().password@) == Some(true)
                &&& final(self)@.last().password@.len() == 60
                &&& final(self)@.last().password@.subrange(0, 4) == "$2b$"@
                &&& final(self).next_id() == old(self).next_id() + 1
            },
            r is Err ==> final(self).next_id() == old(self).next_id(),
    {
        if params.username.as_str().is_empty() || params.password.as_str().is_empty() {
            return Err(Status::BadRequest);
        }
        let hash = hash_password(&params.password)?;
        let r = self.register(params.username, hash, token);
        proof {
            if r is Ok {
                assert(final(self)@.subrange(0, old(self)@.len() as int) =~= old(self)@);
            }
        }
        r
    }

    /// Completes a login of account `i` given the password check result
    /// `verdict` and a freshly issued `token`, which replaces any token the
    /// account held. A token that some account already holds is refused as
    /// an internal error.
    pub fn finish_login(&mut self, i: usize, verdict: Option<bool>, token: String) -> (r: Result<
        ResponseUser,
        Status,
    >)
        requires
            old(self).wf(),
            i < old(self)@.len(),
        ensures
            final(self).wf(),
            final(self).next_id() == old(self).next_id(),
            login_effect(old(self)@, final(self)@, i as int, verdict, token@, r),
    {
        if verdict != Some(true) {
            return Err(Status::Unauthorized);
        }
        if self.find_by_token(&token).is_some() {
            return Err(Status::InternalError);
        }
        let row = UserRow {
            id: self.rows[i].id,
            username: self.rows[i].username.clone(),
            password: self.rows[i].password.clone(),
            token: Some(token.clone()),
        };
        let resp = ResponseUser { id: row.id, username: row.username.clone(), token: token };
        self.rows.set(i, row);
        proof {
            assert(token_set(old(self)@, self@, i as int, Some(resp.token@)));
            assert(rows_wf(self@)) by {
                assert forall|a: int, b: int|
                    0 <= a < self@.len() && 0 <= b < self@.len() && a != b implies {
                    &&& (#[trigger] self@[a]).id != (#[trigger] self@[b]).id
                    &&& self@[a].username@ != self@[b].username@
                    &&& (self@[a].token is Some ==> token_of(self@[a]) != token_of(self@[b]))
                } by {
                    assert(old(self)@[a].id != old(self)@[b].id);
                    if a == i {
                        assert(!holds_token(old(self)@[b], resp.token@));
                    }
                    if b == i {
                        assert(!holds_token(old(self)@[a], resp.token@));
                    }
                }
            }
        }
        Ok(resp)
    }

    /// The account that client credentials name, checked before any token is
    /// issued: an unknown username is not found, a wrong password (or an
    /// unreadable stored hash) is unauthorized.
    pub fn check_credentials(&self, params: &CreateUser) -> (r: Result<usize, Status>)
        requires
            self.wf(),
        ensures
            !has_username(self@, params.username@) ==> r == Err::<usize, Status>(Status::NotFound),
            forall|i: int|
                0 <= i < self@.len() && #[trigger] self@[i].username@ == params.username@ ==> if
                bcrypt_verdict(params.password@, self@[i].password@) == Some(true) {
                    r == Ok::<usize, Status>(i as usize)
                } else {
                    r == Err::<usize, Status>(Status::Unauthorized)
                },
    {
        match self.find_by_username(&params.username) {
            None => Err(Status::NotFound),
            Some(k) => {
                proof {
                    assert forall|i: int|
                        0 <= i < self@.len() && #[trigger] self@[i].username@
                            == params.username@ implies i == k by {
                        if i != k {
                            assert(self@[i].username@ != self@[k as int].username@);
                        }
                    }
                }
                let verdict = bcrypt_check(params.password.as_str(), self.rows[k].password.as_str());
                if verdict == Some(true) {
                    Ok(k)
                } else {
                    Err(Status::Unauthorized)
                }
            },
        }
    }

    /// Logs in with client credentials and a freshly issued `token`: an
    /// unknown username is not found, a wrong password (or an unreadable
    /// stored hash) is unauthorized.
    pub fn login(&mut self, params: CreateUser, token: String) -> (r: Result<ResponseUser, Status>)
        requires
            old(self).wf(),
        ensures
            final(self).wf(),
            !has_username(old(self)@, params.username@) ==> r == Err::<ResponseUser, Status>(
                Status::NotFound,
            ) && final(self)@ == old(self)@,
            forall|i: int|
                0 <= i < old(self)@.len() && #[trigger] old(self)@[i].username@
                    == params.username@ ==> login_effect(
                    old(self)@,
                    final(self)@,
                    i,
                    bcrypt_verdict(params.password@, old(self)@[i].password@),
                    token@,
                    r,
                ),
    {
        match self.find_by_username(&params.username) {
            None => Err(Status::NotFound),
            Some(i) => {
                let verdict = bcrypt_check(params.password.as_str(), self.rows[i].password.as_str());
                self.finish_login(i, verdict, token)
            },
        }
    }

    /// Ends the session of account `id`: its token is cleared, so no copy of
    /// it names a session any longer.
    pub fn logout(&mut self, id: i32) -> (r: Result<(), Status>)
        requires
            old(self).wf(),
        ensures
            final(self).wf(),
            final(self).next_id() == old(self).next_id(),
            (forall|j: int| 0 <= j < old(self)@.len() ==> #[trigger] old(self)@[j].id != id) ==> r
                == Err::<(), Status>(Status::NotFound) && final(self)@ == old(self)@,
            forall|i: int|
                0 <= i < old(self)@.len() && #[trigger] old(self)@[i].id == id ==> r == Ok::<
                    (),
                    Status,
                >(()) && token_set(old(self)@, final(self)@, i, None),
    {
        match self.find_by_id(id) {
            None => Err(Status::NotFound),
            Some(i) => {
                let row = UserRow {
                    id: self.rows[i].id,
                    username: self.rows[i].username.clone(),
                    password: self.rows[i].password.clone(),
                    token: None,
                };
                self.rows.set(i, row);
                proof {
                    assert(rows_wf(self@)) by {
                        assert forall|a: int, b: int|
                            0 <= a < self@.len() && 0 <= b < self@.len() && a != b implies {
                            &&& (#[trigger] self@[a]).id != (#[trigger] self@[b]).id
                            &&& self@[a].username@ != self@[b].username@
                            &&& (self@[a].token is Some ==> token_of(self@[a]) != token_of(
                                self@[b],
                            ))
                        } by {
                            assert(old(self)@[a].id != old(self)@[b].id);
                        }
                    }
                    assert forall|k: int|
                        0 <= k < old(self)@.len() && #[trigger] old(self)@[k].id == id implies k
                        == i by {
                        if k != i {
                            assert(old(self)@[k].id != old(self)@[i as int].id);
                        }
                    }
                }
                Ok(())
            },
        }
    }
}

/// After a successful login of account `i` with a fresh token, every token
/// that account held before no longer resolves a session.
pub proof fn lemma_login_revokes_previous_token(
    before: Seq<UserRow>,
    after: Seq<UserRow>,
    i: int,
    verdict: Option<bool>,
    token: Seq<char>,
    r: Result<ResponseUser, Status>,
    previous: Seq<char>,
)
    requires
        rows_wf(before),
        0 <= i < before.len(),
        login_effect(before, after, i, verdict, token, r),
        r is Ok,
        holds_token(before[i], previous),
    ensures
        !resolves(after, previous),
{
    assert(previous != token);
    assert forall|j: int| 0 <= j < after.len() implies !#[trigger] holds_token(after[j], previous) by {
        if j != i {
            assert(token_of(before[i]) != token_of(before[j]));
        }
    }
}

/// A token whose signature checks out but that no account holds any longer
/// is refused as not found, never as unauthorized.
pub proof fn lemma_unknown_token_not_found(rows: Seq<UserRow>, t: Seq<char>)
    requires
        !resolves(rows, t),
    ensures
        session_error(rows, t, true) == Some(Status::NotFound),
        session_error(rows, t, true) != Some(Status::Unauthorized),
{
}

/// After logout, the token the account held no longer resolves a session.
pub proof fn lemma_logout_revokes_token(
    before: Seq<UserRow>,
    after: Seq<UserRow>,
    i: int,
    previous: Seq<char>,
)
    requires
        rows_wf(before),
        token_set(before, after, i, None),
        holds_token(before[i], previous),
    ensures
        !resolves(after, previous),
{
    assert forall|j: int| 0 <= j < after.len() implies !#[trigger] holds_token(after[j], previous) by {
        if j != i {
            assert(token_of(before[i]) != token_of(before[j]));
        }
    }
}

} // verus!
