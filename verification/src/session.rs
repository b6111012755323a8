//! Administrator sessions, their cookies, and the secrets of relay clients.

use crate::find::{find, lemma_find, lemma_find_push, lemma_found};
use crate::text::{
    begins_with, chars_of, first_index, index_of, joined, lemma_first_index, same_bytes, same_text,
    string_between, trim, trimmed, white_space, without_prefix,
};
use vstd::prelude::*;
use vstd::string::*;

verus! {

/// The name of the session cookie.
pub const SESSION_COOKIE: &'static str = "local_api_relay_admin";

/// Seconds that a session lasts.
pub const SESSION_SECONDS: i64 = 28_800;

/// What a session may do.
#[derive(Debug, Clone, Copy, PartialEq, Eq, Structural)]
pub enum SessionKind {
    /// Only set the first password.
    Bootstrap,
    /// Administer the relay.
    Active,
}

/// A session.
#[derive(Debug, Clone, Copy, PartialEq, Eq, Structural)]
pub struct Session {
    pub kind: SessionKind,
}

/// The persisted name of a kind.
pub open spec fn kind_name(kind: SessionKind) -> Seq<char> {
    match kind {
        SessionKind::Bootstrap => "bootstrap"@,
        SessionKind::Active => "active"@,
    }
}

/// The kind that a persisted name stands for, if it is one.
pub open spec fn kind_named(name: Seq<char>) -> Option<SessionKind> {
    if name == "bootstrap"@ {
        Some(SessionKind::Bootstrap)
    } else if name == "active"@ {
        Some(SessionKind::Active)
    } else {
        None
    }
}

impl SessionKind {
    /// The persisted name.
    pub fn as_str(self) -> (r: &'static str)
        ensures
            r@ == kind_name(self),
    {
        match self {
            SessionKind::Bootstrap => "bootstrap",
            SessionKind::Active => "active",
        }
    }

    /// The kind that a persisted name stands for, if it is one.
    pub fn from_persisted(name: &str) -> (r: Option<Self>)
        ensures
            r == kind_named(name@),
    {
        if same_text(name, "bootstrap") {
            Some(SessionKind::Bootstrap)
        } else if same_text(name, "active") {
            Some(SessionKind::Active)
        } else {
            None
        }
    }
}

/// A session that was begun: the hash of its token, what it may do, and when it
/// ends.
#[derive(Debug)]
pub struct SessionRow {
    pub token_hash: Vec<u8>,
    pub kind: SessionKind,
    pub expires_at: i64,
    pub created_at: i64,
}

/// The administrator: the hash of the password, and whether it must be changed.
#[derive(Debug)]
pub struct Credentials {
    pub password_hash: String,
    pub must_change: bool,
    pub created_at: i64,
}

/// The administrator and the sessions.
#[derive(Debug)]
pub struct Administration {
    pub credentials: Option<Credentials>,
    pub sessions: Vec<SessionRow>,
}

/// Whether a session has the hash of a token and has not ended.
pub open spec fn live_session(token_hash: Seq<u8>, now: int) -> spec_fn(SessionRow) -> bool {
    |row: SessionRow| row.token_hash@ == token_hash && row.expires_at > now
}

/// The session of a token at a time.
pub open spec fn session_of(sessions: Seq<SessionRow>, token_hash: Seq<u8>, now: int) -> Option<
    SessionKind,
> {
    match find(sessions, live_session(token_hash, now)) {
        Some(i) => Some(sessions[i].kind),
        None => None,
    }
}

/// The sessions that have not ended.
pub open spec fn unexpired(sessions: Seq<SessionRow>, now: int) -> Seq<SessionRow>
    decreases sessions.len(),
{
    if sessions.len() == 0 {
        sessions
    } else {
        let before = unexpired(sessions.drop_last(), now);
        if sessions.last().expires_at <= now {
            before
        } else {
            before.push(sessions.last())
        }
    }
}

/// The sessions of other tokens.
pub open spec fn other_sessions(sessions: Seq<SessionRow>, token_hash: Seq<u8>) -> Seq<SessionRow>
    decreases sessions.len(),
{
    if sessions.len() == 0 {
        sessions
    } else {
        let before = other_sessions(sessions.drop_last(), token_hash);
        if sessions.last().token_hash@ == token_hash {
            before
        } else {
            before.push(sessions.last())
        }
    }
}

/// The session kind that a login begins: one that must change the password
/// first where it must be changed.
pub open spec fn kind_of_login(must_change: bool) -> SessionKind {
    if must_change {
        SessionKind::Bootstrap
    } else {
        SessionKind::Active
    }
}

/// The session kind that a login begins.
pub fn login_kind(must_change: bool) -> (r: SessionKind)
    ensures
        r == kind_of_login(must_change),
{
    if must_change {
        SessionKind::Bootstrap
    } else {
        SessionKind::Active
    }
}

/// The session kind that a login begins after the password was checked, if it
/// begins one; `verified` says how the check went.
pub open spec fn login_of(administration: Administration, verified: bool) -> Option<SessionKind> {
    match administration.credentials {
        Some(credentials) => if verified {
            Some(kind_of_login(credentials.must_change))
        } else {
            None
        },
        None => None,
    }
}

/// Whether `after` is `before` with a new password: every session has ended,
/// and one that may administer has begun.
pub open spec fn password_changed(
    before: Administration,
    after: Administration,
    password_hash: String,
    token_hash: Vec<u8>,
    expires_at: i64,
    now: i64,
) -> bool {
    &&& after.sessions@ == seq![
        SessionRow { token_hash, kind: SessionKind::Active, expires_at, created_at: now },
    ]
    &&& after.credentials == match before.credentials {
        Some(was) => Some(
            Credentials { password_hash, must_change: false, created_at: was.created_at },
        ),
        None => None,
    }
}

/// What comes of setting the first credential: it must be changed; one that was
/// set stays.
pub open spec fn administrator_set(
    before: Administration,
    after: Administration,
    r: Result<(), &'static str>,
    password_hash: String,
    now: i64,
) -> bool {
    &&& r is Ok <==> before.credentials is None
    &&& r matches Err(message) ==> message@ == "administrator has already been initialized"@
        && after == before
    &&& r is Ok ==> after.credentials == Some(
        Credentials { password_hash, must_change: true, created_at: now },
    ) && after.sessions == before.sessions
}

/// What comes of a login.
pub open spec fn session_begun(
    before: Administration,
    after: Administration,
    r: Option<SessionKind>,
    verified: bool,
    token_hash: Vec<u8>,
    expires_at: i64,
    now: i64,
) -> bool {
    &&& r == login_of(before, verified)
    &&& r is None ==> after == before
    &&& r matches Some(kind) ==> {
        &&& after.credentials == before.credentials
        &&& after.sessions@ == before.sessions@.push(
            SessionRow { token_hash, kind, expires_at, created_at: now },
        )
    }
}

/// The session of a token at a time.
pub open spec fn seen_session(sessions: Seq<SessionRow>, token_hash: Seq<u8>, now: int) -> Option<
    Session,
> {
    match session_of(sessions, token_hash, now) {
        Some(kind) => Some(Session { kind }),
        None => None,
    }
}

impl Administration {
    /// Sessions begin only where there is an administrator.
    pub open spec fn wf(&self) -> bool {
        self.sessions@.len() > 0 ==> self.credentials is Some
    }

    /// Sets the first credential, unless one was set.
    pub fn initialize_administrator(&mut self, password_hash: String, now: i64) -> (r: Result<
        (),
        &'static str,
    >)
        ensures
            administrator_set(*old(self), *final(self), r, password_hash, now),
            old(self).wf() ==> final(self).wf(),
    {
        if self.credentials.is_some() {
            return Err("administrator has already been initialized");
        }
        self.credentials = Some(Credentials { password_hash, must_change: true, created_at: now });
        Ok(())
    }

    /// Begins a session after the password was checked; `verified` says how
    /// that went. None begins without an administrator.
    pub fn login(&mut self, verified: bool, token_hash: Vec<u8>, expires_at: i64, now: i64) -> (r:
        Option<SessionKind>)
        ensures
            session_begun(*old(self), *final(self), r, verified, token_hash, expires_at, now),
            old(self).wf() ==> final(self).wf(),
    {
        let kind = match &self.credentials {
            Some(credentials) => if verified {
                login_kind(credentials.must_change)
            } else {
                return None;
            },
            None => {
                return None;
            },
        };
        self.sessions.push(SessionRow { token_hash, kind, expires_at, created_at: now });
        Some(kind)
    }

    /// The session of a token; sessions that have ended are forgotten.
    pub fn session(&mut self, token_hash: &[u8], now: i64) -> (r: Option<Session>)
        ensures
            final(self).credentials == old(self).credentials,
            final(self).sessions@ == unexpired(old(self).sessions@, now as int),
            r == seen_session(old(self).sessions@, token_hash@, now as int),
            old(self).wf() ==> final(self).wf(),
    {
        let ghost all = self.sessions@;
        let mut kept: Vec<SessionRow> = Vec::new();
        let mut taken: Vec<SessionRow> = Vec::new();
        std::mem::swap(&mut taken, &mut self.sessions);
        for row in it: taken
            invariant
                it.seq() == all,
                kept@ == unexpired(all.take(it.index() as int), now as int),
        {
            proof {
                let i = it.index() as int;
                assert(all.take(i + 1).drop_last() =~= all.take(i));
                assert(all.take(i + 1).last() == row);
            }
            if row.expires_at > now {
                kept.push(row);
            }
        }
        proof {
            assert(all.take(all.len() as int) =~= all);
            lemma_unexpired(all, token_hash@, now as int);
        }
        self.sessions = kept;
        match self.live_kind(token_hash, now) {
            Some(kind) => Some(Session { kind }),
            None => None,
        }
    }

    /// What the session of a token may do, if it has not ended.
    fn live_kind(&self, token_hash: &[u8], now: i64) -> (r: Option<SessionKind>)
        ensures
            r == session_of(self.sessions@, token_hash@, now as int),
    {
        let ghost wanted = live_session(token_hash@, now as int);
        let mut i: usize = 0;
        while i < self.sessions.len()
            invariant
                i <= self.sessions@.len(),
                wanted == live_session(token_hash@, now as int),
                forall|k: int| 0 <= k < i ==> !wanted(#[trigger] self.sessions@[k]),
            decreases self.sessions@.len() - i,
        {
            if self.sessions[i].expires_at > now && same_bytes(
                self.sessions[i].token_hash.as_slice(),
                token_hash,
            ) {
                proof {
                    lemma_found(self.sessions@, wanted, i as int);
                }
                return Some(self.sessions[i].kind);
            }
            i = i + 1;
        }
        proof {
            lemma_found(self.sessions@, wanted, i as int);
        }
        None
    }

    /// Sets a new password from a session that must do so: every session ends,
    /// and one that may administer begins.
    pub fn change_password(
        &mut self,
        bootstrap_hash: &[u8],
        password_hash: String,
        token_hash: Vec<u8>,
        expires_at: i64,
        now: i64,
    ) -> (r: Result<(), &'static str>)
        ensures
            r is Ok <==> session_of(old(self).sessions@, bootstrap_hash@, now as int) == Some(
                SessionKind::Bootstrap,
            ),
            r matches Err(message) ==> message@
                == "administrator password change requires the bootstrap session"@ && *final(self)
                == *old(self),
            r is Ok ==> password_changed(
                *old(self),
                *final(self),
                password_hash,
                token_hash,
                expires_at,
                now,
            ),
            old(self).wf() ==> final(self).wf(),
    {
        proof {
            lemma_find(self.sessions@, live_session(bootstrap_hash@, now as int));
        }
        let bootstrap = match self.live_kind(bootstrap_hash, now) {
            Some(kind) => kind == SessionKind::Bootstrap,
            None => false,
        };
        if !bootstrap {
            return Err("administrator password change requires the bootstrap session");
        }
        let created_at: Option<i64> = match &self.credentials {
            Some(credentials) => Some(credentials.created_at),
            None => None,
        };
        self.credentials = match created_at {
            Some(created_at) => Some(Credentials { password_hash, must_change: false, created_at }),
            None => None,
        };
        let mut sessions: Vec<SessionRow> = Vec::new();
        sessions.push(
            SessionRow { token_hash, kind: SessionKind::Active, expires_at, created_at: now },
        );
        self.sessions = sessions;
        proof {
            assert(self.sessions@ =~= seq![self.sessions@[0]]);
        }
        Ok(())
    }

    /// Ends the session of a token.
    pub fn logout(&mut self, token_hash: &[u8])
        ensures
            final(self).credentials == old(self).credentials,
            final(self).sessions@ == other_sessions(old(self).sessions@, token_hash@),
            old(self).wf() ==> final(self).wf(),
    {
        let ghost all = self.sessions@;
        let mut kept: Vec<SessionRow> = Vec::new();
        let mut taken: Vec<SessionRow> = Vec::new();
        std::mem::swap(&mut taken, &mut self.sessions);
        for row in it: taken
            invariant
                it.seq() == all,
                kept@ == other_sessions(all.take(it.index() as int), token_hash@),
        {
            proof {
                let i = it.index() as int;
                assert(all.take(i + 1).drop_last() =~= all.take(i));
                assert(all.take(i + 1).last() == row);
            }
            if !same_bytes(row.token_hash.as_slice(), token_hash) {
                kept.push(row);
            }
        }
        proof {
            assert(all.take(all.len() as int) =~= all);
        }
        self.sessions = kept;
    }
}

/// Forgetting the sessions that have ended changes no answer.
proof fn lemma_unexpired(sessions: Seq<SessionRow>, token_hash: Seq<u8>, now: int)
    ensures
        session_of(unexpired(sessions, now), token_hash, now) == session_of(
            sessions,
            token_hash,
            now,
        ),
    decreases sessions.len(),
{
    if sessions.len() > 0 {
        let (front, last) = (sessions.drop_last(), sessions.last());
        let before = unexpired(front, now);
        let wanted = live_session(token_hash, now);
        lemma_unexpired(front, token_hash, now);
        assert(front.push(last) =~= sessions);
        lemma_find_push(front, last, wanted);
        lemma_find(front, wanted);
        lemma_find_push(before, last, wanted);
        lemma_find(before, wanted);
    }
}

/// Once an administrator has set a new password from a session that had to,
/// the session that was begun may administer until it ends, no other token has
/// a session, and a login with the new password begins one that may administer.
pub proof fn law_a_new_password_lets_in(
    before: Administration,
    after: Administration,
    bootstrap_hash: Seq<u8>,
    password_hash: String,
    token_hash: Vec<u8>,
    other_hash: Seq<u8>,
    expires_at: i64,
    now: i64,
    later: int,
)
    requires
        before.wf(),
        session_of(before.sessions@, bootstrap_hash, now as int) == Some(SessionKind::Bootstrap),
        password_changed(before, after, password_hash, token_hash, expires_at, now),
    ensures
        after.wf(),
        later < expires_at ==> session_of(after.sessions@, token_hash@, later) == Some(
            SessionKind::Active,
        ),
        other_hash != token_hash@ ==> session_of(after.sessions@, other_hash, later) is None,
        after.credentials matches Some(credentials) && credentials.password_hash == password_hash,
        login_of(after, true) == Some(SessionKind::Active),
        login_of(after, false) is None,
{
    lemma_find(before.sessions@, live_session(bootstrap_hash, now as int));
    if later < expires_at {
        lemma_found(after.sessions@, live_session(token_hash@, later), 0);
    }
    if other_hash != token_hash@ {
        lemma_found(after.sessions@, live_session(other_hash, later), 1);
    }
}

/// A session that was ended by its token, or whose time has come, is none.
pub proof fn law_ended_sessions_are_none(sessions: Seq<SessionRow>, token_hash: Seq<u8>, now: int)
    ensures
        session_of(other_sessions(sessions, token_hash), token_hash, now) is None,
        (forall|i: int|
            0 <= i < sessions.len() && (#[trigger] sessions[i]).token_hash@ == token_hash
                ==> sessions[i].expires_at <= now) ==> session_of(sessions, token_hash, now)
            is None,
{
    let others = other_sessions(sessions, token_hash);
    lemma_others(sessions, token_hash);
    lemma_found(others, live_session(token_hash, now), others.len() as int);
    if forall|i: int|
        0 <= i < sessions.len() && (#[trigger] sessions[i]).token_hash@ == token_hash
            ==> sessions[i].expires_at <= now {
        lemma_found(sessions, live_session(token_hash, now), sessions.len() as int);
    }
}

proof fn lemma_others(sessions: Seq<SessionRow>, token_hash: Seq<u8>)
    ensures
        forall|i: int|
            0 <= i < other_sessions(sessions, token_hash).len() ==> (#[trigger] other_sessions(
                sessions,
                token_hash,
            )[i]).token_hash@ != token_hash,
    decreases sessions.len(),
{
    if sessions.len() > 0 {
        lemma_others(sessions.drop_last(), token_hash);
        let before = other_sessions(sessions.drop_last(), token_hash);
        let now = other_sessions(sessions, token_hash);
        assert forall|i: int| 0 <= i < now.len() implies (#[trigger] now[i]).token_hash@
            != token_hash by {
            if i < before.len() {
                assert(before[i] == now[i]);
            }
        }
    }
}

/// When a session that begins at a time ends.
pub open spec fn expiry_of(now: int) -> int {
    now + 28_800
}

/// When a session that begins now ends.
pub fn session_expiry(now: i64) -> (r: i64)
    requires
        now + 28_800 <= i64::MAX,
    ensures
        r == expiry_of(now as int),
{
    now + SESSION_SECONDS
}

/// The part of a cookie header from a place up to the next semicolon.
pub open spec fn cookie_value(part: Seq<char>) -> Option<Seq<char>> {
    let text = trimmed(part);
    match first_index(text, '=') {
        Some(i) => if text.take(i) == "local_api_relay_admin"@ && text.skip(i + 1).len() > 0 {
            Some(text.skip(i + 1))
        } else {
            None
        },
        None => None,
    }
}

/// The token that a cookie header carries: the value of the first session
/// cookie that has one.
pub open spec fn cookie_token(header: Seq<char>) -> Option<Seq<char>>
    decreases header.len(),
{
    match first_index(header, ';') {
        None => cookie_value(header),
        Some(i) => match cookie_value(header.take(i)) {
            Some(token) => Some(token),
            None => if 0 <= i < header.len() {
                cookie_token(header.skip(i + 1))
            } else {
                None
            },
        },
    }
}

/// The token in one part of a cookie header.
fn read_cookie_part(part: &str) -> (r: Option<String>)
    ensures
        r is Some <==> cookie_value(part@) is Some,
        r matches Some(token) ==> cookie_value(part@) == Some(token@),
{
    let text = trim(part);
    let chars = chars_of(text.as_str());
    let total: usize = chars.len();
    match index_of(chars.as_slice(), '=') {
        Some(i) => {
            let name = string_between(chars.as_slice(), 0, i);
            let value = string_between(chars.as_slice(), i + 1, total);
            proof {
                assert(text@.subrange(0, i as int) =~= text@.take(i as int));
                assert(text@.subrange(i + 1, total as int) =~= text@.skip(i + 1));
            }
            if same_text(name.as_str(), SESSION_COOKIE) && !value.as_str().is_empty() {
                Some(value)
            } else {
                None
            }
        },
        None => None,
    }
}

/// The token that a cookie header carries.
pub fn read_cookie(header: &str) -> (r: Option<String>)
    ensures
        r is Some <==> cookie_token(header@) is Some,
        r matches Some(token) ==> cookie_token(header@) == Some(token@),
{
    let chars = chars_of(header);
    let total: usize = chars.len();
    let mut from: usize = 0;
    proof {
        assert(header@.skip(0) =~= header@);
    }
    loop
        invariant
            chars@ == header@,
            from <= total == chars@.len(),
            cookie_token(header@) == cookie_token(header@.skip(from as int)),
        decreases total - from,
    {
        let rest = vstd::slice::slice_subrange(chars.as_slice(), from, total);
        let ghost rest_text = header@.skip(from as int);
        proof {
            assert(rest@ =~= rest_text);
        }
        match index_of(rest, ';') {
            None => {
                let part = string_between(rest, 0, rest.len());
                proof {
                    assert(rest@.subrange(0, rest@.len() as int) =~= rest_text);
                }
                return read_cookie_part(part.as_str());
            },
            Some(i) => {
                let part = string_between(rest, 0, i);
                proof {
                    assert(rest@.subrange(0, i as int) =~= rest_text.take(i as int));
                    assert(rest_text.skip(i + 1) =~= header@.skip(from + i + 1));
                }
                let found = read_cookie_part(part.as_str());
                if found.is_some() {
                    return found;
                }
                from = from + i + 1;
            },
        }
    }
}

/// The header that sets the session cookie.
pub open spec fn cookie_for(token: Seq<char>) -> Seq<char> {
    "local_api_relay_admin="@ + token + "; HttpOnly; SameSite=Strict; Path=/; Max-Age=28800"@
}

/// The secret in an authorization header, if it is a bearer token.
pub open spec fn bearer_of(authorization: Seq<char>) -> Option<Seq<char>> {
    if begins_with(authorization, "Bearer "@) && authorization.len() > "Bearer "@.len() {
        Some(authorization.skip("Bearer "@.len() as int))
    } else {
        None
    }
}

/// The header that sets the session cookie.
pub fn session_cookie(token: &str) -> (r: String)
    ensures
        r@ == cookie_for(token@),
{
    joined(
        joined("local_api_relay_admin=", token).as_str(),
        "; HttpOnly; SameSite=Strict; Path=/; Max-Age=28800",
    )
}

/// The header that takes the session cookie back.
pub open spec fn cookie_taken_back() -> Seq<char> {
    "local_api_relay_admin=; HttpOnly; SameSite=Strict; Path=/; Max-Age=0"@
}

/// The header that takes the session cookie back.
pub fn expired_cookie() -> (r: &'static str)
    ensures
        r@ == cookie_taken_back(),
{
    "local_api_relay_admin=; HttpOnly; SameSite=Strict; Path=/; Max-Age=0"
}

/// The secret in an authorization header, if it is a bearer token.
pub fn bearer_secret(authorization: &str) -> (r: Option<String>)
    ensures
        r is Some <==> bearer_of(authorization@) is Some,
        r matches Some(secret) ==> bearer_of(authorization@) == Some(secret@),
{
    match without_prefix(authorization, "Bearer ") {
        Some(secret) => if secret.as_str().is_empty() {
            None
        } else {
            Some(secret)
        },
        None => None,
    }
}

/// A session cookie that comes back carries the token it was set with.
pub proof fn law_cookies_carry_their_token(token: Seq<char>)
    requires
        token.len() > 0,
        forall|i: int| 0 <= i < token.len() ==> #[trigger] token[i] != ';',
        !white_space(token.last()),
    ensures
        cookie_token("local_api_relay_admin="@ + token) == Some(token),
{
    reveal_strlit("local_api_relay_admin=");
    reveal_strlit("local_api_relay_admin");
    let head = "local_api_relay_admin="@;
    let name = "local_api_relay_admin"@;
    let header = head + token;
    let n = name.len() as int;
    assert(head =~= name.push('='));
    assert forall|k: int| 0 <= k < header.len() implies #[trigger] header[k] != ';' by {
        if k >= head.len() {
            assert(header[k] == token[k - head.len()]);
        } else {
            assert(head[k] != ';');
        }
    }
    lemma_first_index(header, ';', header.len() as int);
    assert(header[0] == 'l');
    assert(header.last() == token.last());
    crate::decimal::lemma_nothing_to_trim(header);
    assert forall|k: int| 0 <= k < n implies #[trigger] header[k] != '=' by {
        assert(header[k] == name[k]);
        assert(name[k] != '=');
    }
    assert(header[n] == '=');
    lemma_first_index(header, '=', n);
    assert(header.take(n) =~= name);
    assert(header.skip(n + 1) =~= token);
}

/// A kind that was persisted is read back; no other name is one.
pub proof fn law_kinds_are_read_back(kind: SessionKind, name: Seq<char>)
    ensures
        kind_named(kind_name(kind)) == Some(kind),
        kind_named(name) matches Some(read) ==> kind_name(read) == name,
        kind_named("active"@) == Some(SessionKind::Active),
        kind_named("bootstrap"@) == Some(SessionKind::Bootstrap),
{
    reveal_strlit("active");
    reveal_strlit("bootstrap");
    assert("active"@.len() == 6 && "bootstrap"@.len() == 9);
}

/// The first credential is set once, and must be changed; another try changes
/// nothing.
pub proof fn law_the_first_credential_must_be_changed(
    before: Administration,
    after: Administration,
    r: Result<(), &'static str>,
    password_hash: String,
    now: i64,
)
    requires
        administrator_set(before, after, r, password_hash, now),
    ensures
        before.credentials is Some ==> r is Err && after == before,
        before.credentials is None ==> r is Ok && after.sessions == before.sessions,
        before.credentials is None ==> login_of(after, true) == Some(SessionKind::Bootstrap),
        before.credentials is None ==> (after.credentials matches Some(set) && set.password_hash@
            == password_hash@ && set.must_change && set.created_at == now),
{
}

/// A login without the right password, or without an administrator, begins
/// nothing; a right one begins a session that lasts to its end under its token
/// and leaves the others.
pub proof fn law_logins_begin_sessions(
    before: Administration,
    after: Administration,
    r: Option<SessionKind>,
    verified: bool,
    token_hash: Vec<u8>,
    expires_at: i64,
    now: i64,
    other_hash: Seq<u8>,
    later: int,
)
    requires
        session_begun(before, after, r, verified, token_hash, expires_at, now),
    ensures
        !verified || before.credentials is None ==> r is None && after == before,
        verified && (before.credentials matches Some(set) && set.must_change) ==> r == Some(
            SessionKind::Bootstrap,
        ),
        verified && (before.credentials matches Some(set) && !set.must_change) ==> r == Some(
            SessionKind::Active,
        ),
        r is Some && session_of(before.sessions@, token_hash@, later) is None && later < expires_at
            ==> session_of(after.sessions@, token_hash@, later) == r,
        other_hash != token_hash@ ==> session_of(after.sessions@, other_hash, later) == session_of(
            before.sessions@,
            other_hash,
            later,
        ),
        after.credentials == before.credentials,
{
    if r is Some {
        let row = SessionRow { token_hash, kind: r->0, expires_at, created_at: now };
        lemma_find_push(before.sessions@, row, live_session(token_hash@, later));
        lemma_find(before.sessions@, live_session(token_hash@, later));
        lemma_find_push(before.sessions@, row, live_session(other_hash, later));
        lemma_find(before.sessions@, live_session(other_hash, later));
    }
}

/// A token has a session while one of its hash has not ended, and that session
/// is of the kind it was begun as.
pub proof fn law_sessions_last_to_their_end(
    sessions: Seq<SessionRow>,
    token_hash: Seq<u8>,
    now: int,
    i: int,
)
    requires
        0 <= i < sessions.len(),
        sessions[i].token_hash@ == token_hash,
        forall|k: int| 0 <= k < i ==> (#[trigger] sessions[k]).token_hash@ != token_hash,
        forall|k: int| i < k < sessions.len() ==> (#[trigger] sessions[k]).token_hash@ != token_hash,
    ensures
        now < sessions[i].expires_at ==> seen_session(sessions, token_hash, now) == Some(
            Session { kind: sessions[i].kind },
        ),
        now >= sessions[i].expires_at ==> seen_session(sessions, token_hash, now) is None,
{
    if now < sessions[i].expires_at {
        lemma_found(sessions, live_session(token_hash, now), i);
    } else {
        lemma_found(sessions, live_session(token_hash, now), sessions.len() as int);
    }
}

proof fn lemma_unexpired_rows(sessions: Seq<SessionRow>, now: int, row: SessionRow)
    ensures
        unexpired(sessions, now).contains(row) <==> sessions.contains(row) && row.expires_at > now,
    decreases sessions.len(),
{
    if sessions.len() > 0 {
        let front = sessions.drop_last();
        lemma_unexpired_rows(front, now, row);
        lemma_push_contains(front, sessions.last(), row);
        lemma_push_contains(unexpired(front, now), sessions.last(), row);
        assert(front.push(sessions.last()) =~= sessions);
    }
}

proof fn lemma_other_rows(sessions: Seq<SessionRow>, token_hash: Seq<u8>, row: SessionRow)
    ensures
        other_sessions(sessions, token_hash).contains(row) <==> sessions.contains(row)
            && row.token_hash@ != token_hash,
    decreases sessions.len(),
{
    if sessions.len() > 0 {
        let front = sessions.drop_last();
        lemma_other_rows(front, token_hash, row);
        lemma_push_contains(front, sessions.last(), row);
        lemma_push_contains(other_sessions(front, token_hash), sessions.last(), row);
        assert(front.push(sessions.last()) =~= sessions);
    }
}

proof fn lemma_push_contains(s: Seq<SessionRow>, x: SessionRow, row: SessionRow)
    ensures
        s.push(x).contains(row) <==> s.contains(row) || x == row,
{
    if s.contains(row) {
        let k = choose|k: int| 0 <= k < s.len() && s[k] == row;
        assert(s.push(x)[k] == row);
    }
    if x == row {
        assert(s.push(x)[s.len() as int] == row);
    }
    if s.push(x).contains(row) && x != row {
        let k = choose|k: int| 0 <= k < s.push(x).len() && s.push(x)[k] == row;
        assert(s[k] == row);
    }
}

/// Only sessions that have ended are forgotten, and a logout ends only the
/// sessions of its token.
pub proof fn law_other_sessions_stay(
    sessions: Seq<SessionRow>,
    token_hash: Seq<u8>,
    now: int,
    row: SessionRow,
)
    ensures
        unexpired(sessions, now).contains(row) <==> sessions.contains(row) && row.expires_at > now,
        other_sessions(sessions, token_hash).contains(row) <==> sessions.contains(row)
            && row.token_hash@ != token_hash,
{
    lemma_unexpired_rows(sessions, now, row);
    lemma_other_rows(sessions, token_hash, row);
}

/// A session lasts eight hours.
pub proof fn law_sessions_last_eight_hours(now: int)
    ensures
        expiry_of(now) - now == 8 * 60 * 60,
{
}

/// A cookie sets the token under the name it is read by, for the time a session
/// lasts, and only for requests of the same site.
pub proof fn law_cookies_are_set(token: Seq<char>)
    ensures
        cookie_for(token) == "local_api_relay_admin="@ + token
            + "; HttpOnly; SameSite=Strict; Path=/; Max-Age=28800"@,
{
}

/// A part of a cookie header carries the token where its name is that of the
/// session cookie and its value is not empty.
pub proof fn law_cookie_parts(name: Seq<char>, value: Seq<char>)
    requires
        trimmed(name + seq!['='] + value) == name + seq!['='] + value,
        !name.contains('='),
    ensures
        name == "local_api_relay_admin"@ && value.len() > 0 ==> cookie_value(
            name + seq!['='] + value,
        ) == Some(value),
        name != "local_api_relay_admin"@ || value.len() == 0 ==> cookie_value(
            name + seq!['='] + value,
        ) is None,
{
    let text = name + seq!['='] + value;
    let n = name.len() as int;
    assert forall|k: int| 0 <= k < n implies #[trigger] text[k] != '=' by {
        assert(name.contains(name[k]));
    }
    assert(text[n] == '=');
    lemma_first_index(text, '=', n);
    assert(text.take(n) =~= name);
    assert(text.skip(n + 1) =~= value);
}

/// Of several cookies the first session cookie with a value counts; other
/// cookies before it are passed over.
pub proof fn law_cookies_are_read_in_order(first: Seq<char>, rest: Seq<char>)
    requires
        !first.contains(';'),
    ensures
        cookie_token(first) == cookie_value(first),
        cookie_value(first) is Some ==> cookie_token(first + seq![';'] + rest) == cookie_value(
            first,
        ),
        cookie_value(first) is None ==> cookie_token(first + seq![';'] + rest) == cookie_token(
            rest,
        ),
{
    let header = first + seq![';'] + rest;
    let n = first.len() as int;
    assert forall|k: int| 0 <= k < n implies #[trigger] first[k] != ';' by {
        assert(first.contains(first[k]));
    }
    lemma_first_index(first, ';', n);
    assert forall|k: int| 0 <= k < n implies #[trigger] header[k] != ';' by {
        assert(header[k] == first[k]);
    }
    assert(header[n] == ';');
    lemma_first_index(header, ';', n);
    assert(header.take(n) =~= first);
    assert(header.skip(n + 1) =~= rest);
}

/// The secret of a client is what follows `Bearer ` in its authorization; an
/// empty one, and any other authorization, is none.
pub proof fn law_bearer_secrets_are_read(secret: Seq<char>, authorization: Seq<char>)
    ensures
        secret.len() > 0 ==> bearer_of("Bearer "@ + secret) == Some(secret),
        bearer_of("Bearer "@) is None,
        bearer_of(authorization) matches Some(read) ==> authorization == "Bearer "@ + read
            && read.len() > 0,
{
    let head = "Bearer "@;
    assert((head + secret).skip(head.len() as int) =~= secret);
    assert((head + secret).take(head.len() as int) =~= head);
    if bearer_of(authorization) is Some {
        assert(authorization =~= head + authorization.skip(head.len() as int));
    }
}

/// The cookie is taken back under the name and with the attributes that it was
/// set with: only the token is gone and the age is nothing.
pub proof fn law_cookies_are_taken_back()
    ensures
        cookie_taken_back() == "local_api_relay_admin="@
            + "; HttpOnly; SameSite=Strict; Path=/; Max-Age="@ + "0"@,
        cookie_for(Seq::empty()) == "local_api_relay_admin="@
            + "; HttpOnly; SameSite=Strict; Path=/; Max-Age="@ + "28800"@,
{
    reveal_strlit("local_api_relay_admin=");
    reveal_strlit("; HttpOnly; SameSite=Strict; Path=/; Max-Age=");
    reveal_strlit("0");
    reveal_strlit("28800");
    reveal_strlit("; HttpOnly; SameSite=Strict; Path=/; Max-Age=28800");
    reveal_strlit("local_api_relay_admin=; HttpOnly; SameSite=Strict; Path=/; Max-Age=0");
    assert(cookie_taken_back() =~= "local_api_relay_admin="@
        + "; HttpOnly; SameSite=Strict; Path=/; Max-Age="@ + "0"@);
    assert(cookie_for(Seq::empty()) =~= "local_api_relay_admin="@
        + "; HttpOnly; SameSite=Strict; Path=/; Max-Age="@ + "28800"@);
}

} // verus!
