use crate::protocol::{is_authentication, is_outcome, is_previous, opt_text, Request, Response};
use crate::sshclient::{RunOutput, RunResult, ShellProvider};
use crate::token::{decimal, draw_token, parse_token, parsed_token, token_text};
use std::collections::HashMap;
use vstd::prelude::*;

verus! {

broadcast use vstd::std_specs::hash::group_hash_axioms, vstd::string::group_string_axioms;

/// How many random tokens a login may try before it gives up.
pub const MAX_TOKEN_DRAWS: usize = 8;

/// Code of a login whose shell opened but found no free token; it lies
/// outside the codes a backend reports.
pub const NO_TOKEN_CODE: i32 = -1000;

/// A connection's hold on a registry entry: the token of its shell.
#[derive(Debug, Clone, Copy, PartialEq, Eq)]
pub struct Session {
    pub token: u64,
}

/// The registry of live shells, keyed by the tokens handed to clients.
pub struct Sessions<P: ShellProvider> {
    pub entries: HashMap<u64, P::Shell>,
    pub target: String,
    pub debug: bool,
    pub provider: P,
}

/// The first candidate that is not yet a key of `m`.
pub open spec fn first_free<H>(m: Map<u64, H>, c: Seq<u64>) -> Option<u64>
    decreases c.len(),
{
    if c.len() == 0 {
        None
    } else if !m.contains_key(c[0]) {
        Some(c[0])
    } else {
        first_free(m, c.drop_first())
    }
}

/// The entries after storing `shell` under the first free candidate, if any.
pub open spec fn stored<H>(m: Map<u64, H>, shell: H, c: Seq<u64>) -> Map<u64, H> {
    match first_free(m, c) {
        Some(t) => m.insert(t, shell),
        None => m,
    }
}

/// The entry that a resume request carrying this text attaches to.
pub open spec fn resumed<H>(m: Map<u64, H>, token: Option<Seq<char>>) -> Option<u64> {
    match parsed_token(token) {
        Some(t) => if m.contains_key(t) {
            Some(t)
        } else {
            None
        },
        None => None,
    }
}

/// Every entry of `before` is in `after`, with the same shell.
pub open spec fn keeps_entries<H>(before: Map<u64, H>, after: Map<u64, H>) -> bool {
    forall|k: u64| #[trigger] before.contains_key(k) ==> after.contains_key(k) && after[k] == before[k]
}

/// `r` answers a login that succeeded with token `t`.
pub open spec fn is_login_done(r: Response, t: u64) -> bool {
    is_authentication(r, 0, Some(decimal(t as nat)), false, "Done."@)
}

/// `r` answers a login that opened no session.
pub open spec fn is_login_refused(r: Response) -> bool {
    match r {
        Response::Authentication { token, new_session, .. } => token is None && new_session,
        _ => false,
    }
}

/// `r` answers a login whose `connect` returned `connected`, the registry
/// going from `before` to `after`: a refusal keeps the backend's code and
/// message, and an opened shell is stored, as it is, under a fresh token.
pub open spec fn login_registered<H>(
    connected: Result<H, RunOutput>,
    r: (Response, Option<Session>),
    before: Map<u64, H>,
    after: Map<u64, H>,
) -> bool {
    &&& match connected {
        Err(RunOutput(msg, code)) => is_authentication(r.0, code, None, true, msg@) && r.1 is None
            && after == before,
        Ok(shell) => match r.1 {
            Some(s) => is_login_done(r.0, s.token) && !before.contains_key(s.token) && after
                == before.insert(s.token, shell),
            None => is_authentication(r.0, NO_TOKEN_CODE, None, true, "No free session token"@)
                && after == before,
        },
    }
    &&& (before.len() == 0 && connected is Ok ==> r.1 is Some)
}

/// `r` answers a resume request carrying `token` against the entries `m`.
pub open spec fn resume_answered<H>(
    r: (Response, Option<Session>),
    m: Map<u64, H>,
    token: Option<Seq<char>>,
) -> bool {
    &&& r.1 == match resumed(m, token) {
        Some(t) => Some(Session { token: t }),
        None => None,
    }
    &&& match parsed_token(token) {
        None => is_previous(r.0, 1, "Invalid token"@, true),
        Some(t) => if m.contains_key(t) {
            is_previous(r.0, 0, "none"@, false)
        } else {
            is_previous(r.0, 1, "none"@, true)
        },
    }
}

/// `r` is an `Outcome`, the only kind of answer a command gets.
pub open spec fn is_command_answer(r: Response) -> bool {
    r is Outcome
}

/// A token that `first_free` picks is a free candidate.
pub proof fn lemma_first_free<H>(m: Map<u64, H>, c: Seq<u64>)
    ensures
        match first_free(m, c) {
            Some(t) => !m.contains_key(t) && c.contains(t),
            None => forall|i: int| 0 <= i < c.len() ==> m.contains_key(#[trigger] c[i]),
        },
    decreases c.len(),
{
    if c.len() > 0 {
        lemma_first_free(m, c.drop_first());
        if m.contains_key(c[0]) {
            match first_free(m, c.drop_first()) {
                Some(t) => {
                    let j = choose|j: int| 0 <= j < c.drop_first().len() && c.drop_first()[j] == t;
                    assert(c[j + 1] == t);
                },
                None => {
                    assert forall|i: int| 0 <= i < c.len() implies m.contains_key(#[trigger] c[i]) by {
                        if i > 0 {
                            assert(c[i] == c.drop_first()[i - 1]);
                        }
                    }
                },
            }
        }
    }
}

fn draw_candidates() -> (r: Vec<u64>)
    ensures
        r@.len() == MAX_TOKEN_DRAWS,
{
    let mut r: Vec<u64> = Vec::new();
    let mut i: usize = 0;
    while i < MAX_TOKEN_DRAWS
        invariant
            i <= MAX_TOKEN_DRAWS,
            r@.len() == i,
        decreases MAX_TOKEN_DRAWS - i,
    {
        r.push(draw_token());
        i = i + 1;
    }
    r
}

impl<P: ShellProvider> Sessions<P> {
    /// An empty registry for shells on `target`.
    pub fn new(target: &str, provider: P, debug: bool) -> (r: Self)
        ensures
            r.entries@ == Map::<u64, P::Shell>::empty(),
            r.target@ == target@,
            r.debug == debug,
            r.provider == provider,
    {
        Sessions { entries: HashMap::new(), target: target.to_string(), debug, provider }
    }

    /// Stores `shell` under the first candidate token that is still free;
    /// no entry is ever replaced.
    pub fn insert_fresh(&mut self, shell: P::Shell, candidates: &Vec<u64>) -> (r: Option<u64>)
        ensures
            r == first_free(old(self).entries@, candidates@),
            match r {
                Some(t) => !old(self).entries@.contains_key(t) && final(self).entries@ == old(
                    self,
                ).entries@.insert(t, shell),
                None => final(self).entries@ == old(self).entries@,
            },
            final(self).entries@ == stored(old(self).entries@, shell, candidates@),
            keeps_entries(old(self).entries@, final(self).entries@),
            final(self).target == old(self).target,
            final(self).debug == old(self).debug,
            final(self).provider == old(self).provider,
    {
        proof {
            lemma_first_free(self.entries@, candidates@);
            assert(candidates@.subrange(0, candidates@.len() as int) =~= candidates@);
        }
        let mut i: usize = 0;
        while i < candidates.len()
            invariant
                i <= candidates@.len(),
                *self == *old(self),
                first_free(self.entries@, candidates@) == first_free(
                    self.entries@,
                    candidates@.subrange(i as int, candidates@.len() as int),
                ),
            decreases candidates.len() - i,
        {
            let t = candidates[i];
            let ghost rest = candidates@.subrange(i as int, candidates@.len() as int);
            assert(rest[0] == t);
            if !self.entries.contains_key(&t) {
                self.entries.insert(t, shell);
                return Some(t);
            }
            assert(rest.drop_first() =~= candidates@.subrange(i + 1, candidates@.len() as int));
            i = i + 1;
        }
        assert(candidates@.subrange(i as int, candidates@.len() as int) =~= Seq::<u64>::empty());
        None
    }

    /// The answer to a login, given what the backend's `connect` returned and
    /// the candidate tokens to try.
    pub fn login_outcome(
        &mut self,
        connected: Result<P::Shell, RunOutput>,
        candidates: &Vec<u64>,
    ) -> (r: (Response, Option<Session>))
        ensures
            match connected {
                Err(RunOutput(msg, code)) => is_authentication(r.0, code, None, true, msg@)
                    && r.1 is None && final(self).entries@ == old(self).entries@,
                Ok(shell) => match first_free(old(self).entries@, candidates@) {
                    Some(t) => is_login_done(r.0, t) && r.1 == Some(Session { token: t })
                        && final(self).entries@ == old(self).entries@.insert(t, shell),
                    None => is_authentication(
                        r.0,
                        NO_TOKEN_CODE,
                        None,
                        true,
                        "No free session token"@,
                    ) && r.1 is None && final(self).entries@ == old(self).entries@,
                },
            },
            keeps_entries(old(self).entries@, final(self).entries@),
            final(self).target == old(self).target,
            final(self).debug == old(self).debug,
            final(self).provider == old(self).provider,
    {
        match connected {
            Err(RunOutput(response, code)) => (
                Response::Authentication {
                    code,
                    token: None,
                    reason: response,
                    new_session: true,
                },
                None,
            ),
            Ok(shell) => match self.insert_fresh(shell, candidates) {
                Some(token) => (
                    Response::Authentication {
                        code: 0,
                        token: Some(token_text(token)),
                        reason: "Done.".to_string(),
                        new_session: false,
                    },
                    Some(Session { token }),
                ),
                None => (
                    Response::Authentication {
                        code: NO_TOKEN_CODE,
                        token: None,
                        reason: "No free session token".to_string(),
                        new_session: true,
                    },
                    None,
                ),
            },
        }
    }

    /// Registers the shell that the backend's `connect` returned, under a
    /// fresh random token.
    pub fn register_shell(&mut self, connected: Result<P::Shell, RunOutput>) -> (r: (
        Response,
        Option<Session>,
    ))
        ensures
            login_registered(connected, r, old(self).entries@, final(self).entries@),
            keeps_entries(old(self).entries@, final(self).entries@),
            final(self).target == old(self).target,
            final(self).debug == old(self).debug,
            final(self).provider == old(self).provider,
    {
        let candidates = draw_candidates();
        proof {
            lemma_first_free(self.entries@, candidates@);
            if self.entries@.len() == 0 {
                assert(self.entries@.dom().finite());
                self.entries@.dom().lemma_len0_is_empty();
                assert(!self.entries@.contains_key(candidates@[0]));
            }
        }
        self.login_outcome(connected, &candidates)
    }

    /// Opens a shell for `user` through the backend and registers it under a
    /// fresh token.
    pub fn do_login(&mut self, user: String, password: String) -> (r: (Response, Option<Session>))
        ensures
            exists|connected: Result<P::Shell, RunOutput>|
                login_registered(connected, r, old(self).entries@, final(self).entries@),
            keeps_entries(old(self).entries@, final(self).entries@),
            final(self).target == old(self).target,
            final(self).debug == old(self).debug,
            final(self).provider == old(self).provider,
    {
        let connected = self.provider.connect(self.target.as_str(), user.as_str(), password.as_str());
        let ghost backend_result = connected;
        let r = self.register_shell(connected);
        assert(login_registered(backend_result, r, old(self).entries@, self.entries@));
        r
    }

    /// The shell registered for `session`, if the registry knows it.
    pub fn shell_of(&self, session: &Session) -> (r: Option<&P::Shell>)
        ensures
            match r {
                Some(shell) => self.entries@.contains_key(session.token) && *shell
                    == self.entries@[session.token],
                None => !self.entries@.contains_key(session.token),
            },
    {
        self.entries.get(&session.token)
    }

    /// Attaches to the entry named by `token_str`, which is looked up and
    /// never removed.
    pub fn get_session(&self, token_str: Option<String>) -> (r: (Response, Option<Session>))
        ensures
            resume_answered(r, self.entries@, opt_text(token_str)),
    {
        if let Some(token) = parse_token(token_str) {
            if self.entries.contains_key(&token) {
                (
                    Response::Previous {
                        code: 0,
                        reason: "none".to_string(),
                        new_session: false,
                        platform: "generic".to_string(),
                        host: "unknown".to_string(),
                    },
                    Some(Session { token }),
                )
            } else {
                (
                    Response::Previous {
                        code: 1,
                        reason: "none".to_string(),
                        new_session: true,
                        platform: "generic".to_string(),
                        host: "unknown".to_string(),
                    },
                    None,
                )
            }
        } else {
            (
                Response::Previous {
                    code: 1,
                    reason: "Invalid token".to_string(),
                    new_session: true,
                    platform: "generic".to_string(),
                    host: "unknown".to_string(),
                },
                None,
            )
        }
    }
}

/// Storing two shells one after the other never loses either: each that
/// found a free token is held under its own token, and every earlier entry
/// stays as it was, whatever tokens the draws produced.
pub proof fn lemma_two_stores_keep_both<H>(m: Map<u64, H>, s1: H, c1: Seq<u64>, s2: H, c2: Seq<u64>)
    ensures
        keeps_entries(m, stored(stored(m, s1, c1), s2, c2)),
        match first_free(m, c1) {
            Some(t1) => {
                &&& stored(stored(m, s1, c1), s2, c2)[t1] == s1
                &&& match first_free(stored(m, s1, c1), c2) {
                    Some(t2) => t2 != t1 && stored(stored(m, s1, c1), s2, c2)[t2] == s2,
                    None => true,
                }
            },
            None => true,
        },
{
    let m1 = stored(m, s1, c1);
    lemma_first_free(m, c1);
    lemma_first_free(m1, c2);
    match first_free(m, c1) {
        Some(t1) => {
            assert(m1.contains_key(t1));
        },
        None => {},
    }
}

/// A token issued at login resumes the very entry it was issued for, as long
/// as the registry keeps the entries it has issued.
pub proof fn lemma_login_token_resumes<H>(
    r: Response,
    t: u64,
    shell: H,
    before: Map<u64, H>,
    later: Map<u64, H>,
)
    requires
        is_login_done(r, t),
        keeps_entries(before.insert(t, shell), later),
    ensures
        match r {
            Response::Authentication { token, .. } => resumed(later, opt_text(token)) == Some(t),
            _ => false,
        },
        later.contains_key(t),
        later[t] == shell,
{
    crate::token::lemma_token_text_round_trip(t);
    let issued = before.insert(t, shell);
    assert(issued.contains_key(t));
    assert(later.contains_key(t) && later[t] == issued[t]);
    match r {
        Response::Authentication { token, .. } => {
            assert(opt_text(token) == Some(decimal(t as nat)));
        },
        _ => {},
    }
}

/// The response for what the backend reported of a command: the output and
/// exit status, or the failure message and its code, alike.
pub fn outcome_of(result: RunResult) -> (r: Response)
    ensures
        match result {
            RunResult::Done(RunOutput(text, code)) => is_outcome(r, code, text@),
            RunResult::Failed(RunOutput(text, code)) => is_outcome(r, code, text@),
        },
{
    match result {
        RunResult::Done(RunOutput(response, code)) => Response::Outcome { response, code },
        RunResult::Failed(RunOutput(reason, code)) => Response::Outcome { response: reason, code },
    }
}

impl Session {
    pub fn new(token: u64) -> (r: Session)
        ensures
            r.token == token,
    {
        Session { token }
    }

    /// Runs `command` on this session's shell; a session the registry does
    /// not know may run nothing.
    pub fn run_command<P: ShellProvider>(&self, sessions: &Sessions<P>, command: &str) -> (r:
        Response)
        ensures
            sessions.entries@.contains_key(self.token) ==> is_command_answer(r),
            !sessions.entries@.contains_key(self.token) ==> r == Response::NotAllowed,
    {
        match sessions.shell_of(self) {
            Some(shell) => outcome_of(sessions.provider.run_command(shell, command)),
            None => Response::NotAllowed,
        }
    }
}

/// `r` answers `request` on an anonymous connection, the registry going from
/// `before` to `after`.
pub open spec fn anonymous_answered<P: ShellProvider>(
    request: Request,
    r: (Response, Option<Session>),
    before: Sessions<P>,
    after: Sessions<P>,
) -> bool {
    match request {
        Request::Previous { token } => resume_answered(r, before.entries@, opt_text(token))
            && after == before,
        Request::Ping(_) => r.0 == Response::Pong(Some(0)) && r.1 is None && after == before,
        Request::Login { .. } => (exists|connected: Result<P::Shell, RunOutput>|
            login_registered(connected, r, before.entries@, after.entries@))
            && after.target == before.target && after.debug == before.debug && after.provider
            == before.provider,
        Request::Run { .. } => r.0 == Response::NotAllowed && r.1 is None && after == before,
    }
}

/// `r` answers `request` on a connection attached to `session`.
pub open spec fn session_answered<P: ShellProvider>(
    request: Request,
    r: Response,
    session: Session,
    sessions: Sessions<P>,
) -> bool {
    match request {
        Request::Ping(_) => r == Response::Pong(Some(0)),
        Request::Run { .. } => if sessions.entries@.contains_key(session.token) {
            is_command_answer(r)
        } else {
            r == Response::NotAllowed
        },
        _ => r == Response::NotImplemented,
    }
}

} // verus!
