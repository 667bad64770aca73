use crate::protocol::{opt_text, Request, Response, SeqRequest, SeqResponse};
use crate::sessions::{
    anonymous_answered, keeps_entries, login_registered, resume_answered, session_answered,
    Session, Sessions,
};
use crate::sshclient::{RunOutput, ShellProvider};
use vstd::prelude::*;

verus! {

/// Where one connection stands: before or after it has a session.
#[derive(Debug, Clone, Copy, PartialEq, Eq)]
pub enum Connection {
    Anonymous,
    Authenticated(Session),
}

/// What a connection needs done for one request. Only `Connect` and
/// `Execute` call the backend, and they need no access to the registry while
/// the call runs.
#[derive(Debug, Clone, PartialEq)]
pub enum Step {
    /// Send this response.
    Reply(Response),
    /// Open a shell with these credentials, then hand the result to
    /// `finish_login`.
    Connect { user: String, passwd: String },
    /// Run `cmd` on the shell of `session`, then send `outcome_of` what the
    /// backend reported.
    Execute { session: Session, cmd: String },
}

/// The session a connection holds, if any.
pub open spec fn session_of(c: Connection) -> Option<Session> {
    match c {
        Connection::Anonymous => None,
        Connection::Authenticated(s) => Some(s),
    }
}

impl Connection {
    /// A connection that has just been accepted.
    pub fn new() -> (r: Connection)
        ensures
            r == Connection::Anonymous,
    {
        Connection::Anonymous
    }

    /// The session this connection holds, if any.
    pub fn session(&self) -> (r: Option<Session>)
        ensures
            r == session_of(*self),
    {
        match *self {
            Connection::Anonymous => None,
            Connection::Authenticated(s) => Some(s),
        }
    }

    /// Decides what `request` needs in the current state. A resume request
    /// is settled here, since it only looks the registry up.
    pub fn plan<P: ShellProvider>(&mut self, request: Request, sessions: &Sessions<P>) -> (r: Step)
        ensures
            match *old(self) {
                Connection::Anonymous => match request {
                    Request::Previous { token } => match r {
                        Step::Reply(response) => resume_answered(
                            (response, session_of(*final(self))),
                            sessions.entries@,
                            opt_text(token),
                        ),
                        _ => false,
                    },
                    Request::Ping(_) => r == Step::Reply(Response::Pong(Some(0))) && *final(self)
                        == *old(self),
                    Request::Login { user, passwd } => r == (Step::Connect { user, passwd })
                        && *final(self) == *old(self),
                    Request::Run { .. } => r == Step::Reply(Response::NotAllowed) && *final(self)
                        == *old(self),
                },
                Connection::Authenticated(s) => *final(self) == *old(self) && match request {
                    Request::Ping(_) => r == Step::Reply(Response::Pong(Some(0))),
                    Request::Run { cmd } => if sessions.entries@.contains_key(s.token) {
                        r == (Step::Execute { session: s, cmd })
                    } else {
                        r == Step::Reply(Response::NotAllowed)
                    },
                    _ => r == Step::Reply(Response::NotImplemented),
                },
            },
    {
        match *self {
            Connection::Anonymous => match request {
                Request::Previous { token } => {
                    let (response, opened) = sessions.get_session(token);
                    if let Some(session) = opened {
                        *self = Connection::Authenticated(session);
                    }
                    Step::Reply(response)
                },
                Request::Ping(_) => Step::Reply(Response::Pong(Some(0))),
                Request::Login { user, passwd } => Step::Connect { user, passwd },
                Request::Run { cmd: _cmd } => Step::Reply(Response::NotAllowed),
            },
            Connection::Authenticated(session) => match request {
                Request::Ping(_) => Step::Reply(Response::Pong(Some(0))),
                Request::Run { cmd } => if sessions.entries.contains_key(&session.token) {
                    Step::Execute { session, cmd }
                } else {
                    Step::Reply(Response::NotAllowed)
                },
                _ => Step::Reply(Response::NotImplemented),
            },
        }
    }

    /// Completes a login that `plan` asked for, given what the backend's
    /// `connect` returned.
    pub fn finish_login<P: ShellProvider>(
        &mut self,
        connected: Result<P::Shell, RunOutput>,
        sessions: &mut Sessions<P>,
    ) -> (r: Response)
        requires
            *old(self) is Anonymous,
        ensures
            login_registered(
                connected,
                (r, session_of(*final(self))),
                old(sessions).entries@,
                final(sessions).entries@,
            ),
            keeps_entries(old(sessions).entries@, final(sessions).entries@),
            final(sessions).target == old(sessions).target,
            final(sessions).debug == old(sessions).debug,
            final(sessions).provider == old(sessions).provider,
    {
        let (response, opened) = sessions.register_shell(connected);
        if let Some(session) = opened {
            *self = Connection::Authenticated(session);
        }
        response
    }

    /// Answers one request, making the backend call it needs, and moves to
    /// the state it leads to. A connection becomes authenticated at most once
    /// and never goes back.
    pub fn attend<P: ShellProvider>(&mut self, request: SeqRequest, sessions: &mut Sessions<P>) -> (r:
        SeqResponse)
        ensures
            r.id == request.id,
            match *old(self) {
                Connection::Anonymous => anonymous_answered(
                    request.msg,
                    (r.msg, session_of(*final(self))),
                    *old(sessions),
                    *final(sessions),
                ),
                Connection::Authenticated(s) => *final(sessions) == *old(sessions)
                    && session_answered(request.msg, r.msg, s, *old(sessions)),
            },
            keeps_entries(old(sessions).entries@, final(sessions).entries@),
            request.msg is Ping ==> r.msg == Response::Pong(Some(0)),
            *old(self) is Authenticated ==> *final(self) == *old(self),
            *old(self) is Anonymous && request.msg is Run ==> r.msg == Response::NotAllowed
                && *final(self) == Connection::Anonymous && *final(sessions) == *old(sessions),
            *old(self) is Authenticated && (request.msg is Login || request.msg is Previous)
                ==> r.msg == Response::NotImplemented,
    {
        let msg = match self.plan(request.msg, sessions) {
            Step::Reply(response) => response,
            Step::Connect { user, passwd } => {
                let connected = sessions.provider.connect(
                    sessions.target.as_str(),
                    user.as_str(),
                    passwd.as_str(),
                );
                let ghost backend_result = connected;
                let ghost before = *sessions;
                let response = self.finish_login(connected, sessions);
                assert(login_registered(
                    backend_result,
                    (response, session_of(*self)),
                    before.entries@,
                    sessions.entries@,
                ));
                response
            },
            Step::Execute { session, cmd } => session.run_command(sessions, cmd.as_str()),
        };
        SeqResponse { id: request.id, msg }
    }
}

/// Answers one request of a connection that has no session yet; a session
/// comes back when the request opened or resumed one.
pub fn attend_message<P: ShellProvider>(request: SeqRequest, sessions: &mut Sessions<P>) -> (r: (
    SeqResponse,
    Option<Session>,
))
    ensures
        r.0.id == request.id,
        anonymous_answered(request.msg, (r.0.msg, r.1), *old(sessions), *final(sessions)),
        keeps_entries(old(sessions).entries@, final(sessions).entries@),
{
    let mut connection = Connection::Anonymous;
    let response = connection.attend(request, sessions);
    (response, connection.session())
}

/// Over the states a connection passes through, one `attend` call after
/// another (each of which keeps an authenticated state, as `attend`
/// ensures), a session once held is held for every later message.
pub proof fn lemma_session_held_for_good(states: Seq<Connection>, i: int, j: int)
    requires
        0 <= i <= j < states.len(),
        states[i] is Authenticated,
        forall|k: int|
            0 <= k < states.len() - 1 && (#[trigger] states[k]) is Authenticated ==> states[k + 1]
                == states[k],
    ensures
        states[j] == states[i],
    decreases j - i,
{
    if j > i {
        lemma_session_held_for_good(states, i, j - 1);
    }
}

/// The answer to a message whose id could be read but whose request could
/// not; the connection's state does not change.
pub fn reject_malformed(id: u64) -> (r: SeqResponse)
    ensures
        r == (SeqResponse { id, msg: Response::MalformedRequest }),
{
    SeqResponse { id, msg: Response::MalformedRequest }
}

/// Answers one request of a connection attached to `session`.
pub fn attend_session_message<P: ShellProvider>(
    request: SeqRequest,
    session: &Session,
    sessions: &Sessions<P>,
) -> (r: SeqResponse)
    ensures
        r.id == request.id,
        session_answered(request.msg, r.msg, *session, *sessions),
{
    let mut connection = Connection::Authenticated(*session);
    let msg = match connection.plan(request.msg, sessions) {
        Step::Reply(response) => response,
        Step::Execute { session, cmd } => session.run_command(sessions, cmd.as_str()),
        Step::Connect { .. } => Response::NotImplemented,
    };
    SeqResponse { id: request.id, msg }
}

} // verus!
