use vstd::prelude::*;

use crate::guard::SingleFlight;
use crate::jwt::{issued_in, jwt_token, JwtKeys};
use crate::roster::{has_uuid, CrtlAns, CrtlReq, CurInfo, CurInfoView, CurUsersInfo, UserType};
use crate::text::{owned, str_eq};
use crate::users::{lookup, UserInfoView, UserTable};

verus! {

/// Rendezvous server used when none is configured.
pub const DEFAULT_SERVER_ADDRESS: &'static str = "wss://localhost:9876";

/// Password shown before the first start.
pub const UNINITIALISED_PASSWORD: &'static str = "Uninitia";

/// Local uuid shown before registration.
pub const UNREGISTERED_UUID: &'static str = "尚未连接服务器";

/// Where to reach the rendezvous server, and the password peers must give.
#[derive(Debug)]
pub struct Config {
    pub server_address: String,
    pub connection_password: String,
}

/// A peer's request to be admitted.
#[derive(Debug)]
pub struct AuthRequest {
    pub device_name: String,
    pub device_serial: String,
    pub password: String,
    pub uuid: String,
}

/// The answer to an admission request: an HTTP-like status and a token or reason.
#[derive(Debug)]
pub struct AuthResponse {
    pub status: String,
    pub body: String,
}

/// A peer's request to end its session.
#[derive(Debug)]
pub struct DisconnectReq {
    pub jwt: String,
    pub device_serial: String,
}

/// The `disconnect` notice sent to a peer.
#[derive(Debug)]
pub struct Disconnect {
    pub cmd: String,
}

/// What the first step of admission decided.
pub enum AuthDecision {
    /// The roster is full.
    Full,
    /// The device is blacklisted.
    Blacklisted,
    /// The device is trusted: admitted without asking.
    AdmitTrusted,
    /// The password does not match.
    WrongPassword,
    /// A confirmation for this serial is already being asked.
    Pending,
    /// The local user must be asked.
    Confirm,
}

/// The admission rule, from what it reads: whether the roster is full, the device's record,
/// whether the password matches, and whether a confirmation for the serial is in flight.
pub open spec fn decide(full: bool, user: Option<UserInfoView>, password_ok: bool, pending: bool) -> AuthDecision {
    if full {
        AuthDecision::Full
    } else if user matches Some(u) && u.user_type == UserType::Blacklist {
        AuthDecision::Blacklisted
    } else if user matches Some(u) && u.user_type == UserType::Trusted {
        AuthDecision::AdmitTrusted
    } else if !password_ok {
        AuthDecision::WrongPassword
    } else if pending {
        AuthDecision::Pending
    } else {
        AuthDecision::Confirm
    }
}

/// While a confirmation for a serial is in flight, no other request with that serial leads to
/// a second one, whatever else has changed meanwhile.
pub proof fn lemma_single_flight(
    full: bool,
    user: Option<UserInfoView>,
    password_ok: bool,
    guards: Set<Seq<char>>,
    serial: Seq<char>,
    full2: bool,
    user2: Option<UserInfoView>,
    password_ok2: bool,
)
    requires
        decide(full, user, password_ok, guards.contains(serial)) is Confirm,
    ensures
        !(decide(full2, user2, password_ok2, guards.insert(serial).contains(serial)) is Confirm),
        password_ok2 && !full2 && (user2 is None || user2.unwrap().user_type == UserType::Normal)
            ==> decide(full2, user2, password_ok2, guards.insert(serial).contains(serial)) is Pending,
{
}

/// The next step of admission.
pub enum AuthStep {
    /// The answer is final.
    Done(AuthResponse),
    /// The local user is to be asked; then `finish_auth` gives the answer.
    Confirm,
}

/// The session the roster records for an admitted request.
pub open spec fn session_of(req: &AuthRequest, t: UserType) -> CurInfoView {
    CurInfoView {
        device_name: req.device_name@,
        device_id: req.device_serial@,
        user_type: t,
        uuid: req.uuid@,
    }
}

/// `token` is a token of the run of `keys` for the device serial of `req`.
pub open spec fn token_for(token: Seq<char>, req: &AuthRequest, keys: JwtKeys) -> bool {
    &&& exists|exp: u64| token == #[trigger] jwt_token(req.device_serial@, keys.nonce@, exp, keys.key@)
    &&& issued_in(token, keys)
}

/// An answered confirmation admits the request: approved, with room in the roster, and its
/// peer uuid not yet admitted.
pub open spec fn admissible(ctx: &AgentContext, req: &AuthRequest, approved: bool) -> bool {
    &&& approved
    &&& ctx.roster@.entries.len() < ctx.roster@.capacity
    &&& !has_uuid(ctx.roster@.entries, req.uuid@)
}

proof fn lemma_status_codes_differ()
    ensures
        "200"@ != "400"@,
{
    reveal_strlit("200");
    reveal_strlit("400");
    assert("200"@[0] != "400"@[0]);
}

fn response(status: &str, body: &str) -> (r: AuthResponse)
    ensures
        r.status@ == status@,
        r.body@ == body@,
{
    AuthResponse { status: owned(status), body: owned(body) }
}

/// Process-wide state of the agent: configuration, registration, keys of the current run,
/// device table, roster and the confirmations in flight.
#[derive(Debug)]
pub struct AgentContext {
    pub config: Config,
    pub uuid: String,
    pub keys: JwtKeys,
    pub users: UserTable,
    pub roster: CurUsersInfo,
    pub confirming: SingleFlight,
    pub running: bool,
}

impl AgentContext {
    /// The device table and the roster keep their invariants.
    pub open spec fn wf(&self) -> bool {
        &&& self.users.wf()
        &&& self.roster.wf()
    }

    /// What the first step of admission decides for `req` in this state.
    pub open spec fn auth_decision(&self, req: &AuthRequest) -> AuthDecision {
        decide(
            self.roster@.entries.len() >= self.roster@.capacity,
            lookup(self.users@, req.device_serial@),
            req.password@ == self.config.connection_password@,
            self.confirming@.contains(req.device_serial@),
        )
    }

    /// A stopped agent for `server_address` with the given device table, a roster of the
    /// default capacity, and keys of a fresh run.
    pub fn new(server_address: String, users: UserTable) -> (r: Self)
        requires
            users.wf(),
        ensures
            r.wf(),
            r.config.server_address@ == server_address@,
            r.config.connection_password@ == UNINITIALISED_PASSWORD@,
            r.uuid@ == UNREGISTERED_UUID@,
            r.users@ == users@,
            r.roster@.capacity == crate::DEFAULT_CAPACITY,
            r.roster@.entries.len() == 0,
            r.roster@.controller is None,
            r.confirming@ == Set::<Seq<char>>::empty(),
            !r.running,
    {
        AgentContext {
            config: Config { server_address, connection_password: owned(UNINITIALISED_PASSWORD) },
            uuid: owned(UNREGISTERED_UUID),
            keys: JwtKeys::generate(),
            users,
            roster: CurUsersInfo::new(crate::DEFAULT_CAPACITY),
            confirming: SingleFlight::new(),
            running: false,
        }
    }

    /// Sets a fresh random connection password.
    pub fn generate_connection_password(&mut self)
        ensures
            final(self).config.connection_password@.len() == crate::jwt::SECRET_LEN,
            final(self).config.server_address == old(self).config.server_address,
            final(self).uuid == old(self).uuid,
            final(self).keys == old(self).keys,
            final(self).users == old(self).users,
            final(self).roster == old(self).roster,
            final(self).confirming == old(self).confirming,
            final(self).running == old(self).running,
    {
        self.config.connection_password = crate::jwt::generate_secret();
    }

    /// Whether `input` is the current connection password.
    pub fn verify_password(&self, input: &str) -> (r: bool)
        ensures
            r == (input@ == self.config.connection_password@),
    {
        str_eq(input, self.config.connection_password.as_str())
    }

    /// Records the uuid the rendezvous server assigned.
    pub fn update_uuid(&mut self, uuid: &str)
        ensures
            final(self).uuid@ == uuid@,
            final(self).config == old(self).config,
            final(self).keys == old(self).keys,
            final(self).users == old(self).users,
            final(self).roster == old(self).roster,
            final(self).confirming == old(self).confirming,
            final(self).running == old(self).running,
    {
        self.uuid = owned(uuid);
    }

    /// Changes the rendezvous server used from the next start on.
    pub fn update_server_addr(&mut self, ipaddr: String)
        ensures
            final(self).config.server_address@ == ipaddr@,
            final(self).config.connection_password == old(self).config.connection_password,
            final(self).uuid == old(self).uuid,
            final(self).keys == old(self).keys,
            final(self).users == old(self).users,
            final(self).roster == old(self).roster,
            final(self).running == old(self).running,
    {
        self.config.server_address = ipaddr;
    }

    /// Forgets the password, the registration and every session.
    pub fn reset_all_info(&mut self)
        requires
            old(self).wf(),
        ensures
            final(self).wf(),
            final(self).config.connection_password@ == UNINITIALISED_PASSWORD@,
            final(self).config.server_address == old(self).config.server_address,
            final(self).uuid@ == UNREGISTERED_UUID@,
            final(self).roster@.entries.len() == 0,
            final(self).roster@.controller is None,
            final(self).roster@.capacity == old(self).roster@.capacity,
            final(self).users == old(self).users,
            final(self).keys == old(self).keys,
            final(self).running == old(self).running,
    {
        self.config.connection_password = owned(UNINITIALISED_PASSWORD);
        self.uuid = owned(UNREGISTERED_UUID);
        self.roster.reset();
    }

    /// Starts a run: a fresh password, a fresh signing key and boot nonce, so that tokens of
    /// earlier runs no longer validate.
    pub fn start(&mut self)
        requires
            old(self).wf(),
        ensures
            final(self).wf(),
            final(self).running,
            final(self).config.connection_password@.len() == crate::jwt::SECRET_LEN,
            final(self).keys.nonce@ != old(self).keys.nonce@,
            final(self).config.server_address == old(self).config.server_address,
            final(self).users == old(self).users,
            final(self).roster == old(self).roster,
    {
        self.generate_connection_password();
        self.keys = self.keys.next_run();
        self.running = true;
    }

    /// Stops the run: returns the uuids of every admitted peer, whose connections are to be
    /// closed and who are each to be sent one `disconnect`, then forgets all sessions.
    pub fn stop(&mut self) -> (r: Vec<String>)
        requires
            old(self).wf(),
        ensures
            final(self).wf(),
            !final(self).running,
            r@.len() == old(self).roster@.entries.len(),
            forall|i: int| 0 <= i < r@.len() ==> (#[trigger] r@[i])@ == old(self).roster@.entries[i].uuid,
            final(self).roster@.entries.len() == 0,
            final(self).roster@.controller is None,
            final(self).users == old(self).users,
            final(self).config.server_address == old(self).config.server_address,
    {
        let mut out: Vec<String> = Vec::new();
        let mut i: usize = 0;
        while i < self.roster.len()
            invariant
                i <= self.roster@.entries.len(),
                self.roster == old(self).roster,
                out@.len() == i,
                forall|k: int| 0 <= k < i ==> (#[trigger] out@[k])@ == self.roster@.entries[k].uuid,
            decreases self.roster@.entries.len() - i,
        {
            out.push(self.roster.get(i).uuid.clone());
            i = i + 1;
        }
        self.running = false;
        self.reset_all_info();
        out
    }

    /// First step of admitting `req` (the status and body of each final answer are given
    /// beside the decision that leads to it):
    /// full roster or blacklisted device: 403 "连接被拒绝"; trusted device: admitted with a
    /// token for its serial (200), unless its peer uuid is already admitted (403 "连接被拒绝");
    /// wrong password: 403 "连接口令错误"; a
    /// confirmation for the serial already in flight: 202 "请求已在处理，请稍后"; otherwise the
    /// serial is marked in flight and the local user is to be asked.
    pub fn begin_auth(&mut self, req: &AuthRequest) -> (r: AuthStep)
        requires
            old(self).wf(),
        ensures
            final(self).wf(),
            final(self).users == old(self).users,
            final(self).keys == old(self).keys,
            final(self).config == old(self).config,
            final(self).roster@.capacity == old(self).roster@.capacity,
            final(self).roster@.controller == old(self).roster@.controller,
            match old(self).auth_decision(req) {
                AuthDecision::Full | AuthDecision::Blacklisted => r matches AuthStep::Done(a)
                    && a.status@ == "403"@ && a.body@ == "连接被拒绝"@
                    && final(self).roster@ == old(self).roster@
                    && final(self).confirming@ == old(self).confirming@,
                AuthDecision::WrongPassword => r matches AuthStep::Done(a) && a.status@ == "403"@
                    && a.body@ == "连接口令错误"@ && final(self).roster@ == old(self).roster@
                    && final(self).confirming@ == old(self).confirming@,
                AuthDecision::Pending => r matches AuthStep::Done(a) && a.status@ == "202"@
                    && a.body@ == "请求已在处理，请稍后"@ && final(self).roster@ == old(self).roster@
                    && final(self).confirming@ == old(self).confirming@,
                AuthDecision::Confirm => r is Confirm && final(self).roster@ == old(self).roster@
                    && final(self).confirming@ == old(self).confirming@.insert(req.device_serial@),
                AuthDecision::AdmitTrusted => r matches AuthStep::Done(a)
                    && final(self).confirming@ == old(self).confirming@ && if has_uuid(
                    old(self).roster@.entries,
                    req.uuid@,
                ) {
                    a.status@ == "403"@ && a.body@ == "连接被拒绝"@ && final(self).roster@
                        == old(self).roster@
                } else {
                    a.status@ == "200"@ && token_for(a.body@, req, old(self).keys)
                        && final(self).roster@.entries == old(self).roster@.entries.push(
                        session_of(req, UserType::Trusted),
                    )
                },
            },
    {
        if !self.roster.is_avail() {
            return AuthStep::Done(response("403", "连接被拒绝"));
        }
        let user = self.users.get_user_by_serial(req.device_serial.as_str());
        match &user {
            Some(u) => {
                if u.user_type == UserType::Blacklist {
                    return AuthStep::Done(response("403", "连接被拒绝"));
                }
                if u.user_type == UserType::Trusted {
                    if self.roster.lookup_by_uuid(req.uuid.as_str()) {
                        return AuthStep::Done(response("403", "连接被拒绝"));
                    }
                    return AuthStep::Done(self.accept_session(req, UserType::Trusted));
                }
            },
            None => {},
        }
        if !self.verify_password(req.password.as_str()) {
            return AuthStep::Done(response("403", "连接口令错误"));
        }
        if !self.confirming.try_acquire(req.device_serial.as_str()) {
            return AuthStep::Done(response("202", "请求已在处理，请稍后"));
        }
        AuthStep::Confirm
    }

    /// Issues a token for `req` and records its session.
    fn accept_session(&mut self, req: &AuthRequest, t: UserType) -> (a: AuthResponse)
        requires
            old(self).wf(),
            old(self).roster@.entries.len() < old(self).roster@.capacity,
            !has_uuid(old(self).roster@.entries, req.uuid@),
        ensures
            final(self).wf(),
            final(self).users == old(self).users,
            final(self).keys == old(self).keys,
            final(self).config == old(self).config,
            final(self).confirming == old(self).confirming,
            final(self).running == old(self).running,
            final(self).uuid == old(self).uuid,
            final(self).roster@.capacity == old(self).roster@.capacity,
            final(self).roster@.controller == old(self).roster@.controller,
            a.status@ == "200"@,
            token_for(a.body@, req, old(self).keys),
            final(self).roster@.entries == old(self).roster@.entries.push(session_of(req, t)),
    {
        let token = self.keys.generate_jwt(req.device_serial.as_str());
        let info = CurInfo {
            device_name: req.device_name.clone(),
            device_id: req.device_serial.clone(),
            user_type: t,
            uuid: req.uuid.clone(),
        };
        self.roster.add_new_cur_user(&info);
        AuthResponse { status: owned("200"), body: token }
    }

    /// Second step of admitting `req`, once the local user answered `approved`: the serial is
    /// no longer in flight; a refusal, a roster that filled up meanwhile, or a peer uuid already
    /// admitted gives 403 "连接被拒绝"; an approval admits the device as a normal user with a
    /// token for its serial (200), and records an unknown device in the device table, which the
    /// second result reports so that the table is saved.
    pub fn finish_auth(&mut self, req: &AuthRequest, approved: bool) -> (r: (AuthResponse, bool))
        requires
            old(self).wf(),
        ensures
            final(self).wf(),
            final(self).keys == old(self).keys,
            final(self).config == old(self).config,
            final(self).confirming@ == old(self).confirming@.remove(req.device_serial@),
            final(self).roster@.capacity == old(self).roster@.capacity,
            final(self).roster@.controller == old(self).roster@.controller,
            !admissible(old(self), req, approved) ==> r.0.status@ == "403"@ && r.0.body@
                == "连接被拒绝"@ && final(self).roster@ == old(self).roster@ && final(self).users@
                == old(self).users@ && !r.1,
            admissible(old(self), req, approved) ==> {
                &&& r.0.status@ == "200"@
                &&& token_for(r.0.body@, req, old(self).keys)
                &&& final(self).roster@.entries == old(self).roster@.entries.push(
                    session_of(req, UserType::Normal),
                )
                &&& r.1 == (lookup(old(self).users@, req.device_serial@) is None)
                &&& r.1 ==> final(self).users@ == old(self).users@.push(
                    UserInfoView {
                        device_name: req.device_name@,
                        device_id: req.device_serial@,
                        user_type: UserType::Normal,
                    },
                )
                &&& !r.1 ==> final(self).users@ == old(self).users@
            },
    {
        self.confirming.release(req.device_serial.as_str());
        if !approved || !self.roster.is_avail() || self.roster.lookup_by_uuid(req.uuid.as_str()) {
            return (response("403", "连接被拒绝"), false);
        }
        let a = self.accept_session(req, UserType::Normal);
        let added = self.users.add_device(req.device_name.as_str(), req.device_serial.as_str());
        (a, added)
    }

    /// Answer to a `control` request whose token check gave `jwt_ok`: 400 "已有控制者" when
    /// the token is invalid or a controller exists; 200 "获得控制权" when the serial is in the
    /// roster, which makes its first entry the controller; else 400 "用户不存在".
    pub fn control_decision(&mut self, jwt_ok: bool, device_serial: &str) -> (r: CrtlAns)
        requires
            old(self).wf(),
        ensures
            final(self).wf(),
            final(self).users == old(self).users,
            final(self).keys == old(self).keys,
            final(self).roster@.entries == old(self).roster@.entries,
            !jwt_ok || old(self).roster@.controller is Some ==> r.status@ == "400"@ && r.body@
                == "已有控制者"@ && final(self).roster@ == old(self).roster@,
            jwt_ok && old(self).roster@.controller is None && crate::roster::has_serial(
                old(self).roster@.entries,
                device_serial@,
            ) ==> r.status@ == "200"@ && r.body@ == "获得控制权"@ && final(self).roster@.controller
                == Some(crate::roster::first_serial_index(old(self).roster@.entries, device_serial@)),
            jwt_ok && old(self).roster@.controller is None && !crate::roster::has_serial(
                old(self).roster@.entries,
                device_serial@,
            ) ==> r.status@ == "400"@ && r.body@ == "用户不存在"@ && final(self).roster@.controller is None,
    {
        if !jwt_ok || self.roster.has_controller() {
            return CrtlAns { status: owned("400"), body: owned("已有控制者") };
        }
        if self.roster.set_ptr_by_serial(device_serial) {
            CrtlAns { status: owned("200"), body: owned("获得控制权") }
        } else {
            CrtlAns { status: owned("400"), body: owned("用户不存在") }
        }
    }

    /// Handles a `control` request: checks its token in this run, then decides.
    pub fn handle_control(&mut self, req: &CrtlReq) -> (r: CrtlAns)
        requires
            old(self).wf(),
        ensures
            final(self).wf(),
            final(self).roster@.entries == old(self).roster@.entries,
            r.status@ == "200"@ ==> issued_in(req.jwt@, old(self).keys)
                && old(self).roster@.controller is None && final(self).roster@.controller
                == Some(crate::roster::first_serial_index(old(self).roster@.entries, req.device_serial@)),
            r.status@ != "200"@ ==> final(self).roster@.controller == old(self).roster@.controller
                || final(self).roster@.controller is None,
    {
        proof {
            lemma_status_codes_differ();
        }
        let ok = self.keys.validate_jwt(req.jwt.as_str());
        self.control_decision(ok, req.device_serial.as_str())
    }

    /// Whether a `revokectrl` request whose token check gave `jwt_ok` comes from the
    /// controller, whose connection is then to be torn down.
    pub fn revoke_decision(&self, jwt_ok: bool, uuid: &str) -> (r: bool)
        ensures
            r == (jwt_ok && (self.roster@.controller matches Some(i) && self.roster@.entries[i].uuid
                == uuid@)),
    {
        jwt_ok && self.roster.is_controller_by_uuid(owned(uuid))
    }

    /// Whether a peer-initiated `disconnect` carries a token valid in this run.
    pub fn verify_disconnect(&self, req: &DisconnectReq) -> (r: bool)
        ensures
            r ==> issued_in(req.jwt@, self.keys),
    {
        self.keys.validate_jwt(req.jwt.as_str())
    }

    /// Handles a peer-initiated `disconnect` from peer `from`: when its token is valid in this
    /// run, the peer's session is removed. True when a session was removed.
    pub fn handle_disconnect(&mut self, req: &DisconnectReq, from: &str) -> (r: bool)
        requires
            old(self).wf(),
        ensures
            final(self).wf(),
            r ==> issued_in(req.jwt@, old(self).keys) && has_uuid(old(self).roster@.entries, from@),
            !r ==> final(self).roster@ == old(self).roster@,
            !has_uuid(old(self).roster@.entries, from@) ==> !r,
            r ==> !has_uuid(final(self).roster@.entries, from@),
    {
        if !self.verify_disconnect(req) {
            return false;
        }
        self.roster.delete_by_uuid(from)
    }

    /// Local disconnection of peer `uuid`: removes its session and tells whether the peer is to
    /// be sent a `disconnect` notice (there was a session).
    pub fn disconnect_cur_user_by_uuid(&mut self, uuid: &str) -> (r: bool)
        requires
            old(self).wf(),
        ensures
            final(self).wf(),
            r == has_uuid(old(self).roster@.entries, uuid@),
            !has_uuid(final(self).roster@.entries, uuid@),
    {
        let r = self.roster.delete_by_uuid(uuid);
        r
    }
}

impl AgentContext {
    /// Whether an `offer` is to be answered: its token must be valid in this run.
    pub fn accept_offer(&self, offer: &crate::peer::JWTOfferRequest) -> (r: bool)
        ensures
            r ==> issued_in(offer.jwt@, self.keys),
    {
        self.keys.validate_jwt(offer.jwt.as_str())
    }

    /// Whether a remote candidate is to be injected: its token must be valid in this run and
    /// its connection registered; candidates for an unseen peer are dropped.
    pub fn accept_candidate(
        &self,
        req: &crate::peer::JWTCandidateRequest,
        peers: &crate::peer::PeerRegistry,
    ) -> (r: bool)
        ensures
            r ==> issued_in(req.jwt@, self.keys) && peers@.contains(req.client_uuid@),
            !peers@.contains(req.client_uuid@) ==> !r,
    {
        peers.contains(req.client_uuid.as_str()) && self.keys.validate_jwt(req.jwt.as_str())
    }
}

impl DisconnectReq {
    /// Whether the request's token is valid in the run of `keys`.
    pub fn verify(&self, keys: &JwtKeys) -> (r: bool)
        ensures
            r ==> issued_in(self.jwt@, *keys),
    {
        keys.validate_jwt(self.jwt.as_str())
    }
}

/// The `disconnect` notice.
pub fn disconnect_notice() -> (r: Disconnect)
    ensures
        r.cmd@ == "disconnect"@,
{
    Disconnect { cmd: owned("disconnect") }
}

/// The roster of an agent in a consistent state never exceeds its capacity.
pub proof fn lemma_roster_within_capacity(ctx: &AgentContext)
    requires
        ctx.wf(),
    ensures
        ctx.roster@.entries.len() <= ctx.roster@.capacity,
{
}

} // verus!
