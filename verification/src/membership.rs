//! Membership session rules for the cloud membership gateway: when the
//! client counts as an active member, how gateway replies are judged, how
//! login / redeem / heartbeat / logout change the session, which local API
//! requests need an active membership, and which projections are shut down
//! while membership is missing.

use std::time::Instant;
use vstd::prelude::*;
use crate::text::{chars_of, has_prefix, owned, starts_with_chars, strings_view};
use vstd::utf8::encode_utf8;

verus! {

broadcast use vstd::string::group_string_axioms;

/// `std::time::Instant`, carried through as an opaque value: the time of the
/// last successful membership check.
#[verifier::external_type_specification]
#[verifier::external_body]
pub struct ExInstant(Instant);

/// How long a successful membership check stays valid, in milliseconds.
pub const HEARTBEAT_GRACE_MS: u128 = 90_000;

/// How often the heartbeat is sent, in milliseconds.
pub const HEARTBEAT_INTERVAL_MS: u128 = 60_000;

/// How often the heartbeat loop wakes up to decide, in milliseconds.
pub const HEARTBEAT_TICK_MS: u64 = 5_000;

/// Number of membership gateways that are tried in turn.
pub const GATEWAY_COUNT: usize = 2;

/// Calls `Instant::elapsed`. Nothing is claimed of the result: it depends
/// on the clock.
#[verifier::external_body]
fn elapsed(at: &Instant) -> std::time::Duration {
    at.elapsed()
}

/// Calls `Duration::as_millis`: the whole milliseconds of `d`. The duration
/// is opaque here, so nothing is claimed of the result. Truncating to whole
/// milliseconds keeps every comparison against a whole number of
/// milliseconds unchanged.
#[verifier::external_body]
fn as_millis(d: &std::time::Duration) -> u128 {
    d.as_millis()
}

/// The local membership session.
#[derive(Debug)]
pub struct Session {
    pub token: Option<String>,
    pub account: Option<String>,
    pub member: bool,
    pub checked: Option<Instant>,
}

/// Membership is only held, and only checked, while logged in.
pub open spec fn session_consistent(s: Session) -> bool {
    &&& s.member ==> s.token is Some
    &&& s.checked is Some ==> s.token is Some
}

/// A session that is logged out and holds no membership.
pub open spec fn is_empty_session(s: Session) -> bool {
    &&& s.token is None
    &&& s.account is None
    &&& !s.member
    &&& s.checked is None
}

impl Default for Session {
    fn default() -> (s: Session)
        ensures
            is_empty_session(s),
            session_consistent(s),
    {
        Session { token: None, account: None, member: false, checked: None }
    }
}

/// An error answered to the local API: an HTTP status code and a message.
#[derive(Debug)]
pub struct ApiError {
    pub status: u16,
    pub message: String,
}

/// An error with the given status and message.
pub open spec fn is_error(e: ApiError, status: u16, message: Seq<char>) -> bool {
    e.status == status && e.message@ == message
}

fn api_error(status: u16, message: &str) -> (e: ApiError)
    ensures
        is_error(e, status, message@),
{
    ApiError { status, message: owned(message) }
}

/// A membership check that succeeded `elapsed_ms` milliseconds ago (if any)
/// still makes the client an active member.
pub open spec fn active_within_grace(member: bool, elapsed_ms: Option<u128>) -> bool {
    member && match elapsed_ms {
        Some(e) => e < HEARTBEAT_GRACE_MS,
        None => false,
    }
}

/// Whether a session with membership flag `member`, whose last successful
/// check is `elapsed_ms` milliseconds old (`None`: never checked), is active.
pub fn membership_active(member: bool, elapsed_ms: Option<u128>) -> (r: bool)
    ensures
        r == active_within_grace(member, elapsed_ms),
{
    match elapsed_ms {
        Some(e) => member && e < HEARTBEAT_GRACE_MS,
        None => false,
    }
}

/// Whether the session is an active member: the gateway said so, and that
/// answer is younger than the grace period. The age is read from the clock,
/// so the contract states what holds for every age.
pub fn is_member(session: &Session) -> (r: bool)
    ensures
        r ==> session.member && session.checked is Some,
        !session.member ==> !r,
        session.checked is None ==> !r,
{
    if !session.member {
        return false;
    }
    match &session.checked {
        Some(at) => {
            let age = elapsed(at);
            membership_active(session.member, Some(as_millis(&age)))
        },
        None => false,
    }
}

/// The status that the local API reports.
#[derive(Debug)]
pub struct LocalStatus {
    pub logged_in: bool,
    pub member: bool,
    pub account: Option<String>,
    pub device_suffix: Option<String>,
}

/// The last eight bytes of a device id can be cut off as a string.
pub open spec fn has_suffix_boundary(id: Seq<char>) -> bool {
    let bytes = encode_utf8(id);
    8 <= bytes.len() <= usize::MAX && vstd::utf8::is_char_boundary(bytes, bytes.len() - 8)
}

/// The text of the last eight UTF-8 bytes of `id`: the part of the device
/// id that the local status shows.
pub open spec fn suffix_of(id: Seq<char>) -> Seq<char> {
    let bytes = encode_utf8(id);
    vstd::utf8::decode_utf8(bytes.subrange(bytes.len() - 8, bytes.len() as int))
}

/// The last eight bytes of `id`, as a string.
pub fn device_suffix(id: &str) -> (r: String)
    requires
        has_suffix_boundary(id@),
    ensures
        vstd::utf8::encode_utf8(r@) == vstd::utf8::encode_utf8(id@).subrange(
            vstd::utf8::encode_utf8(id@).len() - 8,
            vstd::utf8::encode_utf8(id@).len() as int,
        ),
        r@ == suffix_of(id@),
{
    let len = id.len();
    let (_, tail) = id.split_at(len - 8);
    let r = tail.to_owned();
    proof {
        vstd::utf8::encode_utf8_decode_utf8(r@);
    }
    r
}

fn clone_option_string(s: &Option<String>) -> (r: Option<String>)
    ensures
        r == *s,
{
    match s {
        Some(v) => Some(v.clone()),
        None => None,
    }
}

/// The characters of an optional string.
pub open spec fn opt_text(o: Option<String>) -> Option<Seq<char>> {
    match o {
        Some(t) => Some(t@),
        None => None,
    }
}

/// What the local status reports, as plain values: logged in, active
/// member, account, and device id suffix.
pub open spec fn status_view(r: LocalStatus) -> (bool, bool, Option<Seq<char>>, Option<Seq<char>>) {
    (r.logged_in, r.member, opt_text(r.account), opt_text(r.device_suffix))
}

/// The local status of `session` whose membership is `active` just now,
/// on a machine whose device id is `device_id` (if it could be read). The
/// session token itself is never reported.
pub open spec fn expected_status(session: Session, device_id: Option<Seq<char>>, active: bool) -> (
    bool,
    bool,
    Option<Seq<char>>,
    Option<Seq<char>>,
) {
    (
        session.token is Some,
        active,
        opt_text(session.account),
        match device_id {
            Some(id) => Some(suffix_of(id)),
            None => None,
        },
    )
}

/// The characters of an optional string slice.
pub open spec fn opt_str(o: Option<&str>) -> Option<Seq<char>> {
    match o {
        Some(t) => Some(t@),
        None => None,
    }
}

/// The local status of `session` when its membership is `active`, as
/// `is_member` read it from the clock.
pub fn status_with(session: &Session, device_id: Option<&str>, active: bool) -> (r: LocalStatus)
    requires
        device_id matches Some(id) ==> has_suffix_boundary(id@),
    ensures
        status_view(r) == expected_status(*session, opt_str(device_id), active),
        r.account == session.account,
        device_id matches Some(id) ==> (r.device_suffix matches Some(s) && vstd::utf8::encode_utf8(
            s@,
        ) == vstd::utf8::encode_utf8(id@).subrange(
            vstd::utf8::encode_utf8(id@).len() - 8,
            vstd::utf8::encode_utf8(id@).len() as int,
        )),
{
    let suffix = match device_id {
        Some(id) => Some(device_suffix(id)),
        None => None,
    };
    LocalStatus {
        logged_in: session.token.is_some(),
        member: active,
        account: clone_option_string(&session.account),
        device_suffix: suffix,
    }
}

/// The local status of `session`; `device_id` is the machine's device id
/// when it could be read.
pub fn local_status(session: &Session, device_id: Option<&str>) -> (r: LocalStatus)
    requires
        device_id matches Some(id) ==> has_suffix_boundary(id@),
    ensures
        status_view(r) == expected_status(*session, opt_str(device_id), r.member),
        r.logged_in == session.token is Some,
        r.member ==> session.member && session.checked is Some,
        !session.member || session.checked is None ==> !r.member,
        r.account == session.account,
        device_id is None ==> r.device_suffix is None,
        device_id matches Some(id) ==> (r.device_suffix matches Some(s) && vstd::utf8::encode_utf8(
            s@,
        ) == vstd::utf8::encode_utf8(id@).subrange(
            vstd::utf8::encode_utf8(id@).len() - 8,
            vstd::utf8::encode_utf8(id@).len() as int,
        )),
{
    let active = is_member(session);
    status_with(session, device_id, active)
}

/// The local status never depends on the session token: two sessions that
/// differ only in which token they hold report the same status, given the
/// same membership reading and device id.
pub proof fn law_status_hides_token(
    a: Session,
    b: Session,
    device_id: Option<Seq<char>>,
    active: bool,
)
    requires
        a.token is Some <==> b.token is Some,
        a.account == b.account,
    ensures
        expected_status(a, device_id, active) == expected_status(b, device_id, active),
{
}

/// The session token of a login reply is usable: at least 32 bytes long.
pub open spec fn usable_session_token(token: Seq<char>) -> bool {
    encode_utf8(token).len() >= 32
}

/// `held` is `Some` token with the same characters as `token`.
pub open spec fn holds(held: Option<String>, token: String) -> bool {
    held matches Some(t) && t@ == token@
}

/// A completion of a request made with `token` that finds the session no
/// longer holding that token leaves it as it was: `s` before, `t` after.
pub open spec fn stale_left_alone(s: Session, token: String, t: Session) -> bool {
    !holds(s.token, token) ==> t == s
}

impl Session {
    /// Records a successful login. `session_field` is the reply's `session`
    /// string (if it is one) and `member_field` its `member` boolean (if it
    /// is one). A missing or short session token is a gateway error, and
    /// the session is then left as it was.
    pub fn complete_login(
        &mut self,
        account: String,
        session_field: Option<&str>,
        member_field: Option<bool>,
        now: Instant,
    ) -> (r: Result<(), ApiError>)
        ensures
            session_consistent(*old(self)) ==> session_consistent(*final(self)),
            r is Ok <==> (session_field matches Some(t) && usable_session_token(t@)),
            r matches Err(e) ==> is_error(e, 502, "登录响应缺少会话"@) && *final(self) == *old(self),
            r is Ok ==> {
                &&& (final(self).token matches Some(t) && t@ == session_field.unwrap()@)
                &&& final(self).account == Some(account)
                &&& final(self).member == member_field.unwrap_or(false)
                &&& final(self).checked == Some(now)
            },
    {
        let token = match session_field {
            Some(t) => {
                let chars = chars_of(t);
                if crate::text::utf8_len_capped(chars.as_slice(), 32) >= 32 {
                    t
                } else {
                    return Err(api_error(502, "登录响应缺少会话"));
                }
            },
            None => {
                return Err(api_error(502, "登录响应缺少会话"));
            },
        };
        self.token = Some(token.to_owned());
        self.account = Some(account);
        self.member = match member_field {
            Some(m) => m,
            None => false,
        };
        self.checked = Some(now);
        Ok(())
    }

    /// The token to redeem a card with; redeeming needs a login.
    pub fn redeem_token(&self) -> (r: Result<String, ApiError>)
        ensures
            r matches Ok(t) ==> self.token == Some(t),
            r is Err <==> self.token is None,
            r matches Err(e) ==> is_error(e, 401, "请先登录"@),
    {
        match &self.token {
            Some(t) => Ok(t.clone()),
            None => Err(api_error(401, "请先登录")),
        }
    }

    /// Whether the session still holds `token`.
    pub fn holds_token(&self, token: &String) -> (r: bool)
        ensures
            r == holds(self.token, *token),
    {
        match &self.token {
            Some(t) => *t == *token,
            None => false,
        }
    }

    /// Records the heartbeat that followed a successful redeem made with
    /// `token`. If the session changed token meanwhile, the answer is stale
    /// and the session stays as it is.
    pub fn complete_redeem(&mut self, token: &String, member_field: Option<bool>, now: Instant)
        ensures
            session_consistent(*old(self)) ==> session_consistent(*final(self)),
            holds(old(self).token, *token) ==> {
                &&& final(self).token == old(self).token
                &&& final(self).account == old(self).account
                &&& final(self).member == member_field.unwrap_or(false)
                &&& final(self).checked == Some(now)
            },
            stale_left_alone(*old(self), *token, *final(self)),
    {
        if self.holds_token(token) {
            self.member = match member_field {
                Some(m) => m,
                None => false,
            };
            self.checked = Some(now);
        }
    }

    /// Records the outcome of a periodic heartbeat sent with `token`:
    /// `Ok(member_field)` when the gateway answered, `Err` when it failed.
    /// A failure revokes the membership. A stale answer (the session changed
    /// token meanwhile) leaves the session as it is.
    pub fn complete_refresh(
        &mut self,
        token: &String,
        outcome: Result<Option<bool>, ApiError>,
        now: Instant,
    )
        ensures
            session_consistent(*old(self)) ==> session_consistent(*final(self)),
            stale_left_alone(*old(self), *token, *final(self)),
            holds(old(self).token, *token) ==> {
                &&& final(self).token == old(self).token
                &&& final(self).account == old(self).account
                &&& match outcome {
                    Ok(m) => final(self).member == m.unwrap_or(false) && final(self).checked
                        == Some(now),
                    Err(_) => !final(self).member && final(self).checked is None,
                }
            },
    {
        if !self.holds_token(token) {
            return;
        }
        match outcome {
            Ok(m) => {
                self.member = match m {
                    Some(v) => v,
                    None => false,
                };
                self.checked = Some(now);
            },
            Err(_) => {
                self.member = false;
                self.checked = None;
            },
        }
    }

    /// Logs out locally and hands back the token that the gateway should be
    /// told to end.
    pub fn logout(&mut self) -> (r: Option<String>)
        ensures
            r == old(self).token,
            is_empty_session(*final(self)),
            session_consistent(*final(self)),
    {
        self.account = None;
        self.member = false;
        self.checked = None;
        self.token.take()
    }
}

/// The gateway with the given index.
pub open spec fn gateway_spec(index: int) -> Seq<char> {
    if index == 0 {
        "https://jxzs.host.mg"@
    } else {
        "https://www.jxzs.top"@
    }
}

/// The gateway with the given index, in the order in which they are tried.
pub fn gateway(index: usize) -> (g: &'static str)
    requires
        index < GATEWAY_COUNT,
    ensures
        g@ == gateway_spec(index as int),
{
    if index == 0 {
        "https://jxzs.host.mg"
    } else {
        "https://www.jxzs.top"
    }
}

/// The URL of API `path` on gateway `index`: `{gateway}/v1/{path}`.
pub fn gateway_url(index: usize, path: &str) -> (r: String)
    requires
        index < GATEWAY_COUNT,
    ensures
        r@ == gateway_spec(index as int) + "/v1/"@ + path@,
{
    let mut chars = chars_of(gateway(index));
    crate::text::push_str(&mut chars, "/v1/");
    crate::text::push_str(&mut chars, path);
    crate::text::string_from_chars(chars.as_slice())
}

/// What to do after sending a request to a gateway failed.
#[derive(Debug)]
pub enum SendFailure {
    /// Try the next gateway.
    TryNext,
    /// Give up with this error.
    Fail(ApiError),
}

/// Decides what follows a failed send to gateway `index`. Only a connect
/// failure, which happens before anything was sent, moves on to the next
/// gateway; a timeout or another failure may already have changed server
/// state and is not retried.
pub fn after_send_failure(index: usize, is_connect: bool) -> (r: SendFailure)
    requires
        index < GATEWAY_COUNT,
    ensures
        r is TryNext <==> is_connect && index + 1 < GATEWAY_COUNT,
        r matches SendFailure::Fail(e) ==> is_error(e, 503, "无法连接服务器"@),
{
    if is_connect && index + 1 < GATEWAY_COUNT {
        SendFailure::TryNext
    } else {
        SendFailure::Fail(api_error(503, "无法连接服务器"))
    }
}

/// The envelope of every gateway reply.
#[derive(Debug)]
pub struct GatewayReply<D> {
    pub ok: bool,
    pub data: Option<D>,
    pub error: Option<String>,
}

/// A 2xx status.
pub open spec fn is_success_status(status: u16) -> bool {
    200 <= status <= 299
}

/// A 4xx status.
pub open spec fn is_client_error_status(status: u16) -> bool {
    400 <= status <= 499
}

/// Judges a gateway reply: `status` is the HTTP status and `reply` the
/// parsed envelope (`None` when the body was not a valid envelope).
pub fn gateway_outcome<D>(status: u16, reply: Option<GatewayReply<D>>) -> (r: Result<D, ApiError>)
    ensures
        reply is None ==> (r matches Err(e) && is_error(e, 502, "会员服务器返回格式错误"@)),
        reply matches Some(g) ==> {
            if !is_success_status(status) || !g.ok {
                &&& r matches Err(e)
                &&& r->Err_0.status == (if is_client_error_status(status) {
                    status
                } else {
                    502u16
                })
                &&& r->Err_0.message@ == match g.error {
                    Some(m) => m@,
                    None => "会员验证失败"@,
                }
            } else {
                match g.data {
                    Some(d) => r == Ok::<D, ApiError>(d),
                    None => (r matches Err(e) && is_error(e, 502, "会员服务器缺少数据"@)),
                }
            }
        },
{
    let g = match reply {
        Some(g) => g,
        None => {
            return Err(api_error(502, "会员服务器返回格式错误"));
        },
    };
    let success = 200 <= status && status <= 299;
    if !success || !g.ok {
        let code = if 400 <= status && status <= 499 {
            status
        } else {
            502
        };
        let message = match g.error {
            Some(m) => m,
            None => owned("会员验证失败"),
        };
        return Err(ApiError { status: code, message });
    }
    match g.data {
        Some(d) => Ok(d),
        None => Err(api_error(502, "会员服务器缺少数据")),
    }
}

/// A request to the local API with this path needs an active membership:
/// every `/api/` route except the membership routes and the configuration
/// probe.
pub open spec fn needs_membership(path: Seq<char>) -> bool {
    &&& has_prefix(path, "/api/"@)
    &&& !has_prefix(path, "/api/member/"@)
    &&& path != "/api/config/get_config"@
}

/// Whether a local API request for `path` may go through; `member` is
/// whether the client is an active member. Refused requests are answered
/// with `forbidden_error`.
pub fn require_active(path: &str, member: bool) -> (allowed: bool)
    ensures
        allowed == (!needs_membership(path@) || member),
{
    let p = chars_of(path);
    let api = chars_of("/api/");
    let member_api = chars_of("/api/member/");
    let probe = chars_of("/api/config/get_config");
    let is_probe = crate::text::equal_chars(p.as_slice(), probe.as_slice());
    let needs = starts_with_chars(p.as_slice(), api.as_slice()) && !starts_with_chars(
        p.as_slice(),
        member_api.as_slice(),
    ) && !is_probe;
    !needs || member
}

/// The answer to a request that `require_active` refused.
pub fn forbidden_error() -> (e: ApiError)
    ensures
        is_error(e, 403, "会员未开通或验证已失效"@),
{
    api_error(403, "会员未开通或验证已失效")
}

/// The periodic heartbeat is due after this many milliseconds since the
/// last one.
pub fn heartbeat_due(elapsed_ms: u128) -> (r: bool)
    ensures
        r == (elapsed_ms >= HEARTBEAT_INTERVAL_MS),
{
    elapsed_ms >= HEARTBEAT_INTERVAL_MS
}

/// A controlled device as the heartbeat sees it: whether it is the main
/// projection, and its session id.
#[derive(Debug)]
pub struct DeviceEntry {
    pub main: bool,
    pub scid: String,
}

/// A device entry as plain values.
pub open spec fn entry_view(d: DeviceEntry) -> (bool, Seq<char>) {
    (d.main, d.scid@)
}

/// The device list as plain values.
pub open spec fn entries_view(ds: Seq<DeviceEntry>) -> Seq<(bool, Seq<char>)> {
    ds.map_values(|d: DeviceEntry| entry_view(d))
}

/// The main projections in `ds` that have not been told to shut down yet
/// (`sent`), in list order, each once.
pub open spec fn newly_shut(sent: Set<Seq<char>>, ds: Seq<(bool, Seq<char>)>) -> Seq<Seq<char>>
    decreases ds.len(),
{
    if ds.len() == 0 {
        seq![]
    } else if ds[0].0 && !sent.contains(ds[0].1) {
        seq![ds[0].1] + newly_shut(sent.insert(ds[0].1), ds.drop_first())
    } else {
        newly_shut(sent, ds.drop_first())
    }
}

/// `sent` together with every main projection in `ds`.
pub open spec fn sent_after(sent: Set<Seq<char>>, ds: Seq<(bool, Seq<char>)>) -> Set<Seq<char>>
    decreases ds.len(),
{
    if ds.len() == 0 {
        sent
    } else if ds[0].0 {
        sent_after(sent.insert(ds[0].1), ds.drop_first())
    } else {
        sent_after(sent, ds.drop_first())
    }
}

/// Remembers which main projections were already told to shut down while
/// membership is missing, so that each is told once.
#[derive(Debug)]
pub struct ShutdownTracker {
    sent: Vec<String>,
}

impl View for ShutdownTracker {
    type V = Set<Seq<char>>;

    closed spec fn view(&self) -> Set<Seq<char>> {
        Set::new(|s: Seq<char>| exists|i: int| 0 <= i < self.sent@.len() && #[trigger] self.sent@[i]@ == s)
    }
}

impl ShutdownTracker {
    /// A tracker that has told no projection to shut down.
    pub fn new() -> (t: ShutdownTracker)
        ensures
            t@ == Set::<Seq<char>>::empty(),
    {
        let t = ShutdownTracker { sent: Vec::new() };
        assert(t@ =~= Set::<Seq<char>>::empty());
        t
    }

    fn contains(&self, scid: &String) -> (r: bool)
        ensures
            r == self@.contains(scid@),
    {
        let mut i: usize = 0;
        while i < self.sent.len()
            invariant
                i <= self.sent@.len(),
                forall|j: int| 0 <= j < i ==> self.sent@[j]@ != scid@,
            decreases self.sent@.len() - i,
        {
            if self.sent[i] == *scid {
                assert(self@.contains(scid@));
                return true;
            }
            i = i + 1;
        }
        false
    }

    fn insert(&mut self, scid: String)
        ensures
            final(self)@ == old(self)@.insert(scid@),
    {
        let ghost old_view = self@;
        self.sent.push(scid);
        assert forall|s: Seq<char>| #[trigger] self@.contains(s) == old_view.insert(scid@).contains(s) by {
            if self@.contains(s) {
                let i = choose|i: int| 0 <= i < self.sent@.len() && #[trigger] self.sent@[i]@ == s;
                if i < self.sent@.len() - 1 {
                    assert(old(self).sent@[i]@ == s);
                }
            }
            if old_view.contains(s) {
                let i = choose|i: int| 0 <= i < old(self).sent@.len() && #[trigger] old(self).sent@[i]@ == s;
                assert(self.sent@[i]@ == s);
            }
            if s == scid@ {
                assert(self.sent@[self.sent@.len() - 1]@ == s);
            }
        }
        assert(self@ =~= old_view.insert(scid@));
    }

    fn clear(&mut self)
        ensures
            final(self)@ == Set::<Seq<char>>::empty(),
    {
        self.sent.clear();
        assert(self@ =~= Set::<Seq<char>>::empty());
    }

    /// One heartbeat tick. While the client is an active member nothing is
    /// shut down and the memory is cleared; otherwise every main projection
    /// that was not told before is returned, in list order, and remembered.
    pub fn step(&mut self, member: bool, devices: &Vec<DeviceEntry>) -> (shut: Vec<String>)
        ensures
            member ==> final(self)@ == Set::<Seq<char>>::empty() && shut@.len() == 0,
            !member ==> strings_view(shut@) == newly_shut(old(self)@, entries_view(devices@))
                && final(self)@ == sent_after(old(self)@, entries_view(devices@)),
    {
        let mut shut: Vec<String> = Vec::new();
        if member {
            self.clear();
            return shut;
        }
        let ghost ds = entries_view(devices@);
        let ghost start = self@;
        let mut i: usize = 0;
        assert(ds.skip(0) =~= ds);
        assert(strings_view(shut@) + newly_shut(self@, ds) =~= newly_shut(start, ds));
        while i < devices.len()
            invariant
                i <= devices@.len(),
                ds == entries_view(devices@),
                strings_view(shut@) + newly_shut(self@, ds.skip(i as int)) == newly_shut(start, ds),
                sent_after(self@, ds.skip(i as int)) == sent_after(start, ds),
            decreases devices@.len() - i,
        {
            let d = &devices[i];
            let ghost before = self@;
            let ghost rest = ds.skip(i as int);
            assert(rest.drop_first() =~= ds.skip(i + 1));
            assert(rest[0] == entry_view(*d));
            if d.main && !self.contains(&d.scid) {
                self.insert(d.scid.clone());
                let ghost prev = strings_view(shut@);
                shut.push(d.scid.clone());
                assert(strings_view(shut@) =~= prev + seq![d.scid@]);
            } else if d.main {
                assert(before.insert(d.scid@) =~= before);
            }
            i = i + 1;
        }
        assert(ds.skip(devices@.len() as int) =~= Seq::<(bool, Seq<char>)>::empty());
        assert(strings_view(shut@) + Seq::<Seq<char>>::empty() =~= strings_view(shut@));
        shut
    }
}

/// Every main projection of `ds` is in `sent_after(sent, ds)`, and so is
/// everything in `sent`.
proof fn lemma_sent_after_covers(sent: Set<Seq<char>>, ds: Seq<(bool, Seq<char>)>)
    ensures
        forall|s: Seq<char>| sent.contains(s) ==> #[trigger] sent_after(sent, ds).contains(s),
        forall|i: int| 0 <= i < ds.len() && #[trigger] ds[i].0 ==> sent_after(sent, ds).contains(ds[i].1),
    decreases ds.len(),
{
    if ds.len() > 0 {
        let next = if ds[0].0 { sent.insert(ds[0].1) } else { sent };
        lemma_sent_after_covers(next, ds.drop_first());
        assert(sent_after(sent, ds) == sent_after(next, ds.drop_first()));
        assert forall|s: Seq<char>| sent.contains(s) implies #[trigger] sent_after(sent, ds).contains(s) by {
            assert(next.contains(s));
        }
        assert forall|i: int| 0 <= i < ds.len() && #[trigger] ds[i].0 implies sent_after(sent, ds).contains(ds[i].1) by {
            if i > 0 {
                assert(ds.drop_first()[i - 1] == ds[i]);
            } else {
                assert(next.contains(ds[0].1));
            }
        }
    }
}

/// Nothing is new when every main projection of `ds` is already in `sent`.
proof fn lemma_nothing_new(sent: Set<Seq<char>>, ds: Seq<(bool, Seq<char>)>)
    requires
        forall|i: int| 0 <= i < ds.len() && #[trigger] ds[i].0 ==> sent.contains(ds[i].1),
    ensures
        newly_shut(sent, ds) == Seq::<Seq<char>>::empty(),
    decreases ds.len(),
{
    if ds.len() > 0 {
        assert forall|i: int| 0 <= i < ds.drop_first().len() && #[trigger] ds.drop_first()[i].0 implies sent.contains(ds.drop_first()[i].1) by {
            assert(ds.drop_first()[i] == ds[i + 1]);
        }
        lemma_nothing_new(sent, ds.drop_first());
    }
}

/// While membership stays missing, a projection is told to shut down at
/// most once: a second heartbeat tick over the same device list, after the
/// first one, shuts nothing down.
pub proof fn law_shutdown_sent_once(sent: Set<Seq<char>>, ds: Seq<(bool, Seq<char>)>)
    ensures
        newly_shut(sent_after(sent, ds), ds) == Seq::<Seq<char>>::empty(),
{
    lemma_sent_after_covers(sent, ds);
    lemma_nothing_new(sent_after(sent, ds), ds);
}

/// Every projection that a tick shuts down is a main projection of the
/// list that had not been told before.
pub proof fn law_shutdown_only_new_main(sent: Set<Seq<char>>, ds: Seq<(bool, Seq<char>)>)
    ensures
        forall|k: int| 0 <= k < newly_shut(sent, ds).len() ==> !sent.contains(
            #[trigger] newly_shut(sent, ds)[k],
        ) && exists|i: int| 0 <= i < ds.len() && ds[i].0 && ds[i].1 == newly_shut(sent, ds)[k],
    decreases ds.len(),
{
    if ds.len() > 0 {
        let next = if ds[0].0 && !sent.contains(ds[0].1) { sent.insert(ds[0].1) } else { sent };
        law_shutdown_only_new_main(next, ds.drop_first());
        let tail = newly_shut(next, ds.drop_first());
        assert forall|k: int| 0 <= k < newly_shut(sent, ds).len() implies !sent.contains(
            #[trigger] newly_shut(sent, ds)[k],
        ) && exists|i: int| 0 <= i < ds.len() && ds[i].0 && ds[i].1 == newly_shut(sent, ds)[k] by {
            if ds[0].0 && !sent.contains(ds[0].1) {
                if k == 0 {
                    assert(newly_shut(sent, ds)[0] == ds[0].1);
                } else {
                    assert(newly_shut(sent, ds)[k] == tail[k - 1]);
                    let i = choose|i: int| 0 <= i < ds.drop_first().len() && ds.drop_first()[i].0 && ds.drop_first()[i].1 == tail[k - 1];
                    assert(ds[i + 1] == ds.drop_first()[i]);
                }
            } else {
                assert(newly_shut(sent, ds)[k] == tail[k]);
                let i = choose|i: int| 0 <= i < ds.drop_first().len() && ds.drop_first()[i].0 && ds.drop_first()[i].1 == tail[k];
                assert(ds[i + 1] == ds.drop_first()[i]);
            }
        }
    }
}

/// In a tick while membership is missing, every main projection of the
/// list that had not been told before is told to shut down.
pub proof fn law_shutdown_reaches_every_new_main(sent: Set<Seq<char>>, ds: Seq<(bool, Seq<char>)>)
    ensures
        forall|i: int| 0 <= i < ds.len() && (#[trigger] ds[i]).0 && !sent.contains(ds[i].1) ==> newly_shut(
            sent,
            ds,
        ).contains(ds[i].1),
    decreases ds.len(),
{
    if ds.len() > 0 {
        let next = if ds[0].0 && !sent.contains(ds[0].1) { sent.insert(ds[0].1) } else { sent };
        law_shutdown_reaches_every_new_main(next, ds.drop_first());
        let tail = newly_shut(next, ds.drop_first());
        assert forall|i: int| 0 <= i < ds.len() && (#[trigger] ds[i]).0 && !sent.contains(ds[i].1) implies newly_shut(
            sent,
            ds,
        ).contains(ds[i].1) by {
            if ds[0].0 && !sent.contains(ds[0].1) {
                assert(newly_shut(sent, ds) == seq![ds[0].1] + tail);
                if i == 0 || ds[i].1 == ds[0].1 {
                    assert(newly_shut(sent, ds)[0] == ds[0].1);
                } else {
                    assert(ds.drop_first()[i - 1] == ds[i]);
                    assert(!next.contains(ds[i].1));
                    let k = choose|k: int| 0 <= k < tail.len() && tail[k] == ds[i].1;
                    assert(newly_shut(sent, ds)[k + 1] == tail[k]);
                }
            } else {
                assert(i != 0);
                assert(ds.drop_first()[i - 1] == ds[i]);
            }
        }
    }
}

/// What is remembered after ticks over the device lists `lists`, one after
/// another, starting from `sent`, while membership stays missing.
pub open spec fn sent_after_ticks(sent: Set<Seq<char>>, lists: Seq<Seq<(bool, Seq<char>)>>) -> Set<
    Seq<char>,
>
    decreases lists.len(),
{
    if lists.len() == 0 {
        sent
    } else {
        sent_after(sent_after_ticks(sent, lists.drop_last()), lists.last())
    }
}

/// The projections that tick `i` of such a run shuts down.
pub open spec fn shut_at_tick(sent: Set<Seq<char>>, lists: Seq<Seq<(bool, Seq<char>)>>, i: int) -> Seq<
    Seq<char>,
> {
    newly_shut(sent_after_ticks(sent, lists.take(i)), lists[i])
}

proof fn lemma_sent_after_grows(sent: Set<Seq<char>>, ds: Seq<(bool, Seq<char>)>)
    ensures
        sent.subset_of(sent_after(sent, ds)),
    decreases ds.len(),
{
    if ds.len() > 0 {
        if ds[0].0 {
            lemma_sent_after_grows(sent.insert(ds[0].1), ds.drop_first());
        } else {
            lemma_sent_after_grows(sent, ds.drop_first());
        }
    }
}

proof fn lemma_shut_is_remembered(sent: Set<Seq<char>>, ds: Seq<(bool, Seq<char>)>)
    ensures
        forall|k: int| 0 <= k < newly_shut(sent, ds).len() ==> sent_after(sent, ds).contains(
            #[trigger] newly_shut(sent, ds)[k],
        ),
    decreases ds.len(),
{
    if ds.len() > 0 {
        let x = ds[0].1;
        if ds[0].0 && !sent.contains(x) {
            lemma_shut_is_remembered(sent.insert(x), ds.drop_first());
            lemma_sent_after_grows(sent.insert(x), ds.drop_first());
            let tail = newly_shut(sent.insert(x), ds.drop_first());
            assert forall|k: int| 0 <= k < newly_shut(sent, ds).len() implies sent_after(sent, ds).contains(
                #[trigger] newly_shut(sent, ds)[k],
            ) by {
                if k == 0 {
                    assert(newly_shut(sent, ds)[0] == x);
                } else {
                    assert(newly_shut(sent, ds)[k] == tail[k - 1]);
                }
            }
        } else if ds[0].0 {
            assert(sent.insert(x) =~= sent);
            lemma_shut_is_remembered(sent, ds.drop_first());
            assert(newly_shut(sent, ds) == newly_shut(sent, ds.drop_first()));
            assert(sent_after(sent, ds) == sent_after(sent, ds.drop_first()));
        } else {
            lemma_shut_is_remembered(sent, ds.drop_first());
            assert(newly_shut(sent, ds) == newly_shut(sent, ds.drop_first()));
            assert(sent_after(sent, ds) == sent_after(sent, ds.drop_first()));
        }
    }
}

proof fn lemma_shut_once_per_tick(sent: Set<Seq<char>>, ds: Seq<(bool, Seq<char>)>)
    ensures
        forall|k: int, l: int|
            0 <= k < l < newly_shut(sent, ds).len() ==> #[trigger] newly_shut(sent, ds)[k] != #[trigger] newly_shut(
                sent,
                ds,
            )[l],
    decreases ds.len(),
{
    if ds.len() > 0 {
        let x = ds[0].1;
        if ds[0].0 && !sent.contains(x) {
            let next = sent.insert(x);
            lemma_shut_once_per_tick(next, ds.drop_first());
            law_shutdown_only_new_main(next, ds.drop_first());
            let tail = newly_shut(next, ds.drop_first());
            let all = newly_shut(sent, ds);
            assert forall|k: int, l: int| 0 <= k < l < all.len() implies #[trigger] all[k] != #[trigger] all[l] by {
                assert(all[l] == tail[l - 1]);
                assert(!next.contains(tail[l - 1]));
                if k > 0 {
                    assert(all[k] == tail[k - 1]);
                }
            }
        } else {
            lemma_shut_once_per_tick(sent, ds.drop_first());
            assert(newly_shut(sent, ds) == newly_shut(sent, ds.drop_first()));
        }
    }
}

proof fn lemma_remembered_grows(sent: Set<Seq<char>>, lists: Seq<Seq<(bool, Seq<char>)>>, i: int, j: int)
    requires
        0 <= i <= j <= lists.len(),
    ensures
        sent_after_ticks(sent, lists.take(i)).subset_of(sent_after_ticks(sent, lists.take(j))),
    decreases j - i,
{
    if i < j {
        lemma_remembered_grows(sent, lists, i, j - 1);
        assert(lists.take(j).drop_last() =~= lists.take(j - 1));
        lemma_sent_after_grows(sent_after_ticks(sent, lists.take(j - 1)), lists.take(j).last());
    }
}

/// Over a run of heartbeat ticks while membership stays missing (the run
/// starting with what was remembered, `sent`, which a tick with membership
/// empties), each projection is told to shut down at most once: no
/// projection is shut down twice in one tick, nor in two different ticks,
/// and every one shut down is a main projection of its tick's list that was
/// not remembered before.
pub proof fn law_shutdown_once_per_run(sent: Set<Seq<char>>, lists: Seq<Seq<(bool, Seq<char>)>>)
    ensures
        forall|i: int, k: int, l: int|
            0 <= i < lists.len() && 0 <= k < l < shut_at_tick(sent, lists, i).len() ==> #[trigger] shut_at_tick(
                sent,
                lists,
                i,
            )[k] != #[trigger] shut_at_tick(sent, lists, i)[l],
        forall|i: int, j: int, k: int, l: int|
            0 <= i < j < lists.len() && 0 <= k < shut_at_tick(sent, lists, i).len() && 0 <= l
                < shut_at_tick(sent, lists, j).len() ==> #[trigger] shut_at_tick(sent, lists, i)[k]
                != #[trigger] shut_at_tick(sent, lists, j)[l],
        forall|i: int, k: int|
            0 <= i < lists.len() && 0 <= k < shut_at_tick(sent, lists, i).len() ==> !sent.contains(
                #[trigger] shut_at_tick(sent, lists, i)[k],
            ) && exists|d: int|
                0 <= d < lists[i].len() && lists[i][d].0 && lists[i][d].1 == shut_at_tick(sent, lists, i)[k],
{
    assert forall|i: int, k: int, l: int|
        0 <= i < lists.len() && 0 <= k < l < shut_at_tick(sent, lists, i).len() implies #[trigger] shut_at_tick(
            sent,
            lists,
            i,
        )[k] != #[trigger] shut_at_tick(sent, lists, i)[l] by {
        lemma_shut_once_per_tick(sent_after_ticks(sent, lists.take(i)), lists[i]);
    }
    assert forall|i: int, j: int, k: int, l: int|
        0 <= i < j < lists.len() && 0 <= k < shut_at_tick(sent, lists, i).len() && 0 <= l < shut_at_tick(
            sent,
            lists,
            j,
        ).len() implies #[trigger] shut_at_tick(sent, lists, i)[k] != #[trigger] shut_at_tick(sent, lists, j)[l] by {
        let si = sent_after_ticks(sent, lists.take(i));
        let sj = sent_after_ticks(sent, lists.take(j));
        lemma_shut_is_remembered(si, lists[i]);
        assert(lists.take(i + 1).drop_last() =~= lists.take(i));
        assert(lists.take(i + 1).last() == lists[i]);
        lemma_remembered_grows(sent, lists, i + 1, j);
        law_shutdown_only_new_main(sj, lists[j]);
        assert(sent_after(si, lists[i]).contains(shut_at_tick(sent, lists, i)[k]));
        assert(!sj.contains(shut_at_tick(sent, lists, j)[l]));
    }
    assert forall|i: int, k: int|
        0 <= i < lists.len() && 0 <= k < shut_at_tick(sent, lists, i).len() implies !sent.contains(
            #[trigger] shut_at_tick(sent, lists, i)[k],
        ) && exists|d: int|
            0 <= d < lists[i].len() && lists[i][d].0 && lists[i][d].1 == shut_at_tick(sent, lists, i)[k] by {
        let si = sent_after_ticks(sent, lists.take(i));
        law_shutdown_only_new_main(si, lists[i]);
        lemma_remembered_grows(sent, lists, 0, i);
        assert(lists.take(0) =~= Seq::<Seq<(bool, Seq<char>)>>::empty());
    }
}

/// A logged-out session is never an active member, however recently it
/// was checked.
pub proof fn law_logged_out_is_not_member(s: Session, elapsed_ms: Option<u128>)
    requires
        is_empty_session(s),
    ensures
        !active_within_grace(s.member, elapsed_ms),
{
}

/// Membership stays active for exactly the grace period after a successful
/// check, and never without one.
pub proof fn law_grace_period(member: bool, elapsed_ms: u128)
    ensures
        active_within_grace(member, Some(elapsed_ms)) <==> member && elapsed_ms < 90_000,
        !active_within_grace(member, None),
{
}

/// Requests outside `/api/`, the membership routes, and the configuration
/// probe never need a membership; an active member may make every request.
pub proof fn law_exempt_routes(path: Seq<char>)
    ensures
        !has_prefix(path, "/api/"@) ==> !needs_membership(path),
        has_prefix(path, "/api/member/"@) ==> !needs_membership(path),
        path == "/api/config/get_config"@ ==> !needs_membership(path),
{
}

/// After a logout, and with no login since, redeems and heartbeats that
/// were begun before it and complete afterwards, in any number and order,
/// never make the session an active member again: each of them leaves the
/// logged-out session as it is. `sessions[i + 1]` is the session after the
/// completion of a request made with `tokens[i]`.
pub proof fn law_stale_completions_after_logout(sessions: Seq<Session>, tokens: Seq<String>)
    requires
        sessions.len() == tokens.len() + 1,
        is_empty_session(sessions[0]),
        forall|i: int| 0 <= i < tokens.len() ==> stale_left_alone(#[trigger] sessions[i], tokens[i], sessions[i + 1]),
    ensures
        forall|i: int| 0 <= i < sessions.len() ==> #[trigger] is_empty_session(sessions[i]),
        forall|i: int| 0 <= i < sessions.len() ==> !(#[trigger] sessions[i]).member,
{
    assert forall|i: int| 0 <= i < sessions.len() implies #[trigger] is_empty_session(sessions[i]) by {
        lemma_stays_first(sessions, tokens, i);
    }
    assert forall|i: int| 0 <= i < sessions.len() implies !(#[trigger] sessions[i]).member by {
        lemma_stays_first(sessions, tokens, i);
    }
}

proof fn lemma_stays_first(sessions: Seq<Session>, tokens: Seq<String>, k: int)
    requires
        sessions.len() == tokens.len() + 1,
        is_empty_session(sessions[0]),
        forall|i: int| 0 <= i < tokens.len() ==> stale_left_alone(#[trigger] sessions[i], tokens[i], sessions[i + 1]),
        0 <= k < sessions.len(),
    ensures
        sessions[k] == sessions[0],
    decreases k,
{
    if k > 0 {
        lemma_stays_first(sessions, tokens, k - 1);
        assert(stale_left_alone(sessions[k - 1], tokens[k - 1], sessions[k]));
    }
}

} // verus!
