//! Start-up decisions of the client: whether another instance already
//! answers on the configured port, which local ports the servers take, and
//! the management web view's address, size and visibility.

use vstd::prelude::*;
use crate::text::{chars_of, contains_chars, decimal, has_infix, has_prefix, push_decimal, push_str, starts_with_chars, string_from_chars};

verus! {

broadcast use vstd::string::group_string_axioms;

/// How many port offsets past the configured ports are tried.
pub const PORT_FALLBACK_ATTEMPTS: u16 = 512;

/// `0.0.0.0`, the unspecified IPv4 address.
pub open spec fn is_unspecified(addr: [u8; 4]) -> bool {
    addr@ == seq![0u8, 0u8, 0u8, 0u8]
}

fn unspecified(addr: [u8; 4]) -> (r: bool)
    ensures
        r == is_unspecified(addr),
{
    let r = addr[0] == 0 && addr[1] == 0 && addr[2] == 0 && addr[3] == 0;
    if r {
        assert(addr@ =~= seq![0u8, 0u8, 0u8, 0u8]);
    }
    r
}

/// The address to reach the local web server at: loopback when it binds
/// to all interfaces, otherwise its bind address.
pub fn connect_ip(bind: [u8; 4]) -> (r: [u8; 4])
    ensures
        is_unspecified(bind) ==> r@ == seq![127u8, 0u8, 0u8, 1u8],
        !is_unspecified(bind) ==> r == bind,
{
    if unspecified(bind) {
        let r: [u8; 4] = [127, 0, 0, 1];
        assert(r@ =~= seq![127u8, 0u8, 0u8, 1u8]);
        r
    } else {
        bind
    }
}

/// The request sent to a running instance's configuration endpoint.
pub fn instance_probe_request() -> (r: &'static str)
    ensures
        r@ == "GET /api/config/get_config HTTP/1.1\r\nHost: localhost\r\nConnection: close\r\n\r\n"@,
{
    "GET /api/config/get_config HTTP/1.1\r\nHost: localhost\r\nConnection: close\r\n\r\n"
}

/// A response that only a running instance of this client gives: a
/// `200` status and a configuration naming both ports.
pub open spec fn is_instance_reply(response: Seq<char>) -> bool {
    &&& has_prefix(response, "HTTP/1.1 200"@)
    &&& has_infix(response, "\"web_port\""@)
    &&& has_infix(response, "\"controller_port\""@)
}

/// Whether the configuration endpoint's full response shows that another
/// instance of this client is running.
pub fn is_instance_response(response: &str) -> (r: bool)
    ensures
        r == is_instance_reply(response@),
{
    let text = chars_of(response);
    let status = chars_of("HTTP/1.1 200");
    let web = chars_of("\"web_port\"");
    let controller = chars_of("\"controller_port\"");
    starts_with_chars(text.as_slice(), status.as_slice()) && contains_chars(
        text.as_slice(),
        web.as_slice(),
    ) && contains_chars(text.as_slice(), controller.as_slice())
}

/// Both ports shifted by `offset` still fit in 16 bits.
pub open spec fn offset_fits(controller: u16, web: u16, offset: int) -> bool {
    controller + offset <= u16::MAX && web + offset <= u16::MAX
}

/// The pair of ports at `offset` was unusable: the two ports coincide, or
/// the probe reported them busy.
pub open spec fn tried_busy<F: Fn(u16, u16) -> bool>(ports_free: F, controller: u16, web: u16, offset: int) -> bool {
    &&& offset_fits(controller, web, offset)
    &&& (controller == web || call_ensures(
        ports_free,
        ((controller + offset) as u16, (web + offset) as u16),
        false,
    ))
}

/// The search found the pair `p`: both ports are shifted by the same
/// offset (at most 512), all smaller offsets were unusable, the two ports
/// differ, and the probe reported them free.
pub open spec fn found_pair<F: Fn(u16, u16) -> bool>(
    ports_free: F,
    controller: u16,
    web: u16,
    p: (u16, u16),
) -> bool {
    let offset = p.0 - controller;
    &&& 0 <= offset <= PORT_FALLBACK_ATTEMPTS
    &&& p.1 == web + offset
    &&& controller != web
    &&& call_ensures(ports_free, (p.0, p.1), true)
    &&& forall|k: int| 0 <= k < offset ==> #[trigger] tried_busy(ports_free, controller, web, k)
}

/// The local ports for the controller and web servers: the configured
/// pair, or the first pair shifted by the same offset (up to 512) whose
/// ports differ and that `ports_free` reports free (it binds both). The
/// search stops without a result when a shifted port would not fit in 16
/// bits; as larger offsets do not fit either, no result means that every
/// offset that fits was unusable.
pub fn select_available_server_ports<F: Fn(u16, u16) -> bool>(
    controller: u16,
    web: u16,
    ports_free: F,
) -> (r: Option<(u16, u16)>)
    requires
        forall|c: u16, w: u16| ports_free.requires((c, w)),
    ensures
        r matches Some(p) ==> found_pair(ports_free, controller, web, p),
        r is None ==> forall|k: int|
            0 <= k <= PORT_FALLBACK_ATTEMPTS && offset_fits(controller, web, k) ==> #[trigger] tried_busy(
                ports_free,
                controller,
                web,
                k,
            ),
{
    let mut offset: u16 = 0;
    loop
        invariant
            offset <= PORT_FALLBACK_ATTEMPTS,
            forall|c: u16, w: u16| ports_free.requires((c, w)),
            forall|k: int| 0 <= k < offset ==> #[trigger] tried_busy(ports_free, controller, web, k),
        decreases PORT_FALLBACK_ATTEMPTS - offset,
    {
        let c = match controller.checked_add(offset) {
            Some(c) => c,
            None => {
                return None;
            },
        };
        let w = match web.checked_add(offset) {
            Some(w) => w,
            None => {
                return None;
            },
        };
        if c != w && ports_free(c, w) {
            return Some((c, w));
        }
        assert(tried_busy(ports_free, controller, web, offset as int));
        if offset == PORT_FALLBACK_ATTEMPTS {
            return None;
        }
        offset = offset + 1;
    }
}

/// The size given to the management web view: the window's physical size,
/// at least one pixel each way.
pub fn webview_bounds(width: u32, height: u32) -> (r: (u32, u32))
    ensures
        r.0 == if width >= 1 { width } else { 1 },
        r.1 == if height >= 1 { height } else { 1 },
{
    (if width >= 1 { width } else { 1 }, if height >= 1 { height } else { 1 })
}

/// An IPv4 address in dotted decimal.
pub open spec fn dotted(addr: Seq<u8>) -> Seq<char> {
    decimal(addr[0] as nat) + "."@ + decimal(addr[1] as nat) + "."@ + decimal(addr[2] as nat) + "."@
        + decimal(addr[3] as nat)
}

/// The management page's address: `http://{host}:{port}`, where the host
/// is `127.0.0.1` for a server bound to all interfaces.
pub open spec fn management_url(bind: [u8; 4], port: u16) -> Seq<char> {
    "http://"@ + (if is_unspecified(bind) {
        "127.0.0.1"@
    } else {
        dotted(bind@)
    }) + ":"@ + decimal(port as nat)
}

/// The address of the management page served by the local web server.
pub fn webview_url(bind: [u8; 4], port: u16) -> (r: String)
    ensures
        r@ == management_url(bind, port),
{
    let mut out = chars_of("http://");
    if unspecified(bind) {
        push_str(&mut out, "127.0.0.1");
    } else {
        push_decimal(&mut out, bind[0] as u64);
        push_str(&mut out, ".");
        push_decimal(&mut out, bind[1] as u64);
        push_str(&mut out, ".");
        push_decimal(&mut out, bind[2] as u64);
        push_str(&mut out, ".");
        push_decimal(&mut out, bind[3] as u64);
    }
    push_str(&mut out, ":");
    push_decimal(&mut out, port as u64);
    assert(out@ =~= management_url(bind, port));
    string_from_chars(out.as_slice())
}

/// The management web view's bookkeeping: whether one has been built and
/// kept, and the size and visibility it last applied.
#[derive(Debug)]
pub struct WebViewSync {
    pub built: bool,
    pub last_size: (u32, u32),
    pub last_visible: bool,
}

impl Default for WebViewSync {
    fn default() -> (s: WebViewSync)
        ensures
            !s.built,
            s.last_size == (0u32, 0u32),
            !s.last_visible,
    {
        WebViewSync { built: false, last_size: (0, 0), last_visible: false }
    }
}

/// A web view is built on a frame only while none has been kept, and only
/// when the retry timer has just run out.
pub open spec fn build_due_spec(s: WebViewSync, retry_timer_finished: bool) -> bool {
    !s.built && retry_timer_finished
}

/// The updates one frame asks of the web view.
#[derive(Debug)]
pub struct WebViewUpdates {
    pub resize: bool,
    pub change_visibility: bool,
}

impl WebViewSync {
    /// Whether the web view is built on this frame.
    pub fn build_due(&self, retry_timer_finished: bool) -> (r: bool)
        ensures
            r == build_due_spec(*self, retry_timer_finished),
    {
        !self.built && retry_timer_finished
    }

    /// The web view was just built and kept at `size` with visibility
    /// `visible`.
    pub fn created(&mut self, size: (u32, u32), visible: bool)
        ensures
            final(self).built,
            final(self).last_size == size,
            final(self).last_visible == visible,
    {
        self.built = true;
        self.last_size = size;
        self.last_visible = visible;
    }

    /// The updates needed to bring the web view to `size` and `visible`.
    pub fn plan(&self, size: (u32, u32), visible: bool) -> (u: WebViewUpdates)
        ensures
            u.resize == (size != self.last_size),
            u.change_visibility == (visible != self.last_visible),
    {
        WebViewUpdates {
            resize: size.0 != self.last_size.0 || size.1 != self.last_size.1,
            change_visibility: visible != self.last_visible,
        }
    }

    /// Records the outcome of resizing to `size`; a failed resize is
    /// retried on a later frame.
    pub fn resized(&mut self, size: (u32, u32), ok: bool)
        ensures
            final(self).last_size == if ok { size } else { old(self).last_size },
            final(self).last_visible == old(self).last_visible,
            final(self).built == old(self).built,
    {
        if ok {
            self.last_size = size;
        }
    }

    /// Records the outcome of changing the visibility to `visible`; a
    /// failure is retried on a later frame.
    pub fn visibility_set(&mut self, visible: bool, ok: bool)
        ensures
            final(self).last_visible == if ok { visible } else { old(self).last_visible },
            final(self).last_size == old(self).last_size,
            final(self).built == old(self).built,
    {
        if ok {
            self.last_visible = visible;
        }
    }
}

/// Once a web view has been built and kept it is never built again: over
/// a run of frames in which the bookkeeping only changes by its methods
/// (none of which forgets a kept web view), no frame after the one that
/// kept it is due to build another, whatever the retry timer says.
pub proof fn law_webview_built_once(frames: Seq<WebViewSync>, timers: Seq<bool>, kept: int)
    requires
        frames.len() == timers.len(),
        0 <= kept < frames.len(),
        frames[kept].built,
        forall|i: int| 0 <= i < frames.len() - 1 ==> #[trigger] frames[i].built ==> frames[i + 1].built,
    ensures
        forall|j: int| kept <= j < frames.len() ==> !build_due_spec(#[trigger] frames[j], timers[j]),
{
    assert forall|j: int| kept <= j < frames.len() implies !build_due_spec(#[trigger] frames[j], timers[j]) by {
        lemma_stays_built(frames, kept, j);
    }
}

proof fn lemma_stays_built(frames: Seq<WebViewSync>, kept: int, j: int)
    requires
        0 <= kept <= j < frames.len(),
        frames[kept].built,
        forall|i: int| 0 <= i < frames.len() - 1 ==> #[trigger] frames[i].built ==> frames[i + 1].built,
    ensures
        frames[j].built,
    decreases j - kept,
{
    if j > kept {
        lemma_stays_built(frames, kept, j - 1);
        assert(frames[j - 1].built);
    }
}

} // verus!
