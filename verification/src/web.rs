//! Web mode: the official DeepSeek page shown in the same window as the local
//! interface. This module keeps the mode state and decides what the window
//! does on each navigation; the window itself is driven by the caller.
use vstd::prelude::*;

use crate::text::{chars_of, contains_chars, owned, push_str, replace_chars, str_eq, string_from_chars};
use crate::web_script::INJECT_JS;

verus! {

/// The label of the main window and of its main webview.
pub open spec fn main_window() -> Seq<char> {
    "main"@
}

/// The label of the DeepSeek child webview (where web mode overlays one).
pub open spec fn web_webview() -> Seq<char> {
    "deepseek"@
}

/// The current mode state.
#[derive(Clone, Debug)]
pub struct WebStateInner {
    /// Web mode is on.
    pub active: bool,
    /// The web view is hidden for a while, so that a local dialog shows.
    pub suppressed: bool,
    /// The address of the local home page, to come back to from web mode.
    pub home_url: String,
    /// Coming back from web mode is pending: the reloaded local page must
    /// switch its stored mode back to the API mode once.
    pub pending_api: bool,
}

impl Default for WebStateInner {
    fn default() -> (res: WebStateInner)
        ensures
            !res.active,
            !res.suppressed,
            res.home_url@.len() == 0,
            !res.pending_api,
    {
        WebStateInner { active: false, suppressed: false, home_url: String::new(), pending_api: false }
    }
}

/// The mode state, as a plain value (the caller decides how handlers share
/// it).
#[derive(Clone, Debug)]
pub struct WebState(pub WebStateInner);

impl Default for WebState {
    fn default() -> (res: WebState)
        ensures
            !res.0.active,
            !res.0.suppressed,
            res.0.home_url@.len() == 0,
            !res.0.pending_api,
    {
        WebState(WebStateInner::default())
    }
}

/// The state with `pending_api` read and cleared.
pub open spec fn after_take_pending(s: WebStateInner) -> WebStateInner {
    WebStateInner { pending_api: false, ..s }
}

/// The state after leaving web mode; where the main webview itself showed
/// DeepSeek (`main_hosts_web`), the switch back to the API mode is pending.
pub open spec fn after_leave(s: WebStateInner, main_hosts_web: bool) -> WebStateInner {
    WebStateInner {
        active: false,
        suppressed: false,
        pending_api: if main_hosts_web {
            true
        } else {
            s.pending_api
        },
        ..s
    }
}

impl WebState {
    pub fn is_active(&self) -> (res: bool)
        ensures
            res == self.0.active,
    {
        self.0.active
    }

    pub fn is_suppressed(&self) -> (res: bool)
        ensures
            res == self.0.suppressed,
    {
        self.0.suppressed
    }

    pub fn set_active(&mut self, v: bool)
        ensures
            final(self).0 == apply_op(old(self).0, WebStateOp::SetActive(v)),
            final(self).0 == (WebStateInner { active: v, ..old(self).0 }),
    {
        self.0.active = v;
    }

    pub fn set_suppressed(&mut self, v: bool)
        ensures
            final(self).0 == apply_op(old(self).0, WebStateOp::SetSuppressed(v)),
            final(self).0 == (WebStateInner { suppressed: v, ..old(self).0 }),
    {
        self.0.suppressed = v;
    }

    pub fn home_url(&self) -> (res: String)
        ensures
            res == self.0.home_url,
    {
        self.0.home_url.clone()
    }

    pub fn set_home_url(&mut self, v: String)
        ensures
            final(self).0 == apply_op(old(self).0, WebStateOp::SetHomeUrl(v)),
            final(self).0 == (WebStateInner { home_url: v, ..old(self).0 }),
    {
        self.0.home_url = v;
    }

    pub fn set_pending_api(&mut self, v: bool)
        ensures
            final(self).0 == apply_op(old(self).0, WebStateOp::SetPendingApi(v)),
            final(self).0 == (WebStateInner { pending_api: v, ..old(self).0 }),
    {
        self.0.pending_api = v;
    }

    /// Reads and clears `pending_api`: it is consumed once, so the correction
    /// is not applied twice.
    pub fn take_pending_api(&mut self) -> (res: bool)
        ensures
            final(self).0 == apply_op(old(self).0, WebStateOp::TakePendingApi),
            res == old(self).0.pending_api,
            final(self).0 == after_take_pending(old(self).0),
    {
        let v = self.0.pending_api;
        self.0.pending_api = false;
        v
    }

    /// Leaves web mode: the mode is off and nothing is hidden; where the main
    /// webview itself showed DeepSeek, coming back is marked pending. Returns
    /// the home page address, to which the main webview is sent back.
    pub fn leave_web_mode(&mut self, main_hosts_web: bool) -> (home: String)
        ensures
            final(self).0 == apply_op(old(self).0, WebStateOp::LeaveWebMode(main_hosts_web)),
            final(self).0 == after_leave(old(self).0, main_hosts_web),
            home == old(self).0.home_url,
    {
        self.0.active = false;
        self.0.suppressed = false;
        if main_hosts_web {
            self.0.pending_api = true;
        }
        self.0.home_url.clone()
    }

    /// The main webview navigates to `url_without_fragment` on host `host`. A
    /// local page (host containing `localhost` or `asset`) is recorded as the
    /// home page; where web mode shows DeepSeek in the main webview itself
    /// (`main_hosts_web`, as on Windows), being back on it also means web mode
    /// is over. The navigation itself is always allowed.
    pub fn note_main_navigation(&mut self, host: &str, url_without_fragment: String, main_hosts_web: bool) -> (allow: bool)
        ensures
            final(self).0 == apply_op(
                old(self).0,
                WebStateOp::NoteMainNavigation(is_local_host(host@), url_without_fragment, main_hosts_web),
            ),
            allow,
            is_local_host(host@) ==> final(self).0 == (WebStateInner {
                home_url: url_without_fragment,
                active: if main_hosts_web {
                    false
                } else {
                    old(self).0.active
                },
                ..old(self).0
            }),
            !is_local_host(host@) ==> final(self).0 == old(self).0,
    {
        let h = chars_of(host);
        let local = chars_of("localhost");
        let asset = chars_of("asset");
        if contains_chars(&h, &local) || contains_chars(&h, &asset) {
            self.0.home_url = url_without_fragment;
            if main_hosts_web {
                self.0.active = false;
            }
        }
        true
    }
}

/// What entering web mode has to do.
#[derive(Clone, Copy, Debug, PartialEq, Eq)]
pub enum Activation {
    /// Web mode is already on and showing: nothing to do.
    AlreadyOpen,
    /// Web mode is on but its overlaid view is hidden: show it again.
    Reveal,
    /// Web mode is off: open the DeepSeek page.
    Open,
}

/// What entering web mode decides for the state `s`.
pub open spec fn activation_of(s: WebStateInner, main_hosts_web: bool) -> Activation {
    if !s.active {
        Activation::Open
    } else if s.suppressed && !main_hosts_web {
        Activation::Reveal
    } else {
        Activation::AlreadyOpen
    }
}

/// The state right after entering web mode was asked for: a hidden view that
/// is revealed is no longer suppressed; nothing else changes yet (opening the
/// page is the caller's work, see `after_opened`).
pub open spec fn after_activation(s: WebStateInner, main_hosts_web: bool) -> WebStateInner {
    if activation_of(s, main_hosts_web) == Activation::Reveal {
        WebStateInner { suppressed: false, ..s }
    } else {
        s
    }
}

/// The state once the DeepSeek page was opened: web mode is on, and an
/// overlaid view starts out shown.
pub open spec fn after_opened(s: WebStateInner, main_hosts_web: bool) -> WebStateInner {
    if main_hosts_web {
        WebStateInner { active: true, ..s }
    } else {
        WebStateInner { active: true, suppressed: false, ..s }
    }
}

impl WebState {
    /// Asks to enter web mode and says what the caller has to do (see
    /// `Activation`). Where DeepSeek is shown in the main webview itself
    /// (`main_hosts_web`) nothing is ever hidden, so an active mode needs
    /// nothing; a hidden overlaid view is marked shown again.
    pub fn start_web_mode(&mut self, main_hosts_web: bool) -> (res: Activation)
        ensures
            final(self).0 == apply_op(old(self).0, WebStateOp::StartWebMode(main_hosts_web)),
            res == activation_of(old(self).0, main_hosts_web),
            final(self).0 == after_activation(old(self).0, main_hosts_web),
    {
        if !self.0.active {
            Activation::Open
        } else if self.0.suppressed && !main_hosts_web {
            self.0.suppressed = false;
            Activation::Reveal
        } else {
            Activation::AlreadyOpen
        }
    }

    /// Records that the DeepSeek page was opened (see `after_opened`).
    pub fn web_mode_opened(&mut self, main_hosts_web: bool)
        ensures
            final(self).0 == apply_op(old(self).0, WebStateOp::WebModeOpened(main_hosts_web)),
            final(self).0 == after_opened(old(self).0, main_hosts_web),
    {
        self.0.active = true;
        if !main_hosts_web {
            self.0.suppressed = false;
        }
    }
}

/// Entering web mode while it is on opens nothing and leaves it on; an
/// overlaid view ends up shown, and where DeepSeek is in the main webview the
/// state does not change at all.
pub proof fn lemma_activate_when_active(s: WebStateInner, main_hosts_web: bool)
    requires
        s.active,
    ensures
        activation_of(s, main_hosts_web) != Activation::Open,
        after_activation(s, main_hosts_web).active,
        !main_hosts_web ==> !after_activation(s, main_hosts_web).suppressed,
        main_hosts_web ==> after_activation(s, main_hosts_web) == s,
{
}

/// Entering web mode from off, once the page is opened, leaves it on and
/// (for an overlaid view) shown.
pub proof fn lemma_activate_when_inactive(s: WebStateInner, main_hosts_web: bool)
    requires
        !s.active,
    ensures
        activation_of(s, main_hosts_web) == Activation::Open,
        after_opened(after_activation(s, main_hosts_web), main_hosts_web).active,
        !main_hosts_web ==> !after_opened(after_activation(s, main_hosts_web), main_hosts_web).suppressed,
{
}

/// A host of the local interface: it contains `localhost` or `asset`.
pub open spec fn is_local_host(host: Seq<char>) -> bool {
    crate::text::has_infix(host, "localhost"@) || crate::text::has_infix(host, "asset"@)
}

/// The correction flag is consumed once: after leaving web mode in the main
/// webview, the first read reports it and a second read does not.
pub proof fn lemma_pending_api_consumed_once(s: WebStateInner)
    ensures
        after_leave(s, true).pending_api,
        !after_take_pending(after_leave(s, true)).pending_api,
        !after_take_pending(after_take_pending(s)).pending_api,
{
}

// ---------------------------------------------------------------------------
// Sequences of changes
// ---------------------------------------------------------------------------
/// A change made through one of `WebState`'s methods, with its arguments
/// (`NoteMainNavigation` records whether the host was local).
#[derive(Clone, Debug)]
pub enum WebStateOp {
    SetActive(bool),
    SetSuppressed(bool),
    SetHomeUrl(String),
    SetPendingApi(bool),
    TakePendingApi,
    LeaveWebMode(bool),
    NoteMainNavigation(bool, String, bool),
    StartWebMode(bool),
    WebModeOpened(bool),
}

/// The state after one change.
pub open spec fn apply_op(s: WebStateInner, op: WebStateOp) -> WebStateInner {
    match op {
        WebStateOp::SetActive(v) => WebStateInner { active: v, ..s },
        WebStateOp::SetSuppressed(v) => WebStateInner { suppressed: v, ..s },
        WebStateOp::SetHomeUrl(u) => WebStateInner { home_url: u, ..s },
        WebStateOp::SetPendingApi(v) => WebStateInner { pending_api: v, ..s },
        WebStateOp::TakePendingApi => after_take_pending(s),
        WebStateOp::LeaveWebMode(m) => after_leave(s, m),
        WebStateOp::NoteMainNavigation(local, u, m) => if local {
            WebStateInner {
                home_url: u,
                active: if m {
                    false
                } else {
                    s.active
                },
                ..s
            }
        } else {
            s
        },
        WebStateOp::StartWebMode(m) => after_activation(s, m),
        WebStateOp::WebModeOpened(m) => after_opened(s, m),
    }
}

/// The state after the changes `ops`, in order.
pub open spec fn apply_ops(s: WebStateInner, ops: Seq<WebStateOp>) -> WebStateInner
    decreases ops.len(),
{
    if ops.len() == 0 {
        s
    } else {
        apply_op(apply_ops(s, ops.drop_last()), ops.last())
    }
}

/// The value a change gives `active`, if it sets it.
pub open spec fn sets_active(op: WebStateOp) -> Option<bool> {
    match op {
        WebStateOp::SetActive(v) => Some(v),
        WebStateOp::LeaveWebMode(_) => Some(false),
        WebStateOp::NoteMainNavigation(local, _, m) => if local && m {
            Some(false)
        } else {
            None
        },
        WebStateOp::WebModeOpened(_) => Some(true),
        _ => None,
    }
}

/// The value of `active` that the last change setting it gave, or `init`.
pub open spec fn last_active(init: bool, ops: Seq<WebStateOp>) -> bool
    decreases ops.len(),
{
    if ops.len() == 0 {
        init
    } else {
        match sets_active(ops.last()) {
            Some(v) => v,
            None => last_active(init, ops.drop_last()),
        }
    }
}

/// `is_active` reports the value given by the last change that set it (the
/// mode starts off), whatever other changes came in between.
pub proof fn lemma_active_is_last_set(s: WebStateInner, ops: Seq<WebStateOp>)
    ensures
        apply_ops(s, ops).active == last_active(s.active, ops),
    decreases ops.len(),
{
    if ops.len() > 0 {
        lemma_active_is_last_set(s, ops.drop_last());
    }
}

/// After `set_active(v)`, changes that do not set `active` leave it `v`.
pub proof fn lemma_set_active_then_others(s: WebStateInner, v: bool, ops: Seq<WebStateOp>)
    requires
        forall|i: int| 0 <= i < ops.len() ==> sets_active(#[trigger] ops[i]) is None,
    ensures
        apply_ops(s, seq![WebStateOp::SetActive(v)] + ops).active == v,
    decreases ops.len(),
{
    let all = seq![WebStateOp::SetActive(v)] + ops;
    lemma_active_is_last_set(s, all);
    lemma_last_active_skips(s.active, v, ops);
}

proof fn lemma_last_active_skips(init: bool, v: bool, ops: Seq<WebStateOp>)
    requires
        forall|i: int| 0 <= i < ops.len() ==> sets_active(#[trigger] ops[i]) is None,
    ensures
        last_active(init, seq![WebStateOp::SetActive(v)] + ops) == v,
    decreases ops.len(),
{
    let all = seq![WebStateOp::SetActive(v)] + ops;
    if ops.len() == 0 {
        assert(all.drop_last() =~= Seq::<WebStateOp>::empty());
    } else {
        assert(all.drop_last() =~= seq![WebStateOp::SetActive(v)] + ops.drop_last());
        assert(sets_active(ops[ops.len() - 1]) is None);
        lemma_last_active_skips(init, v, ops.drop_last());
    }
}

// ---------------------------------------------------------------------------
// Scripts run in the web page
// ---------------------------------------------------------------------------
/// The page script with the memory snapshot `memories_json` baked in where the
/// placeholder `__DSONDT_MEMORIES__` stands.
pub fn inject_script(memories_json: &str) -> (res: String)
    ensures
        res@ == crate::text::replace_all(INJECT_JS@, "__DSONDT_MEMORIES__"@, memories_json@),
{
    let script = chars_of(INJECT_JS);
    let placeholder = chars_of("__DSONDT_MEMORIES__");
    proof {
        reveal_strlit("__DSONDT_MEMORIES__");
    }
    let with = chars_of(memories_json);
    let out = replace_chars(&script, &placeholder, &with);
    string_from_chars(&out)
}

/// The script that hands a new memory snapshot to an open web page.
pub open spec fn push_script_text(json: Seq<char>) -> Seq<char> {
    "try{window.__DSONDT__&&window.__DSONDT__.setMemories("@ + json + ")}catch(e){}"@
}

/// Builds the script that hands the snapshot `json` to the web page.
pub fn memories_push_script(json: &str) -> (res: String)
    ensures
        res@ == push_script_text(json@),
{
    let mut out: Vec<char> = Vec::new();
    push_str(&mut out, "try{window.__DSONDT__&&window.__DSONDT__.setMemories(");
    push_str(&mut out, json);
    push_str(&mut out, ")}catch(e){}");
    assert(out@ =~= push_script_text(json@));
    string_from_chars(&out)
}

// ---------------------------------------------------------------------------
// Requests from the web page
// ---------------------------------------------------------------------------
/// An action that the web page asks of the host through a `dsondt://<action>`
/// navigation.
#[derive(Clone, Copy, Debug, PartialEq, Eq)]
pub enum DsondtAction {
    /// Hide the web view and open the memory panel of the local interface.
    OpenMemory,
    /// An unknown action: ignored.
    Ignore,
}

/// What the DeepSeek webview does with a navigation.
#[derive(Clone, Copy, Debug, PartialEq, Eq)]
pub enum ChildNavigation {
    /// Navigate as asked.
    Allow,
    /// Do not navigate; perform the action instead.
    Intercept(DsondtAction),
}

/// A navigation with the scheme `dsondt` is a request from the page: it is
/// stopped, and its host names the action.
pub fn child_navigation(scheme: &str, host: &str) -> (res: ChildNavigation)
    ensures
        scheme@ != "dsondt"@ ==> res == ChildNavigation::Allow,
        scheme@ == "dsondt"@ && host@ == "open-memory"@ ==> res == ChildNavigation::Intercept(
            DsondtAction::OpenMemory,
        ),
        scheme@ == "dsondt"@ && host@ != "open-memory"@ ==> res == ChildNavigation::Intercept(
            DsondtAction::Ignore,
        ),
{
    if !str_eq(scheme, "dsondt") {
        return ChildNavigation::Allow;
    }
    if str_eq(host, "open-memory") {
        ChildNavigation::Intercept(DsondtAction::OpenMemory)
    } else {
        ChildNavigation::Intercept(DsondtAction::Ignore)
    }
}

/// The event the local interface listens to for opening the memory panel.
pub fn open_memory_event_script() -> (res: String)
    ensures
        res@ == "window.dispatchEvent(new CustomEvent('dsondt:open-memory'))"@,
{
    owned("window.dispatchEvent(new CustomEvent('dsondt:open-memory'))")
}

/// The refusal of an address that is not a web page.
pub open spec fn url_refusal() -> Seq<char> {
    "仅允许打开 http/https 链接"@
}

/// Only `https://` and `http://` addresses are opened in the system browser.
pub fn check_external_url(url: &str) -> (res: Result<(), String>)
    ensures
        res is Ok <==> crate::text::has_prefix(url@, "https://"@) || crate::text::has_prefix(
            url@,
            "http://"@,
        ),
        res matches Err(e) ==> e@ == url_refusal(),
{
    let u = chars_of(url);
    let https = chars_of("https://");
    let http = chars_of("http://");
    if crate::text::starts_with(&u, &https) || crate::text::starts_with(&u, &http) {
        Ok(())
    } else {
        Err(owned("仅允许打开 http/https 链接"))
    }
}

} // verus!
