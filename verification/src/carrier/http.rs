//! Requests that carry a session, and the answer to all others.
//!
//! The client puts its token into the cookie `sid`, and the same bytes are the
//! prologue of the Noise handshake. A request without a good token, or to any other
//! path, gets the site that anyone gets: a probe sees nothing else.
//!
//! A session takes one `POST` to the tunnel's path, or a pair of requests below it,
//! `GET {pid}/down` and `POST {pid}/up`, on one connection.

use crate::text;
use crate::wire::auth;
use crate::wire::auth::{AuthToken, TokenView};
use crate::wire::replay;
use crate::wire::replay::ReplayGuard;
use std::time::SystemTime;
use vstd::prelude::*;

verus! {

/// The method of a request, as far as it matters.
#[derive(Debug, Clone, Copy, PartialEq, Eq, Structural)]
pub enum Method {
    Get,
    Post,
    Other,
}

/// The direction of half a session.
#[derive(Debug, Clone, Copy, PartialEq, Eq, Structural)]
pub enum Dir {
    Up,
    Down,
}

/// The last part of the path of half a session.
pub open spec fn dir_tail(dir: Dir) -> Seq<char> {
    match dir {
        Dir::Up => "up"@,
        Dir::Down => "down"@,
    }
}

/// The method of half a session.
pub open spec fn dir_method(dir: Dir) -> Method {
    match dir {
        Dir::Up => Method::Post,
        Dir::Down => Method::Get,
    }
}

/// The path of half a session.
pub open spec fn segment_path(base: Seq<char>, pid: Seq<char>, dir: Dir) -> Seq<char> {
    base + "/"@ + pid + "/"@ + dir_tail(dir)
}

/// Whether a request is for half a session with this name.
pub open spec fn is_segment(
    base: Seq<char>,
    method: Method,
    path: Seq<char>,
    pid: Seq<char>,
    dir: Dir,
) -> bool {
    &&& pid.len() > 0
    &&& !pid.contains('/')
    &&& path == segment_path(base, pid, dir)
    &&& method == dir_method(dir)
}

/// The half a session that a request is for.
pub open spec fn segment_of(base: Seq<char>, method: Method, path: Seq<char>) -> Option<
    (Seq<char>, Dir),
> {
    if exists|pid: Seq<char>, dir: Dir| is_segment(base, method, path, pid, dir) {
        Some(choose|pid: Seq<char>, dir: Dir| is_segment(base, method, path, pid, dir))
    } else {
        None
    }
}

/// What the cookie header holds: the token, and behind it the constant of a profile, if
/// there is one.
pub open spec fn cookie_chars(t: TokenView, constant: Option<Seq<char>>) -> Seq<char> {
    match constant {
        Some(v) => "sid="@ + t.text() + "; v="@ + v,
        None => "sid="@ + t.text(),
    }
}

/// A text that may be missing.
pub open spec fn chars_if_any(s: Option<&str>) -> Option<Seq<char>> {
    match s {
        Some(s) => Some(s@),
        None => None,
    }
}

/// Whether a text begins with another.
pub open spec fn has_prefix(s: Seq<char>, prefix: Seq<char>) -> bool {
    s.len() >= prefix.len() && s.take(prefix.len() as int) == prefix
}

/// The value of the cookie `sid` in a cookie header: parts are parted by `;` and
/// trimmed, and the first that begins with `sid=` counts.
pub open spec fn sid_of(header: Seq<char>) -> Option<Seq<char>>
    decreases header.len(),
{
    let end = text::first_index(header, ';');
    let part = text::trimmed(header.take(end));
    if has_prefix(part, "sid="@) {
        Some(part.skip(4))
    } else if 0 <= end < header.len() {
        sid_of(header.skip(end + 1))
    } else {
        None
    }
}

/// The token that a text stands for.
pub open spec fn token_of(sid: Seq<char>) -> Option<TokenView> {
    if exists|t: TokenView| t.well_formed() && #[trigger] t.text() == sid {
        Some(choose|t: TokenView| t.well_formed() && #[trigger] t.text() == sid)
    } else {
        None
    }
}

/// The token that a text stands for and the epoch on which it is accepted.
pub open spec fn verified(sid: Seq<char>, psk: Seq<u8>, now: u64) -> Option<(TokenView, u64)> {
    match token_of(sid) {
        None => None,
        Some(t) => match auth::accepted_epoch(t, psk, now) {
            None => None,
            Some(e) => Some((t, e)),
        },
    }
}

/// The same of a cookie header, if there is one.
pub open spec fn presented(header: Option<Seq<char>>, psk: Seq<u8>, now: u64) -> Option<
    (TokenView, u64),
> {
    match header {
        None => None,
        Some(h) => match sid_of(h) {
            None => None,
            Some(sid) => verified(sid, psk, now),
        },
    }
}

/// What authorising a token does: one that is accepted is noted, and refused if it was
/// noted before.
pub open spec fn authorized(
    sid: Seq<char>,
    psk: Seq<u8>,
    now: u64,
    pre: ReplayGuard,
    post: ReplayGuard,
    raw: Option<Seq<u8>>,
) -> bool {
    match verified(sid, psk, now) {
        None => raw is None && post == pre,
        Some((t, e)) => {
            &&& replay::observed(pre, post, e, t.nonce)
            &&& raw == (if pre.seen(e, t.nonce) {
                None
            } else {
                Some(t.raw())
            })
        },
    }
}

/// A request, as far as it matters.
pub struct RequestView {
    pub method: Method,
    pub path: Seq<char>,
    pub cookie: Option<Seq<char>>,
}

/// Half a session that waits for its other half.
pub struct HalfView {
    pub dir: Dir,
    pub auth: Seq<u8>,
}

/// What a router goes by: the secret, the tunnel's path and the halves that wait.
pub struct RouterView {
    pub psk: Seq<u8>,
    pub tunnel_path: Seq<char>,
    pub pending: Map<Seq<char>, HalfView>,
}

/// A router at which nothing waits.
pub open spec fn fresh_router(psk: Seq<u8>, tunnel_path: Seq<char>) -> RouterView {
    RouterView { psk, tunnel_path, pending: Map::<Seq<char>, HalfView>::empty() }
}

/// What becomes of a request.
#[derive(Debug, Clone, PartialEq, Eq)]
pub enum Route {
    /// A session over this request alone.
    StreamOne { auth: [u8; 44] },
    /// The first half of a session: keep it until the other comes.
    Half { pid: String, dir: Dir, auth: [u8; 44] },
    /// The other half of the one that waits under `pid`: a session over both.
    Pair { pid: String, dir: Dir, auth: [u8; 44] },
    /// The same half once more: answer it, and drop it and the one that waits.
    Clash { pid: String, dir: Dir },
    /// The site that anyone gets.
    Fallback,
}

/// What a route says.
pub enum RouteView {
    StreamOne { auth: Seq<u8> },
    Half { pid: Seq<char>, dir: Dir, auth: Seq<u8> },
    Pair { pid: Seq<char>, dir: Dir, auth: Seq<u8> },
    Clash { pid: Seq<char>, dir: Dir },
    Fallback,
}

impl View for Route {
    type V = RouteView;

    open spec fn view(&self) -> RouteView {
        match self {
            Route::StreamOne { auth } => RouteView::StreamOne { auth: auth@ },
            Route::Half { pid, dir, auth } => RouteView::Half {
                pid: pid@,
                dir: *dir,
                auth: auth@,
            },
            Route::Pair { pid, dir, auth } => RouteView::Pair {
                pid: pid@,
                dir: *dir,
                auth: auth@,
            },
            Route::Clash { pid, dir } => RouteView::Clash { pid: pid@, dir: *dir },
            Route::Fallback => RouteView::Fallback,
        }
    }
}

/// What routing a request does to the router and to the guard against replays.
pub open spec fn routed(
    pre: RouterView,
    post: RouterView,
    guard: ReplayGuard,
    guard_after: ReplayGuard,
    req: RequestView,
    now: u64,
    route: RouteView,
) -> bool {
    let credentials = presented(req.cookie, pre.psk, now);
    if req.method == Method::Post && req.path == pre.tunnel_path {
        &&& post == pre
        &&& match credentials {
            None => guard_after == guard && route == RouteView::Fallback,
            Some((t, e)) => {
                &&& replay::observed(guard, guard_after, e, t.nonce)
                &&& route == (if guard.seen(e, t.nonce) {
                    RouteView::Fallback
                } else {
                    RouteView::StreamOne { auth: t.raw() }
                })
            },
        }
    } else {
        match segment_of(pre.tunnel_path, req.method, req.path) {
            None => post == pre && guard_after == guard && route == RouteView::Fallback,
            Some((pid, dir)) => match credentials {
                None => post == pre && guard_after == guard && route == RouteView::Fallback,
                Some((t, e)) => if pre.pending.contains_key(pid) {
                    let half = pre.pending[pid];
                    &&& guard_after == guard
                    &&& if half.auth != t.raw() {
                        post == pre && route == RouteView::Fallback
                    } else {
                        &&& post == (RouterView { pending: pre.pending.remove(pid), ..pre })
                        &&& route == (if half.dir == dir {
                            RouteView::Clash { pid, dir }
                        } else {
                            RouteView::Pair { pid, dir, auth: t.raw() }
                        })
                    }
                } else {
                    &&& replay::observed(guard, guard_after, e, t.nonce)
                    &&& if guard.seen(e, t.nonce) {
                        post == pre && route == RouteView::Fallback
                    } else {
                        &&& post == (RouterView {
                            pending: pre.pending.insert(pid, HalfView { dir, auth: t.raw() }),
                            ..pre
                        })
                        &&& route == (RouteView::Half { pid, dir, auth: t.raw() })
                    }
                },
            },
        }
    }
}

struct Pending {
    pid: String,
    dir: Dir,
    auth: [u8; 44],
}

spec fn stands_at(s: Seq<Pending>, pid: Seq<char>, i: int) -> bool {
    0 <= i < s.len() && s[i].pid@ == pid
}

spec fn table(s: Seq<Pending>) -> Map<Seq<char>, HalfView> {
    Map::new(
        |pid: Seq<char>| exists|i: int| stands_at(s, pid, i),
        |pid: Seq<char>|
            {
                let i = choose|i: int| stands_at(s, pid, i);
                HalfView { dir: s[i].dir, auth: s[i].auth@ }
            },
    )
}

spec fn distinct(s: Seq<Pending>) -> bool {
    forall|i: int, j: int| 0 <= i < j < s.len() ==> (#[trigger] s[i]).pid@ != (#[trigger] s[j]).pid@
}

proof fn lemma_table_at(s: Seq<Pending>, i: int)
    requires
        distinct(s),
        0 <= i < s.len(),
    ensures
        table(s).contains_key(s[i].pid@),
        table(s)[s[i].pid@] == (HalfView { dir: s[i].dir, auth: s[i].auth@ }),
{
    assert(stands_at(s, s[i].pid@, i));
    let j = choose|j: int| stands_at(s, s[i].pid@, j);
    assert(stands_at(s, s[i].pid@, j));
    if i < j {
        assert(s[i].pid@ != s[j].pid@);
    } else if j < i {
        assert(s[j].pid@ != s[i].pid@);
    }
}

proof fn lemma_table_push(s: Seq<Pending>, p: Pending)
    requires
        distinct(s),
        !table(s).contains_key(p.pid@),
    ensures
        distinct(s.push(p)),
        table(s.push(p)) == table(s).insert(p.pid@, HalfView { dir: p.dir, auth: p.auth@ }),
{
    let t = s.push(p);
    assert forall|i: int, j: int| 0 <= i < j < t.len() implies (#[trigger] t[i]).pid@ != (
    #[trigger] t[j]).pid@ by {
        if j == s.len() {
            assert(t[i] == s[i]);
            if s[i].pid@ == p.pid@ {
                assert(stands_at(s, p.pid@, i));
            }
        }
    }
    assert forall|pid: Seq<char>| #[trigger]
        table(t).contains_key(pid) == table(s).insert(
            p.pid@,
            HalfView { dir: p.dir, auth: p.auth@ },
        ).contains_key(pid) by {
        if table(t).contains_key(pid) {
            let i = choose|i: int| stands_at(t, pid, i);
            if i < s.len() {
                assert(stands_at(s, pid, i));
            }
        }
        if table(s).contains_key(pid) {
            let i = choose|i: int| stands_at(s, pid, i);
            assert(stands_at(t, pid, i));
        }
        assert(stands_at(t, p.pid@, s.len() as int));
    }
    assert forall|pid: Seq<char>| #[trigger] table(t).contains_key(pid) implies table(t)[pid]
        == table(s).insert(p.pid@, HalfView { dir: p.dir, auth: p.auth@ })[pid] by {
        let i = choose|i: int| stands_at(t, pid, i);
        lemma_table_at(t, i);
        if i < s.len() {
            lemma_table_at(s, i);
            assert(s[i] == t[i]);
            if pid == p.pid@ {
                assert(stands_at(s, pid, i));
            }
        }
    }
    assert(table(t) =~= table(s).insert(p.pid@, HalfView { dir: p.dir, auth: p.auth@ }));
}

proof fn lemma_table_remove(s: Seq<Pending>, at: int)
    requires
        distinct(s),
        0 <= at < s.len(),
    ensures
        distinct(s.remove(at)),
        table(s.remove(at)) == table(s).remove(s[at].pid@),
{
    let t = s.remove(at);
    let gone = s[at].pid@;
    assert forall|i: int| 0 <= i < t.len() implies #[trigger] t[i] == s[if i < at {
        i
    } else {
        i + 1
    }] by {}
    assert(distinct(t));
    assert forall|pid: Seq<char>| #[trigger]
        table(t).contains_key(pid) == table(s).remove(gone).contains_key(pid) by {
        if table(t).contains_key(pid) {
            let i = choose|i: int| stands_at(t, pid, i);
            let k = if i < at {
                i
            } else {
                i + 1
            };
            assert(t[i] == s[k]);
            assert(stands_at(s, pid, k));
            if k < at {
                assert(s[k].pid@ != s[at].pid@);
            } else {
                assert(s[at].pid@ != s[k].pid@);
            }
        }
        if table(s).remove(gone).contains_key(pid) {
            let i = choose|i: int| stands_at(s, pid, i);
            assert(stands_at(t, pid, if i < at {
                i
            } else {
                i - 1
            }));
        }
    }
    assert forall|pid: Seq<char>| #[trigger] table(t).contains_key(pid) implies table(t)[pid]
        == table(s).remove(gone)[pid] by {
        let i = choose|i: int| stands_at(t, pid, i);
        lemma_table_at(t, i);
        lemma_table_at(s, if i < at {
            i
        } else {
            i + 1
        });
    }
    assert(table(t) =~= table(s).remove(gone));
}

/// One connection's view of the requests that it gets.
pub struct Router {
    psk: [u8; 32],
    tunnel_path: String,
    pending: Vec<Pending>,
}

impl View for Router {
    type V = RouterView;

    closed spec fn view(&self) -> RouterView {
        RouterView {
            psk: self.psk@,
            tunnel_path: self.tunnel_path@,
            pending: table(self.pending@),
        }
    }
}

impl Router {
    #[verifier::type_invariant]
    closed spec fn inv(self) -> bool {
        distinct(self.pending@)
    }

    /// A router at which nothing waits.
    pub fn new(psk: [u8; 32], tunnel_path: String) -> (r: Self)
        ensures
            r@ == fresh_router(psk@, tunnel_path@),
    {
        let pending: Vec<Pending> = Vec::new();
        assert(table(pending@) =~= Map::<Seq<char>, HalfView>::empty());
        Router { psk, tunnel_path, pending }
    }

    /// Where a half waits.
    fn find(&self, pid: &str) -> (r: Option<usize>)
        ensures
            match r {
                Some(i) => i < self.pending@.len() && self.pending@[i as int].pid@ == pid@,
                None => !self@.pending.contains_key(pid@),
            },
    {
        let mut i: usize = 0;
        while i < self.pending.len()
            invariant
                i <= self.pending@.len(),
                forall|j: int| 0 <= j < i ==> (#[trigger] self.pending@[j]).pid@ != pid@,
            decreases self.pending@.len() - i,
        {
            if text::same(self.pending[i].pid.as_str(), pid) {
                return Some(i);
            }
            i += 1;
        }
        assert forall|j: int| !stands_at(self.pending@, pid@, j) by {}
        None
    }

    /// Decides what becomes of a request that comes in the epoch `now_epoch`.
    pub fn route_at(
        &mut self,
        guard: &mut ReplayGuard,
        method: Method,
        path: &str,
        cookie: Option<&str>,
        now_epoch: u64,
    ) -> (route: Route)
        ensures
            routed(
                old(self)@,
                final(self)@,
                *old(guard),
                *final(guard),
                request_view(method, path, cookie),
                now_epoch,
                route@,
            ),
    {
        proof {
            use_type_invariant(&*self);
        }
        let ghost req = request_view(method, path, cookie);
        let sid: Option<String> = match cookie {
            Some(header) => cookie_sid(header),
            None => None,
        };
        if method == Method::Post && text::same(path, self.tunnel_path.as_str()) {
            let sid = match sid {
                Some(sid) => sid,
                None => return Route::Fallback,
            };
            return match authorize_at(sid.as_str(), &self.psk, now_epoch, guard) {
                Some(auth) => Route::StreamOne { auth },
                None => Route::Fallback,
            };
        }
        let (pid, dir) = match parse_segments(path, self.tunnel_path.as_str(), method) {
            Some(found) => found,
            None => {
                return Route::Fallback;
            },
        };
        proof {
            lemma_segment_unique(self@.tunnel_path, method, path@, pid@, dir);
        }
        let sid = match sid {
            Some(sid) => sid,
            None => return Route::Fallback,
        };
        let (token, epoch) = match verify_only(sid.as_str(), &self.psk, now_epoch) {
            Some(found) => found,
            None => return Route::Fallback,
        };
        let auth = token.raw();
        match self.find(pid.as_str()) {
            Some(i) => {
                proof {
                    lemma_table_at(self.pending@, i as int);
                    lemma_table_remove(self.pending@, i as int);
                }
                if !same_bytes(self.pending[i].auth.as_slice(), auth.as_slice()) {
                    return Route::Fallback;
                }
                let mut pending: Vec<Pending> = Vec::new();
                std::mem::swap(&mut pending, &mut self.pending);
                let first = pending.remove(i);
                self.pending = pending;
                if first.dir == dir {
                    Route::Clash { pid, dir }
                } else {
                    Route::Pair { pid, dir, auth }
                }
            },
            None => {
                if !guard.observe_token(&token, epoch) {
                    return Route::Fallback;
                }
                let waiting = Pending { pid: pid.clone(), dir, auth };
                proof {
                    lemma_table_push(self.pending@, waiting);
                }
                let mut pending: Vec<Pending> = Vec::new();
                std::mem::swap(&mut pending, &mut self.pending);
                pending.push(waiting);
                self.pending = pending;
                Route::Half { pid, dir, auth }
            },
        }
    }

    /// Decides what becomes of a request that comes now.
    pub fn route(
        &mut self,
        guard: &mut ReplayGuard,
        method: Method,
        path: &str,
        cookie: Option<&str>,
    ) -> (route: Route)
        ensures
            exists|now: SystemTime|
                routed(
                    old(self)@,
                    final(self)@,
                    *old(guard),
                    *final(guard),
                    request_view(method, path, cookie),
                    #[trigger] auth::epoch_of(now) as u64,
                    route@,
                ),
    {
        let epoch: u64 = auth::epoch_now();
        assert(exists|now: SystemTime| epoch == #[trigger] auth::epoch_of(now) as u64);
        self.route_at(guard, method, path, cookie, epoch)
    }
}

/// A request of these parts.
pub open spec fn request_view(method: Method, path: &str, cookie: Option<&str>) -> RequestView {
    RequestView { method, path: path@, cookie: chars_if_any(cookie) }
}

/// Whether two slices hold the same bytes.
fn same_bytes(a: &[u8], b: &[u8]) -> (eq: bool)
    ensures
        eq == (a@ == b@),
{
    if a.len() != b.len() {
        return false;
    }
    let mut i: usize = 0;
    while i < a.len()
        invariant
            i <= a@.len() == b@.len(),
            forall|j: int| 0 <= j < i ==> a@[j] == b@[j],
        decreases a@.len() - i,
    {
        if a[i] != b[i] {
            return false;
        }
        i += 1;
    }
    assert(a@ =~= b@);
    true
}

/// Reads the cookie `sid` out of a cookie header.
pub fn cookie_sid(header: &str) -> (r: Option<String>)
    ensures
        match r {
            Some(sid) => sid_of(header@) == Some(sid@),
            None => sid_of(header@) is None,
        },
{
    let v = text::chars_of(header);
    let mut at: usize = 0;
    assert(v@.skip(0) =~= header@);
    loop
        invariant
            v@ == header@,
            at <= v@.len(),
            sid_of(v@.skip(at as int)) == sid_of(header@),
        decreases v@.len() - at,
    {
        let end: usize = text::find_char(&v, at, ';');
        let (a, b) = text::trim_range(&v, at, end);
        let ghost rest = v@.skip(at as int);
        let ghost part = v@.subrange(a as int, b as int);
        proof {
            assert(rest.take(end - at) =~= v@.subrange(at as int, end as int));
            reveal_strlit("sid=");
            if part.len() >= 4 {
                assert(part.take(4) =~= seq![part[0], part[1], part[2], part[3]]);
                assert("sid="@ =~= seq!['s', 'i', 'd', '=']);
            }
        }
        if b - a >= 4 && v[a] == 's' && v[a + 1] == 'i' && v[a + 2] == 'd' && v[a + 3] == '=' {
            assert(part.take(4) =~= "sid="@);
            assert(part.skip(4) =~= v@.subrange(a + 4, b as int));
            return Some(header.substring_char(a + 4, b).to_owned());
        }
        assert(!has_prefix(part, "sid="@)) by {
            if has_prefix(part, "sid="@) {
                assert(part.take(4)[0] == 's' && part.take(4)[1] == 'i' && part.take(4)[2] == 'd'
                    && part.take(4)[3] == '=');
            }
        }
        if end == v.len() {
            return None;
        }
        assert(rest.skip(end - at + 1) =~= v@.skip(end + 1));
        at = end + 1;
    }
}

proof fn lemma_segment_shape(
    base: Seq<char>,
    method: Method,
    path: Seq<char>,
    pid: Seq<char>,
    dir: Dir,
)
    requires
        is_segment(base, method, path, pid, dir),
    ensures
        path.len() == base.len() + 2 + pid.len() + dir_tail(dir).len(),
        path.take(base.len() as int) == base,
        path[base.len() as int] == '/',
        text::first_index(path.skip(base.len() as int + 1), '/') == pid.len(),
        path.subrange(base.len() as int + 1, base.len() as int + 1 + pid.len()) == pid,
        path.skip(base.len() as int + 2 + pid.len()) == dir_tail(dir),
{
    reveal_strlit("/");
    assert(path.take(base.len() as int) =~= base);
    let rest = path.skip(base.len() as int + 1);
    assert(path.subrange(base.len() as int + 1, base.len() as int + 1 + pid.len()) =~= pid);
    assert(path.skip(base.len() as int + 2 + pid.len()) =~= dir_tail(dir));
    assert forall|i: int| 0 <= i < pid.len() implies rest[i] != '/' by {
        assert(rest[i] == pid[i]);
        assert(pid.contains(pid[i]));
    }
    text::lemma_is_first_index(rest, '/', pid.len() as int);
}

proof fn lemma_segment_unique(
    base: Seq<char>,
    method: Method,
    path: Seq<char>,
    pid: Seq<char>,
    dir: Dir,
)
    requires
        is_segment(base, method, path, pid, dir),
    ensures
        segment_of(base, method, path) == Some((pid, dir)),
{
    let (p, d) = choose|p: Seq<char>, d: Dir| is_segment(base, method, path, p, d);
    assert(is_segment(base, method, path, p, d));
    lemma_segment_shape(base, method, path, pid, dir);
    lemma_segment_shape(base, method, path, p, d);
}

/// Reads which half of a session a request is for.
pub fn parse_segments(path: &str, base: &str, method: Method) -> (r: Option<(String, Dir)>)
    ensures
        match r {
            Some((pid, dir)) => is_segment(base@, method, path@, pid@, dir),
            None => segment_of(base@, method, path@) is None,
        },
{
    let p = text::chars_of(path);
    let b = text::chars_of(base);
    proof {
        reveal_strlit("/");
        assert forall|pid: Seq<char>, dir: Dir|
            is_segment(base@, method, path@, pid, dir) implies p@.len() > b@.len() && p@.take(
            b@.len() as int,
        ) == b@ && p@[b@.len() as int] == '/' && text::first_index(
            p@.skip(b@.len() as int + 1),
            '/',
        ) == pid.len() && b@.len() + 1 + pid.len() < p@.len() && pid.len() > 0 && p@.skip(
            b@.len() as int + 2 + pid.len(),
        ) == dir_tail(dir) && method == dir_method(dir) by {
            lemma_segment_shape(base@, method, path@, pid, dir);
        }
    }
    if p.len() <= b.len() {
        return None;
    }
    let mut i: usize = 0;
    while i < b.len()
        invariant
            i <= b@.len() < p@.len(),
            p@ == path@,
            b@ == base@,
            forall|j: int| 0 <= j < i ==> p@[j] == b@[j],
            forall|pid: Seq<char>, dir: Dir|
                is_segment(base@, method, path@, pid, dir) ==> p@.take(b@.len() as int) == b@,
        decreases b@.len() - i,
    {
        if p[i] != b[i] {
            assert(p@.take(b@.len() as int)[i as int] != b@[i as int]);
            return None;
        }
        i += 1;
    }
    assert(p@.take(b@.len() as int) =~= b@);
    if p[b.len()] != '/' {
        return None;
    }
    let start: usize = b.len() + 1;
    let slash: usize = text::find_char(&p, start, '/');
    proof {
        text::lemma_first_index(p@.skip(start as int), '/');
    }
    if slash == p.len() || slash == start {
        return None;
    }
    let pid = path.substring_char(start, slash);
    let tail = path.substring_char(slash + 1, p.len());
    assert(tail@ =~= p@.skip(slash + 1));
    assert(!pid@.contains('/')) by {
        if pid@.contains('/') {
            let k = choose|k: int| 0 <= k < pid@.len() && pid@[k] == '/';
            assert(p@.skip(start as int)[k] == '/');
        }
    }
    assert(path@ =~= base@ + "/"@ + pid@ + "/"@ + tail@);
    proof {
        reveal_strlit("up");
        reveal_strlit("down");
    }
    if method == Method::Post && text::same(tail, "up") {
        return Some((pid.to_owned(), Dir::Up));
    }
    if method == Method::Get && text::same(tail, "down") {
        return Some((pid.to_owned(), Dir::Down));
    }
    None
}

proof fn lemma_token_of(sid: Seq<char>, t: TokenView)
    requires
        t.well_formed(),
        t.text() == sid,
    ensures
        token_of(sid) == Some(t),
{
    let u = choose|u: TokenView| u.well_formed() && #[trigger] u.text() == sid;
    auth::law_token_text(t, u);
}

/// Reads a token and finds the epoch on which it is accepted at `now_epoch`. Whether it
/// was seen before is not asked.
pub fn verify_only(sid: &str, psk: &[u8; 32], now_epoch: u64) -> (r: Option<(AuthToken, u64)>)
    ensures
        match r {
            Some((t, e)) => verified(sid@, psk@, now_epoch) == Some((t@, e)),
            None => verified(sid@, psk@, now_epoch) is None,
        },
{
    let token = match AuthToken::decode(sid) {
        Ok(token) => token,
        Err(_) => {
            return None;
        },
    };
    proof {
        lemma_token_of(sid@, token@);
    }
    match token.verify(psk, now_epoch) {
        Some(epoch) => Some((token, epoch)),
        None => None,
    }
}

/// Authorises a token at `now_epoch`: it must be accepted and new. What is returned is
/// the prologue of the handshake.
pub fn authorize_at(sid: &str, psk: &[u8; 32], now_epoch: u64, replay: &mut ReplayGuard) -> (r:
    Option<[u8; 44]>)
    ensures
        authorized(sid@, psk@, now_epoch, *old(replay), *final(replay), raw_view(r)),
{
    let (token, epoch) = match verify_only(sid, psk, now_epoch) {
        Some(found) => found,
        None => return None,
    };
    if !replay.observe_token(&token, epoch) {
        return None;
    }
    Some(token.raw())
}

/// The bytes of a token, if any.
pub open spec fn raw_view(r: Option<[u8; 44]>) -> Option<Seq<u8>> {
    match r {
        Some(raw) => Some(raw@),
        None => None,
    }
}

/// Authorises a token now.
pub fn authorize(sid: &str, psk: &[u8; 32], replay: &mut ReplayGuard) -> (r: Option<[u8; 44]>)
    ensures
        exists|now: SystemTime|
            authorized(
                sid@,
                psk@,
                #[trigger] auth::epoch_of(now) as u64,
                *old(replay),
                *final(replay),
                raw_view(r),
            ),
{
    let epoch: u64 = auth::epoch_now();
    assert(exists|now: SystemTime| epoch == #[trigger] auth::epoch_of(now) as u64);
    authorize_at(sid, psk, epoch, replay)
}

/// The cookie header for a token and the constant of a profile.
pub fn cookie_header(token: &AuthToken, constant: Option<&str>) -> (s: String)
    ensures
        s@ == cookie_chars(token@, chars_if_any(constant)),
{
    let mut s = "sid=".to_owned();
    s.append(token.encode().as_str());
    if let Some(v) = constant {
        s.append("; v=");
        s.append(v);
    }
    s
}

/// An address on a host.
pub open spec fn https_address(authority: Seq<char>, path: Seq<char>) -> Seq<char> {
    "https://"@ + authority + path
}

/// The address of the tunnel.
pub fn tunnel_uri(authority: &str, path: &str) -> (s: String)
    ensures
        s@ == https_address(authority@, path@),
{
    let mut s = "https://".to_owned();
    s.append(authority);
    s.append(path);
    s
}

/// The name of a session with this token.
pub open spec fn pid_of(t: TokenView) -> Seq<char> {
    text::hex_chars(t.nonce)
}

/// The name under which the two halves of a session find each other: the token's
/// nonce.
pub fn session_pid(token: &AuthToken) -> (s: String)
    ensures
        s@ == pid_of(token@),
{
    text::hex(token.nonce.as_slice())
}

/// The address of half a session.
pub fn segment_uri(authority: &str, base_path: &str, pid: &str, dir: Dir) -> (s: String)
    ensures
        s@ == https_address(authority@, segment_path(base_path@, pid@, dir)),
{
    let mut s = "https://".to_owned();
    s.append(authority);
    s.append(base_path);
    s.append("/");
    s.append(pid);
    s.append("/");
    match dir {
        Dir::Up => s.append("up"),
        Dir::Down => s.append("down"),
    }
    assert(s@ =~= "https://"@ + authority@ + segment_path(base_path@, pid@, dir));
    s
}

/// A token survives its cookie: what a client puts into the header is what the server
/// reads out of it, whatever the constant of its profile.
pub proof fn law_cookie_roundtrip(
    t: TokenView,
    constant: Option<Seq<char>>,
    psk: Seq<u8>,
    now: u64,
)
    requires
        t.well_formed(),
    ensures
        sid_of(cookie_chars(t, constant)) == Some(t.text()),
        presented(Some(cookie_chars(t, constant)), psk, now) == (match auth::accepted_epoch(
            t,
            psk,
            now,
        ) {
            Some(e) => Some((t, e)),
            None => None,
        }),
{
    let h = cookie_chars(t, constant);
    let s = t.text();
    let part = "sid="@ + s;
    auth::law_token_text(t, t);
    crate::wire::radix64::lemma_url_text_symbols(t.raw());
    reveal_strlit("sid=");
    reveal_strlit("; v=");
    assert forall|i: int| 0 <= i < part.len() implies h[i] != ';' by {
        if i >= 4 {
            assert(h[i] == s[i - 4]);
        }
    }
    text::lemma_is_first_index(h, ';', part.len() as int);
    assert(h.take(part.len() as int) =~= part);
    assert(part[0] == 's');
    assert(part.last() == s.last());
    assert(text::trimmed(part) == part);
    assert(part.take(4) =~= "sid="@);
    assert(part.skip(4) =~= s);
    lemma_token_of(s, t);
}

/// The path that a client builds for half a session is read back as that half.
pub proof fn law_segment_path_roundtrip(base: Seq<char>, nonce: Seq<u8>, dir: Dir)
    requires
        nonce.len() > 0,
    ensures
        segment_of(
            base,
            dir_method(dir),
            segment_path(base, text::hex_chars(nonce), dir),
        ) == Some((text::hex_chars(nonce), dir)),
{
    let pid = text::hex_chars(nonce);
    assert(!pid.contains('/')) by {
        if pid.contains('/') {
            let i = choose|i: int| 0 <= i < pid.len() && pid[i] == '/';
            assert(pid[i] == '/');
        }
    }
    lemma_segment_unique(base, dir_method(dir), segment_path(base, pid, dir), pid, dir);
}

/// Whoever shows no token that is accepted gets the site, and leaves no trace.
pub proof fn law_stranger_gets_site(
    pre: RouterView,
    post: RouterView,
    guard: ReplayGuard,
    guard_after: ReplayGuard,
    req: RequestView,
    now: u64,
    route: RouteView,
)
    requires
        routed(pre, post, guard, guard_after, req, now, route),
        presented(req.cookie, pre.psk, now) is None,
    ensures
        route == RouteView::Fallback,
        post == pre,
        guard_after == guard,
{
}

/// So does whoever asks for any other path.
pub proof fn law_other_path_gets_site(
    pre: RouterView,
    post: RouterView,
    guard: ReplayGuard,
    guard_after: ReplayGuard,
    req: RequestView,
    now: u64,
    route: RouteView,
)
    requires
        routed(pre, post, guard, guard_after, req, now, route),
        !(req.method == Method::Post && req.path == pre.tunnel_path),
        segment_of(pre.tunnel_path, req.method, req.path) is None,
    ensures
        route == RouteView::Fallback,
        post == pre,
        guard_after == guard,
{
}

/// A token that was seen before opens nothing: its bearer gets the site, unless it
/// brings the second half of the session that waits under that very token.
pub proof fn law_replay_gets_site(
    pre: RouterView,
    post: RouterView,
    guard: ReplayGuard,
    guard_after: ReplayGuard,
    req: RequestView,
    now: u64,
    route: RouteView,
)
    requires
        routed(pre, post, guard, guard_after, req, now, route),
        presented(req.cookie, pre.psk, now) matches Some((t, e)) && guard.seen(e, t.nonce),
        segment_of(pre.tunnel_path, req.method, req.path) matches Some((pid, dir))
            ==> !pre.pending.contains_key(pid) || pre.pending[pid].auth != presented(
            req.cookie,
            pre.psk,
            now,
        )->Some_0.0.raw(),
    ensures
        route == RouteView::Fallback,
        post == pre,
{
}

/// An attempt to authorise: the text, the epoch of the time, and what came of it.
pub struct Attempt {
    pub sid: Seq<char>,
    pub now: u64,
    pub raw: Option<Seq<u8>>,
}

/// Whether a guard that had seen nothing became each of these guards in turn by these
/// attempts, while the clock did not go back. The first and the last epoch of all are
/// left out: the window of acceptance wraps around there.
pub open spec fn is_run(guards: Seq<ReplayGuard>, psk: Seq<u8>, attempts: Seq<Attempt>) -> bool {
    &&& guards.len() == attempts.len() + 1
    &&& guards[0].epochs() == Set::<u64>::empty()
    &&& forall|i: int|
        0 <= i < attempts.len() ==> {
            let a = #[trigger] attempts[i];
            &&& authorized(a.sid, psk, a.now, guards[i], guards[i + 1], a.raw)
            &&& 0 < a.now < u64::MAX
        }
    &&& forall|i: int, j: int| 0 <= i <= j < attempts.len() ==> attempts[i].now <= attempts[j].now
}

/// In a run nothing beyond the next epoch is ever noted.
proof fn lemma_run_bound(
    guards: Seq<ReplayGuard>,
    psk: Seq<u8>,
    attempts: Seq<Attempt>,
    j: int,
    now: u64,
)
    requires
        is_run(guards, psk, attempts),
        0 <= j <= attempts.len(),
        j > 0 ==> attempts[j - 1].now <= now,
    ensures
        forall|e: u64| #[trigger] guards[j].epochs().contains(e) ==> e <= now + 1,
    decreases j,
{
    if j > 0 {
        let a = attempts[j - 1];
        lemma_run_bound(guards, psk, attempts, j - 1, a.now);
        if let Some((t, epoch)) = verified(a.sid, psk, a.now) {
            assert forall|e: u64| #[trigger] guards[j].epochs().contains(e) implies e <= now
                + 1 by {
                assert(guards[j - 1].epochs().insert(epoch).contains(e));
            }
        }
    }
}

/// In a run a token that was authorised is known for as long as its epoch is accepted.
proof fn lemma_run_seen(
    guards: Seq<ReplayGuard>,
    psk: Seq<u8>,
    attempts: Seq<Attempt>,
    i: int,
    j: int,
    now: u64,
    t: TokenView,
    epoch: u64,
)
    requires
        is_run(guards, psk, attempts),
        0 <= i < j <= attempts.len(),
        verified(attempts[i].sid, psk, attempts[i].now) == Some((t, epoch)),
        t.well_formed(),
        attempts[j - 1].now <= now <= epoch + 1,
    ensures
        guards[j].seen(epoch, t.nonce),
        guards[j].epochs().contains(epoch),
    decreases j,
{
    let a = attempts[j - 1];
    lemma_run_bound(guards, psk, attempts, j - 1, a.now);
    if i < j - 1 {
        assert(attempts[j - 2].now <= a.now);
        lemma_run_seen(guards, psk, attempts, i, j - 1, a.now, t, epoch);
    }
    if let Some((u, e)) = verified(a.sid, psk, a.now) {
        replay::law_accepted_epoch_kept(guards[j - 1], guards[j], e, u.nonce, a.now, epoch);
        assert(guards[j].seen(epoch, t.nonce) == (guards[j - 1].seen(epoch, t.nonce) || (epoch == e
            && t.nonce == u.nonce)));
    }
}

/// Whether the tag of a token fits no two epochs.
pub open spec fn fits_one_epoch(t: TokenView, psk: Seq<u8>) -> bool {
    forall|a: u64, b: u64| #[trigger]
        auth::tag_fits(t, psk, a) && #[trigger] auth::tag_fits(t, psk, b) ==> a == b
}

/// A token opens one session: whatever is attempted in between, the text that was
/// authorised once is refused from then on. (A token whose tag fits two epochs by chance
/// is left out.)
pub proof fn law_token_opens_once(
    guards: Seq<ReplayGuard>,
    psk: Seq<u8>,
    attempts: Seq<Attempt>,
    i: int,
    j: int,
)
    requires
        is_run(guards, psk, attempts),
        0 <= i < j < attempts.len(),
        attempts[j].sid == attempts[i].sid,
        attempts[i].raw is Some,
        fits_one_epoch(token_of(attempts[i].sid)->Some_0, psk),
    ensures
        attempts[j].raw is None,
{
    let first = attempts[i];
    let again = attempts[j];
    let (t, epoch) = verified(first.sid, psk, first.now)->Some_0;
    assert(t.well_formed());
    if let Some((u, e)) = verified(again.sid, psk, again.now) {
        assert(auth::tag_fits(t, psk, epoch) && auth::tag_fits(t, psk, e));
        assert(attempts[j - 1].now <= again.now);
        lemma_run_seen(guards, psk, attempts, i, j, again.now, t, epoch);
    }
}

/// A client that has the secret is let in: its request with a fresh token, made in the
/// present epoch or in the one before or after, begins a session bound to that token.
pub proof fn law_client_is_let_in(
    pre: RouterView,
    post: RouterView,
    guard: ReplayGuard,
    guard_after: ReplayGuard,
    salt: Seq<u8>,
    nonce: Seq<u8>,
    epoch: u64,
    constant: Option<Seq<char>>,
    now: u64,
    route: RouteView,
)
    requires
        auth::token_for(pre.psk, salt, nonce, epoch).well_formed(),
        epoch == now || epoch == auth::before(now) || epoch == auth::after(now),
        auth::accepted_epoch(auth::token_for(pre.psk, salt, nonce, epoch), pre.psk, now) matches Some(
            e,
        ) ==> !guard.seen(e, nonce),
        routed(
            pre,
            post,
            guard,
            guard_after,
            RequestView {
                method: Method::Post,
                path: pre.tunnel_path,
                cookie: Some(cookie_chars(auth::token_for(pre.psk, salt, nonce, epoch), constant)),
            },
            now,
            route,
        ),
    ensures
        route == (RouteView::StreamOne {
            auth: auth::token_for(pre.psk, salt, nonce, epoch).raw(),
        }),
        post == pre,
{
    let t = auth::token_for(pre.psk, salt, nonce, epoch);
    law_cookie_roundtrip(t, constant, pre.psk, now);
    auth::law_fresh_token_accepted(pre.psk, salt, nonce, epoch);
    assert(auth::tag_fits(t, pre.psk, epoch));
}

/// The two halves of a session find each other: behind the first half with a fresh
/// token the other one, with the same token, makes a session bound to that token, and
/// nothing is left waiting.
pub proof fn law_halves_pair(
    r0: RouterView,
    r1: RouterView,
    r2: RouterView,
    g0: ReplayGuard,
    g1: ReplayGuard,
    g2: ReplayGuard,
    first: RequestView,
    second: RequestView,
    now1: u64,
    now2: u64,
    route1: RouteView,
    route2: RouteView,
    pid: Seq<char>,
    dir: Dir,
    other: Dir,
    t: TokenView,
    e1: u64,
    e2: u64,
)
    requires
        dir != other,
        r0.tunnel_path != first.path || first.method != Method::Post,
        r0.tunnel_path != second.path || second.method != Method::Post,
        segment_of(r0.tunnel_path, first.method, first.path) == Some((pid, dir)),
        segment_of(r0.tunnel_path, second.method, second.path) == Some((pid, other)),
        presented(first.cookie, r0.psk, now1) == Some((t, e1)),
        presented(second.cookie, r0.psk, now2) == Some((t, e2)),
        !r0.pending.contains_key(pid),
        !g0.seen(e1, t.nonce),
        routed(r0, r1, g0, g1, first, now1, route1),
        routed(r1, r2, g1, g2, second, now2, route2),
    ensures
        route1 == (RouteView::Half { pid, dir, auth: t.raw() }),
        route2 == (RouteView::Pair { pid, dir: other, auth: t.raw() }),
        r2 == r0,
        g2 == g1,
{
    assert(r2.pending =~= r0.pending);
}

/// A half that waits stays until its own token comes: a request with another token
/// neither takes it nor drives it out.
pub proof fn law_foreign_token_leaves_half(
    pre: RouterView,
    post: RouterView,
    guard: ReplayGuard,
    guard_after: ReplayGuard,
    req: RequestView,
    now: u64,
    route: RouteView,
    pid: Seq<char>,
)
    requires
        routed(pre, post, guard, guard_after, req, now, route),
        pre.pending.contains_key(pid),
        presented(req.cookie, pre.psk, now) matches Some((t, e)) ==> t.raw()
            != pre.pending[pid].auth,
    ensures
        post.pending.contains_key(pid) && post.pending[pid] == pre.pending[pid],
{
}

/// An address begins with the scheme, and the host and the path follow.
pub proof fn law_address_parts(authority: Seq<char>, path: Seq<char>)
    ensures
        ({
            let s = https_address(authority, path);
            &&& s.len() == 8 + authority.len() + path.len()
            &&& s.take(8) == seq!['h', 't', 't', 'p', 's', ':', '/', '/']
            &&& s.subrange(8, 8 + authority.len() as int) == authority
            &&& s.skip(8 + authority.len() as int) == path
        }),
{
    reveal_strlit("https://");
    let s = https_address(authority, path);
    assert(s.take(8) =~= seq!['h', 't', 't', 'p', 's', ':', '/', '/']);
    assert(s.subrange(8, 8 + authority.len() as int) =~= authority);
    assert(s.skip(8 + authority.len() as int) =~= path);
}

/// Which requests are for half a session: a `POST` that goes up and a `GET` that comes down,
/// at the tunnel's path, a name without a slash, and the direction.
pub proof fn law_half_requests(
    base: Seq<char>,
    method: Method,
    path: Seq<char>,
    pid: Seq<char>,
    dir: Dir,
)
    ensures
        is_segment(base, method, path, pid, dir) <==> pid.len() > 0 && !pid.contains('/') && ((dir
            == Dir::Up && method == Method::Post && path == base + seq!['/'] + pid + seq![
            '/',
            'u',
            'p',
        ]) || (dir == Dir::Down && method == Method::Get && path == base + seq!['/'] + pid + seq![
            '/',
            'd',
            'o',
            'w',
            'n',
        ])),
        segment_of(base, method, path) == Some((pid, dir)) ==> is_segment(
            base,
            method,
            path,
            pid,
            dir,
        ),
        is_segment(base, method, path, pid, dir) ==> segment_of(base, method, path) == Some(
            (pid, dir),
        ),
{
    reveal_strlit("/");
    reveal_strlit("up");
    reveal_strlit("down");
    assert(base + "/"@ + pid + "/"@ + "up"@ =~= base + seq!['/'] + pid + seq!['/', 'u', 'p']);
    assert(base + "/"@ + pid + "/"@ + "down"@ =~= base + seq!['/'] + pid + seq![
        '/',
        'd',
        'o',
        'w',
        'n',
    ]);
    if is_segment(base, method, path, pid, dir) {
        lemma_segment_unique(base, method, path, pid, dir);
    }
}

/// A cookie header is the name `sid`, the token's text, and, if there is a constant, the name
/// `v` and the constant.
pub proof fn law_cookie_parts(t: TokenView, constant: Option<Seq<char>>)
    ensures
        ({
            let s = cookie_chars(t, constant);
            let n = t.text().len();
            &&& s.take(4) == seq!['s', 'i', 'd', '=']
            &&& s.subrange(4, 4 + n as int) == t.text()
            &&& constant is None ==> s.len() == 4 + n
            &&& constant matches Some(v) ==> s.skip(4 + n as int) == seq![';', ' ', 'v', '='] + v
        }),
{
    reveal_strlit("sid=");
    reveal_strlit("; v=");
    let s = cookie_chars(t, constant);
    let n = t.text().len();
    assert(s.take(4) =~= seq!['s', 'i', 'd', '=']);
    assert(s.subrange(4, 4 + n as int) =~= t.text());
    if constant is Some {
        assert(s.skip(4 + n as int) =~= seq![';', ' ', 'v', '='] + constant->Some_0);
    }
}

/// How the token is found in a cookie header: the parts between semicolons are looked at in
/// order, without the white space around them, and the first that begins with `sid=` holds it.
pub proof fn law_cookie_is_found(part: Seq<char>, rest: Seq<char>)
    requires
        !part.contains(';'),
    ensures
        ({
            let trimmed = text::trimmed(part);
            let here = trimmed.len() >= 4 && trimmed.take(4) == seq!['s', 'i', 'd', '='];
            &&& here ==> sid_of(part) == Some(trimmed.skip(4)) && sid_of(part + seq![';'] + rest)
                == Some(trimmed.skip(4))
            &&& !here ==> sid_of(part) is None && sid_of(part + seq![';'] + rest) == sid_of(rest)
        }),
{
    reveal_strlit("sid=");
    let all = part + seq![';'] + rest;
    let n = part.len() as int;
    assert("sid="@ =~= seq!['s', 'i', 'd', '=']);
    assert forall|i: int| 0 <= i < n implies part[i] != ';' && all[i] != ';' by {
        assert(part.contains(part[i]));
        assert(all[i] == part[i]);
    }
    text::lemma_is_first_index(part, ';', n);
    text::lemma_is_first_index(all, ';', n);
    assert(part.take(n) =~= part);
    assert(all.take(n) =~= part);
    assert(all.skip(n + 1) =~= rest);
}

/// Which texts are tokens, and when one is accepted: it must be the text of a token, and its
/// tag that of an epoch that is accepted.
pub proof fn law_presented_tokens(
    sid: Seq<char>,
    header: Seq<char>,
    psk: Seq<u8>,
    now: u64,
    t: TokenView,
    e: u64,
)
    ensures
        token_of(sid) == Some(t) <==> t.well_formed() && t.text() == sid,
        verified(sid, psk, now) == Some((t, e)) <==> t.well_formed() && t.text() == sid
            && auth::accepted_epoch(t, psk, now) == Some(e),
        presented(None, psk, now) is None,
        sid_of(header) is None ==> presented(Some(header), psk, now) is None,
        sid_of(header) == Some(sid) ==> presented(Some(header), psk, now) == verified(sid, psk, now),
{
    if t.well_formed() && t.text() == sid {
        lemma_token_of(sid, t);
    }
}

/// What authorising yields: the bytes of the token exactly if it is accepted and was not seen
/// in its epoch. One that is accepted is noted; one that is not leaves no trace.
pub proof fn law_authorising(
    sid: Seq<char>,
    psk: Seq<u8>,
    now: u64,
    pre: ReplayGuard,
    post: ReplayGuard,
    raw: Option<Seq<u8>>,
)
    requires
        authorized(sid, psk, now, pre, post, raw),
    ensures
        verified(sid, psk, now) is None ==> raw is None && post == pre,
        verified(sid, psk, now) matches Some((t, e)) ==> {
            &&& raw is Some <==> !pre.seen(e, t.nonce)
            &&& raw matches Some(bytes) ==> bytes == t.salt + t.nonce + t.tag
            &&& replay::observed(pre, post, e, t.nonce)
        },
{
}

/// What becomes of a request, by its path, its token and what waits. A `POST` to the tunnel's
/// path with a new token is a session. Half a session with a new token waits; with the token
/// of the half that waits under its name it makes a session, or, in the same direction, is
/// dropped with it. Everything else gets the site.
pub proof fn law_routing(
    pre: RouterView,
    post: RouterView,
    guard: ReplayGuard,
    guard_after: ReplayGuard,
    req: RequestView,
    now: u64,
    route: RouteView,
)
    requires
        routed(pre, post, guard, guard_after, req, now, route),
    ensures
        ({
            let credentials = presented(req.cookie, pre.psk, now);
            let (t, e) = credentials->Some_0;
            let bytes = t.salt + t.nonce + t.tag;
            let known = credentials is Some;
            let fresh = known && !guard.seen(e, t.nonce);
            let whole = req.method == Method::Post && req.path == pre.tunnel_path;
            let half = segment_of(pre.tunnel_path, req.method, req.path);
            let (pid, dir) = half->Some_0;
            let is_half = !whole && half is Some;
            let waits = is_half && pre.pending.contains_key(pid);
            let own = waits && known && pre.pending[pid].auth == bytes;
            &&& route is StreamOne <==> whole && fresh
            &&& route matches RouteView::StreamOne { auth } ==> auth == bytes
            &&& route is Half <==> is_half && !waits && fresh
            &&& route matches RouteView::Half { pid: p, dir: d, auth } ==> p == pid && d == dir
                && auth == bytes && post == (RouterView {
                pending: pre.pending.insert(pid, HalfView { dir, auth: bytes }),
                ..pre
            })
            &&& route is Pair <==> own && pre.pending[pid].dir != dir
            &&& route matches RouteView::Pair { pid: p, dir: d, auth } ==> p == pid && d == dir
                && auth == bytes
            &&& route is Clash <==> own && pre.pending[pid].dir == dir
            &&& route matches RouteView::Clash { pid: p, dir: d } ==> p == pid && d == dir
            &&& route is Pair || route is Clash ==> post == (RouterView {
                pending: pre.pending.remove(pid),
                ..pre
            })
            &&& route is StreamOne || route is Fallback ==> post == pre
            &&& if known && (whole || is_half && !waits) {
                replay::observed(guard, guard_after, e, t.nonce)
            } else {
                guard_after == guard
            }
        }),
{
}

/// A session is named by the nonce of its token alone: two digits for each byte, so that
/// tokens share a name exactly if they share the nonce. The name can stand in a path.
pub proof fn law_sessions_are_named_by_nonce(a: TokenView, b: TokenView)
    requires
        a.well_formed(),
        b.well_formed(),
    ensures
        pid_of(a) == pid_of(b) <==> a.nonce == b.nonce,
        pid_of(a).len() == 24,
        !pid_of(a).contains('/'),
{
    if pid_of(a) == pid_of(b) {
        assert forall|i: int| 0 <= i < 12 implies a.nonce[i] == b.nonce[i] by {
            text::law_hex_stands_for_bytes(a.nonce, i);
            text::law_hex_stands_for_bytes(b.nonce, i);
        }
        assert(a.nonce =~= b.nonce);
    }
    text::law_hex_stands_for_bytes(a.nonce, 0);
    if pid_of(a).contains('/') {
        let k = choose|k: int| 0 <= k < pid_of(a).len() && pid_of(a)[k] == '/';
        text::law_hex_stands_for_bytes(a.nonce, k / 2);
        assert(k == 2 * (k / 2) || k == 2 * (k / 2) + 1);
    }
}

/// A router begins with its secret, its path and nothing that waits.
pub proof fn law_router_begins(psk: Seq<u8>, tunnel_path: Seq<char>, pid: Seq<char>)
    ensures
        fresh_router(psk, tunnel_path).psk == psk,
        fresh_router(psk, tunnel_path).tunnel_path == tunnel_path,
        !fresh_router(psk, tunnel_path).pending.contains_key(pid),
{
}

} // verus!
