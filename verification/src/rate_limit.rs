//! Fixed-window request rate limiting per client address.
//!
//! Each client address owns a window: the number of requests admitted in it
//! and the instant at which it started. Instants are nanoseconds on a
//! monotonic clock chosen by the caller.

use vstd::prelude::*;
use vstd::hash_map::StringHashMap;

verus! {

/// How many requests one client may make per window, and the window length.
#[derive(Clone, Copy, Debug)]
pub struct RateLimitConfig {
    pub max_requests: u32,
    pub window_secs: u64,
}

impl RateLimitConfig {
    pub fn new(max_requests: u32, window_secs: u64) -> (config: Self)
        ensures
            config.max_requests == max_requests,
            config.window_secs == window_secs,
    {
        RateLimitConfig { max_requests, window_secs }
    }

    /// The window length in nanoseconds.
    pub open spec fn window_nanos(self) -> int {
        self.window_secs * 1_000_000_000
    }
}

/// The requests admitted for one client in its current window.
#[derive(Clone, Copy, Debug)]
pub struct ClientWindow {
    pub count: u32,
    pub started_at: u128,
}

/// The answer to one request.
#[derive(Clone, Copy, Debug)]
pub enum Admission {
    /// The request goes on to its handler.
    Allowed,
    /// The request is refused; the client may retry after this many seconds.
    Limited { retry_after_secs: u64 },
}

/// Time from `since` to `now`, zero when `now` is the earlier instant.
pub open spec fn elapsed_nanos(now: u128, since: u128) -> int {
    if now >= since {
        now - since
    } else {
        0
    }
}

/// One request of a client at `now`: its window after the request, and the
/// answer. A client without a window starts one at `now` with no request
/// counted. A window older than the configured length restarts at `now` with
/// this request counted; otherwise the request is refused once the window
/// holds `max_requests` requests, and counted if not.
pub open spec fn admission_step(config: RateLimitConfig, current: Option<ClientWindow>, now: u128) -> (
    ClientWindow,
    Admission,
) {
    let window = match current {
        Some(w) => w,
        None => ClientWindow { count: 0, started_at: now },
    };
    if elapsed_nanos(now, window.started_at) > config.window_nanos() {
        (ClientWindow { count: 1, started_at: now }, Admission::Allowed)
    } else if window.count >= config.max_requests {
        (window, Admission::Limited { retry_after_secs: config.window_secs })
    } else {
        (ClientWindow { count: (window.count + 1) as u32, started_at: window.started_at }, Admission::Allowed)
    }
}

/// The window of `client` among `windows`, if it has one.
pub open spec fn window_in(windows: Map<Seq<char>, ClientWindow>, client: Seq<char>) -> Option<
    ClientWindow,
> {
    if windows.contains_key(client) {
        Some(windows[client])
    } else {
        None
    }
}

/// The largest count a window can hold under `config`.
pub open spec fn count_ceiling(config: RateLimitConfig) -> int {
    if config.max_requests == 0 {
        1
    } else {
        config.max_requests as int
    }
}

/// The per-client windows of a rate limiter.
pub struct RateLimiter {
    pub config: RateLimitConfig,
    store: StringHashMap<ClientWindow>,
}

impl RateLimiter {
    /// The configuration the limiter enforces.
    pub closed spec fn settings(&self) -> RateLimitConfig {
        self.config
    }

    /// The window of each client address seen so far.
    pub closed spec fn windows(&self) -> Map<Seq<char>, ClientWindow> {
        self.store@
    }

    /// No window holds more requests than the configuration allows.
    pub open spec fn well_formed(&self) -> bool {
        forall|k: Seq<char>| #[trigger]
            self.windows().contains_key(k) ==> self.windows()[k].count <= count_ceiling(self.settings())
    }

    /// A limiter that has seen no client yet.
    pub fn new(config: RateLimitConfig) -> (limiter: Self)
        ensures
            limiter.settings() == config,
            limiter.windows() == Map::<Seq<char>, ClientWindow>::empty(),
            limiter.well_formed(),
    {
        RateLimiter { config, store: StringHashMap::new() }
    }

    /// The configuration the limiter enforces: the `config` field, readable
    /// by verified code outside this module, where the field is hidden.
    pub fn config(&self) -> (config: RateLimitConfig)
        ensures
            config == self.settings(),
    {
        self.config
    }

    /// The current window of `client`, if it has one.
    pub fn window_of(&self, client: &str) -> (window: Option<ClientWindow>)
        ensures
            window == (if self.windows().contains_key(client@) {
                Some(self.windows()[client@])
            } else {
                None
            }),
    {
        match self.store.get(client) {
            Some(w) => Some(*w),
            None => None,
        }
    }

    /// Admits or refuses one request of `client` at `now_nanos`, and records
    /// the client's window after it.
    pub fn check(&mut self, client: String, now_nanos: u128) -> (admission: Admission)
        ensures
            final(self).settings() == old(self).settings(),
            ({
                let (window, answer) = admission_step(
                    old(self).settings(),
                    window_in(old(self).windows(), client@),
                    now_nanos,
                );
                &&& admission == answer
                &&& final(self).windows() == old(self).windows().insert(client@, window)
            }),
            forall|k: Seq<char>|
                k != client@ ==> (#[trigger] final(self).windows().contains_key(k)
                    == old(self).windows().contains_key(k) && (old(self).windows().contains_key(k)
                    ==> final(self).windows()[k] == old(self).windows()[k])),
            old(self).well_formed() ==> final(self).well_formed(),
    {
        let current = self.window_of(client.as_str());
        let window = match current {
            Some(w) => w,
            None => ClientWindow { count: 0, started_at: now_nanos },
        };
        let elapsed: u128 = if now_nanos >= window.started_at {
            now_nanos - window.started_at
        } else {
            0
        };
        let limit: u128 = (self.config.window_secs as u128) * 1_000_000_000;
        let (next, admission) = if elapsed > limit {
            (ClientWindow { count: 1, started_at: now_nanos }, Admission::Allowed)
        } else if window.count >= self.config.max_requests {
            (window, Admission::Limited { retry_after_secs: self.config.window_secs })
        } else {
            (ClientWindow { count: window.count + 1, started_at: window.started_at }, Admission::Allowed)
        };
        proof {
            let ghost current = if self.windows().contains_key(client@) {
                Some(self.windows()[client@])
            } else {
                None
            };
            if self.well_formed() {
                law_step_respects_ceiling(self.config, current, now_nanos);
            }
        }
        self.store.insert(client, next);
        admission
    }
}

/// Requests admitted when a client whose window is `current` makes one
/// request at each instant of `times`, in order.
pub open spec fn admitted_count(config: RateLimitConfig, current: Option<ClientWindow>, times: Seq<u128>) -> nat
    decreases times.len(),
{
    if times.len() == 0 {
        0
    } else {
        let (window, answer) = admission_step(config, current, times[0]);
        (if answer is Allowed {
            1nat
        } else {
            0nat
        }) + admitted_count(config, Some(window), times.drop_first())
    }
}

/// Every instant of `times` lies within one window length after `start`.
pub open spec fn within_window(config: RateLimitConfig, start: u128, times: Seq<u128>) -> bool {
    forall|i: int| 0 <= i < times.len() ==> elapsed_nanos(#[trigger] times[i], start) <= config.window_nanos()
}

/// The smaller of two numbers.
pub open spec fn min_nat(a: nat, b: nat) -> nat {
    if a <= b {
        a
    } else {
        b
    }
}

/// A request never pushes a window above the count ceiling.
pub proof fn law_step_respects_ceiling(config: RateLimitConfig, current: Option<ClientWindow>, now: u128)
    requires
        current matches Some(w) ==> w.count <= count_ceiling(config),
    ensures
        admission_step(config, current, now).0.count <= count_ceiling(config),
{
}

/// Within one window, a client whose window holds `count` requests gets
/// exactly its remaining `max_requests - count` requests admitted, and every
/// further request refused.
pub proof fn law_window_budget(config: RateLimitConfig, window: ClientWindow, times: Seq<u128>)
    requires
        window.count <= config.max_requests,
        within_window(config, window.started_at, times),
    ensures
        admitted_count(config, Some(window), times) == min_nat(
            times.len(),
            (config.max_requests - window.count) as nat,
        ),
    decreases times.len(),
{
    if times.len() > 0 {
        let (next, answer) = admission_step(config, Some(window), times[0]);
        assert(elapsed_nanos(times[0], window.started_at) <= config.window_nanos());
        let rest = times.drop_first();
        assert(within_window(config, next.started_at, rest)) by {
            assert forall|i: int| 0 <= i < rest.len() implies elapsed_nanos(
                #[trigger] rest[i],
                next.started_at,
            ) <= config.window_nanos() by {
                assert(rest[i] == times[i + 1]);
            }
        }
        law_window_budget(config, next, rest);
    }
}

/// A client seen for the first time gets at most `max_requests` requests
/// admitted within one window length of its first request, and exactly that
/// many when it sends at least that many.
pub proof fn law_fresh_client_budget(config: RateLimitConfig, times: Seq<u128>)
    requires
        times.len() > 0,
        within_window(config, times[0], times),
    ensures
        admitted_count(config, None, times) == min_nat(times.len(), config.max_requests as nat),
{
    let (next, answer) = admission_step(config, None, times[0]);
    let rest = times.drop_first();
    assert(next.started_at == times[0]);
    assert(within_window(config, next.started_at, rest)) by {
        assert forall|i: int| 0 <= i < rest.len() implies elapsed_nanos(
            #[trigger] rest[i],
            next.started_at,
        ) <= config.window_nanos() by {
            assert(rest[i] == times[i + 1]);
        }
    }
    law_window_budget(config, next, rest);
}

/// Once a window is older than the configured length, the next request is
/// admitted and starts a new window counting it alone.
pub proof fn law_window_restart(config: RateLimitConfig, window: ClientWindow, now: u128)
    requires
        elapsed_nanos(now, window.started_at) > config.window_nanos(),
    ensures
        admission_step(config, Some(window), now) == (
        ClientWindow { count: 1, started_at: now },
        Admission::Allowed,
        ),
{
}

/// A refused request leaves the client's window as it was, and tells the
/// client to retry after one window length.
pub proof fn law_refusal_keeps_window(config: RateLimitConfig, window: ClientWindow, now: u128)
    requires
        admission_step(config, Some(window), now).1 is Limited,
    ensures
        admission_step(config, Some(window), now) == (
        window,
        Admission::Limited { retry_after_secs: config.window_secs },
        ),
{
}

/// A request is refused exactly when its client's window is still open and
/// already holds `max_requests` requests; a client without a window is
/// refused only when no request at all is allowed.
pub proof fn law_refusal_condition(config: RateLimitConfig, current: Option<ClientWindow>, now: u128)
    ensures
        admission_step(config, current, now).1 is Limited <==> match current {
            Some(w) => elapsed_nanos(now, w.started_at) <= config.window_nanos() && w.count
                >= config.max_requests,
            None => config.max_requests == 0,
        },
{
}

/// The windows after every request of `history`, a sequence of client
/// addresses and instants, has been checked in order, starting from
/// `windows`.
pub open spec fn replay(
    config: RateLimitConfig,
    windows: Map<Seq<char>, ClientWindow>,
    history: Seq<(Seq<char>, u128)>,
) -> Map<Seq<char>, ClientWindow>
    decreases history.len(),
{
    if history.len() == 0 {
        windows
    } else {
        let before = replay(config, windows, history.drop_last());
        let (client, now) = history.last();
        before.insert(client, admission_step(config, window_in(before, client), now).0)
    }
}

/// The instants of the requests of `client` in `history`, in order.
pub open spec fn requests_of(history: Seq<(Seq<char>, u128)>, client: Seq<char>) -> Seq<u128>
    decreases history.len(),
{
    if history.len() == 0 {
        Seq::empty()
    } else {
        let earlier = requests_of(history.drop_last(), client);
        if history.last().0 == client {
            earlier.push(history.last().1)
        } else {
            earlier
        }
    }
}

/// A client's window after its own requests at `times`, starting from
/// `start`.
pub open spec fn window_after(config: RateLimitConfig, start: Option<ClientWindow>, times: Seq<u128>) -> Option<
    ClientWindow,
>
    decreases times.len(),
{
    if times.len() == 0 {
        start
    } else {
        Some(admission_step(config, window_after(config, start, times.drop_last()), times.last()).0)
    }
}

/// A client's window after any history depends only on its own requests in
/// it: requests of other clients, wherever they fall, change nothing.
pub proof fn law_window_depends_on_own_requests(
    config: RateLimitConfig,
    windows: Map<Seq<char>, ClientWindow>,
    history: Seq<(Seq<char>, u128)>,
    client: Seq<char>,
)
    ensures
        window_in(replay(config, windows, history), client) == window_after(
            config,
            window_in(windows, client),
            requests_of(history, client),
        ),
    decreases history.len(),
{
    if history.len() > 0 {
        let earlier = history.drop_last();
        law_window_depends_on_own_requests(config, windows, earlier, client);
        let own = requests_of(earlier, client);
        if history.last().0 == client {
            let times = own.push(history.last().1);
            assert(times.drop_last() =~= own);
        }
    }
}

/// Two histories that hold the same requests of one client, interleaved with
/// any requests of other clients, give that client's next request the same
/// answer and the same window.
pub proof fn law_other_clients_do_not_matter(
    config: RateLimitConfig,
    windows: Map<Seq<char>, ClientWindow>,
    first: Seq<(Seq<char>, u128)>,
    second: Seq<(Seq<char>, u128)>,
    client: Seq<char>,
    now: u128,
)
    requires
        requests_of(first, client) == requests_of(second, client),
    ensures
        admission_step(config, window_in(replay(config, windows, first), client), now)
            == admission_step(config, window_in(replay(config, windows, second), client), now),
{
    law_window_depends_on_own_requests(config, windows, first, client);
    law_window_depends_on_own_requests(config, windows, second, client);
}

/// Checking one more request extends the replayed history by that request.
pub proof fn law_check_is_replay_step(
    config: RateLimitConfig,
    windows: Map<Seq<char>, ClientWindow>,
    history: Seq<(Seq<char>, u128)>,
    client: Seq<char>,
    now: u128,
)
    ensures
        replay(config, windows, history.push((client, now))) == replay(config, windows, history).insert(
            client,
            admission_step(config, window_in(replay(config, windows, history), client), now).0,
        ),
{
    assert(history.push((client, now)).drop_last() =~= history);
}

/// How many of a client's requests at `times` are admitted, starting from
/// the window `start`.
pub open spec fn admitted_after(config: RateLimitConfig, start: Option<ClientWindow>, times: Seq<u128>) -> nat
    decreases times.len(),
{
    if times.len() == 0 {
        0
    } else {
        admitted_after(config, start, times.drop_last()) + (if admission_step(
            config,
            window_after(config, start, times.drop_last()),
            times.last(),
        ).1 is Allowed {
            1nat
        } else {
            0nat
        })
    }
}

/// How many requests of `client` in `history` are admitted, starting from
/// `windows`.
pub open spec fn admitted_of(
    config: RateLimitConfig,
    windows: Map<Seq<char>, ClientWindow>,
    history: Seq<(Seq<char>, u128)>,
    client: Seq<char>,
) -> nat
    decreases history.len(),
{
    if history.len() == 0 {
        0
    } else {
        let before = replay(config, windows, history.drop_last());
        let (c, now) = history.last();
        admitted_of(config, windows, history.drop_last(), client) + (if c == client && admission_step(
            config,
            window_in(before, c),
            now,
        ).1 is Allowed {
            1nat
        } else {
            0nat
        })
    }
}

/// The admitted requests of a client in a history are those admitted among
/// its own requests alone.
pub proof fn lemma_admitted_of_own_requests(
    config: RateLimitConfig,
    windows: Map<Seq<char>, ClientWindow>,
    history: Seq<(Seq<char>, u128)>,
    client: Seq<char>,
)
    ensures
        admitted_of(config, windows, history, client) == admitted_after(
            config,
            window_in(windows, client),
            requests_of(history, client),
        ),
    decreases history.len(),
{
    if history.len() > 0 {
        let earlier = history.drop_last();
        lemma_admitted_of_own_requests(config, windows, earlier, client);
        law_window_depends_on_own_requests(config, windows, earlier, client);
        if history.last().0 == client {
            let own = requests_of(earlier, client);
            let times = own.push(history.last().1);
            assert(times.drop_last() =~= own);
        }
    }
}

/// A client's run of requests seen from its first request: the first one
/// moves the window, the rest go on from there.
pub proof fn lemma_first_request_then_rest(config: RateLimitConfig, start: Option<ClientWindow>, times: Seq<u128>)
    requires
        times.len() > 0,
    ensures
        window_after(config, start, times) == window_after(
            config,
            Some(admission_step(config, start, times[0]).0),
            times.drop_first(),
        ),
        admitted_after(config, start, times) == (if admission_step(config, start, times[0]).1 is Allowed {
            1nat
        } else {
            0nat
        }) + admitted_after(config, Some(admission_step(config, start, times[0]).0), times.drop_first()),
    decreases times.len(),
{
    let first = admission_step(config, start, times[0]);
    if times.len() == 1 {
        assert(times.drop_last() =~= Seq::<u128>::empty());
        assert(times.drop_first() =~= Seq::<u128>::empty());
        assert(times.last() == times[0]);
        assert(admitted_after(config, start, times.drop_last()) == 0);
    } else {
        let shorter = times.drop_last();
        lemma_first_request_then_rest(config, start, shorter);
        assert(shorter.drop_first() =~= times.drop_first().drop_last());
        assert(shorter[0] == times[0]);
        assert(times.drop_first().last() == times.last());
    }
}

/// Inside one open window, each request is counted until the window is
/// full, and refused after.
pub proof fn lemma_run_in_open_window(config: RateLimitConfig, window: ClientWindow, times: Seq<u128>)
    requires
        window.count <= config.max_requests,
        within_window(config, window.started_at, times),
    ensures
        window_after(config, Some(window), times) == Some(
            ClientWindow {
                count: (if window.count + times.len() <= config.max_requests {
                    window.count + times.len()
                } else {
                    config.max_requests as int
                }) as u32,
                started_at: window.started_at,
            },
        ),
        admitted_after(config, Some(window), times) == min_nat(
            times.len(),
            (config.max_requests - window.count) as nat,
        ),
    decreases times.len(),
{
    if times.len() > 0 {
        let shorter = times.drop_last();
        assert(within_window(config, window.started_at, shorter)) by {
            assert forall|i: int| 0 <= i < shorter.len() implies elapsed_nanos(
                #[trigger] shorter[i],
                window.started_at,
            ) <= config.window_nanos() by {
                assert(shorter[i] == times[i]);
            }
        }
        lemma_run_in_open_window(config, window, shorter);
        assert(elapsed_nanos(times[times.len() - 1], window.started_at) <= config.window_nanos());
    }
}

/// Running `before` and then `during` is running the two one after the
/// other, and the admitted requests of each client add up.
pub proof fn law_history_splits(
    config: RateLimitConfig,
    windows: Map<Seq<char>, ClientWindow>,
    before: Seq<(Seq<char>, u128)>,
    during: Seq<(Seq<char>, u128)>,
    client: Seq<char>,
)
    ensures
        replay(config, windows, before + during) == replay(config, replay(config, windows, before), during),
        admitted_of(config, windows, before + during, client) == admitted_of(config, windows, before, client)
            + admitted_of(config, replay(config, windows, before), during, client),
    decreases during.len(),
{
    if during.len() == 0 {
        assert(before + during =~= before);
    } else {
        law_history_splits(config, windows, before, during.drop_last(), client);
        assert((before + during).drop_last() =~= before + during.drop_last());
        assert((before + during).last() == during.last());
    }
}

/// The budget of a window over any history of many clients: when a
/// client's request opens a window at `s` (it has no window yet, or its
/// window started more than one window length before `s`), and the client's
/// requests from that one on all come within one window length of `s`,
/// exactly `min(n, max_requests)` of those `n` requests are admitted,
/// whatever other clients send in between.
pub proof fn law_history_window_budget(
    config: RateLimitConfig,
    windows: Map<Seq<char>, ClientWindow>,
    before: Seq<(Seq<char>, u128)>,
    during: Seq<(Seq<char>, u128)>,
    client: Seq<char>,
)
    requires
        config.max_requests >= 1,
        requests_of(during, client).len() > 0,
        match window_in(replay(config, windows, before), client) {
            Some(w) => elapsed_nanos(requests_of(during, client)[0], w.started_at) > config.window_nanos(),
            None => true,
        },
        within_window(config, requests_of(during, client)[0], requests_of(during, client)),
    ensures
        admitted_of(config, replay(config, windows, before), during, client) == min_nat(
            requests_of(during, client).len(),
            config.max_requests as nat,
        ),
        admitted_of(config, windows, before + during, client) == admitted_of(config, windows, before, client)
            + min_nat(requests_of(during, client).len(), config.max_requests as nat),
{
    let start_windows = replay(config, windows, before);
    let times = requests_of(during, client);
    let s = times[0];
    lemma_admitted_of_own_requests(config, start_windows, during, client);
    let start = window_in(start_windows, client);
    lemma_first_request_then_rest(config, start, times);
    let first = admission_step(config, start, s);
    assert(first == (ClientWindow { count: 1, started_at: s }, Admission::Allowed));
    let rest = times.drop_first();
    assert(within_window(config, s, rest)) by {
        assert forall|i: int| 0 <= i < rest.len() implies elapsed_nanos(
            #[trigger] rest[i],
            s,
        ) <= config.window_nanos() by {
            assert(rest[i] == times[i + 1]);
        }
    }
    lemma_run_in_open_window(config, first.0, rest);
    law_history_splits(config, windows, before, during, client);
}

} // verus!
