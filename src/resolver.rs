//! Resolving an author's tip address: the decisions of the lookup, as a
//! state machine. The caller performs each requested action (read the cache,
//! send a request, sleep, write the cache) and reports back what happened.

use vstd::prelude::*;

use crate::tip::{
    cache_entry_fresh, cached_tip, extract_unified_address, find_address_in_json, fresh_at,
    json_address, opt_tip_view, tip_from_cache, tip_of, ua_in_text, unified_decode_of,
    validate_unified_address, CachedTipEntry, JsonValue, TipInfo, TipView,
};

verus! {

/// How many times one request is sent at most.
pub const RETRY_ATTEMPTS: usize = 3;

/// The delay before the first retry, in milliseconds.
pub const RETRY_BASE_DELAY_MS: u64 = 500;

/// How many lookups may be in flight at once.
pub const PROFILE_CONCURRENCY: usize = 3;

/// A status worth retrying: a server error or "too many requests".
pub open spec fn is_retry_status(code: u16) -> bool {
    (500 <= code && code <= 599) || code == 429
}

/// Whether a response with this status is retried.
pub fn should_retry_status(status: u16) -> (r: bool)
    ensures
        r == is_retry_status(status),
{
    (500 <= status && status <= 599) || status == 429
}

/// Two to the power `n`.
pub open spec fn pow2(n: nat) -> nat
    decreases n,
{
    if n == 0 {
        1
    } else {
        2 * pow2((n - 1) as nat)
    }
}

/// The delay after failed attempt number `attempt` (from zero): the base
/// delay doubled once per attempt, doubling at most five times.
pub open spec fn delay_ms(attempt: nat) -> nat {
    RETRY_BASE_DELAY_MS as nat * pow2(if attempt < 5 { attempt } else { 5 })
}

/// The delay in milliseconds before the retry that follows attempt `attempt`.
pub fn retry_delay(attempt: usize) -> (r: u64)
    ensures
        r == delay_ms(attempt as nat),
{
    let e: usize = if attempt < 5 {
        attempt
    } else {
        5
    };
    let mut m: u64 = RETRY_BASE_DELAY_MS;
    let mut k: usize = 0;
    while k < e
        invariant
            e <= 5,
            k <= e,
            m == RETRY_BASE_DELAY_MS as nat * pow2(k as nat),
            m <= 16000,
        decreases e - k,
    {
        proof {
            assert(pow2((k + 1) as nat) == 2 * pow2(k as nat));
            assert(m <= 500 * pow2(k as nat));
            lemma_pow2_small(k as nat);
        }
        m = m * 2;
        k += 1;
    }
    m
}

proof fn lemma_pow2_small(k: nat)
    requires
        k < 5,
    ensures
        pow2(k) <= 16,
        pow2(k + 1) <= 32,
{
    reveal_with_fuel(pow2, 6);
}


/// Relies on url::Url::parse and Url::join: resolving `reference` against
/// `base` depends on the two arguments alone (`None` when either fails).
pub uninterp spec fn url_join_of(base: Seq<char>, reference: Seq<char>) -> Option<Seq<char>>;

/// Relies on url: parses `base` and joins `reference` onto it.
#[verifier::external_body]
fn join_url(base: &str, reference: &str) -> (r: Option<String>)
    ensures
        r.deep_view() == url_join_of(base@, reference@),
{
    let b = url::Url::parse(base).ok()?;
    b.join(reference).ok().map(|u| u.to_string())
}

/// Which profile representation a request is for.
#[derive(Debug, Clone, Copy, PartialEq, Eq, Structural)]
pub enum Source {
    Json,
    Html,
}

/// Where a lookup stands.
#[derive(Debug, Clone, Copy, PartialEq, Eq, Structural)]
pub enum Stage {
    Start,
    AwaitCache,
    AwaitStatus,
    AwaitSleep,
    AwaitBody,
    AwaitWrite,
    Done,
}

/// What the caller reports back after performing an action.
pub enum Event {
    /// The cache was read (`None`: no record, or one that did not parse);
    /// `now` is the time in seconds since the epoch.
    CacheLoaded { entry: Option<CachedTipEntry>, now: u64 },
    /// The request was answered with this status.
    Status { code: u16 },
    /// The request failed below HTTP.
    TransportFailed,
    /// The requested delay has passed.
    Slept,
    /// The structured body was read (`None`: it could not be read or parsed).
    JsonBody { value: Option<JsonValue> },
    /// The page body was read (`None`: it could not be read).
    TextBody { text: Option<String> },
    /// The cache record was written (or the write failed and was reported).
    Written,
}

/// What the caller is asked to do next.
pub enum Action {
    /// Read the cached record of the author.
    ReadCache,
    /// Send a GET request to `url`.
    Get { url: String },
    /// Wait this many milliseconds.
    Sleep { millis: u64 },
    /// Read the body of the last response as structured data.
    ReadJsonBody,
    /// Read the body of the last response as text.
    ReadTextBody,
    /// Cache this outcome (`None`: confirmed absence) for the author.
    WriteCache { tip: Option<TipInfo> },
    /// The lookup is over, with this result.
    Finish { tip: Option<TipInfo> },
}

/// The lookup of one author's tip address.
pub struct Resolver {
    pub username: String,
    pub base_url: String,
    pub stage: Stage,
    pub source: Source,
    pub attempt: usize,
    pub url: String,
    pub outcome: Option<TipInfo>,
}

/// The path of an author's structured profile.
pub open spec fn json_profile_path(user: Seq<char>) -> Seq<char> {
    "/u/"@ + user + ".json"@
}

/// The path of an author's profile page.
pub open spec fn html_profile_path(user: Seq<char>) -> Seq<char> {
    "/u/"@ + user
}

/// `a` ends the lookup with `t`, and `n` is done.
pub open spec fn finishes(a: Action, n: Resolver, t: Option<TipView>) -> bool {
    &&& a matches Action::Finish { tip } && opt_tip_view(tip) == t
    &&& n.stage == Stage::Done
}

/// `a` asks to cache `t`, which `n` keeps as the result to return.
pub open spec fn writes(a: Action, n: Resolver, t: Option<TipView>) -> bool {
    &&& a matches Action::WriteCache { tip } && opt_tip_view(tip) == t
    &&& n.stage == Stage::AwaitWrite
    &&& opt_tip_view(n.outcome) == t
}

/// `a` requests the profile at `path` (relative to `base`) as `source`, from
/// the first attempt; if the link cannot be built the lookup ends with no tip.
pub open spec fn requests(a: Action, n: Resolver, base: Seq<char>, path: Seq<char>, source: Source) -> bool {
    match url_join_of(base, path) {
        Some(u) => {
            &&& a matches Action::Get { url } && url@ == u
            &&& n.stage == Stage::AwaitStatus
            &&& n.source == source
            &&& n.attempt == 0
            &&& n.url@ == u
        },
        None => finishes(a, n, None),
    }
}

/// A success status.
pub open spec fn is_success(code: u16) -> bool {
    200 <= code && code <= 299
}

impl Resolver {
    /// A lookup for `username`, with profile links resolved against `base_url`.
    pub fn new(username: String, base_url: String) -> (r: Resolver)
        ensures
            r.username == username,
            r.base_url == base_url,
            r.stage == Stage::Start,
    {
        Resolver {
            username,
            base_url,
            stage: Stage::Start,
            source: Source::Json,
            attempt: 0,
            url: String::new(),
            outcome: None,
        }
    }

    fn finish(&mut self, tip: Option<TipInfo>) -> (a: Action)
        ensures
            final(self).username == old(self).username,
            final(self).base_url == old(self).base_url,
            finishes(a, *final(self), opt_tip_view(tip)),
    {
        self.stage = Stage::Done;
        Action::Finish { tip }
    }

    fn write(&mut self, tip: Option<TipInfo>) -> (a: Action)
        ensures
            final(self).username == old(self).username,
            final(self).base_url == old(self).base_url,
            writes(a, *final(self), opt_tip_view(tip)),
    {
        let copy = match &tip {
            Some(t) => Some(TipInfo { address: t.address.clone(), has_transparent: t.has_transparent }),
            None => None,
        };
        self.stage = Stage::AwaitWrite;
        self.outcome = copy;
        Action::WriteCache { tip }
    }

    fn request(&mut self, path: String, source: Source) -> (a: Action)
        ensures
            final(self).username == old(self).username,
            final(self).base_url == old(self).base_url,
            requests(a, *final(self), old(self).base_url@, path@, source),
    {
        match join_url(self.base_url.as_str(), path.as_str()) {
            Some(u) => {
                self.stage = Stage::AwaitStatus;
                self.source = source;
                self.attempt = 0;
                self.url = u.clone();
                Action::Get { url: u }
            },
            None => self.finish(None),
        }
    }

    /// Starts the lookup: an empty handle has no tip and needs no cache;
    /// any other first reads the cache.
    pub fn start(&mut self) -> (a: Action)
        ensures
            final(self).username == old(self).username,
            final(self).base_url == old(self).base_url,
            old(self).stage == Stage::Start && old(self).username@.len() == 0 ==> finishes(a, *final(self), None),
            old(self).stage == Stage::Start && old(self).username@.len() > 0 ==> a is ReadCache
                && final(self).stage == Stage::AwaitCache,
            old(self).stage != Stage::Start ==> finishes(a, *final(self), None),
    {
        match self.stage {
            Stage::Start => {
                if self.username.unicode_len() == 0 {
                    self.finish(None)
                } else {
                    self.stage = Stage::AwaitCache;
                    Action::ReadCache
                }
            },
            _ => self.finish(None),
        }
    }

    fn profile_path(&self, source: Source) -> (r: String)
        ensures
            source == Source::Json ==> r@ == json_profile_path(self.username@),
            source == Source::Html ==> r@ == html_profile_path(self.username@),
    {
        let mut p = String::from_str("/u/");
        p.append(self.username.as_str());
        match source {
            Source::Json => {
                p.append(".json");
            },
            Source::Html => {},
        }
        p
    }

    /// Takes the next step after the caller reports `ev`.
    ///
    /// A fresh cached record ends the lookup with what it holds and no
    /// request; a missing or stale one starts the remote lookup. A status to
    /// retry is retried after a growing delay while attempts remain; on the
    /// last attempt it stands. "Not found" is a confirmed absence; another
    /// failure, or a failed read, ends the lookup with no tip and nothing
    /// cached. A candidate in the structured profile is validated; with none
    /// there the profile page is searched. Every confirmed outcome is cached
    /// before it is returned. An event that does not fit the stage ends the
    /// lookup with no tip.
    pub fn on_event(&mut self, ev: Event) -> (a: Action)
        ensures
            final(self).username == old(self).username,
            final(self).base_url == old(self).base_url,
            ({
                let s = *old(self);
                let n = *final(self);
                match ev {
                    Event::CacheLoaded { entry, now } => if s.stage == Stage::AwaitCache {
                        match entry {
                            Some(e) => if fresh_at(e.cached_at, now) {
                                finishes(a, n, cached_tip(e))
                            } else {
                                requests(a, n, s.base_url@, json_profile_path(s.username@), Source::Json)
                            },
                            None => requests(a, n, s.base_url@, json_profile_path(s.username@), Source::Json),
                        }
                    } else {
                        finishes(a, n, None)
                    },
                    Event::Status { code } => if s.stage == Stage::AwaitStatus {
                        if is_retry_status(code) && s.attempt + 1 < RETRY_ATTEMPTS {
                            &&& a matches Action::Sleep { millis } && millis == delay_ms(s.attempt as nat)
                            &&& n.stage == Stage::AwaitSleep
                            &&& n.attempt == s.attempt
                            &&& n.source == s.source
                            &&& n.url == s.url
                        } else if code == 404 {
                            writes(a, n, None)
                        } else if !is_success(code) {
                            finishes(a, n, None)
                        } else {
                            &&& n.stage == Stage::AwaitBody
                            &&& n.source == s.source
                            &&& (s.source == Source::Json ==> a is ReadJsonBody)
                            &&& (s.source == Source::Html ==> a is ReadTextBody)
                        }
                    } else {
                        finishes(a, n, None)
                    },
                    Event::TransportFailed => if s.stage == Stage::AwaitStatus && s.attempt + 1 < RETRY_ATTEMPTS {
                        &&& a matches Action::Sleep { millis } && millis == delay_ms(s.attempt as nat)
                        &&& n.stage == Stage::AwaitSleep
                        &&& n.attempt == s.attempt
                        &&& n.source == s.source
                        &&& n.url == s.url
                    } else {
                        finishes(a, n, None)
                    },
                    Event::Slept => if s.stage == Stage::AwaitSleep && s.attempt + 1 < RETRY_ATTEMPTS {
                        &&& a matches Action::Get { url } && url@ == s.url@
                        &&& n.stage == Stage::AwaitStatus
                        &&& n.attempt == s.attempt + 1
                        &&& n.source == s.source
                        &&& n.url == s.url
                    } else {
                        finishes(a, n, None)
                    },
                    Event::JsonBody { value } => if s.stage == Stage::AwaitBody && s.source == Source::Json {
                        match value {
                            Some(v) => match json_address(v) {
                                Some(c) => writes(a, n, tip_of(c, unified_decode_of(c))),
                                None => requests(a, n, s.base_url@, html_profile_path(s.username@), Source::Html),
                            },
                            None => finishes(a, n, None),
                        }
                    } else {
                        finishes(a, n, None)
                    },
                    Event::TextBody { text } => if s.stage == Stage::AwaitBody && s.source == Source::Html {
                        match text {
                            Some(t) => match ua_in_text(t@) {
                                Some(c) => writes(a, n, tip_of(c, unified_decode_of(c))),
                                None => writes(a, n, None),
                            },
                            None => finishes(a, n, None),
                        }
                    } else {
                        finishes(a, n, None)
                    },
                    Event::Written => if s.stage == Stage::AwaitWrite {
                        finishes(a, n, opt_tip_view(s.outcome))
                    } else {
                        finishes(a, n, None)
                    },
                }
            }),
    {
        match ev {
            Event::CacheLoaded { entry, now } => {
                if self.stage != Stage::AwaitCache {
                    return self.finish(None);
                }
                match entry {
                    Some(e) => {
                        if cache_entry_fresh(&e, now) {
                            let t = tip_from_cache(&e);
                            return self.finish(t);
                        }
                    },
                    None => {},
                }
                let path = self.profile_path(Source::Json);
                self.request(path, Source::Json)
            },
            Event::Status { code } => {
                if self.stage != Stage::AwaitStatus {
                    return self.finish(None);
                }
                if should_retry_status(code) && self.attempt < RETRY_ATTEMPTS - 1 {
                    self.stage = Stage::AwaitSleep;
                    return Action::Sleep { millis: retry_delay(self.attempt) };
                }
                if code == 404 {
                    return self.write(None);
                }
                if !(200 <= code && code <= 299) {
                    return self.finish(None);
                }
                self.stage = Stage::AwaitBody;
                match self.source {
                    Source::Json => Action::ReadJsonBody,
                    Source::Html => Action::ReadTextBody,
                }
            },
            Event::TransportFailed => {
                if self.stage == Stage::AwaitStatus && self.attempt < RETRY_ATTEMPTS - 1 {
                    self.stage = Stage::AwaitSleep;
                    return Action::Sleep { millis: retry_delay(self.attempt) };
                }
                self.finish(None)
            },
            Event::Slept => {
                if self.stage == Stage::AwaitSleep && self.attempt < RETRY_ATTEMPTS - 1 {
                    self.attempt = self.attempt + 1;
                    self.stage = Stage::AwaitStatus;
                    return Action::Get { url: self.url.clone() };
                }
                self.finish(None)
            },
            Event::JsonBody { value } => {
                if !(self.stage == Stage::AwaitBody && self.source == Source::Json) {
                    return self.finish(None);
                }
                match value {
                    Some(v) => match find_address_in_json(&v) {
                        Some(c) => {
                            let t = validate_unified_address(c.as_str());
                            self.write(t)
                        },
                        None => {
                            let path = self.profile_path(Source::Html);
                            self.request(path, Source::Html)
                        },
                    },
                    None => self.finish(None),
                }
            },
            Event::TextBody { text } => {
                if !(self.stage == Stage::AwaitBody && self.source == Source::Html) {
                    return self.finish(None);
                }
                match text {
                    Some(t) => match extract_unified_address(t.as_str()) {
                        Some(c) => {
                            let tip = validate_unified_address(c.as_str());
                            self.write(tip)
                        },
                        None => self.write(None),
                    },
                    None => self.finish(None),
                }
            },
            Event::Written => {
                if self.stage != Stage::AwaitWrite {
                    return self.finish(None);
                }
                let t = match &self.outcome {
                    Some(t) => Some(TipInfo { address: t.address.clone(), has_transparent: t.has_transparent }),
                    None => None,
                };
                self.finish(t)
            },
        }
    }
}

} // verus!
