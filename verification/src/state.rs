//! Shared state of the service: the cache of processed activities, the
//! remembered licenses and linked sessions, and the per-subject rate
//! limiter of the video export path.
//!
//! Times are milliseconds on a clock that the caller reads.

use vstd::prelude::*;
use std::collections::VecDeque;
use dashmap::DashMap;
use crate::config::Config;
use crate::routes::visualize::{most_permits, PermitPool};
use crate::types::activity::{ProcessedActivity, ProcessedView};

verus! {

#[verifier::external_type_specification]
#[verifier::external_body]
#[verifier::reject_recursive_types(K)]
#[verifier::reject_recursive_types(V)]
#[verifier::reject_recursive_types(S)]
pub struct ExDashMap<K, V, S>(DashMap<K, V, S>);

/// A processed activity and the time at which it entered the cache.
#[derive(Debug, Clone)]
pub struct CachedActivity {
    pub activity: ProcessedActivity,
    pub inserted_at: u64,
}

/// A license that was issued, as the service remembers it.
#[derive(Debug, Clone)]
pub struct CachedLicense {
    pub token: String,
    pub email: String,
    pub is_pro: bool,
    pub expires_at: u64,
}

/// A session with the activity service that a user has linked.
#[derive(Debug, Clone)]
pub struct StravaSession {
    pub access_token: String,
    pub athlete_id: Option<u64>,
    pub expires_at: u64,
    pub oauth_client_id: Option<String>,
    pub oauth_client_secret: Option<String>,
}

/// What a map of the service holds under a key.
#[derive(Debug, Clone)]
pub enum Entry {
    /// The times of the requests of a subject that count against its limit.
    History(VecDeque<u64>),
    Activity(CachedActivity),
    License(CachedLicense),
    Session(StravaSession),
}

/// A cached activity as plain values.
pub struct CachedView {
    pub activity: ProcessedView,
    pub inserted_at: u64,
}

/// A remembered license as plain values.
pub struct LicenseView {
    pub token: Seq<char>,
    pub email: Seq<char>,
    pub is_pro: bool,
    pub expires_at: u64,
}

/// A linked session as plain values.
pub struct SessionView {
    pub access_token: Seq<char>,
    pub athlete_id: Option<u64>,
    pub expires_at: u64,
    pub oauth_client_id: Option<Seq<char>>,
    pub oauth_client_secret: Option<Seq<char>>,
}

/// The characters of a text that may be missing.
pub open spec fn text_of(text: Option<String>) -> Option<Seq<char>> {
    match text {
        Some(t) => Some(t@),
        None => None,
    }
}

impl CachedActivity {
    /// The cached activity as plain values.
    pub open spec fn view(&self) -> CachedView {
        CachedView { activity: self.activity@, inserted_at: self.inserted_at }
    }
}

impl CachedLicense {
    /// The license as plain values.
    pub open spec fn view(&self) -> LicenseView {
        LicenseView {
            token: self.token@,
            email: self.email@,
            is_pro: self.is_pro,
            expires_at: self.expires_at,
        }
    }
}

impl StravaSession {
    /// The session as plain values.
    pub open spec fn view(&self) -> SessionView {
        SessionView {
            access_token: self.access_token@,
            athlete_id: self.athlete_id,
            expires_at: self.expires_at,
            oauth_client_id: text_of(self.oauth_client_id),
            oauth_client_secret: text_of(self.oauth_client_secret),
        }
    }
}

/// An entry as a plain value.
pub enum EntryView {
    History(Seq<u64>),
    Activity(CachedView),
    License(LicenseView),
    Session(SessionView),
}

impl Entry {
    /// The entry as a plain value.
    pub open spec fn view(&self) -> EntryView {
        match *self {
            Entry::History(times) => EntryView::History(times@),
            Entry::Activity(cached) => EntryView::Activity(cached@),
            Entry::License(license) => EntryView::License(license@),
            Entry::Session(session) => EntryView::Session(session@),
        }
    }
}

/// The entries that a map holds under their keys.
pub uninterp spec fn map_entries(map: DashMap<String, Entry>) -> Map<Seq<char>, EntryView>;

/// The entries of a map that holds nothing.
pub open spec fn no_entries() -> Map<Seq<char>, EntryView> {
    Map::empty()
}

/// The entry held under a key, if there is one.
pub open spec fn entry_of(entries: Map<Seq<char>, EntryView>, key: Seq<char>) -> Option<EntryView> {
    if entries.contains_key(key) {
        Some(entries[key])
    } else {
        None
    }
}

/// The view of an entry that may be missing.
pub open spec fn view_of(entry: Option<Entry>) -> Option<EntryView> {
    match entry {
        Some(e) => Some(e@),
        None => None,
    }
}

/// Time from `then` to `now`; zero where `then` is not in the past.
pub open spec fn time_since(now: u64, then: u64) -> int {
    if now >= then {
        now - then
    } else {
        0
    }
}

/// Whether an entry is kept by a sweep at `now` under a time to live: an
/// activity while less than the time to live has passed since it entered
/// the cache, a license or a session until it expires, a history always.
pub open spec fn is_kept(entry: EntryView, now: u64, ttl: u64) -> bool {
    match entry {
        EntryView::History(_) => true,
        EntryView::Activity(cached) => time_since(now, cached.inserted_at) < ttl,
        EntryView::License(license) => now < license.expires_at,
        EntryView::Session(session) => now < session.expires_at,
    }
}

/// The entries that are left after a sweep at `now`: those that are kept.
pub open spec fn swept(entries: Map<Seq<char>, EntryView>, now: u64, ttl: u64) -> Map<
    Seq<char>,
    EntryView,
> {
    Map::new(
        |key: Seq<char>| entries.contains_key(key) && is_kept(entries[key], now, ttl),
        |key: Seq<char>| entries[key],
    )
}

/// After a sweep every entry is one that is kept, and every entry that is
/// kept is still there, as it was.
pub proof fn lemma_swept(entries: Map<Seq<char>, EntryView>, now: u64, ttl: u64, key: Seq<char>)
    ensures
        swept(entries, now, ttl).contains_key(key) <==> entries.contains_key(key) && is_kept(
            entries[key],
            now,
            ttl,
        ),
        swept(entries, now, ttl).contains_key(key) ==> swept(entries, now, ttl)[key]
            == entries[key],
{
}

/// Time from `then` to `now`; zero where `then` is not in the past.
fn elapsed(now: u64, then: u64) -> (r: u64)
    ensures
        r == time_since(now, then),
{
    if now >= then {
        now - then
    } else {
        0
    }
}

/// Tells whether an entry is kept by a sweep.
pub fn entry_kept(entry: &Entry, now: u64, ttl: u64) -> (kept: bool)
    ensures
        kept == is_kept(entry@, now, ttl),
{
    match entry {
        Entry::History(_) => true,
        Entry::Activity(cached) => elapsed(now, cached.inserted_at) < ttl,
        Entry::License(license) => now < license.expires_at,
        Entry::Session(session) => now < session.expires_at,
    }
}

/// `DashMap::new`: a map that holds nothing.
#[verifier::external_body]
fn map_new() -> (created: DashMap<String, Entry>)
    ensures
        map_entries(created) == no_entries(),
{
    DashMap::new()
}

/// `DashMap::insert`: sets the entry of `key`, replacing an earlier one.
#[verifier::external_body]
fn map_insert(map: &mut DashMap<String, Entry>, key: String, entry: Entry)
    ensures
        map_entries(*final(map)) == map_entries(*old(map)).insert(key@, entry@),
{
    map.insert(key, entry);
}

/// `DashMap::remove`: takes the entry of `key` out of the map and hands it
/// back, if there is one.
#[verifier::external_body]
fn map_remove(map: &mut DashMap<String, Entry>, key: &str) -> (taken: Option<Entry>)
    ensures
        map_entries(*final(map)) == map_entries(*old(map)).remove(key@),
        view_of(taken) == entry_of(map_entries(*old(map)), key@),
{
    map.remove(key).map(|pair| pair.1)
}

/// `DashMap::get`: a copy of the entry held under `key`, if there is one.
#[verifier::external_body]
fn map_get(map: &DashMap<String, Entry>, key: &str) -> (found: Option<Entry>)
    ensures
        view_of(found) == entry_of(map_entries(*map), key@),
{
    map.get(key).map(|entry| entry.clone())
}

/// `DashMap::retain`: keeps the entries that a sweep at `now` keeps, each
/// as it is, and removes the others.
#[verifier::external_body]
fn map_retain(map: &mut DashMap<String, Entry>, now: u64, ttl: u64)
    ensures
        map_entries(*final(map)) == swept(map_entries(*old(map)), now, ttl),
{
    map.retain(|_, entry| entry_kept(entry, now, ttl));
}

/// The request times recorded for a subject; none where it has no history.
pub open spec fn history_of(entries: Map<Seq<char>, EntryView>, key: Seq<char>) -> Seq<u64> {
    match entry_of(entries, key) {
        Some(EntryView::History(times)) => times,
        _ => Seq::empty(),
    }
}

/// The history without its leading times that lie more than `window` back.
pub open spec fn pruned(history: Seq<u64>, now: u64, window: u64) -> Seq<u64>
    decreases history.len(),
{
    if history.len() > 0 && time_since(now, history[0]) > window {
        pruned(history.drop_first(), now, window)
    } else {
        history
    }
}

/// Whole seconds that a denied subject is told to wait, at least one: until
/// the oldest of the kept requests leaves the window, or the whole window
/// where none is kept.
pub open spec fn retry_after(kept: Seq<u64>, now: u64, window: u64) -> int {
    let left = if kept.len() == 0 {
        window as int / 1000
    } else if window >= time_since(now, kept[0]) {
        (window - time_since(now, kept[0])) / 1000
    } else {
        0
    };
    if left < 1 {
        1
    } else {
        left
    }
}

/// Whether a request at `now` is admitted, given the subject's history:
/// fewer than `max_requests` of its requests lie within the window.
pub open spec fn admitted(history: Seq<u64>, now: u64, window: u64, max_requests: int) -> bool {
    pruned(history, now, window).len() < max_requests
}

/// The subject's history after a request at `now`: pruned, and with `now`
/// appended where the request is admitted.
pub open spec fn history_after(history: Seq<u64>, now: u64, window: u64, max_requests: int) -> Seq<
    u64,
> {
    if pruned(history, now, window).len() < max_requests {
        pruned(history, now, window).push(now)
    } else {
        pruned(history, now, window)
    }
}

/// Pruning removes a prefix: what is kept is a suffix of the history, its
/// first time lies within the window, and all of it is kept where the first
/// time lies within the window.
pub proof fn lemma_pruned(history: Seq<u64>, now: u64, window: u64)
    ensures
        pruned(history, now, window).len() <= history.len(),
        pruned(history, now, window) == history.subrange(
            history.len() - pruned(history, now, window).len(),
            history.len() as int,
        ),
        pruned(history, now, window).len() > 0 ==> time_since(
            now,
            pruned(history, now, window)[0],
        ) <= window,
        history.len() > 0 && time_since(now, history[0]) > window ==> pruned(
            history,
            now,
            window,
        ).len() < history.len(),
        history.len() > 0 && time_since(now, history[0]) <= window ==> pruned(history, now, window)
            == history,
    decreases history.len(),
{
    if history.len() > 0 && time_since(now, history[0]) > window {
        let rest = history.drop_first();
        lemma_pruned(rest, now, window);
        let kept = pruned(rest, now, window);
        assert(kept =~= history.subrange(history.len() - kept.len(), history.len() as int));
    } else {
        assert(history =~= history.subrange(0, history.len() as int));
    }
}

/// A subject that already has `max_requests` requests within the window is
/// denied, told to wait at least a second, and nothing is recorded for the
/// request.
pub proof fn lemma_denied_at_limit(history: Seq<u64>, now: u64, window: u64, max_requests: int)
    requires
        history.len() >= max_requests,
        history.len() > 0 ==> time_since(now, history[0]) <= window,
    ensures
        !admitted(history, now, window, max_requests),
        retry_after(pruned(history, now, window), now, window) >= 1,
        history_after(history, now, window, max_requests) == history,
{
    lemma_pruned(history, now, window);
}

/// Once the oldest recorded request has left the window, a subject whose
/// history is within the limit is admitted again.
pub proof fn lemma_admitted_after_window(history: Seq<u64>, now: u64, window: u64, max_requests: int)
    requires
        0 < history.len() <= max_requests,
        time_since(now, history[0]) > window,
    ensures
        admitted(history, now, window, max_requests),
        history_after(history, now, window, max_requests).last() == now,
{
    lemma_pruned(history, now, window);
}

/// A history never grows beyond the limit.
pub proof fn lemma_history_within_limit(history: Seq<u64>, now: u64, window: u64, max_requests: int)
    requires
        history.len() <= max_requests,
    ensures
        history_after(history, now, window, max_requests).len() <= max_requests,
{
    lemma_pruned(history, now, window);
}

/// A limiter with a limit of zero denies every request.
pub proof fn lemma_zero_limit_denies(history: Seq<u64>, now: u64, window: u64)
    ensures
        !admitted(history, now, window, 0),
        retry_after(pruned(history, now, window), now, window) >= 1,
{
}

/// Sliding-window limiter of video export requests, one history per subject.
pub struct VideoExportRateLimiter {
    window: u64,
    max_requests: usize,
    requests: DashMap<String, Entry>,
}

impl VideoExportRateLimiter {
    /// Length of the window in milliseconds.
    pub closed spec fn window(&self) -> u64 {
        self.window
    }

    /// Requests admitted per subject and window.
    pub closed spec fn max_requests(&self) -> usize {
        self.max_requests
    }

    /// What the limiter holds for every subject.
    pub closed spec fn histories(&self) -> Map<Seq<char>, EntryView> {
        map_entries(self.requests)
    }

    /// A limiter that has seen no request.
    pub fn new(window: u64, max_requests: usize) -> (limiter: Self)
        ensures
            limiter.window() == window,
            limiter.max_requests() == max_requests,
            limiter.histories() == no_entries(),
    {
        Self { window, max_requests, requests: map_new() }
    }

    /// Decides on a request of subject `key` at time `now`.
    ///
    /// Times older than the window are dropped from the subject's history.
    /// With `max_requests` times or more left the request is denied, with
    /// the number of seconds until the oldest of them leaves the window, or
    /// the length of the window where none is left (at least one second
    /// either way). Otherwise `now` is recorded and the request admitted.
    #[verifier::rlimit(40)]
    pub fn check(&mut self, key: &str, now: u64) -> (verdict: Result<(), u64>)
        ensures
            final(self).window() == old(self).window(),
            final(self).max_requests() == old(self).max_requests(),
            ({
                let before = history_of(old(self).histories(), key@);
                let limit = old(self).max_requests() as int;
                let window = old(self).window();
                &&& verdict.is_ok() == admitted(before, now, window, limit)
                &&& match verdict {
                    Ok(_) => true,
                    Err(seconds) => seconds == retry_after(pruned(before, now, window), now, window),
                }
                &&& final(self).histories() == old(self).histories().insert(
                    key@,
                    EntryView::History(history_after(before, now, window, limit)),
                )
            }),
    {
        let ghost before = history_of(self.histories(), key@);
        let mut history: VecDeque<u64> = match map_remove(&mut self.requests, key) {
            Some(Entry::History(times)) => times,
            _ => VecDeque::new(),
        };
        assert(history@ == before);
        while history.len() > 0 && elapsed(now, history[0]) > self.window
            invariant
                pruned(history@, now, self.window) == pruned(before, now, self.window),
            decreases history@.len(),
        {
            let _ = history.pop_front();
        }
        proof {
            lemma_pruned(before, now, self.window);
        }
        let verdict = if history.len() >= self.max_requests {
            let left = if history.len() == 0 {
                self.window / 1000
            } else {
                let spent = elapsed(now, history[0]);
                if self.window >= spent {
                    (self.window - spent) / 1000
                } else {
                    0
                }
            };
            Err(
                if left < 1 {
                    1
                } else {
                    left
                },
            )
        } else {
            history.push_back(now);
            Ok(())
        };
        let ghost after = EntryView::History(history@);
        map_insert(&mut self.requests, String::from_str(key), Entry::History(history));
        assert(map_entries(old(self).requests).remove(key@).insert(key@, after) =~= map_entries(
            old(self).requests,
        ).insert(key@, after));
        verdict
    }
}

/// The activity held under a key, if there is one.
pub open spec fn activity_of(entries: Map<Seq<char>, EntryView>, key: Seq<char>) -> Option<
    ProcessedView,
> {
    match entry_of(entries, key) {
        Some(EntryView::Activity(cached)) => Some(cached.activity),
        _ => None,
    }
}

/// The license held under a key, unless it has expired at `now`.
pub open spec fn valid_license_of(entries: Map<Seq<char>, EntryView>, key: Seq<char>, now: u64) -> Option<
    LicenseView,
> {
    match entry_of(entries, key) {
        Some(EntryView::License(license)) => if now < license.expires_at {
            Some(license)
        } else {
            None
        },
        _ => None,
    }
}

/// The session held under a key, unless it has expired at `now`.
pub open spec fn open_session_of(entries: Map<Seq<char>, EntryView>, key: Seq<char>, now: u64) -> Option<
    SessionView,
> {
    match entry_of(entries, key) {
        Some(EntryView::Session(session)) => if now < session.expires_at {
            Some(session)
        } else {
            None
        },
        _ => None,
    }
}

/// The state that the requests of the service share.
pub struct AppState {
    cache: DashMap<String, Entry>,
    licenses: DashMap<String, Entry>,
    strava_sessions: DashMap<String, Entry>,
    config: Config,
    video_export_permits: PermitPool,
    video_export_rate_limiter: VideoExportRateLimiter,
}

impl AppState {
    /// The cached activities under their file ids.
    pub closed spec fn activities(&self) -> Map<Seq<char>, EntryView> {
        map_entries(self.cache)
    }

    /// The remembered licenses under their tokens.
    pub closed spec fn licenses(&self) -> Map<Seq<char>, EntryView> {
        map_entries(self.licenses)
    }

    /// The linked sessions under their keys.
    pub closed spec fn sessions(&self) -> Map<Seq<char>, EntryView> {
        map_entries(self.strava_sessions)
    }

    /// The settings of the service.
    pub closed spec fn settings(&self) -> Config {
        self.config
    }

    /// The permits of the video export path.
    pub closed spec fn permits(&self) -> PermitPool {
        self.video_export_permits
    }

    /// The rate limiter of the video export path.
    pub closed spec fn limiter(&self) -> VideoExportRateLimiter {
        self.video_export_rate_limiter
    }

    /// Whether the state is consistent: its permit pool is in order.
    pub open spec fn wf(&self) -> bool {
        self.permits().wf()
    }

    /// Whether `other` has the settings, the permits and the limiter of this state.
    pub open spec fn same_controls(&self, other: &AppState) -> bool {
        &&& self.settings() == other.settings()
        &&& self.permits() == other.permits()
        &&& self.limiter() == other.limiter()
    }

    /// The state of a service that starts with these settings: empty
    /// caches, as many free permits as the settings allow video exports at
    /// once, and a rate limiter with the window (in
    /// milliseconds, as long as a `u64` can hold) and the limit of the
    /// settings.
    pub fn new(config: Config) -> (state: Self)
        requires
            config.video_export_max_concurrency <= most_permits(),
        ensures
            state.wf(),
            state.activities() == no_entries(),
            state.licenses() == no_entries(),
            state.sessions() == no_entries(),
            state.settings() == config,
            state.permits().in_use() == 0,
            state.permits().capacity() == config.video_export_max_concurrency,
            state.limiter().window() == crate::fixed::saturate(
                config.video_export_rate_limit_window * 1000,
            ),
            state.limiter().max_requests() == config.video_export_rate_limit_max_requests,
            state.limiter().histories() == no_entries(),
    {
        let video_export_permits = PermitPool::new(config.video_export_max_concurrency);
        let window_ms = crate::fixed::saturate_u128(
            config.video_export_rate_limit_window as u128 * 1000,
        );
        let video_export_rate_limiter = VideoExportRateLimiter::new(
            window_ms,
            config.video_export_rate_limit_max_requests,
        );
        AppState {
            cache: map_new(),
            licenses: map_new(),
            strava_sessions: map_new(),
            config,
            video_export_permits,
            video_export_rate_limiter,
        }
    }

    /// Puts an activity into the cache under `file_id`, stamped with `now`.
    /// An activity already held under that id is replaced.
    pub fn insert(&mut self, file_id: String, activity: ProcessedActivity, now: u64)
        ensures
            final(self).activities() == old(self).activities().insert(
                file_id@,
                EntryView::Activity(CachedView { activity: activity@, inserted_at: now }),
            ),
            final(self).licenses() == old(self).licenses(),
            final(self).sessions() == old(self).sessions(),
            final(self).same_controls(old(self)),
    {
        map_insert(
            &mut self.cache,
            file_id,
            Entry::Activity(CachedActivity { activity, inserted_at: now }),
        );
    }

    /// A copy of the activity held under `file_id`, if there is one.
    pub fn get(&self, file_id: &str) -> (found: Option<ProcessedActivity>)
        ensures
            match found {
                Some(activity) => activity_of(self.activities(), file_id@) == Some(activity@),
                None => activity_of(self.activities(), file_id@).is_none(),
            },
    {
        match map_get(&self.cache, file_id) {
            Some(Entry::Activity(cached)) => Some(cached.activity),
            _ => None,
        }
    }

    /// Removes the activities that have been in the cache for `ttl` or
    /// longer, and the licenses and sessions that have expired.
    pub fn evict_expired(&mut self, ttl: u64, now: u64)
        ensures
            final(self).activities() == swept(old(self).activities(), now, ttl),
            final(self).licenses() == swept(old(self).licenses(), now, ttl),
            final(self).sessions() == swept(old(self).sessions(), now, ttl),
            final(self).same_controls(old(self)),
    {
        map_retain(&mut self.cache, now, ttl);
        map_retain(&mut self.licenses, now, ttl);
        map_retain(&mut self.strava_sessions, now, ttl);
    }

    /// The settings of the service.
    pub fn config(&self) -> (config: &Config)
        ensures
            *config == self.settings(),
    {
        &self.config
    }

    /// The permits of the video export path.
    pub fn video_export_semaphore(&mut self) -> (pool: &mut PermitPool)
        ensures
            *pool == old(self).permits(),
            final(self).permits() == *final(pool),
            final(self).activities() == old(self).activities(),
            final(self).licenses() == old(self).licenses(),
            final(self).sessions() == old(self).sessions(),
            final(self).settings() == old(self).settings(),
            final(self).limiter() == old(self).limiter(),
    {
        &mut self.video_export_permits
    }

    /// The rate limiter of the video export path.
    pub fn video_export_rate_limiter(&mut self) -> (limiter: &mut VideoExportRateLimiter)
        ensures
            *limiter == old(self).limiter(),
            final(self).limiter() == *final(limiter),
            final(self).activities() == old(self).activities(),
            final(self).licenses() == old(self).licenses(),
            final(self).sessions() == old(self).sessions(),
            final(self).settings() == old(self).settings(),
            final(self).permits() == old(self).permits(),
    {
        &mut self.video_export_rate_limiter
    }

    /// Remembers a license under its token.
    pub fn store_license(&mut self, license: CachedLicense)
        ensures
            final(self).licenses() == old(self).licenses().insert(
                license.token@,
                EntryView::License(license@),
            ),
            final(self).activities() == old(self).activities(),
            final(self).sessions() == old(self).sessions(),
            final(self).same_controls(old(self)),
    {
        let key = license.token.clone();
        map_insert(&mut self.licenses, key, Entry::License(license));
    }

    /// The license remembered under a token, unless it has expired at `now`.
    pub fn verify_license(&self, token: &str, now: u64) -> (found: Option<CachedLicense>)
        ensures
            match found {
                Some(license) => valid_license_of(self.licenses(), token@, now) == Some(license@),
                None => valid_license_of(self.licenses(), token@, now).is_none(),
            },
    {
        match map_get(&self.licenses, token) {
            Some(Entry::License(license)) => if now < license.expires_at {
                Some(license)
            } else {
                None
            },
            _ => None,
        }
    }

    /// Keeps a session under a key.
    pub fn store_strava_session(&mut self, session_key: String, session: StravaSession)
        ensures
            final(self).sessions() == old(self).sessions().insert(
                session_key@,
                EntryView::Session(session@),
            ),
            final(self).activities() == old(self).activities(),
            final(self).licenses() == old(self).licenses(),
            final(self).same_controls(old(self)),
    {
        map_insert(&mut self.strava_sessions, session_key, Entry::Session(session));
    }

    /// The session kept under a key, unless it has expired at `now`.
    pub fn get_strava_session(&self, session_key: &str, now: u64) -> (found: Option<StravaSession>)
        ensures
            match found {
                Some(session) => open_session_of(self.sessions(), session_key@, now) == Some(
                    session@,
                ),
                None => open_session_of(self.sessions(), session_key@, now).is_none(),
            },
    {
        match map_get(&self.strava_sessions, session_key) {
            Some(Entry::Session(session)) => if now < session.expires_at {
                Some(session)
            } else {
                None
            },
            _ => None,
        }
    }
}

} // verus!
