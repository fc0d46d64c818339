//! Caches of API answers by request url.
use vstd::prelude::*;
use vstd::hash_map::StringHashMap;

verus! {

/// Cache interface that the request context uses: answers remembered by
/// request url. A cacher that several tasks share is held behind a lock.
pub trait Cacher {
    /// Remembers `val` for `key`.
    fn cache_store(&mut self, key: &str, val: &str) {
    }

    /// What is remembered for `key`: by default nothing.
    fn cache_get(&self, key: &str) -> (r: Option<String>)
        default_ensures
            r is None,
    {
        None
    }
}

/// A cacher that remembers nothing.
pub struct NoCacher {}

impl Default for NoCacher {
    fn default() -> (r: NoCacher)
        ensures
            r == (NoCacher {  }),
    {
        NoCacher {  }
    }
}

impl Cacher for NoCacher {
    fn cache_store(&mut self, key: &str, val: &str)
        ensures
            *final(self) == *old(self),
    {
    }

    fn cache_get(&self, key: &str) -> (r: Option<String>)
        ensures
            r is None,
    {
        None
    }
}

/// The texts of a map of strings.
pub open spec fn string_map_view(m: Map<Seq<char>, String>) -> Map<Seq<char>, Seq<char>> {
    m.map_values(|v: String| v@)
}

/// A simple in memory cacher which remember until poweroff.
pub struct SimpleMemCacher {
    /// The remembered answers, by key.
    pub map: StringHashMap<String>,
}

impl View for SimpleMemCacher {
    type V = Map<Seq<char>, Seq<char>>;

    open spec fn view(&self) -> Map<Seq<char>, Seq<char>> {
        string_map_view(self.map@)
    }
}

impl Default for SimpleMemCacher {
    /// A cacher that remembers nothing yet.
    fn default() -> (r: SimpleMemCacher)
        ensures
            r@ == Map::<Seq<char>, Seq<char>>::empty(),
    {
        let r = SimpleMemCacher { map: StringHashMap::new() };
        assert(r@ =~= Map::<Seq<char>, Seq<char>>::empty());
        r
    }
}

impl Cacher for SimpleMemCacher {
    fn cache_store(&mut self, key: &str, val: &str)
        ensures
            final(self)@ == old(self)@.insert(key@, val@),
    {
        self.map.insert(String::from_str(key), String::from_str(val));
        assert(final(self)@ =~= old(self)@.insert(key@, val@));
    }

    fn cache_get(&self, key: &str) -> (r: Option<String>)
        ensures
            match r {
                Some(v) => self@.contains_key(key@) && v@ == self@[key@],
                None => !self@.contains_key(key@),
            },
    {
        match self.map.get(key) {
            Some(v) => Some(v.clone()),
            None => None,
        }
    }
}

#[verifier::external_type_specification]
#[verifier::external_body]
pub struct ExInstant(std::time::Instant);

/// `Instant::now`: the present moment.
#[verifier::external_body]
fn instant_now() -> std::time::Instant {
    std::time::Instant::now()
}

/// `Instant::elapsed`: the time passed since `t`. It rests on the clock, so
/// nothing is stated of it.
#[verifier::external_body]
fn elapsed_since(t: &std::time::Instant) -> std::time::Duration {
    t.elapsed()
}

/// The whole nanoseconds of a duration.
pub uninterp spec fn duration_nanos_of(d: std::time::Duration) -> u128;

/// `Duration::as_nanos`: the whole nanoseconds of `d`, named by
/// [`duration_nanos_of`].
#[verifier::external_body]
fn duration_as_nanos(d: &std::time::Duration) -> (r: u128)
    ensures
        r == duration_nanos_of(*d),
{
    d.as_nanos()
}

/// `Duration::from_secs`: the duration of `secs` whole seconds, which is
/// `secs` times 10^9 nanoseconds.
#[verifier::external_body]
fn duration_from_secs(secs: u64) -> (r: std::time::Duration)
    ensures
        duration_nanos_of(r) == secs as int * 1_000_000_000,
{
    std::time::Duration::from_secs(secs)
}

/// The texts of a map of stamped strings, without the stamps.
pub open spec fn stamped_map_view(m: Map<Seq<char>, (std::time::Instant, String)>) -> Map<Seq<char>, Seq<char>> {
    m.map_values(|v: (std::time::Instant, String)| v.1@)
}

/// A simple in memory cacher which only remember each item in a short duration.
pub struct SimpleFishMemCacher {
    /// The remembered answers, by key, with the moment each was stored.
    pub map: StringHashMap<(std::time::Instant, String)>,
    /// How long an answer is remembered.
    pub forgot_duration: std::time::Duration,
}

impl View for SimpleFishMemCacher {
    type V = Map<Seq<char>, Seq<char>>;

    open spec fn view(&self) -> Map<Seq<char>, Seq<char>> {
        stamped_map_view(self.map@)
    }
}

impl SimpleFishMemCacher {
    /// A cacher that remembers each answer for `forgot_duration`.
    pub fn new(forgot_duration: std::time::Duration) -> (r: SimpleFishMemCacher)
        ensures
            r@ == Map::<Seq<char>, Seq<char>>::empty(),
            r.forgot_duration == forgot_duration,
    {
        let r = SimpleFishMemCacher { map: StringHashMap::new(), forgot_duration };
        assert(r@ =~= Map::<Seq<char>, Seq<char>>::empty());
        r
    }
}

/// What a fish cacher with entries `m` that forgets after `forgot`
/// nanoseconds gives for `key` when its entry is `elapsed` nanoseconds old:
/// the remembered text while it is younger than `forgot`, else nothing.
pub open spec fn fresh_spec(m: Map<Seq<char>, Seq<char>>, forgot: u128, key: Seq<char>, elapsed: u128) -> Option<Seq<char>> {
    if m.contains_key(key) && elapsed < forgot {
        Some(m[key])
    } else {
        None
    }
}

/// The text of an optional answer.
pub open spec fn answer_text(r: Option<String>) -> Option<Seq<char>> {
    match r {
        Some(v) => Some(v@),
        None => None,
    }
}

impl SimpleFishMemCacher {
    /// What [`Cacher::cache_get`] gives for `key` once the clock has told
    /// that its entry is `elapsed` nanoseconds old.
    pub fn fresh_after(&self, key: &str, elapsed: u128) -> (r: Option<String>)
        ensures
            answer_text(r) == fresh_spec(self@, duration_nanos_of(self.forgot_duration), key@, elapsed),
    {
        let forgot = duration_as_nanos(&self.forgot_duration);
        if !(elapsed < forgot) {
            return None;
        }
        match self.map.get(key) {
            Some(entry) => Some(entry.1.clone()),
            None => None,
        }
    }
}

impl Default for SimpleFishMemCacher {
    /// A cacher that remembers each answer for two minutes.
    fn default() -> (r: SimpleFishMemCacher)
        ensures
            r@ == Map::<Seq<char>, Seq<char>>::empty(),
            duration_nanos_of(r.forgot_duration) == 120_000_000_000,
    {
        Self::new(duration_from_secs(120))
    }
}

impl Cacher for SimpleFishMemCacher {
    fn cache_store(&mut self, key: &str, val: &str)
        ensures
            final(self)@ == old(self)@.insert(key@, val@),
            final(self).forgot_duration == old(self).forgot_duration,
    {
        self.map.insert(String::from_str(key), (instant_now(), String::from_str(val)));
        assert(final(self)@ =~= old(self)@.insert(key@, val@));
    }

    fn cache_get(&self, key: &str) -> (r: Option<String>)
        ensures
            exists|elapsed: u128|
                answer_text(r) == #[trigger] fresh_spec(
                    self@,
                    duration_nanos_of(self.forgot_duration),
                    key@,
                    elapsed,
                ),
    {
        match self.map.get(key) {
            Some(entry) => {
                let elapsed = duration_as_nanos(&elapsed_since(&entry.0));
                let r = self.fresh_after(key, elapsed);
                assert(answer_text(r) == fresh_spec(self@, duration_nanos_of(self.forgot_duration), key@, elapsed));
                r
            },
            None => {
                assert(answer_text(None) == fresh_spec(self@, duration_nanos_of(self.forgot_duration), key@, 0));
                None
            },
        }
    }
}

/// A fish cacher forgets: an entry as old as its duration or older gives
/// nothing, and a younger one gives back what was stored.
pub proof fn law_fresh_forgets(m: Map<Seq<char>, Seq<char>>, forgot: u128, key: Seq<char>, elapsed: u128)
    ensures
        elapsed >= forgot ==> fresh_spec(m, forgot, key, elapsed) is None,
        m.contains_key(key) && elapsed < forgot ==> fresh_spec(m, forgot, key, elapsed) == Some(m[key]),
        !m.contains_key(key) ==> fresh_spec(m, forgot, key, elapsed) is None,
{
}

/// A cacher gives back what was last stored under a key.
pub proof fn law_store_then_get(m: Map<Seq<char>, Seq<char>>, key: Seq<char>, val: Seq<char>)
    ensures
        m.insert(key, val).contains_key(key),
        m.insert(key, val)[key] == val,
{
}

/// Storing under one key leaves what other keys give unchanged.
pub proof fn law_store_other_key(m: Map<Seq<char>, Seq<char>>, key: Seq<char>, val: Seq<char>, other: Seq<char>)
    requires
        other != key,
    ensures
        m.insert(key, val).contains_key(other) == m.contains_key(other),
        m.contains_key(other) ==> m.insert(key, val)[other] == m[other],
{
}

} // verus!
