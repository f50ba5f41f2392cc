//! Configuration data and the Credential Pool.
//!
//! [`KeyStore`] is the pool of API credentials: a duplicate-free collection
//! that can only shrink, one credential per provider rejection. The other
//! types carry the settings the stages are built from; the web layer parses
//! its configuration file outside this crate and hands the plain values in.

use vstd::prelude::*;

verus! {

/// Why the Credential Pool could not serve a request.
#[derive(Clone, Copy, Debug, PartialEq, Eq, Structural)]
pub enum PoolError {
    /// Every credential has been retired; all later requests fail fast.
    Empty,
    /// The credential asked to be removed is not in the pool.
    NotFound,
}

/// A configuration value that may be written either as one item or as a
/// list of items.
pub enum ArrayOrSingle<T> {
    Single(T),
    Multiple(Vec<T>),
}

impl<T> ArrayOrSingle<T> {
    /// The items as a sequence, however the value was written.
    pub open spec fn as_seq(&self) -> Seq<T> {
        match self {
            ArrayOrSingle::Single(v) => seq![*v],
            ArrayOrSingle::Multiple(v) => v@,
        }
    }

    /// A list form must name at least one item; a single value always does.
    pub fn validate(&self) -> (r: Result<(), &'static str>)
        ensures
            r is Ok <==> self.as_seq().len() > 0,
    {
        if let ArrayOrSingle::Multiple(v) = self {
            if v.len() == 0 {
                return Err("Vec is empty");
            }
        }
        Ok(())
    }

    /// Flatten to the list of items.
    pub fn into_vec(self) -> (r: Vec<T>)
        ensures
            r@ == self.as_seq(),
    {
        match self {
            ArrayOrSingle::Single(v) => vec![v],
            ArrayOrSingle::Multiple(v) => v,
        }
    }
}

/// No two entries of `s` are the same: the pool is a set, not a list.
pub open spec fn distinct_seq(s: Seq<Seq<char>>) -> bool {
    forall|i: int, j: int| 0 <= i < j < s.len() ==> s[i] != s[j]
}

/// Relies on rand::Rng::gen_range over `0..n`: the drawn index is always
/// below `n`. Nothing more is promised of a random draw.
#[verifier::external_body]
fn random_below(n: usize) -> (r: usize)
    requires
        n > 0,
    ensures
        r < n,
{
    rand::Rng::gen_range(&mut rand::thread_rng(), 0..n)
}

/// The character sequences of a list of strings.
pub open spec fn string_views(s: Seq<String>) -> Seq<Seq<char>> {
    s.map_values(|x: String| x@)
}

/// Does `v` already hold the string `s`?
pub(crate) fn vec_contains_string(v: &Vec<String>, s: &String) -> (r: bool)
    ensures
        r == string_views(v@).contains(s@),
{
    let ghost views = string_views(v@);
    let mut i: usize = 0;
    while i < v.len()
        invariant
            i <= v.len(),
            views == string_views(v@),
            forall|j: int| 0 <= j < i ==> views[j] != s@,
        decreases v.len() - i,
    {
        if v[i].eq(s) {
            proof {
                assert(views[i as int] == v@[i as int]@);
            }
            return true;
        }
        proof {
            assert(views[i as int] == v@[i as int]@);
        }
        i += 1;
    }
    assert(!views.contains(s@));
    false
}

/// The position of `key` in `v`, if it is there at all.
fn index_of_string(v: &Vec<String>, key: &String) -> (r: Option<usize>)
    ensures
        match r {
            Some(i) => i < v@.len() && string_views(v@)[i as int] == key@,
            None => !string_views(v@).contains(key@),
        },
{
    let ghost views = string_views(v@);
    let mut i: usize = 0;
    while i < v.len()
        invariant
            i <= v.len(),
            views == string_views(v@),
            forall|j: int| 0 <= j < i ==> views[j] != key@,
        decreases v.len() - i,
    {
        proof {
            assert(views[i as int] == v@[i as int]@);
        }
        if v[i].eq(key) {
            return Some(i);
        }
        i += 1;
    }
    proof {
        assert(!views.contains(key@));
    }
    None
}

/// What `get_one` may report when the pool's entries are `pool`: a failure
/// exactly when the pool is empty (and then always `PoolEmpty`), otherwise
/// one of the pool's own credentials, chosen with no ordering promise.
pub open spec fn pick_post(pool: Seq<Seq<char>>, r: Result<String, PoolError>) -> bool {
    &&& pool.len() == 0 <==> r is Err
    &&& r matches Err(e) ==> e == PoolError::Empty
    &&& r matches Ok(k) ==> pool.contains(k@)
}

/// How a `remove` of `key` moves the pool from `pre` to `post` and what it
/// reports: `None` exactly when the key is absent (and then nothing
/// changes); otherwise that one entry is gone, every other entry stays, and
/// the remaining count is reported.
pub open spec fn removal_post(
    pre: Seq<Seq<char>>,
    post: Seq<Seq<char>>,
    key: Seq<char>,
    r: Option<usize>,
) -> bool {
    &&& r is None <==> !pre.contains(key)
    &&& r is None ==> post == pre
    &&& r matches Some(n) ==> {
        &&& post.len() + 1 == pre.len()
        &&& n == post.len()
        &&& !post.contains(key)
        &&& forall|x: Seq<char>| #[trigger] post.contains(x) ==> pre.contains(x)
        &&& forall|x: Seq<char>| pre.contains(x) && x != key ==> #[trigger] post.contains(x)
    }
}

/// The Credential Pool: API keys usable for synthesis requests. Entries are
/// unique, shared for reading, and only ever removed — one per rejection.
#[derive(Clone)]
pub struct KeyStore {
    keys: Vec<String>,
}

impl View for KeyStore {
    type V = Seq<Seq<char>>;

    closed spec fn view(&self) -> Seq<Seq<char>> {
        string_views(self.keys@)
    }
}

impl KeyStore {
    /// The pool never holds the same credential twice.
    pub open spec fn wf(&self) -> bool {
        distinct_seq(self@)
    }

    /// Build the pool from configured credentials, dropping repeated ones so
    /// that each remaining credential is unique.
    pub fn new(keys: Vec<String>) -> (r: KeyStore)
        ensures
            r.wf(),
            forall|x: Seq<char>| #[trigger] r@.contains(x) <==> string_views(keys@).contains(x),
    {
        let ghost source = string_views(keys@);
        let mut kept: Vec<String> = Vec::new();
        let mut i: usize = 0;
        while i < keys.len()
            invariant
                i <= keys.len(),
                source == string_views(keys@),
                distinct_seq(string_views(kept@)),
                forall|x: Seq<char>|
                    #[trigger] string_views(kept@).contains(x) ==> source.contains(x),
                forall|j: int|
                    0 <= j < i ==> string_views(kept@).contains(#[trigger] source[j]),
            decreases keys.len() - i,
        {
            let ghost pre = string_views(kept@);
            if !vec_contains_string(&kept, &keys[i]) {
                kept.push(keys[i].clone());
                proof {
                    let post = string_views(kept@);
                    assert(post =~= pre.push(source[i as int]));
                    assert forall|a: int, b: int| 0 <= a < b < post.len() implies post[a]
                        != post[b] by {
                        if b == post.len() - 1 {
                            assert(pre.contains(post[a]) == false || post[a] != post[b]) by {
                                if post[a] == post[b] {
                                    assert(pre[a] == post[a]);
                                    assert(pre.contains(post[b]) == false);
                                }
                            }
                        }
                    }
                    assert forall|x: Seq<char>| #[trigger] post.contains(x) implies source.contains(
                        x,
                    ) by {
                        if pre.contains(x) {
                        } else {
                            assert(post.last() == source[i as int]);
                            assert(x == source[i as int]);
                        }
                    }
                    assert forall|j: int| 0 <= j < i + 1 implies post.contains(
                        #[trigger] source[j],
                    ) by {
                        if j < i {
                            assert(pre.contains(source[j]));
                            let w = choose|w: int| 0 <= w < pre.len() && pre[w] == source[j];
                            assert(post[w] == source[j]);
                        } else {
                            assert(post.last() == source[j]);
                        }
                    }
                }
            } else {
                proof {
                    assert(pre.contains(source[i as int]));
                }
            }
            i += 1;
        }
        proof {
            assert forall|x: Seq<char>|
                source.contains(x) implies #[trigger] string_views(kept@).contains(x) by {
                let j = choose|j: int| 0 <= j < source.len() && source[j] == x;
                assert(string_views(kept@).contains(source[j]));
            }
        }
        KeyStore { keys: kept }
    }

    /// Build the pool from the configuration's one-or-many shape: an empty
    /// list is rejected outright, anything else becomes the deduplicated
    /// pool.
    pub fn from_config(inner: ArrayOrSingle<String>) -> (r: Result<KeyStore, &'static str>)
        ensures
            r is Ok <==> inner.as_seq().len() > 0,
            r matches Ok(ks) ==> ks.wf() && (forall|x: Seq<char>|
                #[trigger] ks@.contains(x) <==> string_views(inner.as_seq()).contains(x)),
    {
        match inner.validate() {
            Ok(()) => {},
            Err(e) => {
                return Err(e);
            },
        }
        Ok(KeyStore::new(inner.into_vec()))
    }

    /// How many credentials are still usable.
    pub fn len(&self) -> (r: usize)
        ensures
            r == self@.len(),
    {
        self.keys.len()
    }

    /// Pick one credential for a request. Fails fast with `PoolEmpty` once
    /// the pool has run dry; otherwise any entry may come back, so no single
    /// bad credential can starve the rest.
    pub fn get_one(&self) -> (r: Result<String, PoolError>)
        ensures
            pick_post(self@, r),
    {
        if self.keys.len() == 0 {
            return Err(PoolError::Empty);
        }
        let i = random_below(self.keys.len());
        let picked = self.keys[i].clone();
        proof {
            assert(self@[i as int] == picked@);
        }
        Ok(picked)
    }

    /// Retire a credential the provider rejected. Reports how many entries
    /// remain, or `None` when the credential was already gone — removing an
    /// absent key changes nothing.
    pub fn remove(&mut self, key: &String) -> (r: Option<usize>)
        requires
            old(self).wf(),
        ensures
            final(self).wf(),
            removal_post(old(self)@, final(self)@, key@, r),
    {
        let ghost pre = self@;
        let loc = match index_of_string(&self.keys, key) {
            Some(loc) => loc,
            None => {
                return None;
            },
        };
        assert(pre[loc as int] == key@);
        self.keys.swap_remove(loc);
        proof {
            let post = self@;
            assert(post =~= pre.update(loc as int, pre.last()).drop_last());
            assert forall|a: int, b: int| 0 <= a < b < post.len() implies post[a] != post[b] by {}
            assert(!post.contains(key@)) by {
                if post.contains(key@) {
                    let w = choose|w: int| 0 <= w < post.len() && post[w] == key@;
                    if w == loc {
                        assert(pre.last() == key@);
                        if loc < pre.len() - 1 {
                            assert(pre[loc as int] == pre[pre.len() - 1]);
                        }
                    } else {
                        assert(pre[w] == key@);
                    }
                }
            }
            assert forall|x: Seq<char>| #[trigger] post.contains(x) implies pre.contains(x) by {
                let w = choose|w: int| 0 <= w < post.len() && post[w] == x;
                if w == loc {
                    assert(pre[pre.len() - 1] == x);
                } else {
                    assert(pre[w] == x);
                }
            }
            assert forall|x: Seq<char>| pre.contains(x) && x != key@ implies #[trigger] post.contains(
                x,
            ) by {
                let w = choose|w: int| 0 <= w < pre.len() && pre[w] == x;
                if w == loc as int {
                    assert(pre[loc as int] == key@);
                } else if w == pre.len() - 1 {
                    if loc as int == pre.len() - 1 {
                        assert(pre[loc as int] == key@);
                    } else {
                        assert(post[loc as int] == pre.last());
                    }
                } else {
                    assert(post[w] == x);
                }
            }
        }
        Some(self.keys.len())
    }
}

/// Pool exhaustion: once a removal has taken the last credential (the pool
/// held one entry and the removal succeeded), the pool is empty, and every
/// outcome `get_one`'s contract then admits is the `PoolEmpty` failure.
pub proof fn lemma_pool_exhaustion(
    pre: Seq<Seq<char>>,
    post: Seq<Seq<char>>,
    key: Seq<char>,
    removed: Option<usize>,
)
    requires
        pre.len() == 1,
        removed is Some,
        removal_post(pre, post, key, removed),
    ensures
        post.len() == 0,
        forall|pick: Result<String, PoolError>|
            #[trigger] pick_post(post, pick) ==> pick == Err::<String, PoolError>(PoolError::Empty),
{
    assert forall|pick: Result<String, PoolError>| #[trigger] pick_post(post, pick) implies pick
        == Err::<String, PoolError>(PoolError::Empty) by {
        assert(pick is Err);
    }
}

/// The default participant name the bot signs on with.
pub fn default_nickname() -> (r: String)
    ensures
        r@ == "tts"@,
{
    String::from_str("tts")
}

/// The default directory of the on-disk cache store.
pub fn default_level_db() -> (r: String)
    ensures
        r@ == "tts.db"@,
{
    String::from_str("tts.db")
}

/// Voice-session settings: identity, server address, name, starting channel
/// and the persistent identity of the participant to follow, if any.
#[derive(Clone)]
pub struct TeamSpeak {
    pub identity: String,
    pub server: String,
    pub nickname: String,
    pub channel: u64,
    pub follow: Option<u64>,
}

impl TeamSpeak {
    pub fn new(
        identity: String,
        server: String,
        nickname: String,
        channel: u64,
        follow: Option<u64>,
    ) -> (r: TeamSpeak)
        ensures
            r.identity == identity,
            r.server == server,
            r.nickname == nickname,
            r.channel == channel,
            r.follow == follow,
    {
        TeamSpeak { identity, server, nickname, channel, follow }
    }

    pub fn identity(&self) -> (r: &str)
        ensures
            r@ == self.identity@,
    {
        self.identity.as_str()
    }

    pub fn server(&self) -> (r: &str)
        ensures
            r@ == self.server@,
    {
        self.server.as_str()
    }

    pub fn nickname(&self) -> (r: &str)
        ensures
            r@ == self.nickname@,
    {
        self.nickname.as_str()
    }

    pub fn channel(&self) -> (r: u64)
        ensures
            r == self.channel,
    {
        self.channel
    }

    /// The persistent identity of the participant the Presence Tracker is to
    /// follow; `None` leaves the tracker untracked.
    pub fn follow(&self) -> (r: Option<u64>)
        ensures
            r == self.follow,
    {
        self.follow
    }
}

/// Synthesis provider settings: the endpoint and the Credential Pool.
#[derive(Clone)]
pub struct TTS {
    endpoint: String,
    ocp_apim_subscription_key: KeyStore,
}

impl TTS {
    pub closed spec fn wf(&self) -> bool {
        self.ocp_apim_subscription_key.wf()
    }

    /// The pool's entries.
    pub closed spec fn pool(&self) -> Seq<Seq<char>> {
        self.ocp_apim_subscription_key@
    }

    /// The configured endpoint.
    pub closed spec fn spec_endpoint(&self) -> Seq<char> {
        self.endpoint@
    }

    pub fn new(endpoint: String, keys: KeyStore) -> (r: TTS)
        requires
            keys.wf(),
        ensures
            r.wf(),
            r.spec_endpoint() == endpoint@,
            r.pool() == keys@,
    {
        TTS { endpoint, ocp_apim_subscription_key: keys }
    }

    pub fn endpoint(&self) -> (r: &str)
        ensures
            r@ == self.spec_endpoint(),
    {
        self.endpoint.as_str()
    }

    /// Pick a credential for one request.
    pub fn ocp_apim_subscription_key(&self) -> (r: Result<String, PoolError>)
        ensures
            pick_post(self.pool(), r),
    {
        self.ocp_apim_subscription_key.get_one()
    }

    /// Retire a rejected credential. Fails with `NotFound` when the key is
    /// already gone, and with `PoolEmpty` when its removal drained the pool —
    /// the caller must treat that as fatal for all future requests.
    pub fn remove_key(&mut self, key: &String) -> (r: Result<(), PoolError>)
        requires
            old(self).wf(),
        ensures
            final(self).wf(),
            !old(self).pool().contains(key@) ==> r == Err::<(), PoolError>(PoolError::NotFound)
                && final(self).pool() == old(self).pool(),
            old(self).pool().contains(key@) ==> {
                &&& removal_post(
                    old(self).pool(),
                    final(self).pool(),
                    key@,
                    Some((old(self).pool().len() - 1) as usize),
                )
                &&& final(self).pool().len() == 0 ==> r == Err::<(), PoolError>(PoolError::Empty)
                &&& final(self).pool().len() > 0 ==> r is Ok
            },
    {
        match self.ocp_apim_subscription_key.remove(key) {
            None => Err(PoolError::NotFound),
            Some(remaining) => {
                if remaining == 0 {
                    Err(PoolError::Empty)
                } else {
                    Ok(())
                }
            },
        }
    }
}

/// Where the web layer listens.
#[derive(Clone)]
pub struct Web {
    pub listen: String,
    pub port: u16,
}

/// The decimal digit `d` (below ten) as a character.
pub open spec fn dec_digit(d: nat) -> char {
    if d == 0 {
        '0'
    } else if d == 1 {
        '1'
    } else if d == 2 {
        '2'
    } else if d == 3 {
        '3'
    } else if d == 4 {
        '4'
    } else if d == 5 {
        '5'
    } else if d == 6 {
        '6'
    } else if d == 7 {
        '7'
    } else if d == 8 {
        '8'
    } else {
        '9'
    }
}

/// The decimal writing of `n`, most significant digit first.
pub open spec fn dec_str_of(n: nat) -> Seq<char>
    decreases n,
{
    if n < 10 {
        seq![dec_digit(n)]
    } else {
        dec_str_of(n / 10).push(dec_digit(n % 10))
    }
}

/// The digit `d` as a one-character string.
fn dec_digit_str(d: u16) -> (r: &'static str)
    requires
        d < 10,
    ensures
        r@ == seq![dec_digit(d as nat)],
{
    proof {
        reveal_strlit("0");
        reveal_strlit("1");
        reveal_strlit("2");
        reveal_strlit("3");
        reveal_strlit("4");
        reveal_strlit("5");
        reveal_strlit("6");
        reveal_strlit("7");
        reveal_strlit("8");
        reveal_strlit("9");
    }
    match d {
        0 => "0",
        1 => "1",
        2 => "2",
        3 => "3",
        4 => "4",
        5 => "5",
        6 => "6",
        7 => "7",
        8 => "8",
        _ => "9",
    }
}

/// Write `n` in decimal.
pub fn u16_to_string(n: u16) -> (r: String)
    ensures
        r@ == dec_str_of(n as nat),
    decreases n,
{
    if n < 10 {
        String::from_str(dec_digit_str(n))
    } else {
        let prefix = u16_to_string(n / 10);
        prefix.concat(dec_digit_str(n % 10))
    }
}

impl Web {
    pub fn new(listen: String, port: u16) -> (r: Web)
        ensures
            r.listen == listen,
            r.port == port,
    {
        Web { listen, port }
    }

    /// The socket address to bind, written `listen:port`.
    pub fn bind(&self) -> (r: String)
        ensures
            r@ == self.listen@ + seq![':'] + dec_str_of(self.port as nat),
    {
        proof {
            reveal_strlit(":");
        }
        let with_colon = self.listen.clone().concat(":");
        let port = u16_to_string(self.port);
        with_colon.concat(port.as_str())
    }
}

/// Everything the program is configured with.
#[derive(Clone)]
pub struct Config {
    pub leveldb: String,
    pub teamspeak: TeamSpeak,
    pub tts: TTS,
    pub web: Web,
}

impl Config {
    pub open spec fn wf(&self) -> bool {
        self.tts.wf()
    }

    pub fn new(leveldb: String, teamspeak: TeamSpeak, tts: TTS, web: Web) -> (r: Config)
        requires
            tts.wf(),
        ensures
            r.wf(),
            r.leveldb == leveldb,
            r.teamspeak == teamspeak,
            r.tts == tts,
            r.web == web,
    {
        Config { leveldb, teamspeak, tts, web }
    }

    pub fn tts(&self) -> (r: &TTS)
        ensures
            r == &self.tts,
    {
        &self.tts
    }

    pub fn web(&self) -> (r: &Web)
        ensures
            r == &self.web,
    {
        &self.web
    }

    pub fn teamspeak(&self) -> (r: &TeamSpeak)
        ensures
            r == &self.teamspeak,
    {
        &self.teamspeak
    }

    pub fn leveldb(&self) -> (r: &str)
        ensures
            r@ == self.leveldb@,
    {
        self.leveldb.as_str()
    }
}

} // verus!
