//! Looking up a player's name: what is asked of the name service and what is
//! kept of its answers. The request itself is made elsewhere; here are the
//! steps before and after it.

use vstd::prelude::*;
use vstd::string::{StrSliceExecFns, StringExecFns};
use crate::text::same_text;

verus! {

/// The characters among the first `upto` of `uuid` that are no dash, in order.
pub open spec fn undashed_upto(uuid: Seq<char>, upto: int) -> Seq<char>
    decreases upto,
{
    if upto <= 0 {
        Seq::empty()
    } else if uuid[upto - 1] == '-' {
        undashed_upto(uuid, upto - 1)
    } else {
        undashed_upto(uuid, upto - 1).push(uuid[upto - 1])
    }
}

/// An identifier without its dashes: the key under which a name is asked for
/// and kept.
pub open spec fn undashed(uuid: Seq<char>) -> Seq<char> {
    undashed_upto(uuid, uuid.len() as int)
}

/// Takes the dashes out of an identifier.
pub fn without_dashes(uuid: &str) -> (r: String)
    ensures
        r@ == undashed(uuid@),
{
    let n: usize = uuid.unicode_len();
    let mut out = String::new();
    let mut i: usize = 0;
    while i < n
        invariant
            i <= n == uuid@.len(),
            out@ == undashed_upto(uuid@, i as int),
        decreases n - i,
    {
        if uuid.get_char(i) != '-' {
            let one = uuid.substring_char(i, i + 1);
            assert(one@ =~= seq![uuid@[i as int]]);
            out.append(one);
            assert(out@ =~= undashed_upto(uuid@, i as int).push(uuid@[i as int]));
        }
        i += 1;
    }
    out
}

/// The address at which the name service answers for `key`.
pub open spec fn profile_url(key: Seq<char>) -> Seq<char> {
    "https://api.minecraftservices.com/minecraft/profile/lookup/"@ + key
}

/// The address at which the name service answers for `key`.
pub fn lookup_url(key: &str) -> (r: String)
    ensures
        r@ == profile_url(key@),
{
    let mut url = String::from_str("https://api.minecraftservices.com/minecraft/profile/lookup/");
    url.append(key);
    url
}

/// Whether a status of the service is one of success: 200 to 299.
pub fn is_success(status: u16) -> (r: bool)
    ensures
        r == (200 <= status < 300),
{
    200 <= status && status < 300
}

/// The seconds after which a request is given up.
pub const REQUEST_TIMEOUT_SECS: u64 = 3;

/// The milliseconds to wait after a request before the next is made.
pub const PAUSE_AFTER_REQUEST_MILLIS: u64 = 1000;

/// What is to be done for a lookup.
#[derive(Debug, PartialEq, Eq)]
pub enum LookupStep {
    /// The name is known: no request is made.
    Known(String),
    /// The service is to be asked at `url`, giving up after `timeout_secs`
    /// seconds and waiting `pause_millis` milliseconds afterwards; its answer
    /// is then handed to [`UsernameCache::finish`] with `key`.
    Ask { key: String, url: String, timeout_secs: u64, pause_millis: u64 },
}

/// What came of a request.
#[derive(Debug, PartialEq, Eq)]
pub enum Reply {
    /// No client could be set up.
    NoClient,
    /// The request failed or was given up.
    NoAnswer,
    /// The service answered with a status that is not one of success.
    Refused(u16),
    /// The service answered with success, but not with a profile.
    Unreadable,
    /// The service answered with the profile of this name.
    Profile(String),
}

/// Why a lookup gave no name.
#[derive(Clone, Copy, Debug, PartialEq, Eq, Structural)]
pub enum LookupError {
    NoClient,
    NoAnswer,
    Refused(u16),
    Unreadable,
}

/// The name kept under `key` among the pairs from index `from` on: that of the
/// first pair with this key.
pub open spec fn kept_from(pairs: Seq<(Seq<char>, Seq<char>)>, key: Seq<char>, from: int) -> Option<
    Seq<char>,
>
    decreases pairs.len() - from,
{
    if from < 0 || from >= pairs.len() {
        None
    } else if pairs[from].0 == key {
        Some(pairs[from].1)
    } else {
        kept_from(pairs, key, from + 1)
    }
}

/// The names that lookups have brought, each under the key it was asked for.
pub struct UsernameCache {
    pairs: Vec<(String, String)>,
}

impl UsernameCache {
    /// The keys and names that are kept, in the order in which they came.
    pub closed spec fn pairs(&self) -> Seq<(Seq<char>, Seq<char>)> {
        Seq::new(self.pairs@.len(), |i: int| (self.pairs@[i].0@, self.pairs@[i].1@))
    }

    /// The name kept under `key`, if there is one.
    pub open spec fn kept(&self, key: Seq<char>) -> Option<Seq<char>> {
        kept_from(self.pairs(), key, 0)
    }

    /// A cache that keeps nothing.
    pub fn new() -> (r: UsernameCache)
        ensures
            r.pairs() == Seq::<(Seq<char>, Seq<char>)>::empty(),
            forall|key: Seq<char>| r.kept(key) is None,
    {
        let r = UsernameCache { pairs: Vec::new() };
        assert(r.pairs() =~= Seq::empty());
        r
    }

    /// The name kept under `key`.
    pub fn get(&self, key: &str) -> (r: Option<String>)
        ensures
            r matches Some(name) ==> self.kept(key@) == Some(name@),
            r is None ==> self.kept(key@) is None,
    {
        let mut i: usize = 0;
        while i < self.pairs.len()
            invariant
                i <= self.pairs@.len(),
                self.kept(key@) == kept_from(self.pairs(), key@, i as int),
            decreases self.pairs@.len() - i,
        {
            if same_text(self.pairs[i].0.as_str(), key) {
                return Some(self.pairs[i].1.clone());
            }
            i += 1;
        }
        None
    }

    /// Keeps `name` under `key`, in place of the name that was kept under it.
    pub fn insert(&mut self, key: String, name: String)
        ensures
            final(self).kept(key@) == Some(name@),
            forall|other: Seq<char>| other != key@ ==> final(self).kept(other) == old(self).kept(other),
    {
        let ghost before = self.pairs();
        let mut i: usize = 0;
        while i < self.pairs.len()
            invariant
                i <= self.pairs@.len(),
                self.pairs() == before,
                *self == *old(self),
                forall|j: int| 0 <= j < i ==> (#[trigger] before[j]).0 != key@,
            decreases self.pairs@.len() - i,
        {
            if same_text(self.pairs[i].0.as_str(), key.as_str()) {
                self.pairs.set(i, (key, name));
                assert(self.pairs() =~= before.update(i as int, (key@, name@)));
                assert forall|other: Seq<char>| #[trigger]
                    kept_from(before.update(i as int, (key@, name@)), other, 0) == (if other
                        == key@ {
                        Some(name@)
                    } else {
                        kept_from(before, other, 0)
                    }) by {
                    lemma_kept_update(before, i as int, (key@, name@), other, 0);
                }
                return ;
            }
            i += 1;
        }
        self.pairs.push((key, name));
        assert(self.pairs() =~= before.push((key@, name@)));
        assert forall|other: Seq<char>| #[trigger]
            kept_from(before.push((key@, name@)), other, 0) == (if other == key@ {
                Some(name@)
            } else {
                kept_from(before, other, 0)
            }) by {
            lemma_kept_push(before, (key@, name@), other, 0);
            lemma_kept_absent(before, key@, 0);
        }
    }

    /// The first step of a lookup: the name where it is kept, else what to ask.
    pub fn begin(&self, uuid: &str) -> (step: LookupStep)
        ensures
            step matches LookupStep::Known(name) ==> self.kept(undashed(uuid@)) == Some(name@),
            step matches LookupStep::Ask { key, url, timeout_secs, pause_millis } ==> self.kept(
                undashed(uuid@),
            ) is None && key@ == undashed(uuid@) && url@ == profile_url(undashed(uuid@))
                && timeout_secs == REQUEST_TIMEOUT_SECS && pause_millis
                == PAUSE_AFTER_REQUEST_MILLIS,
    {
        let key = without_dashes(uuid);
        match self.get(key.as_str()) {
            Some(name) => LookupStep::Known(name),
            None => {
                let url = lookup_url(key.as_str());
                LookupStep::Ask {
                    key,
                    url,
                    timeout_secs: REQUEST_TIMEOUT_SECS,
                    pause_millis: PAUSE_AFTER_REQUEST_MILLIS,
                }
            },
        }
    }

    /// The last step of a lookup: a profile gives its name, which is kept under
    /// `key`; anything else gives the failure and leaves the cache as it was.
    pub fn finish(&mut self, key: String, reply: Reply) -> (r: Result<String, LookupError>)
        ensures
            reply matches Reply::Profile(name) ==> r matches Ok(given) && given@ == name@
                && final(self).kept(key@) == Some(name@) && forall|other: Seq<char>|
                other != key@ ==> final(self).kept(other) == old(self).kept(other),
            !(reply is Profile) ==> final(self).pairs() == old(self).pairs() && r == Err::<
                String,
                LookupError,
            >(
                match reply {
                    Reply::NoClient => LookupError::NoClient,
                    Reply::NoAnswer => LookupError::NoAnswer,
                    Reply::Refused(status) => LookupError::Refused(status),
                    _ => LookupError::Unreadable,
                },
            ),
    {
        match reply {
            Reply::Profile(name) => {
                self.insert(key, name.clone());
                Ok(name)
            },
            Reply::NoClient => Err(LookupError::NoClient),
            Reply::NoAnswer => Err(LookupError::NoAnswer),
            Reply::Refused(status) => Err(LookupError::Refused(status)),
            Reply::Unreadable => Err(LookupError::Unreadable),
        }
    }
}

/// A pair put behind the others is found where no pair before it bears its key.
pub proof fn lemma_kept_push(
    pairs: Seq<(Seq<char>, Seq<char>)>,
    pair: (Seq<char>, Seq<char>),
    key: Seq<char>,
    from: int,
)
    requires
        0 <= from <= pairs.len(),
    ensures
        kept_from(pairs.push(pair), key, from) == (match kept_from(pairs, key, from) {
            Some(found) => Some(found),
            None => if key == pair.0 {
                Some(pair.1)
            } else {
                None
            },
        }),
    decreases pairs.len() - from,
{
    let longer = pairs.push(pair);
    if from < pairs.len() {
        assert(longer[from] == pairs[from]);
        if pairs[from].0 != key {
            lemma_kept_push(pairs, pair, key, from + 1);
        }
    } else {
        assert(longer[from] == pair);
        assert(kept_from(longer, key, from + 1) is None);
    }
}

/// Where no pair from `from` on bears a key, nothing is kept under it from there.
pub proof fn lemma_kept_absent(pairs: Seq<(Seq<char>, Seq<char>)>, key: Seq<char>, from: int)
    requires
        0 <= from,
        forall|j: int| from <= j < pairs.len() ==> (#[trigger] pairs[j]).0 != key,
    ensures
        kept_from(pairs, key, from) is None,
    decreases pairs.len() - from,
{
    if from < pairs.len() {
        lemma_kept_absent(pairs, key, from + 1);
    }
}

/// A pair put in the place of the first pair of its key is found under that
/// key, and every other key keeps its name.
pub proof fn lemma_kept_update(
    pairs: Seq<(Seq<char>, Seq<char>)>,
    i: int,
    pair: (Seq<char>, Seq<char>),
    key: Seq<char>,
    from: int,
)
    requires
        0 <= i < pairs.len(),
        0 <= from <= pairs.len(),
        pairs[i].0 == pair.0,
        forall|j: int| 0 <= j < i ==> (#[trigger] pairs[j]).0 != pair.0,
    ensures
        kept_from(pairs.update(i, pair), key, from) == (if key == pair.0 && from <= i {
            Some(pair.1)
        } else {
            kept_from(pairs, key, from)
        }),
    decreases pairs.len() - from,
{
    let changed = pairs.update(i, pair);
    if from < pairs.len() {
        if from != i {
            assert(changed[from] == pairs[from]);
        }
        if changed[from].0 != key {
            lemma_kept_update(pairs, i, pair, key, from + 1);
        }
    }
}

} // verus!
