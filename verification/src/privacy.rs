//! Request filtering: an ad-blocking engine with a cache of its verdicts.

use crate::text::same_text;
use vstd::prelude::*;

verus! {

/// The engine that matches requests against the filter rules.
#[verifier::external_type_specification]
#[verifier::external_body]
pub struct ExEngine(adblock::Engine);

/// A set of filter rules that is still being put together.
#[verifier::external_type_specification]
#[verifier::external_body]
pub struct ExFilterSet(adblock::lists::FilterSet);

/// A request as the engine reads it.
#[verifier::external_type_specification]
#[verifier::external_body]
pub struct ExRequest(adblock::request::Request);

/// Whether the engine's crate takes the three texts as a request: it does unless it cannot
/// read the URL.
pub uninterp spec fn request_accepted(
    url: Seq<char>,
    source_url: Seq<char>,
    request_type: Seq<char>,
) -> bool;

/// `adblock::lists::FilterSet::new`, without the rules' debug information: a set that holds
/// no rule yet. Nothing is stated of it.
#[verifier::external_body]
fn new_filter_set() -> adblock::lists::FilterSet {
    adblock::lists::FilterSet::new(false)
}

/// `adblock::lists::FilterSet::add_filter_list`, with the default parse options: the rules
/// of the list join the set, lines that are no rule being passed over. Nothing is stated
/// of the set.
#[verifier::external_body]
fn add_filter_list(set: &mut adblock::lists::FilterSet, list: &str) {
    set.add_filter_list(list, adblock::lists::ParseOptions::default());
}

/// `adblock::Engine::from_filter_set`, with optimization: the engine for the rules of the
/// set. Nothing is stated of it.
#[verifier::external_body]
fn compile_engine(set: adblock::lists::FilterSet) -> adblock::Engine {
    adblock::Engine::from_filter_set(set, true)
}

/// `adblock::request::Request::new`: the request, or `None` for its error. Whether there is
/// a request is named, not described; nothing else is stated.
#[verifier::external_body]
fn make_request(url: &str, source_url: &str, request_type: &str) -> (r: Option<
    adblock::request::Request,
>)
    ensures
        r is Some == request_accepted(url@, source_url@, request_type@),
{
    adblock::request::Request::new(url, source_url, request_type).ok()
}

/// `adblock::Engine::check_network_request`, of whose result the field `matched` is handed
/// back: whether a blocking rule matches the request. Nothing is stated of it.
#[verifier::external_body]
fn request_matches(engine: &adblock::Engine, request: &adblock::request::Request) -> bool {
    engine.check_network_request(request).matched
}

/// One remembered verdict.
pub struct Verdict {
    url: String,
    source_url: String,
    blocked: bool,
}

/// The verdicts as a map from the requested URL and the URL of the page that asked.
pub open spec fn verdict_map(verdicts: Seq<Verdict>) -> Map<(Seq<char>, Seq<char>), bool>
    decreases verdicts.len(),
{
    if verdicts.len() == 0 {
        Map::empty()
    } else {
        verdict_map(verdicts.drop_last()).insert(verdicts.last().key(), verdicts.last().blocked())
    }
}

/// No two verdicts are for the same request.
pub open spec fn distinct_keys(verdicts: Seq<Verdict>) -> bool {
    forall|i: int, j: int|
        0 <= i < j < verdicts.len() ==> (#[trigger] verdicts[i]).key() != (
        #[trigger] verdicts[j]).key()
}

impl Verdict {
    /// The request that the verdict is for.
    pub closed spec fn key(self) -> (Seq<char>, Seq<char>) {
        (self.url@, self.source_url@)
    }

    /// Whether the request is blocked.
    pub closed spec fn blocked(self) -> bool {
        self.blocked
    }
}

/// The map has a verdict for exactly the keys of the verdicts, and holds each verdict.
pub proof fn lemma_verdict_map(verdicts: Seq<Verdict>)
    requires
        distinct_keys(verdicts),
    ensures
        forall|k: (Seq<char>, Seq<char>)|
            verdict_map(verdicts).contains_key(k) <==> exists|i: int|
                0 <= i < verdicts.len() && (#[trigger] verdicts[i]).key() == k,
        forall|i: int|
            0 <= i < verdicts.len() ==> verdict_map(verdicts)[(#[trigger] verdicts[i]).key()]
                == verdicts[i].blocked(),
        verdict_map(verdicts).dom().finite(),
        verdict_map(verdicts).dom().len() == verdicts.len(),
    decreases verdicts.len(),
{
    if verdicts.len() > 0 {
        let rest = verdicts.drop_last();
        let last = verdicts.last();
        assert(distinct_keys(rest)) by {
            assert forall|i: int, j: int| 0 <= i < j < rest.len() implies (#[trigger] rest[i]).key()
                != (#[trigger] rest[j]).key() by {
                assert(rest[i] == verdicts[i] && rest[j] == verdicts[j]);
            }
        }
        lemma_verdict_map(rest);
        assert forall|k: (Seq<char>, Seq<char>)|
            verdict_map(verdicts).contains_key(k) implies exists|i: int|
            0 <= i < verdicts.len() && (#[trigger] verdicts[i]).key() == k by {
            if k == last.key() {
                assert(verdicts[verdicts.len() - 1].key() == k);
            } else {
                let i = choose|i: int| 0 <= i < rest.len() && (#[trigger] rest[i]).key() == k;
                assert(verdicts[i].key() == k);
            }
        }
        assert forall|k: (Seq<char>, Seq<char>)|
            (exists|i: int|
                0 <= i < verdicts.len() && (#[trigger] verdicts[i]).key() == k) implies verdict_map(
            verdicts,
        ).contains_key(k) by {
            let i = choose|i: int| 0 <= i < verdicts.len() && (#[trigger] verdicts[i]).key() == k;
            if i < rest.len() {
                assert(rest[i].key() == k);
            }
        }
        assert forall|i: int| 0 <= i < verdicts.len() implies verdict_map(verdicts)[(
        #[trigger] verdicts[i]).key()] == verdicts[i].blocked() by {
            if i < rest.len() {
                assert(rest[i] == verdicts[i]);
                assert(verdicts[i].key() != verdicts[verdicts.len() - 1].key());
            }
        }
        assert(!verdict_map(rest).contains_key(last.key())) by {
            if verdict_map(rest).contains_key(last.key()) {
                let i = choose|i: int|
                    0 <= i < rest.len() && (#[trigger] rest[i]).key() == last.key();
                assert(verdicts[i].key() == verdicts[verdicts.len() - 1].key());
            }
        }
        assert(verdict_map(verdicts).dom() =~= verdict_map(rest).dom().insert(last.key()));
    }
}

/// The ad-blocking engine with the verdicts it has given since the last navigation. The
/// verdicts are kept as a list in which no request occurs twice, and stand for a map from
/// requests to verdicts.
pub struct AdblockEngine {
    engine: adblock::Engine,
    cache: Vec<Verdict>,
}

impl AdblockEngine {
    /// No request has two verdicts.
    pub closed spec fn wf(self) -> bool {
        distinct_keys(self.cache@)
    }

    /// The remembered verdicts.
    pub closed spec fn cached(self) -> Map<(Seq<char>, Seq<char>), bool> {
        verdict_map(self.cache@)
    }

    /// The engine for the rules of the filter lists, one entry for each list that was found
    /// and `None` for a list that could not be read; no engine where no list was found.
    pub fn new(lists: &Vec<Option<String>>) -> (r: Option<AdblockEngine>)
        ensures
            r is Some == (lists@.len() > 0),
            r matches Some(engine) ==> engine.wf() && engine.cached() == Map::<
                (Seq<char>, Seq<char>),
                bool,
            >::empty(),
    {
        if lists.len() == 0 {
            return None;
        }
        let mut set = new_filter_set();
        let mut i: usize = 0;
        while i < lists.len()
            invariant
                i <= lists.len(),
            decreases lists.len() - i,
        {
            match &lists[i] {
                Some(list) => {
                    add_filter_list(&mut set, list.as_str());
                },
                None => {},
            }
            i = i + 1;
        }
        Some(AdblockEngine { engine: compile_engine(set), cache: Vec::new() })
    }

    /// The remembered verdict for the request, if there is one.
    pub fn lookup(&self, url: &str, source_url: &str) -> (r: Option<bool>)
        requires
            self.wf(),
        ensures
            match r {
                Some(blocked) => self.cached().contains_key((url@, source_url@))
                    && self.cached()[(url@, source_url@)] == blocked,
                None => !self.cached().contains_key((url@, source_url@)),
            },
    {
        proof {
            lemma_verdict_map(self.cache@);
        }
        let mut i: usize = 0;
        while i < self.cache.len()
            invariant
                self.wf(),
                i <= self.cache.len(),
                forall|j: int| 0 <= j < i ==> (#[trigger] self.cache@[j]).key() != (url@, source_url@),
            decreases self.cache.len() - i,
        {
            let entry = &self.cache[i];
            if same_text(entry.url.as_str(), url) && same_text(
                entry.source_url.as_str(),
                source_url,
            ) {
                proof {
                    lemma_verdict_map(self.cache@);
                    assert(self.cache@[i as int].key() == (url@, source_url@));
                }
                return Some(entry.blocked);
            }
            i = i + 1;
        }
        None
    }

    /// Remembers the verdict for a request that has none yet.
    pub fn record(&mut self, url: &str, source_url: &str, blocked: bool)
        requires
            old(self).wf(),
            !old(self).cached().contains_key((url@, source_url@)),
        ensures
            final(self).wf(),
            final(self).cached() == old(self).cached().insert((url@, source_url@), blocked),
    {
        proof {
            lemma_verdict_map(self.cache@);
        }
        let ghost before = self.cache@;
        let entry = Verdict { url: url.to_owned(), source_url: source_url.to_owned(), blocked };
        proof {
            let after = before.push(entry);
            assert(after.drop_last() =~= before);
            assert forall|i: int, j: int| 0 <= i < j < after.len() implies (#[trigger] after[i]).key()
                != (#[trigger] after[j]).key() by {
                if j == before.len() {
                    assert(before[i].key() != entry.key());
                } else {
                    assert(before[i].key() != before[j].key());
                }
            }
        }
        self.cache.push(entry);
    }

    /// Whether the request for `url`, made by the page at `source_url` for a resource of the
    /// kind `request_type`, is to be blocked. A verdict that is remembered is given again;
    /// else the engine is asked and its verdict remembered. A URL that the engine cannot
    /// read is not blocked.
    pub fn should_block(&mut self, url: &str, source_url: &str, request_type: &str) -> (blocked:
        bool)
        requires
            old(self).wf(),
        ensures
            final(self).wf(),
            old(self).cached().contains_key((url@, source_url@)) ==> blocked == old(
                self,
            ).cached()[(url@, source_url@)] && final(self).cached() == old(self).cached(),
            !old(self).cached().contains_key((url@, source_url@)) ==> final(self).cached() == old(
                self,
            ).cached().insert((url@, source_url@), blocked),
            !old(self).cached().contains_key((url@, source_url@)) && !request_accepted(
                url@,
                source_url@,
                request_type@,
            ) && !request_accepted(url@, Seq::empty(), "other"@) ==> !blocked,
    {
        proof {
            reveal_strlit("");
            assert(""@ =~= Seq::<char>::empty());
        }
        match self.lookup(url, source_url) {
            Some(cached) => {
                return cached;
            },
            None => {},
        }
        let request = match make_request(url, source_url, request_type) {
            Some(request) => Some(request),
            None => make_request(url, "", "other"),
        };
        let blocked = match request {
            Some(request) => request_matches(&self.engine, &request),
            None => false,
        };
        self.record(url, source_url, blocked);
        blocked
    }

    /// Forgets the verdicts.
    pub fn clear_cache(&mut self)
        ensures
            final(self).wf(),
            final(self).cached() == Map::<(Seq<char>, Seq<char>), bool>::empty(),
    {
        self.cache = Vec::new();
    }

    /// The number of remembered verdicts.
    pub fn cache_len(&self) -> (n: usize)
        requires
            self.wf(),
        ensures
            n == self.cached().dom().len(),
    {
        proof {
            lemma_verdict_map(self.cache@);
        }
        self.cache.len()
    }
}

} // verus!
