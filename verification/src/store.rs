//! The link store: a map from short code to target URL that owns uniqueness
//! enforcement and the collision-retry loop of `create`.

use vstd::prelude::*;
use vstd::string::StringExecFns;
use crate::generator::generate_code;
use crate::generator::is_code_seq;
use crate::validate::normalize_url;
use crate::validate::url_normalized;
use crate::validate::url_parses;

verus! {

/// The code length used when no other length is configured.
pub const DEFAULT_CODE_LENGTH: usize = 6;

/// How many candidate codes `create` tries before giving up.
pub const MAX_CREATE_ATTEMPTS: usize = 5;

/// Why a `create` call failed.
#[derive(Clone, Copy, Debug, PartialEq, Eq, Structural)]
pub enum CreateError {
    /// The submitted target is not a well-formed absolute URL.
    InvalidUrl,
    /// Every candidate code collided with one already stored.
    Exhausted,
}

/// What a durable store reported for one insert attempt.
#[derive(Clone, Copy, Debug, PartialEq, Eq, Structural)]
pub enum InsertOutcome {
    /// The row went in: the candidate code is now bound.
    Inserted,
    /// The unique constraint on the code rejected the candidate.
    CodeTaken,
    /// The store failed for another reason.
    StoreFailure,
}

/// What the loop driving a durable store should do next.
#[derive(Clone, Copy, Debug, PartialEq, Eq, Structural)]
pub enum NextStep {
    /// The candidate was stored: answer with it.
    Done,
    /// Draw a fresh candidate and try the insert again.
    Retry,
    /// Stop: the store failed, or every permitted attempt collided.
    GiveUp,
}

/// The collision-retry decision, one attempt at a time: only a uniqueness
/// violation is retried, and only while attempts remain; any other storage
/// failure stops at once. A loop that performs the inserts elsewhere (a
/// storage engine enforcing the unique key) drives itself with this step.
pub fn next_step(attempt: usize, outcome: InsertOutcome) -> (r: NextStep)
    ensures
        r == NextStep::Done <==> outcome == InsertOutcome::Inserted,
        r == NextStep::Retry <==> (outcome == InsertOutcome::CodeTaken && attempt + 1
            < MAX_CREATE_ATTEMPTS),
        r == NextStep::GiveUp <==> (outcome == InsertOutcome::StoreFailure || (outcome
            == InsertOutcome::CodeTaken && attempt + 1 >= MAX_CREATE_ATTEMPTS)),
{
    match outcome {
        InsertOutcome::Inserted => NextStep::Done,
        InsertOutcome::CodeTaken => {
            if attempt < MAX_CREATE_ATTEMPTS - 1 {
                NextStep::Retry
            } else {
                NextStep::GiveUp
            }
        },
        InsertOutcome::StoreFailure => NextStep::GiveUp,
    }
}

/// One stored mapping: a short code bound to its target URL.
struct ShortLink {
    code: String,
    url: String,
}

/// The link store. Its model is a map from code characters to URL characters;
/// every operation's contract is stated over that map.
pub struct LinkStore {
    links: Vec<ShortLink>,
    code_len: usize,
}

spec fn links_map(s: Seq<ShortLink>) -> Map<Seq<char>, Seq<char>>
    decreases s.len(),
{
    if s.len() == 0 {
        Map::empty()
    } else {
        links_map(s.drop_last()).insert(s.last().code@, s.last().url@)
    }
}

spec fn codes_distinct(s: Seq<ShortLink>) -> bool {
    forall|i: int, j: int| 0 <= i < j < s.len() ==> s[i].code@ != s[j].code@
}

spec fn urls_nonempty(s: Seq<ShortLink>) -> bool {
    forall|i: int| 0 <= i < s.len() ==> s[i].url@.len() > 0
}

proof fn lemma_links_map_contains(s: Seq<ShortLink>, c: Seq<char>)
    ensures
        links_map(s).contains_key(c) <==> exists|i: int| 0 <= i < s.len() && s[i].code@ == c,
    decreases s.len(),
{
    if s.len() > 0 {
        lemma_links_map_contains(s.drop_last(), c);
        if s.last().code@ == c {
            assert(s[s.len() - 1].code@ == c);
        } else {
            if links_map(s).contains_key(c) {
                let i = choose|i: int|
                    0 <= i < s.drop_last().len() && s.drop_last()[i].code@ == c;
                assert(s[i].code@ == c);
            }
            if exists|i: int| 0 <= i < s.len() && s[i].code@ == c {
                let i = choose|i: int| 0 <= i < s.len() && s[i].code@ == c;
                assert(s.drop_last()[i].code@ == c);
            }
        }
    }
}

proof fn lemma_codes_distinct_prefix(s: Seq<ShortLink>)
    requires
        s.len() > 0,
        codes_distinct(s),
    ensures
        codes_distinct(s.drop_last()),
        urls_nonempty(s) ==> urls_nonempty(s.drop_last()),
{
    assert forall|i: int, j: int|
        0 <= i < j < s.drop_last().len() implies s.drop_last()[i].code@
        != s.drop_last()[j].code@ by {
        assert(s[i].code@ != s[j].code@);
    }
}

proof fn lemma_links_map_get(s: Seq<ShortLink>, i: int)
    requires
        codes_distinct(s),
        0 <= i < s.len(),
    ensures
        links_map(s).contains_key(s[i].code@),
        links_map(s)[s[i].code@] == s[i].url@,
    decreases s.len(),
{
    if i < s.len() - 1 {
        lemma_codes_distinct_prefix(s);
        lemma_links_map_get(s.drop_last(), i);
        assert(s[i].code@ != s[s.len() - 1].code@);
    }
}

proof fn lemma_links_map_dom_len(s: Seq<ShortLink>)
    requires
        codes_distinct(s),
    ensures
        links_map(s).dom().finite(),
        links_map(s).dom().len() == s.len(),
    decreases s.len(),
{
    if s.len() > 0 {
        lemma_codes_distinct_prefix(s);
        lemma_links_map_dom_len(s.drop_last());
        lemma_links_map_contains(s.drop_last(), s.last().code@);
        assert(!links_map(s.drop_last()).contains_key(s.last().code@)) by {
            if exists|i: int|
                0 <= i < s.drop_last().len() && s.drop_last()[i].code@ == s.last().code@ {
                let i = choose|i: int|
                    0 <= i < s.drop_last().len() && s.drop_last()[i].code@ == s.last().code@;
                assert(s[i].code@ == s[s.len() - 1].code@);
            }
        }
    }
}

impl View for LinkStore {
    type V = Map<Seq<char>, Seq<char>>;

    closed spec fn view(&self) -> Map<Seq<char>, Seq<char>> {
        links_map(self.links@)
    }
}

impl LinkStore {
    /// Well-formed: stored codes are pairwise distinct, stored URLs are
    /// non-empty, and the configured code length is positive.
    pub closed spec fn wf(self) -> bool {
        &&& codes_distinct(self.links@)
        &&& urls_nonempty(self.links@)
        &&& self.code_len >= 1
    }

    /// The length of every code this store issues.
    pub closed spec fn code_length(self) -> usize {
        self.code_len
    }

    /// An empty store that will issue codes of `code_len` characters.
    pub fn new(code_len: usize) -> (s: Self)
        requires
            code_len >= 1,
        ensures
            s.wf(),
            s@ == Map::<Seq<char>, Seq<char>>::empty(),
            s.code_length() == code_len,
    {
        LinkStore { links: Vec::new(), code_len }
    }

    /// The configured code length.
    pub fn code_len(&self) -> (r: usize)
        ensures
            r == self.code_length(),
    {
        self.code_len
    }

    /// How many links are stored.
    pub fn len(&self) -> (r: usize)
        requires
            self.wf(),
        ensures
            r == self@.dom().len(),
    {
        proof {
            lemma_links_map_dom_len(self.links@);
        }
        self.links.len()
    }

    fn find(&self, code: &str) -> (r: Option<usize>)
        requires
            self.wf(),
        ensures
            match r {
                Some(i) => {
                    &&& i < self.links@.len()
                    &&& self.links@[i as int].code@ == code@
                    &&& self@.contains_key(code@)
                    &&& self@[code@] == self.links@[i as int].url@
                },
                None => !self@.contains_key(code@),
            },
    {
        let key: String = code.to_owned();
        let n = self.links.len();
        let mut i: usize = 0;
        while i < n
            invariant
                self.wf(),
                n == self.links@.len(),
                i <= n,
                key@ == code@,
                forall|j: int| 0 <= j < i ==> self.links@[j].code@ != code@,
            decreases n - i,
        {
            if self.links[i].code == key {
                proof {
                    lemma_links_map_get(self.links@, i as int);
                }
                return Some(i);
            }
            i = i + 1;
        }
        proof {
            lemma_links_map_contains(self.links@, code@);
        }
        None
    }

    /// Look up the target URL bound to `code`. A pure read with no error
    /// outcome: an unknown code reports absence, nothing else.
    pub fn resolve(&self, code: &str) -> (r: Option<String>)
        requires
            self.wf(),
        ensures
            match r {
                Some(url) => self@.contains_key(code@) && url@ == self@[code@] && url@.len() > 0,
                None => !self@.contains_key(code@),
            },
    {
        match self.find(code) {
            Some(i) => Some(self.links[i].url.clone()),
            None => None,
        }
    }

    /// Bind `code` to `url` unless the code is already taken, and report
    /// whether the insertion happened. This is the uniqueness-enforcing
    /// primitive beneath `create`; it also lets a caller exercise the
    /// collision path deterministically.
    pub fn try_insert(&mut self, code: String, url: String) -> (inserted: bool)
        requires
            old(self).wf(),
            url@.len() > 0,
        ensures
            final(self).wf(),
            final(self).code_length() == old(self).code_length(),
            inserted ==> !old(self)@.contains_key(code@) && final(self)@ == old(self)@.insert(
                code@,
                url@,
            ),
            !inserted ==> old(self)@.contains_key(code@) && *final(self) == *old(self),
    {
        let ghost c = code@;
        let ghost u = url@;
        match self.find(code.as_str()) {
            Some(_) => false,
            None => {
                proof {
                    lemma_links_map_contains(self.links@, c);
                }
                let ghost pre = self.links@;
                self.links.push(ShortLink { code, url });
                proof {
                    assert(self.links@.drop_last() =~= pre);
                    assert(codes_distinct(self.links@)) by {
                        assert forall|i: int, j: int|
                            0 <= i < j < self.links@.len() implies self.links@[i].code@
                            != self.links@[j].code@ by {
                            if j < pre.len() {
                                assert(pre[i].code@ != pre[j].code@);
                            } else {
                                assert(self.links@[j].code@ == c);
                                assert(self.links@[i] == pre[i]);
                            }
                        }
                    }
                    assert(urls_nonempty(self.links@)) by {
                        assert forall|i: int|
                            0 <= i < self.links@.len() implies self.links@[i].url@.len() > 0 by {
                            if i < pre.len() {
                                assert(pre[i].url@.len() > 0);
                            }
                        }
                    }
                }
                true
            },
        }
    }

    /// Create a new short link for `target_url`: validate it strictly, then
    /// generate candidate codes until one is fresh, giving up after
    /// `MAX_CREATE_ATTEMPTS` collisions. On success the returned code is a
    /// fresh, fixed-length alphanumeric identifier now bound to the
    /// normalized URL; on failure the store is unchanged. Exhaustion can only
    /// be reported when a code of the issued shape is already stored, so a
    /// valid URL against a store holding none — the empty store above all —
    /// is owed success.
    pub fn create(&mut self, target_url: &str) -> (r: Result<String, CreateError>)
        requires
            old(self).wf(),
        ensures
            final(self).wf(),
            final(self).code_length() == old(self).code_length(),
            match r {
                Ok(code) => {
                    &&& url_parses(target_url@)
                    &&& code@.len() == old(self).code_length()
                    &&& is_code_seq(code@)
                    &&& !old(self)@.contains_key(code@)
                    &&& final(self)@ == old(self)@.insert(code@, url_normalized(target_url@))
                },
                Err(e) => {
                    &&& *final(self) == *old(self)
                    &&& (e == CreateError::InvalidUrl <==> !url_parses(target_url@))
                    &&& (e == CreateError::Exhausted ==> exists|c: Seq<char>|
                        #[trigger] old(self)@.contains_key(c) && c.len() == old(
                            self,
                        ).code_length() && is_code_seq(c))
                },
            },
    {
        let url = match normalize_url(target_url) {
            Some(u) => u,
            None => { return Err(CreateError::InvalidUrl) },
        };
        let mut attempt: usize = 0;
        while attempt < MAX_CREATE_ATTEMPTS
            invariant
                *self == *old(self),
                self.wf(),
                url_parses(target_url@),
                url@ == url_normalized(target_url@),
                url@.len() > 0,
                attempt > 0 ==> exists|c: Seq<char>|
                    #[trigger] self@.contains_key(c) && c.len() == self.code_length()
                        && is_code_seq(c),
            decreases MAX_CREATE_ATTEMPTS - attempt,
        {
            let code = generate_code(self.code_len);
            let candidate = code.clone();
            if self.try_insert(candidate, url.clone()) {
                return Ok(code);
            }
            proof {
                assert(self@.contains_key(code@) && code@.len() == self.code_length()
                    && is_code_seq(code@));
            }
            attempt = attempt + 1;
        }
        Err(CreateError::Exhausted)
    }
}

/// The externally visible short URL: the base prefix, a slash, and the code.
pub fn short_url(base: &str, code: &str) -> (r: String)
    ensures
        r@ == base@ + "/"@ + code@,
{
    let mut s: String = base.to_owned();
    s.append("/");
    s.append(code);
    s
}

} // verus!
