//! The document model and the `Checkable` capability.
//!
//! A `Source` is a claim origin with a trust flag; a `Statistic` is a claimed
//! description/value pair backed by sources; an `Information` is a
//! website-level document holding many statistics, topic tags, and a trust
//! flag.  `Checkable` judges each of them, either on its own trust flags
//! (`is_accurate`) or against a list of trusted reference values
//! (`is_accurate_with_sources`).

use vstd::prelude::*;

verus! {

/// Error text returned when a document finds no topically relevant trusted
/// reference.
pub open spec fn no_relevant_sources_msg() -> Seq<char> {
    "Error no relevant sources"@
}

/// Error text returned by operations the library deliberately does not
/// support.
pub open spec fn not_supported_msg() -> Seq<char> {
    "Error not supported"@
}

/// The capability to judge accuracy: by a value's own trust flags, or
/// relative to a list of trusted reference values of the same type.
///
/// Accuracy scoring is deliberately unsupported: no scoring formula is
/// defined, so `accuracy_score` always answers `None`.
pub trait Checkable: Sized {
    /// What the self-contained judgment `is_accurate` returns.
    spec fn accurate_spec(&self) -> bool;

    /// What `is_accurate_with_sources` returns: a verdict, or the text of
    /// the error it signals.
    spec fn with_sources_spec(&self, trusted: Seq<Self>) -> Result<bool, Seq<char>>;

    /// A self-contained trust judgment, with no external reference.
    fn is_accurate(&self) -> (r: bool)
        ensures
            r == self.accurate_spec(),
    ;

    /// A judgment relative to the supplied trusted values; signals an error
    /// when no reference is relevant (or when the operation is unsupported).
    fn is_accurate_with_sources(&self, trusted: Vec<Self>) -> (r: Result<bool, String>)
        ensures
            (match r {
                Ok(b) => self.with_sources_spec(trusted@) == Ok::<bool, Seq<char>>(b),
                Err(e) => self.with_sources_spec(trusted@) == Err::<bool, Seq<char>>(e@),
            }),
    ;

    /// Numeric scoring is not supported; always answers `None`.
    fn accuracy_score(&self) -> (r: Option<u32>)
        ensures
            r is None,
    ;
}

/// A claim origin: where a claim comes from, and whether that origin is
/// trusted.
#[derive(Debug, Clone)]
pub struct Source {
    pub location: String,
    pub trusted: bool,
}

/// Every source in `sources` is trusted.
pub open spec fn all_trusted(sources: Seq<Source>) -> bool {
    forall|i: int| 0 <= i < sources.len() ==> sources[i].trusted
}

impl Checkable for Source {
    /// A source is accurate exactly when it is trusted.
    open spec fn accurate_spec(&self) -> bool {
        self.trusted
    }

    /// A source has no sourcing hierarchy below it, so a source-relative
    /// judgment is unsupported.
    open spec fn with_sources_spec(&self, trusted: Seq<Source>) -> Result<bool, Seq<char>> {
        Err(not_supported_msg())
    }

    fn is_accurate(&self) -> (r: bool) {
        self.trusted
    }

    fn is_accurate_with_sources(&self, trusted: Vec<Source>) -> (r: Result<bool, String>) {
        Err("Error not supported".to_owned())
    }

    fn accuracy_score(&self) -> (r: Option<u32>) {
        None
    }
}

/// A claimed statistic: a textual description and an integer value, backed
/// by a (possibly empty) list of sources.
#[derive(Debug, Clone)]
pub struct Statistic {
    pub sources: Vec<Source>,
    pub description: String,
    pub value: i32,
}

/// The token-overlap threshold for two descriptions of the given character
/// lengths: 55% of their average length, rounded to the nearest integer
/// (halves away from zero).
pub open spec fn eq_threshold(la: nat, lb: nat) -> int {
    (55 * (((la + lb) / 2) as int) + 50) / 100
}

/// The fuzzy equality between statistics, as `==` computes it.
///
/// Two statistics are equal outright when description and value both match.
/// Otherwise, count how many whitespace-separated tokens of `a`'s
/// description occur as substrings of `b`'s; if that count strictly exceeds
/// the threshold of [`eq_threshold`], the statistics are equal exactly when
/// their values match.  If the threshold is not exceeded, they are equal
/// exactly when every one of `a`'s sources is trusted — an asymmetric
/// fallback that looks at `a`'s sources only.
pub open spec fn stat_eq(a: Statistic, b: Statistic) -> bool {
    if a.description@ == b.description@ && a.value == b.value {
        true
    } else if crate::text::match_count(a.description@, b.description@) > eq_threshold(
        a.description@.len(),
        b.description@.len(),
    ) {
        a.value == b.value
    } else {
        all_trusted(a.sources@)
    }
}

/// `s` is fuzzily equal to every statistic of `trusted` (vacuously so when
/// `trusted` is empty).
pub open spec fn stat_all_eq(s: Statistic, trusted: Seq<Statistic>) -> bool {
    forall|k: int| 0 <= k < trusted.len() ==> stat_eq(s, #[trigger] trusted[k])
}

/// Every source of `sources` reports itself accurate, short-circuiting on
/// the first untrusted one.
pub fn all_sources_trusted(sources: &Vec<Source>) -> (r: bool)
    ensures
        r == all_trusted(sources@),
{
    let n: usize = sources.len();
    let mut i: usize = 0;
    while i < n
        invariant
            i <= n,
            n == sources@.len(),
            forall|k: int| 0 <= k < i ==> sources@[k].trusted,
        decreases n - i,
    {
        if !sources[i].is_accurate() {
            return false;
        }
        i += 1;
    }
    true
}

impl PartialEq for Statistic {
    /// The fuzzy comparison of [`stat_eq`], computed by tokenizing this
    /// statistic's description and searching each token in the other's.
    fn eq(&self, other: &Statistic) -> (r: bool) {
        if self.description == other.description && self.value == other.value {
            return true;
        }
        let a = crate::text::chars_of(self.description.as_str());
        let b = crate::text::chars_of(other.description.as_str());
        let count: usize = crate::text::count_matching_tokens(&a, &b);
        let half: u128 = (a.len() as u128 + b.len() as u128) / 2;
        let thr: u128 = (55 * half + 50) / 100;
        proof {
            assert(half == ((a@.len() + b@.len()) / 2) as int);
            assert(thr == eq_threshold(a@.len(), b@.len()));
        }
        if (count as u128) > thr {
            self.value == other.value
        } else {
            all_sources_trusted(&self.sources)
        }
    }
}

impl vstd::std_specs::cmp::PartialEqSpecImpl for Statistic {
    open spec fn obeys_eq_spec() -> bool {
        true
    }

    open spec fn eq_spec(&self, other: &Statistic) -> bool {
        stat_eq(*self, *other)
    }
}

/// `s` compares equal (per `==`) to every statistic of `trusted`,
/// short-circuiting on the first mismatch.
pub fn stat_matches_all(s: &Statistic, trusted: &Vec<Statistic>) -> (r: bool)
    ensures
        r == stat_all_eq(*s, trusted@),
{
    let n: usize = trusted.len();
    let mut k: usize = 0;
    while k < n
        invariant
            k <= n,
            n == trusted@.len(),
            forall|q: int| 0 <= q < k ==> stat_eq(*s, #[trigger] trusted@[q]),
        decreases n - k,
    {
        if !(*s == trusted[k]) {
            return false;
        }
        k += 1;
    }
    true
}

impl Checkable for Statistic {
    /// A statistic is accurate exactly when every attached source is
    /// trusted.
    open spec fn accurate_spec(&self) -> bool {
        all_trusted(self.sources@)
    }

    /// Relative to trusted statistics, the verdict is whether this
    /// statistic fuzzily equals every one of them; no error is ever
    /// signalled.
    open spec fn with_sources_spec(&self, trusted: Seq<Statistic>) -> Result<bool, Seq<char>> {
        Ok(stat_all_eq(*self, trusted))
    }

    fn is_accurate(&self) -> (r: bool) {
        all_sources_trusted(&self.sources)
    }

    fn is_accurate_with_sources(&self, trusted: Vec<Statistic>) -> (r: Result<bool, String>) {
        Ok(stat_matches_all(self, &trusted))
    }

    fn accuracy_score(&self) -> (r: Option<u32>) {
        None
    }
}

/// A website-level document: a name, a self-declared trust flag, topic
/// tags, and the statistics it claims.
#[derive(Debug, Clone)]
pub struct Information {
    pub website_name: String,
    pub is_trusted: bool,
    pub website_topics: Vec<String>,
    pub statistics: Vec<Statistic>,
}

/// Some topic of `a` equals some topic of `b`.
pub open spec fn topics_overlap(a: Seq<Seq<char>>, b: Seq<Seq<char>>) -> bool {
    exists|i: int, j: int| 0 <= i < a.len() && 0 <= j < b.len() && #[trigger] a[i] == #[trigger] b[j]
}

/// Every statistic of `stats` is individually accurate: all its sources are
/// trusted.
pub open spec fn all_stats_accurate(stats: Seq<Statistic>) -> bool {
    forall|i: int| 0 <= i < stats.len() ==> all_trusted(#[trigger] stats[i].sources@)
}

impl Information {
    /// The document's topic tags, as character sequences.
    pub open spec fn topics(&self) -> Seq<Seq<char>> {
        self.website_topics.deep_view()
    }

    /// `reference` is relevant to this document: they share at least one
    /// topic tag.
    pub open spec fn relevant(&self, reference: Information) -> bool {
        topics_overlap(self.topics(), reference.topics())
    }

    /// At least one document of `trusted` is relevant to this one.
    pub open spec fn has_relevant(&self, trusted: Seq<Information>) -> bool {
        exists|j: int| 0 <= j < trusted.len() && self.relevant(#[trigger] trusted[j])
    }

    /// Every statistic of this document is fuzzily equal to every statistic
    /// of `reference`.
    pub open spec fn passes(&self, reference: Information) -> bool {
        forall|i: int|
            0 <= i < self.statistics@.len() ==> #[trigger] stat_all_eq(
                self.statistics@[i],
                reference.statistics@,
            )
    }

    /// This document passes against every relevant document of `trusted`.
    pub open spec fn all_relevant_pass(&self, trusted: Seq<Information>) -> bool {
        forall|j: int|
            0 <= j < trusted.len() && #[trigger] self.relevant(trusted[j]) ==> self.passes(
                trusted[j],
            )
    }
}

/// Some topic of `a` equals (as a string) some topic of `b`.
pub fn topics_share(a: &Vec<String>, b: &Vec<String>) -> (r: bool)
    ensures
        r == topics_overlap(a.deep_view(), b.deep_view()),
{
    let n: usize = a.len();
    let m: usize = b.len();
    let mut i: usize = 0;
    while i < n
        invariant
            i <= n,
            n == a@.len(),
            m == b@.len(),
            forall|p: int, q: int|
                0 <= p < i && 0 <= q < m ==> #[trigger] a.deep_view()[p] != #[trigger] b.deep_view()[q],
        decreases n - i,
    {
        let mut j: usize = 0;
        while j < m
            invariant
                i < n,
                j <= m,
                n == a@.len(),
                m == b@.len(),
                forall|q: int| 0 <= q < j ==> a.deep_view()[i as int] != #[trigger] b.deep_view()[q],
            decreases m - j,
        {
            if a[i] == b[j] {
                proof {
                    assert(a.deep_view()[i as int] == b.deep_view()[j as int]);
                }
                return true;
            }
            j += 1;
        }
        i += 1;
    }
    false
}

impl Checkable for Information {
    /// A document is accurate when self-declared trusted, or else when each
    /// of its statistics is individually accurate.
    open spec fn accurate_spec(&self) -> bool {
        self.is_trusted || all_stats_accurate(self.statistics@)
    }

    /// A self-trusted document passes against any list.  Otherwise every
    /// statistic must pass against every topically relevant trusted
    /// document; with no relevant document at all, the judgment signals the
    /// "no relevant sources" error.
    open spec fn with_sources_spec(&self, trusted: Seq<Information>) -> Result<bool, Seq<char>> {
        if self.is_trusted {
            Ok(true)
        } else if !self.has_relevant(trusted) {
            Err(no_relevant_sources_msg())
        } else if self.all_relevant_pass(trusted) {
            Ok(true)
        } else {
            Ok(false)
        }
    }

    fn is_accurate(&self) -> (r: bool) {
        if self.is_trusted {
            return true;
        }
        let n: usize = self.statistics.len();
        let mut i: usize = 0;
        while i < n
            invariant
                i <= n,
                n == self.statistics@.len(),
                !self.is_trusted,
                forall|k: int| 0 <= k < i ==> all_trusted(#[trigger] self.statistics@[k].sources@),
            decreases n - i,
        {
            if !self.statistics[i].is_accurate() {
                proof {
                    assert(!all_trusted(self.statistics@[i as int].sources@));
                    assert(!all_stats_accurate(self.statistics@));
                }
                return false;
            }
            i += 1;
        }
        true
    }

    fn is_accurate_with_sources(&self, trusted: Vec<Information>) -> (r: Result<bool, String>) {
        if self.is_trusted {
            return Ok(true);
        }
        let n: usize = trusted.len();
        let mut hasdone = false;
        let mut j: usize = 0;
        while j < n
            invariant
                j <= n,
                n == trusted@.len(),
                !self.is_trusted,
                hasdone == exists|p: int| 0 <= p < j && self.relevant(#[trigger] trusted@[p]),
                forall|p: int|
                    0 <= p < j && #[trigger] self.relevant(trusted@[p]) ==> self.passes(
                        trusted@[p],
                    ),
            decreases n - j,
        {
            let is_rel = topics_share(&self.website_topics, &trusted[j].website_topics);
            if is_rel {
                hasdone = true;
                let m: usize = self.statistics.len();
                let mut i: usize = 0;
                while i < m
                    invariant
                        i <= m,
                        j < n,
                        n == trusted@.len(),
                        m == self.statistics@.len(),
                        !self.is_trusted,
                        self.relevant(trusted@[j as int]),
                        forall|k: int|
                            0 <= k < i ==> #[trigger] stat_all_eq(
                                self.statistics@[k],
                                trusted@[j as int].statistics@,
                            ),
                    decreases m - i,
                {
                    if !stat_matches_all(&self.statistics[i], &trusted[j].statistics) {
                        proof {
                            assert(self.has_relevant(trusted@));
                            assert(!self.passes(trusted@[j as int]));
                            assert(!self.all_relevant_pass(trusted@));
                        }
                        return Ok(false);
                    }
                    i += 1;
                }
                proof {
                    assert(self.passes(trusted@[j as int]));
                }
            }
            j += 1;
        }
        if !hasdone {
            return Err("Error no relevant sources".to_owned());
        }
        Ok(true)
    }

    fn accuracy_score(&self) -> (r: Option<u32>) {
        None
    }
}

/// The threshold never goes below zero, whatever the description lengths.
pub proof fn lemma_threshold_nonnegative(la: nat, lb: nat)
    ensures
        eq_threshold(la, lb) >= 0,
{
}

/// Statistics with identical description and value compare equal, whatever
/// their sources.
pub proof fn lemma_identical_claims_equal(a: Statistic, b: Statistic)
    requires
        a.description@ == b.description@,
        a.value == b.value,
    ensures
        stat_eq(a, b),
{
}

/// When no token of `a`'s description occurs in `b`'s and every source of
/// `a` is trusted, the fallback makes the statistics compare equal — even
/// if their values differ.
pub proof fn lemma_disjoint_trusted_equal(a: Statistic, b: Statistic)
    requires
        crate::text::match_count(a.description@, b.description@) == 0,
        all_trusted(a.sources@),
    ensures
        stat_eq(a, b),
{
    lemma_threshold_nonnegative(a.description@.len(), b.description@.len());
}

/// When the descriptions differ, no token of `a`'s description occurs in
/// `b`'s, and at least one of `a`'s sources is untrusted, the statistics
/// compare unequal.
pub proof fn lemma_disjoint_untrusted_unequal(a: Statistic, b: Statistic)
    requires
        a.description@ != b.description@,
        crate::text::match_count(a.description@, b.description@) == 0,
        !all_trusted(a.sources@),
    ensures
        !stat_eq(a, b),
{
    lemma_threshold_nonnegative(a.description@.len(), b.description@.len());
}

/// A self-trusted document passes against any list of references, even an
/// empty one.
pub proof fn lemma_trusted_document_passes(doc: Information, trusted: Seq<Information>)
    requires
        doc.is_trusted,
    ensures
        doc.with_sources_spec(trusted) == Ok::<bool, Seq<char>>(true),
{
}

/// An untrusted document that shares no topic with any reference receives
/// the "no relevant sources" error.
pub proof fn lemma_no_relevant_sources_error(doc: Information, trusted: Seq<Information>)
    requires
        !doc.is_trusted,
        forall|j: int| 0 <= j < trusted.len() ==> !doc.relevant(#[trigger] trusted[j]),
    ensures
        doc.with_sources_spec(trusted) == Err::<bool, Seq<char>>(no_relevant_sources_msg()),
{
    assert(!doc.has_relevant(trusted));
}

} // verus!
