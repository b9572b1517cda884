//! Paginated accumulation of releases newer than the running version.
//!
//! The caller performs the HTTP requests; `Fetcher` makes every decision:
//! which page to ask for, which records of a page to keep, when the
//! pagination ends, and in which order the kept releases come out.

use vstd::prelude::*;
use vstd::seq_lib::lemma_multiset_commutative;
use vstd::string::StringExecFns;
use crate::version::{stripped, strip_tag_prefix, sv_lt, sv_ok, tag_parses, version_less};

verus! {

/// Fixed number of records asked of the listing endpoint per page.
pub const PER_PAGE: u32 = 30;

/// One release as the listing endpoint reports it.
pub struct ReleaseRecord {
    /// Raw tag, possibly with a leading `v` marker.
    pub tag_name: String,
    /// Authored description, if the publisher wrote one.
    pub body: Option<String>,
    /// Creation timestamp, kept as the endpoint's string.
    pub created_at: String,
}

/// The string a record's version is parsed from: its tag, stripped.
pub open spec fn tag_version(r: ReleaseRecord) -> Seq<char> {
    stripped(r.tag_name@)
}

/// Whether a record survives filtering against the current version `cur`:
/// its tag parses as a semantic version strictly greater than `cur`.
pub open spec fn keeps(r: ReleaseRecord, cur: Seq<char>) -> bool {
    sv_ok(tag_version(r)) && sv_lt(cur, tag_version(r))
}

/// The records of `s` that survive filtering against `cur`, in order.
pub open spec fn kept_of(s: Seq<ReleaseRecord>, cur: Seq<char>) -> Seq<ReleaseRecord>
    decreases s.len(),
{
    if s.len() == 0 {
        Seq::empty()
    } else {
        kept_of(s.drop_last(), cur) + if keeps(s.last(), cur) {
            seq![s.last()]
        } else {
            Seq::empty()
        }
    }
}

/// Newest first: no release is strictly older than a later one.
pub open spec fn sorted_newest_first(s: Seq<ReleaseRecord>) -> bool {
    forall|i: int, j: int|
        0 <= i < j < s.len() ==> !sv_lt(tag_version(#[trigger] s[i]), tag_version(#[trigger] s[j]))
}

/// Every record that filtering keeps parses as a semantic version strictly
/// greater than the current one, and comes from the filtered page; a record
/// whose tag fails to parse never enters the result, whatever its other
/// fields hold.
pub proof fn lemma_kept_parses_and_is_newer(s: Seq<ReleaseRecord>, cur: Seq<char>, k: int)
    requires
        0 <= k < kept_of(s, cur).len(),
    ensures
        keeps(kept_of(s, cur)[k], cur),
        s.contains(kept_of(s, cur)[k]),
    decreases s.len(),
{
    let kept = kept_of(s, cur);
    let rest = kept_of(s.drop_last(), cur);
    if k < rest.len() {
        lemma_kept_parses_and_is_newer(s.drop_last(), cur, k);
        assert(kept[k] == rest[k]);
        let w = choose|w: int| 0 <= w < s.drop_last().len() && s.drop_last()[w] == rest[k];
        assert(s[w] == rest[k]);
    } else {
        assert(keeps(s.last(), cur));
        assert(kept[k] == s.last());
        assert(s[s.len() - 1] == s.last());
    }
}

/// In a newest-first sequence, a release whose version is strictly greater
/// than another's stands strictly before it.
pub proof fn lemma_newer_stands_first(s: Seq<ReleaseRecord>, i: int, j: int)
    requires
        sorted_newest_first(s),
        0 <= i < s.len(),
        0 <= j < s.len(),
        i != j,
        sv_lt(tag_version(s[j]), tag_version(s[i])),
    ensures
        i < j,
{
    if j < i {
        assert(!sv_lt(tag_version(s[j]), tag_version(s[i])));
    }
}

proof fn lemma_insert_to_multiset(s: Seq<ReleaseRecord>, x: ReleaseRecord, j: int)
    requires
        0 <= j <= s.len(),
    ensures
        s.insert(j, x).to_multiset() == s.to_multiset().insert(x),
{
    broadcast use vstd::seq_lib::group_to_multiset_ensures;
    broadcast use vstd::multiset::group_multiset_axioms;

    let front = s.subrange(0, j);
    let back = s.subrange(j, s.len() as int);
    lemma_multiset_commutative(front.push(x), back);
    lemma_multiset_commutative(front, back);
    assert(front + back =~= s);
    assert(s.insert(j, x).to_multiset() =~= s.to_multiset().insert(x));
}

/// Position in the sorted prefix `v[0..hi]` at which `x` belongs, scanning
/// from the high end: everything before the answer is at least `x`, and `x`
/// is at least everything from the answer on.
fn insert_pos(v: &Vec<ReleaseRecord>, hi: usize, x: &ReleaseRecord, Ghost(cur): Ghost<Seq<char>>) -> (j: usize)
    requires
        hi <= v@.len(),
        sv_ok(cur),
        keeps(*x, cur),
        forall|k: int| 0 <= k < hi ==> keeps(#[trigger] v@[k], cur),
        forall|a: int, b: int|
            0 <= a < b < hi ==> !sv_lt(tag_version(#[trigger] v@[a]), tag_version(#[trigger] v@[b])),
    ensures
        j <= hi,
        forall|k: int| 0 <= k < j ==> !sv_lt(tag_version(#[trigger] v@[k]), tag_version(*x)),
        forall|k: int| j <= k < hi ==> !sv_lt(tag_version(*x), tag_version(#[trigger] v@[k])),
{
    let mut j = hi;
    loop
        invariant
            j <= hi,
            hi <= v@.len(),
            sv_ok(cur),
            keeps(*x, cur),
            forall|k: int| 0 <= k < hi ==> keeps(#[trigger] v@[k], cur),
            forall|a: int, b: int|
                0 <= a < b < hi ==> !sv_lt(
                    tag_version(#[trigger] v@[a]),
                    tag_version(#[trigger] v@[b]),
                ),
            forall|k: int| j <= k < hi ==> !sv_lt(tag_version(*x), tag_version(#[trigger] v@[k])),
        ensures
            j <= hi,
            forall|k: int| 0 <= k < j ==> !sv_lt(tag_version(#[trigger] v@[k]), tag_version(*x)),
            forall|k: int| j <= k < hi ==> !sv_lt(tag_version(*x), tag_version(#[trigger] v@[k])),
        decreases j,
    {
        if j == 0 {
            break;
        }
        let prev_tag = strip_tag_prefix(v[j - 1].tag_name.as_str());
        let x_tag = strip_tag_prefix(x.tag_name.as_str());
        if version_less(prev_tag, x_tag) {
            j = j - 1;
        } else {
            // `v[j - 1]` is at least `x`; everything before it is at least
            // `v[j - 1]`, hence at least `x` by transitivity of the order.
            proof {
                assert forall|k: int| 0 <= k < j implies !sv_lt(
                    tag_version(v@[k]),
                    tag_version(*x),
                ) by {
                    if k < j - 1 {
                        assert(!sv_lt(tag_version(v@[k]), tag_version(v@[j - 1])));
                    }
                }
            }
            break;
        }
    }
    j
}

/// Sorts newest first, as a permutation of the input; filtering facts about
/// the elements carry over.
fn sort_releases(v: &mut Vec<ReleaseRecord>, Ghost(cur): Ghost<Seq<char>>)
    requires
        sv_ok(cur),
        forall|k: int| 0 <= k < old(v)@.len() ==> keeps(#[trigger] old(v)@[k], cur),
    ensures
        final(v)@.to_multiset() == old(v)@.to_multiset(),
        sorted_newest_first(final(v)@),
        final(v)@.len() == old(v)@.len(),
        forall|k: int| 0 <= k < final(v)@.len() ==> keeps(#[trigger] final(v)@[k], cur),
{
    broadcast use vstd::seq_lib::group_to_multiset_ensures;
    broadcast use vstd::multiset::group_multiset_axioms;

    let mut i: usize = 1;
    while i < v.len()
        invariant
            1 <= i,
            i <= v@.len() || v@.len() == 0,
            sv_ok(cur),
            v@.len() == old(v)@.len(),
            v@.to_multiset() == old(v)@.to_multiset(),
            forall|k: int| 0 <= k < v@.len() ==> keeps(#[trigger] v@[k], cur),
            forall|a: int, b: int|
                0 <= a < b < i && b < v@.len() ==> !sv_lt(
                    tag_version(#[trigger] v@[a]),
                    tag_version(#[trigger] v@[b]),
                ),
        decreases v@.len() - i,
    {
        let ghost before = v@;
        let x = v.remove(i);
        let ghost mid = v@;
        proof {
            assert(mid == before.remove(i as int));
            assert forall|k: int| 0 <= k < mid.len() implies keeps(#[trigger] mid[k], cur) by {
                if k < i {
                    assert(mid[k] == before[k]);
                } else {
                    assert(mid[k] == before[k + 1]);
                }
            }
            assert forall|a: int, b: int| 0 <= a < b < i implies !sv_lt(
                tag_version(#[trigger] mid[a]),
                tag_version(#[trigger] mid[b]),
            ) by {
                assert(mid[a] == before[a]);
                assert(mid[b] == before[b]);
            }
        }
        let j = insert_pos(&v, i, &x, Ghost(cur));
        v.insert(j, x);
        proof {
            let now = v@;
            assert(now == mid.insert(j as int, x));
            lemma_insert_to_multiset(mid, x, j as int);
            before.to_multiset_ensures();
            assert(mid.to_multiset() =~= before.to_multiset().remove(x)) by {
                assert(before[i as int] == x);
            }
            assert(before.to_multiset().count(x) > 0) by {
                assert(before[i as int] == x);
                assert(before.contains(x));
            }
            assert(now.to_multiset() =~= before.to_multiset());
            assert forall|k: int| 0 <= k < now.len() implies keeps(#[trigger] now[k], cur) by {
                if k < j {
                    assert(now[k] == mid[k]);
                } else if k == j {
                    assert(now[k] == x);
                } else {
                    assert(now[k] == mid[k - 1]);
                }
            }
            assert forall|a: int, b: int| 0 <= a < b < i + 1 && b < now.len() implies !sv_lt(
                tag_version(#[trigger] now[a]),
                tag_version(#[trigger] now[b]),
            ) by {
                if b < j {
                    assert(now[a] == mid[a] && now[b] == mid[b]);
                } else if b == j {
                    assert(now[a] == mid[a] && now[b] == x);
                } else if a < j {
                    assert(now[a] == mid[a] && now[b] == mid[b - 1]);
                    if a == b - 1 {
                        assert(!sv_lt(tag_version(x), tag_version(mid[b - 1])));
                    }
                } else if a == j {
                    assert(now[a] == x && now[b] == mid[b - 1]);
                } else {
                    assert(now[a] == mid[a - 1] && now[b] == mid[b - 1]);
                }
            }
        }
        i = i + 1;
    }
}

/// Pages through the release listing, keeping the releases strictly newer
/// than the version it was started with.
pub struct Fetcher {
    current: String,
    page: u32,
    kept: Vec<ReleaseRecord>,
    done: bool,
}

impl Fetcher {
    #[verifier::type_invariant]
    spec fn inv(self) -> bool {
        &&& sv_ok(self.current@)
        &&& forall|k: int| 0 <= k < self.kept@.len() ==> keeps(#[trigger] self.kept@[k], self.current@)
    }

    /// The version releases are measured against.
    pub closed spec fn current_spec(self) -> Seq<char> {
        self.current@
    }

    /// The page the next request asks for.
    pub closed spec fn page_spec(self) -> u32 {
        self.page
    }

    /// The releases kept so far, in the order the pages delivered them.
    pub closed spec fn releases(self) -> Seq<ReleaseRecord> {
        self.kept@
    }

    /// Whether the pagination has ended.
    pub closed spec fn done_spec(self) -> bool {
        self.done
    }

    /// Starts a fetch against `current_version`; refused when that string
    /// is not a valid semantic version.
    pub fn new(current_version: &str) -> (r: Option<Fetcher>)
        ensures
            r is Some <==> sv_ok(current_version@),
            r matches Some(f) ==> {
                &&& f.current_spec() == current_version@
                &&& f.page_spec() == 1
                &&& f.releases() == Seq::<ReleaseRecord>::empty()
                &&& !f.done_spec()
            },
    {
        if crate::version::semver_parses(current_version) {
            Some(Fetcher { current: String::from_str(current_version), page: 1, kept: Vec::new(), done: false })
        } else {
            None
        }
    }

    /// The page number for the next request.
    pub fn page(&self) -> (p: u32)
        ensures
            p == self.page_spec(),
    {
        self.page
    }

    /// Whether the pagination has ended.
    pub fn is_done(&self) -> (d: bool)
        ensures
            d == self.done_spec(),
    {
        self.done
    }

    /// Takes one delivered page: keeps each record whose tag parses as a
    /// version strictly greater than the current one, in page order; ends
    /// the pagination on a short page (fewer than `PER_PAGE` records,
    /// the empty page included) and, defensively, at the last page number.
    pub fn on_page(&mut self, records: Vec<ReleaseRecord>)
        requires
            !old(self).done_spec(),
        ensures
            final(self).current_spec() == old(self).current_spec(),
            final(self).releases() == old(self).releases() + kept_of(
                records@,
                old(self).current_spec(),
            ),
            final(self).done_spec() == (records@.len() < PER_PAGE as nat || old(
                self,
            ).page_spec() == u32::MAX),
            final(self).page_spec() == if final(self).done_spec() {
                old(self).page_spec()
            } else {
                (old(self).page_spec() + 1) as u32
            },
    {
        proof {
            use_type_invariant(&*self);
        }
        let ghost orig = records@;
        let ghost cur = self.current@;
        let mut records = records;
        let short = records.len() < PER_PAGE as usize;
        let mut kept: Vec<ReleaseRecord> = Vec::new();
        std::mem::swap(&mut kept, &mut self.kept);
        let ghost kept0 = kept@;
        proof {
            assert(kept@ =~= kept0 + kept_of(orig.take(0), cur));
        }
        let mut i: usize = 0;
        while records.len() > 0
            invariant
                i + records@.len() == orig.len(),
                orig.len() <= usize::MAX,
                records@ == orig.skip(i as int),
                sv_ok(cur),
                self.current@ == cur,
                kept@ == kept0 + kept_of(orig.take(i as int), cur),
                forall|k: int| 0 <= k < kept0.len() ==> keeps(#[trigger] kept0[k], cur),
            decreases records@.len(),
        {
            let r = records.remove(0);
            proof {
                assert(orig.skip(i as int)[0] == orig[i as int]);
                assert(orig.skip(i as int).remove(0) =~= orig.skip(i as int + 1));
            }
            let keep_it = tag_parses(r.tag_name.as_str()) && version_less(
                self.current.as_str(),
                strip_tag_prefix(r.tag_name.as_str()),
            );
            proof {
                assert(orig.take(i as int + 1).drop_last() =~= orig.take(i as int));
                assert(orig.take(i as int + 1).last() == orig[i as int]);
            }
            if keep_it {
                kept.push(r);
                proof {
                    assert(kept@ =~= kept0 + kept_of(orig.take(i as int + 1), cur));
                }
            } else {
                proof {
                    assert(kept@ =~= kept0 + kept_of(orig.take(i as int + 1), cur));
                }
            }
            i = i + 1;
        }
        proof {
            assert(orig.take(i as int) =~= orig);
            assert forall|k: int| 0 <= k < kept@.len() implies keeps(#[trigger] kept@[k], cur) by {
                if k >= kept0.len() {
                    lemma_kept_parses_and_is_newer(orig, cur, k - kept0.len());
                }
            }
        }
        self.kept = kept;
        if short {
            self.done = true;
        } else if self.page == u32::MAX {
            self.done = true;
        } else {
            self.page = self.page + 1;
        }
    }

    /// Ends the fetch: the kept releases, sorted newest first. The result is
    /// a permutation of what was kept, every element of which parses as a
    /// version strictly greater than the current one.
    pub fn finish(self) -> (out: Vec<ReleaseRecord>)
        ensures
            out@.to_multiset() == self.releases().to_multiset(),
            out@.len() == self.releases().len(),
            sorted_newest_first(out@),
            forall|k: int| 0 <= k < out@.len() ==> keeps(#[trigger] out@[k], self.current_spec()),
    {
        proof {
            use_type_invariant(&self);
        }
        let Fetcher { current, page: _, kept, done: _ } = self;
        let mut out = kept;
        sort_releases(&mut out, Ghost(current@));
        out
    }
}

} // verus!
