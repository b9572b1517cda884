//! Rendering of the release-notes document.
//!
//! Releases are walked newest first. A release with an authored body gets a
//! section holding the body verbatim; one without (body absent, empty, or
//! the placeholder) gets a section built from merged change requests, or no
//! section at all when none are found. The caller performs the one search
//! request a fallback needs; `Assembler` decides everything else.

use vstd::prelude::*;
use vstd::string::StringExecFns;
use crate::fetch::ReleaseRecord;
use crate::github::{search_url, search_url_spec};
use crate::text::{dec_str, push_dec};

verus! {

/// One item of a merged-change search result; fields the endpoint may omit
/// are optional.
pub struct SearchItem {
    pub title: Option<String>,
    pub number: Option<u64>,
    pub author: Option<String>,
}

/// How a release's authored description is to be treated.
#[derive(Clone, Copy, PartialEq, Eq, Structural, Debug)]
pub enum BodyKind {
    /// A real description: rendered verbatim.
    Authored,
    /// Exactly the placeholder text: treated as absent.
    Placeholder,
    /// No description, or an empty one.
    Missing,
}

/// The placeholder a publisher leaves when no real notes were written.
pub open spec fn sentinel() -> Seq<char> {
    "See the assets to download this version and install."@
}

/// The three-way reading of a release body.
pub open spec fn classify_spec(body: Option<String>) -> BodyKind {
    match body {
        Option::None => BodyKind::Missing,
        Option::Some(s) => if s@.len() == 0 {
            BodyKind::Missing
        } else if s@ == sentinel() {
            BodyKind::Placeholder
        } else {
            BodyKind::Authored
        },
    }
}

/// Whether a release falls back to merged-change lookup.
pub open spec fn uses_fallback(body: Option<String>) -> bool {
    !(classify_spec(body) is Authored)
}

/// Reads a release body: authored, placeholder, or missing.
pub fn classify_body(body: &Option<String>) -> (k: BodyKind)
    ensures
        k == classify_spec(*body),
{
    match body {
        None => BodyKind::Missing,
        Some(s) => {
            let sent = String::from_str("See the assets to download this version and install.");
            if s.as_str().is_empty() {
                BodyKind::Missing
            } else if *s == sent {
                BodyKind::Placeholder
            } else {
                BodyKind::Authored
            }
        },
    }
}

/// A section heading: the raw tag under a second-level mark.
pub open spec fn heading_of(tag: Seq<char>) -> Seq<char> {
    "## "@ + tag + "\n\n"@
}

/// The horizontal rule closing every section.
pub open spec fn separator() -> Seq<char> {
    "\n\n---\n\n"@
}

/// A section for a release with an authored body: heading, body verbatim,
/// rule.
pub open spec fn body_section(tag: Seq<char>, body: Seq<char>) -> Seq<char> {
    heading_of(tag) + body + separator()
}

/// Whether a search item carries title, number and author.
pub open spec fn is_complete(it: SearchItem) -> bool {
    it.title is Some && it.number is Some && it.author is Some
}

/// The bullet line for one complete search item.
pub open spec fn bullet_of(it: SearchItem) -> Seq<char>
    recommends
        is_complete(it),
{
    "* "@ + it.title->0@ + " by @"@ + it.author->0@ + " in #"@ + dec_str(it.number->0 as nat)
        + "\n"@
}

/// The bullet lines of a batch, in order, incomplete items skipped.
pub open spec fn bullets_of(items: Seq<SearchItem>) -> Seq<char>
    decreases items.len(),
{
    if items.len() == 0 {
        Seq::empty()
    } else {
        bullets_of(items.drop_last()) + if is_complete(items.last()) {
            bullet_of(items.last())
        } else {
            Seq::empty()
        }
    }
}

/// At most the first ten items of a batch are considered.
pub open spec fn cap10(items: Seq<SearchItem>) -> Seq<SearchItem> {
    if items.len() <= 10 {
        items
    } else {
        items.take(10)
    }
}

/// Whether a batch yields at least one bullet.
pub open spec fn any_complete(items: Seq<SearchItem>) -> bool {
    exists|k: int| 0 <= k < items.len() && is_complete(#[trigger] items[k])
}

/// The section a fallback batch yields: heading, a changes subheading and
/// one bullet per complete item when there is at least one; nothing at all
/// otherwise.
pub open spec fn fallback_section(tag: Seq<char>, items: Seq<SearchItem>) -> Seq<char> {
    if any_complete(cap10(items)) {
        heading_of(tag) + "### What's Changed\n\n"@ + bullets_of(cap10(items)) + separator()
    } else {
        Seq::empty()
    }
}

/// Where one release's section came from: its authored body, or the
/// fallback batch that was supplied for it.
pub enum SectionSource {
    /// The authored body was rendered verbatim.
    FromBody,
    /// The given fallback batch was rendered (possibly to nothing).
    FromFallback(Seq<SearchItem>),
}

/// Whether a log entry matches the path its release takes.
pub open spec fn source_fits(r: ReleaseRecord, src: SectionSource) -> bool {
    match src {
        SectionSource::FromBody => !uses_fallback(r.body),
        SectionSource::FromFallback(_) => uses_fallback(r.body),
    }
}

/// The section one release contributes, given where it came from.
pub open spec fn section_of(r: ReleaseRecord, src: SectionSource) -> Seq<char> {
    match src {
        SectionSource::FromBody => body_section(r.tag_name@, r.body->0@),
        SectionSource::FromFallback(items) => fallback_section(r.tag_name@, items),
    }
}

/// The sections of the first `n` releases, in order.
pub open spec fn sections_upto(
    releases: Seq<ReleaseRecord>,
    log: Seq<SectionSource>,
    n: int,
) -> Seq<char>
    decreases n,
{
    if n <= 0 {
        Seq::empty()
    } else {
        sections_upto(releases, log, n - 1) + section_of(releases[n - 1], log[n - 1])
    }
}

proof fn lemma_sections_upto_prefix(
    releases: Seq<ReleaseRecord>,
    a: Seq<SectionSource>,
    b: Seq<SectionSource>,
    n: int,
)
    requires
        forall|k: int| 0 <= k < n ==> a[k] == b[k],
    ensures
        sections_upto(releases, a, n) == sections_upto(releases, b, n),
    decreases n,
{
    if n > 0 {
        lemma_sections_upto_prefix(releases, a, b, n - 1);
    }
}

/// Walks the sorted releases and accumulates the document.
pub struct Assembler {
    /// Repository owner, for the search and the footer.
    pub owner: String,
    /// Repository name, for the search and the footer.
    pub repo: String,
    /// The releases to render, newest first.
    pub releases: Vec<ReleaseRecord>,
    /// How many releases have been rendered.
    pub idx: usize,
    /// The document so far.
    pub doc: String,
    /// Where each already-rendered section came from.
    pub log: Ghost<Seq<SectionSource>>,
}

impl Assembler {
    /// The document always holds exactly the sections of the releases
    /// already walked, as the log records them.
    pub open spec fn wf(self) -> bool {
        &&& self.idx <= self.releases@.len()
        &&& self.log@.len() == self.idx
        &&& forall|k: int|
            0 <= k < self.idx ==> source_fits(#[trigger] self.releases@[k], self.log@[k])
        &&& self.doc@ == sections_upto(self.releases@, self.log@, self.idx as int)
    }

    /// Moves the cursor past the release just handled.
    fn advance(&mut self)
        requires
            old(self).idx < old(self).releases@.len(),
        ensures
            final(self).idx == old(self).idx + 1,
            final(self).releases == old(self).releases,
            final(self).doc == old(self).doc,
            final(self).owner == old(self).owner,
            final(self).repo == old(self).repo,
            final(self).log == old(self).log,
    {
        let n = self.releases.len();
        if self.idx < n {
            self.idx = self.idx + 1;
        }
    }

    /// Starts a document over the given releases.
    pub fn new(releases: Vec<ReleaseRecord>, owner: String, repo: String) -> (a: Assembler)
        ensures
            a.releases@ == releases@,
            a.owner@ == owner@,
            a.repo@ == repo@,
            a.idx == 0,
            a.doc@ == Seq::<char>::empty(),
            a.log@ == Seq::<SectionSource>::empty(),
            a.wf(),
    {
        Assembler {
            owner,
            repo,
            releases,
            idx: 0,
            doc: String::new(),
            log: Ghost(Seq::empty()),
        }
    }

    /// Whether every release has been rendered.
    pub fn done(&self) -> (d: bool)
        ensures
            d == (self.idx == self.releases@.len()),
    {
        self.idx == self.releases.len()
    }

    /// Whether the release under the cursor takes the fallback path.
    pub fn needs_fallback(&self) -> (r: bool)
        requires
            self.idx < self.releases@.len(),
        ensures
            r == uses_fallback(self.releases@[self.idx as int].body),
    {
        let k = classify_body(&self.releases[self.idx].body);
        !(matches!(k, BodyKind::Authored))
    }

    /// Renders the release under the cursor from its authored body: its
    /// section is appended and the cursor moves on.
    pub fn step_authored(&mut self)
        requires
            old(self).wf(),
            old(self).idx < old(self).releases@.len(),
            !uses_fallback(old(self).releases@[old(self).idx as int].body),
        ensures
            final(self).doc@ == old(self).doc@ + body_section(
                old(self).releases@[old(self).idx as int].tag_name@,
                old(self).releases@[old(self).idx as int].body->0@,
            ),
            final(self).idx == old(self).idx + 1,
            final(self).releases@ == old(self).releases@,
            final(self).owner@ == old(self).owner@,
            final(self).repo@ == old(self).repo@,
            final(self).log@ == old(self).log@.push(SectionSource::FromBody),
            final(self).wf(),
    {
        let mut s = String::from_str("## ");
        let r = &self.releases[self.idx];
        s.append(r.tag_name.as_str());
        s.append("\n\n");
        match &r.body {
            Some(b) => s.append(b.as_str()),
            None => (),
        }
        s.append("\n\n---\n\n");
        self.doc.append(s.as_str());
        self.log = Ghost(self.log@.push(SectionSource::FromBody));
        self.advance();
        proof {
            lemma_sections_upto_prefix(
                self.releases@,
                self.log@,
                old(self).log@,
                old(self).idx as int,
            );
        }
    }

    /// The search URL for the release under the cursor, asking for change
    /// requests merged at or after its creation time.
    pub fn fallback_request(&self) -> (r: String)
        requires
            self.idx < self.releases@.len(),
        ensures
            r@ == search_url_spec(
                self.owner@,
                self.repo@,
                self.releases@[self.idx as int].created_at@,
            ),
    {
        search_url(
            self.owner.as_str(),
            self.repo.as_str(),
            self.releases[self.idx].created_at.as_str(),
        )
    }

    /// Renders the release under the cursor from a fallback batch: its
    /// section (or nothing, when the batch yields no bullet) is appended
    /// and the cursor moves on. A caller whose search failed passes an
    /// empty batch; the failure is absorbed.
    pub fn step_fallback(&mut self, items: &Vec<SearchItem>)
        requires
            old(self).wf(),
            old(self).idx < old(self).releases@.len(),
            uses_fallback(old(self).releases@[old(self).idx as int].body),
        ensures
            final(self).doc@ == old(self).doc@ + fallback_section(
                old(self).releases@[old(self).idx as int].tag_name@,
                items@,
            ),
            final(self).idx == old(self).idx + 1,
            final(self).releases@ == old(self).releases@,
            final(self).owner@ == old(self).owner@,
            final(self).repo@ == old(self).repo@,
            final(self).log@ == old(self).log@.push(SectionSource::FromFallback(items@)),
            final(self).wf(),
    {
        let cap = if items.len() <= 10 {
            items.len()
        } else {
            10
        };
        proof {
            assert(cap10(items@) =~= items@.take(cap as int));
        }
        let mut found = false;
        let mut k: usize = 0;
        while k < cap && !found
            invariant
                cap <= items@.len(),
                k <= cap,
                found ==> any_complete(items@.take(cap as int)),
                !found ==> forall|m: int| 0 <= m < k ==> !is_complete(
                    #[trigger] items@.take(cap as int)[m],
                ),
            decreases cap - k,
        {
            let it = &items[k];
            if it.title.is_some() && it.number.is_some() && it.author.is_some() {
                found = true;
                proof {
                    assert(is_complete(items@.take(cap as int)[k as int]));
                }
            }
            k = k + 1;
        }
        if !found {
            proof {
                assert(!any_complete(items@.take(cap as int)));
                assert(old(self).doc@ + fallback_section(
                    old(self).releases@[old(self).idx as int].tag_name@,
                    items@,
                ) =~= old(self).doc@);
            }
            self.log = Ghost(self.log@.push(SectionSource::FromFallback(items@)));
            self.advance();
            proof {
                lemma_sections_upto_prefix(
                    self.releases@,
                    self.log@,
                    old(self).log@,
                    old(self).idx as int,
                );
            }
            return ;
        }
        let r_tag = &self.releases[self.idx];
        let mut s = String::from_str("## ");
        s.append(r_tag.tag_name.as_str());
        s.append("\n\n");
        s.append("### What's Changed\n\n");
        proof {
            assert(s@ + bullets_of(items@.take(0)) =~= s@);
        }
        let ghost base = s@;
        let mut k2: usize = 0;
        while k2 < cap
            invariant
                cap <= items@.len(),
                k2 <= cap,
                s@ == base + bullets_of(items@.take(k2 as int)),
            decreases cap - k2,
        {
            let it = &items[k2];
            proof {
                assert(items@.take(k2 as int + 1).drop_last() =~= items@.take(k2 as int));
                assert(items@.take(k2 as int + 1).last() == items@[k2 as int]);
            }
            if it.title.is_some() && it.number.is_some() && it.author.is_some() {
                let mut b = String::from_str("* ");
                match &it.title {
                    Some(t) => b.append(t.as_str()),
                    None => (),
                }
                b.append(" by @");
                match &it.author {
                    Some(a) => b.append(a.as_str()),
                    None => (),
                }
                b.append(" in #");
                match &it.number {
                    Some(n) => push_dec(&mut b, *n),
                    None => (),
                }
                b.append("\n");
                s.append(b.as_str());
                proof {
                    assert(b@ == bullet_of(items@[k2 as int]));
                    assert((base + bullets_of(items@.take(k2 as int))) + b@ =~= base + bullets_of(
                        items@.take(k2 as int + 1),
                    ));
                }
            } else {
                proof {
                    assert(bullets_of(items@.take(k2 as int + 1)) =~= bullets_of(
                        items@.take(k2 as int),
                    ));
                }
            }
            k2 = k2 + 1;
        }
        s.append("\n\n---\n\n");
        proof {
            assert(items@.take(cap as int) =~= cap10(items@));
            assert(s@ =~= heading_of(self.releases@[self.idx as int].tag_name@)
                + "### What's Changed\n\n"@ + bullets_of(cap10(items@)) + separator());
        }
        self.doc.append(s.as_str());
        self.log = Ghost(self.log@.push(SectionSource::FromFallback(items@)));
        self.advance();
        proof {
            lemma_sections_upto_prefix(
                self.releases@,
                self.log@,
                old(self).log@,
                old(self).idx as int,
            );
        }
    }

    /// Ends the document: the accumulated sections with the footer line,
    /// which stands whenever at least one qualifying release existed, even
    /// if every section collapsed to nothing.
    pub fn finish(self) -> (r: String)
        requires
            self.wf(),
            self.idx == self.releases@.len(),
        ensures
            r@ == self.doc@ + footer_spec(self.owner@, self.repo@),
            r@ == sections_upto(self.releases@, self.log@, self.releases@.len() as int)
                + footer_spec(self.owner@, self.repo@),
    {
        let mut doc = self.doc;
        let f = render_footer(self.owner.as_str(), self.repo.as_str());
        doc.append(f.as_str());
        doc
    }
}

/// The closing line linking to the latest-release page.
pub open spec fn footer_spec(owner: Seq<char>, repo: Seq<char>) -> Seq<char> {
    "*View [latest release](https://github.com/"@ + owner + "/"@ + repo
        + "/releases/latest) on GitHub*\n"@
}

/// Builds the closing line linking to the latest-release page.
pub fn render_footer(owner: &str, repo: &str) -> (r: String)
    ensures
        r@ == footer_spec(owner@, repo@),
{
    let mut s = String::from_str("*View [latest release](https://github.com/");
    s.append(owner);
    s.append("/");
    s.append(repo);
    s.append("/releases/latest) on GitHub*\n");
    s
}

} // verus!
