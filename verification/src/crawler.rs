//! The site-scoped traversal engine.
//!
//! A `Crawler` owns the crawl state: the origin, the full record of every
//! href encountered, the set of pages already fetched, and a worklist of
//! hrefs still to classify. Fetching is injected by the caller: the crawler
//! returns the next URL to retrieve and is handed the page body back through
//! [`Crawler::crawl_page`], so the traversal itself never touches the
//! network. The walk is depth-first: a newly discovered same-site page is
//! fully processed, recursively, before the remaining hrefs of the page that
//! linked to it.

use vstd::prelude::*;
use vstd::string::StrSliceExecFns;
use vstd::string::StringExecFns;
use crate::dedup::dedup;
use crate::extract::extract_links;
use crate::extract::extracted_hrefs;

verus! {

/// The mathematical state of a crawl.
#[verifier::ext_equal]
pub ghost struct CrawlModel {
    /// The origin every site-root-relative href is resolved against.
    pub url: Seq<char>,
    /// Every href recorded so far, duplicates included, in discovery order.
    pub links: Seq<Seq<char>>,
    /// The absolute URLs already handed out for fetching, in fetch order.
    pub crawled: Seq<Seq<char>>,
    /// Hrefs discovered but not yet classified, one frame per open page,
    /// the innermost page last.
    pub frames: Seq<Seq<Seq<char>>>,
}

/// A href is followed only when it is site-root-relative: it begins with `/`.
pub open spec fn is_relative(h: Seq<char>) -> bool {
    h.len() > 0 && h[0] == '/'
}

/// The origin with one trailing `/` removed, as the constructor normalizes it.
pub open spec fn strip_trailing_slash(url: Seq<char>) -> Seq<char> {
    if url.len() > 0 && url.last() == '/' {
        url.drop_last()
    } else {
        url
    }
}

/// A freshly constructed crawl: normalized origin, nothing recorded.
pub open spec fn new_model(url: Seq<char>) -> CrawlModel {
    CrawlModel {
        url: strip_trailing_slash(url),
        links: Seq::empty(),
        crawled: Seq::empty(),
        frames: Seq::empty(),
    }
}

/// Classifying one href: a site-root-relative href is resolved against the
/// origin and recorded, and is to be fetched exactly when that absolute URL
/// was never fetched before; any other href is recorded verbatim and never
/// followed. The second component is the URL to fetch now, if any.
pub open spec fn add_href_model(m: CrawlModel, h: Seq<char>) -> (CrawlModel, Option<Seq<char>>) {
    if is_relative(h) {
        let abs = m.url + h;
        if m.crawled.contains(abs) {
            (CrawlModel { links: m.links.push(abs), ..m }, None)
        } else {
            (
                CrawlModel { links: m.links.push(abs), crawled: m.crawled.push(abs), ..m },
                Some(abs),
            )
        }
    } else {
        (CrawlModel { links: m.links.push(h), ..m }, None)
    }
}

/// How much worklist is left: one unit per open frame plus one per href.
pub open spec fn frames_measure(fs: Seq<Seq<Seq<char>>>) -> nat
    decreases fs.len(),
{
    if fs.len() == 0 {
        0
    } else {
        frames_measure(fs.drop_last()) + fs.last().len() + 1
    }
}

proof fn lemma_measure_push(fs: Seq<Seq<Seq<char>>>, f: Seq<Seq<char>>)
    ensures
        frames_measure(fs.push(f)) == frames_measure(fs) + f.len() + 1,
{
    assert(fs.push(f).drop_last() =~= fs);
    assert(fs.push(f).last() == f);
}

/// Working through the worklist until a page must be fetched or nothing is
/// left: exhausted frames are closed, and each href is classified in turn,
/// depth-first. Stops at the first href whose resolution must be fetched.
pub open spec fn advance_model(m: CrawlModel) -> (CrawlModel, Option<Seq<char>>)
    decreases frames_measure(m.frames) via advance_model_decreases
{
    if m.frames.len() == 0 {
        (m, None)
    } else if m.frames.last().len() == 0 {
        advance_model(CrawlModel { frames: m.frames.drop_last(), ..m })
    } else {
        let h = m.frames.last()[0];
        let m1 = CrawlModel {
            frames: m.frames.drop_last().push(m.frames.last().drop_first()),
            ..m
        };
        let mr = add_href_model(m1, h);
        if mr.1 is Some {
            mr
        } else {
            advance_model(mr.0)
        }
    }
}

#[via_fn]
proof fn advance_model_decreases(m: CrawlModel) {
    if m.frames.len() > 0 && m.frames.last().len() > 0 {
        lemma_measure_push(m.frames.drop_last(), m.frames.last().drop_first());
    }
}

/// Consuming one fetched page: its extracted hrefs open a new frame, then
/// the worklist advances to the next fetch, if any.
pub open spec fn on_page_model(m: CrawlModel, body: Seq<char>) -> (CrawlModel, Option<Seq<char>>) {
    advance_model(CrawlModel { frames: m.frames.push(extracted_hrefs(body)), ..m })
}

/// The crawler: origin, link record, visited set and worklist.
#[derive(Debug)]
pub struct Crawler {
    url: String,
    links: Vec<String>,
    crawled: Vec<String>,
    frames: Vec<Vec<String>>,
}

impl View for Crawler {
    type V = CrawlModel;

    closed spec fn view(&self) -> CrawlModel {
        CrawlModel {
            url: self.url@,
            links: self.links.deep_view(),
            crawled: self.crawled.deep_view(),
            frames: self.frames.deep_view(),
        }
    }
}

/// Whether some element of `v` holds exactly the characters of `x`.
fn contains_string(v: &Vec<String>, x: &String) -> (r: bool)
    ensures
        r == v.deep_view().contains(x@),
{
    let mut i: usize = 0;
    while i < v.len()
        invariant
            i <= v.len(),
            forall|j: int| 0 <= j < i ==> v.deep_view()[j] != x@,
        decreases v.len() - i,
    {
        if v[i].eq(x) {
            proof {
                assert(v.deep_view()[i as int] == x@);
            }
            return true;
        }
        i += 1;
    }
    proof {
        if v.deep_view().contains(x@) {
            let j = choose|j: int| 0 <= j < v.deep_view().len() && v.deep_view()[j] == x@;
            assert(v.deep_view()[j] != x@);
        }
    }
    false
}

impl Crawler {
    /// A crawler scoped to `url` as its origin; one trailing `/` is stripped.
    pub fn new(url: String) -> (c: Crawler)
        ensures
            c@ == new_model(url@),
    {
        let ghost u0 = url@;
        let n = url.as_str().unicode_len();
        let origin = if n > 0 && url.as_str().get_char(n - 1) == '/' {
            let shorter = url.as_str().substring_char(0, n - 1);
            String::from_str(shorter)
        } else {
            url
        };
        let c = Crawler { url: origin, links: Vec::new(), crawled: Vec::new(), frames: Vec::new() };
        proof {
            assert(c@ =~= new_model(u0)) by {
                assert(c@.links =~= Seq::<Seq<char>>::empty());
                assert(c@.crawled =~= Seq::<Seq<char>>::empty());
                assert(c@.frames =~= Seq::<Seq<Seq<char>>>::empty());
            }
        }
        c
    }

    /// Record one href and decide whether it must be fetched now, as
    /// [`add_href_model`] says: the returned URL, if any, is the resolved
    /// absolute URL, freshly marked as fetched.
    pub fn add_url(&mut self, site: String) -> (followed: Option<String>)
        ensures
            final(self)@ == add_href_model(old(self)@, site@).0,
            followed.deep_view() == add_href_model(old(self)@, site@).1,
    {
        let n = site.as_str().unicode_len();
        if n > 0 && site.as_str().get_char(0) == '/' {
            let abs = self.url.clone().concat(site.as_str());
            self.links.push(abs.clone());
            proof {
                assert(self.links.deep_view() =~= old(self).links.deep_view().push(
                    old(self)@.url + site@,
                ));
            }
            if !contains_string(&self.crawled, &abs) {
                self.crawled.push(abs.clone());
                proof {
                    assert(self.crawled.deep_view() =~= old(self).crawled.deep_view().push(
                        old(self)@.url + site@,
                    ));
                    assert(self@ =~= add_href_model(old(self)@, site@).0);
                }
                Some(abs)
            } else {
                proof {
                    assert(self@ =~= add_href_model(old(self)@, site@).0);
                }
                None
            }
        } else {
            self.links.push(site);
            proof {
                assert(self.links.deep_view() =~= old(self).links.deep_view().push(site@));
                assert(self@ =~= add_href_model(old(self)@, site@).0);
            }
            None
        }
    }

    /// Work through the worklist until a page must be fetched or it is empty.
    fn advance(&mut self) -> (next: Option<String>)
        ensures
            final(self)@ == advance_model(old(self)@).0,
            next.deep_view() == advance_model(old(self)@).1,
    {
        while self.frames.len() > 0
            invariant
                advance_model(self@) == advance_model(old(self)@),
            decreases frames_measure(self@.frames),
        {
            let ghost pre = self@;
            let mut top = self.frames.pop().unwrap();
            proof {
                assert(self.frames.deep_view() =~= pre.frames.drop_last());
            }
            if top.len() > 0 {
                let h = top.remove(0);
                proof {
                    assert(top.deep_view() =~= pre.frames.last().drop_first());
                    assert(h@ == pre.frames.last()[0]);
                }
                self.frames.push(top);
                proof {
                    assert(self.frames.deep_view() =~= pre.frames.drop_last().push(
                        pre.frames.last().drop_first(),
                    ));
                    assert(self@ =~= (CrawlModel {
                        frames: pre.frames.drop_last().push(pre.frames.last().drop_first()),
                        ..pre
                    }));
                    lemma_measure_push(pre.frames.drop_last(), pre.frames.last().drop_first());
                }
                let r = self.add_url(h);
                match r {
                    Some(u) => {
                        return Some(u);
                    },
                    None => {},
                }
            } else {
                proof {
                    assert(self@ =~= (CrawlModel { frames: pre.frames.drop_last(), ..pre }));
                }
            }
        }
        proof {
            assert(advance_model(self@) == (self@, None::<Seq<char>>));
        }
        None
    }

    /// Consume the body of the page just fetched and return the next URL to
    /// fetch, or `None` when the crawl is complete. The caller drives the
    /// crawl: fetch the seed, hand its body here, fetch whatever is
    /// returned, hand that body here, and so on until `None`.
    pub fn crawl_page(&mut self, body: &str) -> (next: Option<String>)
        ensures
            final(self)@ == on_page_model(old(self)@, body@).0,
            next.deep_view() == on_page_model(old(self)@, body@).1,
    {
        let hrefs = extract_links(body);
        self.frames.push(hrefs);
        proof {
            assert(self.frames.deep_view() =~= old(self)@.frames.push(extracted_hrefs(body@)));
            assert(self@ =~= (CrawlModel {
                frames: old(self)@.frames.push(extracted_hrefs(body@)),
                ..old(self)@
            }));
        }
        self.advance()
    }

    /// Replace the link record with its deduplicated view: first occurrences
    /// survive, in order; every later repeat is dropped.
    pub fn remove_duplicates(&mut self)
        ensures
            final(self)@ == (CrawlModel { links: dedup(old(self)@.links), ..old(self)@ }),
    {
        let mut unique: Vec<String> = Vec::new();
        let mut i: usize = 0;
        while i < self.links.len()
            invariant
                i <= self.links.len(),
                self == old(self),
                unique.deep_view() == dedup(self@.links.take(i as int)),
            decreases self.links.len() - i,
        {
            let ghost prefix = self@.links.take(i as int);
            let s = self.links[i].clone();
            proof {
                assert(self@.links.take(i + 1 as int).drop_last() =~= prefix);
                assert(self@.links.take(i + 1 as int).last() == s@);
            }
            if !contains_string(&unique, &s) {
                unique.push(s);
                proof {
                    assert(unique.deep_view() =~= dedup(prefix).push(self@.links[i as int]));
                }
            }
            i += 1;
        }
        proof {
            assert(self@.links.take(self.links@.len() as int) =~= self@.links);
        }
        self.links = unique;
        proof {
            assert(self@ =~= (CrawlModel { links: dedup(old(self)@.links), ..old(self)@ }));
        }
    }

    /// The full link record, duplicates included, in discovery order.
    pub fn get_links(&self) -> (links: &Vec<String>)
        ensures
            links.deep_view() == self@.links,
    {
        &self.links
    }

    /// How many links the record currently holds.
    pub fn get_link_count(&self) -> (n: usize)
        ensures
            n == self@.links.len(),
    {
        self.links.len()
    }
}

/// Law: follow scoping — a href is followed only if it begins with `/`. A
/// relative href is resolved against the origin, recorded, and fetched
/// exactly when its resolution is new; every other href is recorded
/// verbatim and never fetched.
pub proof fn lemma_follow_scoping(m: CrawlModel, h: Seq<char>)
    ensures
        add_href_model(m, h).1 is Some <==> is_relative(h) && !m.crawled.contains(m.url + h),
        add_href_model(m, h).1 is Some ==> add_href_model(m, h).1->0 == m.url + h,
        is_relative(h) ==> add_href_model(m, h).0.links == m.links.push(m.url + h),
        !is_relative(h) ==> add_href_model(m, h).0.links == m.links.push(h)
            && add_href_model(m, h).0.crawled == m.crawled,
{
}

/// Law: visited-once — the worklist hands a URL out for fetching only if it
/// was never fetched before, and records it at that moment; the fetched set
/// grows by exactly the URLs handed out, so no URL is ever fetched twice.
pub proof fn lemma_visited_once(m: CrawlModel)
    ensures
        advance_model(m).1 is Some ==> !m.crawled.contains(advance_model(m).1->0)
            && advance_model(m).0.crawled == m.crawled.push(advance_model(m).1->0),
        advance_model(m).1 is None ==> advance_model(m).0.crawled == m.crawled,
        m.crawled.no_duplicates() ==> advance_model(m).0.crawled.no_duplicates(),
        advance_model(m).0.url == m.url,
    decreases frames_measure(m.frames),
{
    if m.frames.len() == 0 {
    } else if m.frames.last().len() == 0 {
        lemma_visited_once(CrawlModel { frames: m.frames.drop_last(), ..m });
    } else {
        let h = m.frames.last()[0];
        let m1 = CrawlModel {
            frames: m.frames.drop_last().push(m.frames.last().drop_first()),
            ..m
        };
        lemma_measure_push(m.frames.drop_last(), m.frames.last().drop_first());
        let mr = add_href_model(m1, h);
        if mr.1 is Some {
            let u = mr.1->0;
            assert(mr.0.crawled == m.crawled.push(u));
            if m.crawled.no_duplicates() {
                assert(m.crawled.push(u).no_duplicates()) by {
                    assert(forall|j: int|
                        0 <= j < m.crawled.len() ==> m.crawled.push(u)[j] == m.crawled[j]);
                    assert(m.crawled.push(u)[m.crawled.len() as int] == u);
                    assert(forall|j: int| 0 <= j < m.crawled.len() ==> m.crawled[j] != u) by {
                        if exists|j: int| 0 <= j < m.crawled.len() && m.crawled[j] == u {
                            let j = choose|j: int| 0 <= j < m.crawled.len() && m.crawled[j] == u;
                            assert(m.crawled.contains(u));
                        }
                    }
                }
            }
        } else {
            lemma_visited_once(mr.0);
        }
    }
}

/// Law: visited-once, seen from a fetched page — consuming a page body hands
/// out at most one next URL, and that URL was never fetched before.
pub proof fn lemma_page_visited_once(m: CrawlModel, body: Seq<char>)
    ensures
        on_page_model(m, body).1 is Some ==> !m.crawled.contains(on_page_model(m, body).1->0)
            && on_page_model(m, body).0.crawled == m.crawled.push(on_page_model(m, body).1->0),
        on_page_model(m, body).1 is None ==> on_page_model(m, body).0.crawled == m.crawled,
        m.crawled.no_duplicates() ==> on_page_model(m, body).0.crawled.no_duplicates(),
{
    lemma_visited_once(CrawlModel { frames: m.frames.push(extracted_hrefs(body)), ..m });
}

/// Law: follow scoping, seen from the worklist — any URL handed out for
/// fetching is the resolution of some site-root-relative href against the
/// origin; hrefs of any other shape never cause a fetch.
pub proof fn lemma_advance_follow_scoping(m: CrawlModel)
    ensures
        advance_model(m).1 is Some ==> exists|h: Seq<char>|
            is_relative(h) && advance_model(m).1->0 == m.url + h,
    decreases frames_measure(m.frames),
{
    if m.frames.len() == 0 {
    } else if m.frames.last().len() == 0 {
        lemma_advance_follow_scoping(CrawlModel { frames: m.frames.drop_last(), ..m });
    } else {
        let h = m.frames.last()[0];
        let m1 = CrawlModel {
            frames: m.frames.drop_last().push(m.frames.last().drop_first()),
            ..m
        };
        lemma_measure_push(m.frames.drop_last(), m.frames.last().drop_first());
        let mr = add_href_model(m1, h);
        if mr.1 is Some {
            assert(is_relative(h) && mr.1->0 == m.url + h);
        } else {
            lemma_advance_follow_scoping(mr.0);
        }
    }
}

proof fn lemma_prefix_trans(a: Seq<Seq<char>>, b: Seq<Seq<char>>, c: Seq<Seq<char>>)
    requires
        a.is_prefix_of(b),
        b.is_prefix_of(c),
    ensures
        a.is_prefix_of(c),
{
    assert(c.subrange(0, a.len() as int) =~= a) by {
        assert(forall|i: int| 0 <= i < a.len() ==> c[i] == b.subrange(0, b.len() as int)[i]);
    }
}

/// Law: the link record only ever grows — working through the worklist
/// appends to what was already recorded and never reorders or drops it.
pub proof fn lemma_links_append_only(m: CrawlModel)
    ensures
        m.links.is_prefix_of(advance_model(m).0.links),
    decreases frames_measure(m.frames),
{
    if m.frames.len() == 0 {
        assert(m.links.subrange(0, m.links.len() as int) =~= m.links);
    } else if m.frames.last().len() == 0 {
        lemma_links_append_only(CrawlModel { frames: m.frames.drop_last(), ..m });
    } else {
        let h = m.frames.last()[0];
        let m1 = CrawlModel {
            frames: m.frames.drop_last().push(m.frames.last().drop_first()),
            ..m
        };
        lemma_measure_push(m.frames.drop_last(), m.frames.last().drop_first());
        let mr = add_href_model(m1, h);
        assert(m.links.is_prefix_of(mr.0.links)) by {
            assert(mr.0.links.subrange(0, m.links.len() as int) =~= m.links);
        }
        if mr.1 is None {
            lemma_links_append_only(mr.0);
            lemma_prefix_trans(m.links, mr.0.links, advance_model(mr.0).0.links);
        }
    }
}

/// Law: the link record only ever grows, seen from a fetched page — what a
/// page contributes is appended after everything recorded before it.
pub proof fn lemma_page_links_append_only(m: CrawlModel, body: Seq<char>)
    ensures
        m.links.is_prefix_of(on_page_model(m, body).0.links),
{
    lemma_links_append_only(CrawlModel { frames: m.frames.push(extracted_hrefs(body)), ..m });
}

/// A whole crawl of a fixed, static site: `graph` maps each URL the site
/// serves to that page's body, and `pending` is the URL just handed out for
/// fetching. `None` is an aborted crawl: a fetch of a URL the site does not
/// serve fails and takes the whole crawl with it, and a run is cut off once
/// `fuel` pages have been fetched — with fuel at least the number of pages
/// the site serves the cutoff is never hit, since no page is fetched twice
/// (see [`lemma_crawl_site_deterministic`]).
pub open spec fn crawl_site_step(
    m: CrawlModel,
    pending: Seq<char>,
    graph: Map<Seq<char>, Seq<char>>,
    fuel: nat,
) -> Option<CrawlModel>
    decreases fuel,
{
    if !graph.contains_key(pending) {
        None
    } else {
        let mr = on_page_model(m, graph[pending]);
        if mr.1 is None {
            Some(mr.0)
        } else if fuel == 0 {
            None
        } else {
            crawl_site_step(mr.0, mr.1->0, graph, (fuel - 1) as nat)
        }
    }
}

/// The link sequence a whole crawl of a fixed site graph yields from `seed`.
pub open spec fn crawl_site_model(
    url: Seq<char>,
    seed: Seq<char>,
    graph: Map<Seq<char>, Seq<char>>,
    fuel: nat,
) -> Option<Seq<Seq<char>>> {
    match crawl_site_step(new_model(url), seed, graph, fuel) {
        Some(mf) => Some(mf.links),
        None => None,
    }
}

proof fn lemma_crawl_site_fuel(
    m: CrawlModel,
    pending: Seq<char>,
    graph: Map<Seq<char>, Seq<char>>,
    fuel1: nat,
    fuel2: nat,
)
    requires
        graph.dom().finite(),
        fuel1 >= graph.dom().difference(m.crawled.to_set()).len(),
        fuel2 >= graph.dom().difference(m.crawled.to_set()).len(),
    ensures
        crawl_site_step(m, pending, graph, fuel1) == crawl_site_step(m, pending, graph, fuel2),
    decreases fuel1 + fuel2,
{
    if graph.contains_key(pending) {
        let body = graph[pending];
        let mr = on_page_model(m, body);
        if mr.1 is Some {
            let u = mr.1->0;
            lemma_page_visited_once(m, body);
            let diff = graph.dom().difference(m.crawled.to_set());
            if graph.dom().contains(u) {
                // the next page is served and was never fetched, so at least
                // one unfetched page is left and neither run is out of fuel
                assert(!m.crawled.to_set().contains(u));
                assert(diff.contains(u));
                vstd::set_lib::lemma_len_subset(diff, graph.dom());
                assert(diff.len() >= 1) by {
                    vstd::set::axiom_set_remove_len(diff, u);
                }
                assert(mr.0.crawled.to_set() =~= m.crawled.to_set().insert(u)) by {
                    m.crawled.lemma_push_to_set_commute(u);
                }
                graph.dom().lemma_set_insert_diff_decreases(m.crawled.to_set(), u);
                lemma_crawl_site_fuel(mr.0, u, graph, (fuel1 - 1) as nat, (fuel2 - 1) as nat);
            } else {
                // the next fetch fails either way: with fuel left the
                // recursion stops on the missing page, without it on the cutoff
                if fuel1 > 0 {
                    assert(crawl_site_step(mr.0, u, graph, (fuel1 - 1) as nat) is None);
                }
                if fuel2 > 0 {
                    assert(crawl_site_step(mr.0, u, graph, (fuel2 - 1) as nat) is None);
                }
            }
        }
    }
}

/// Law: determinism — a whole crawl of a fixed, static site graph is a
/// mathematical function of the graph, the origin and the seed alone: any
/// two runs allowed enough steps yield exactly the same link sequence, in
/// the same order. As many steps as the site has pages always suffice,
/// since no page is ever fetched twice.
pub proof fn lemma_crawl_site_deterministic(
    url: Seq<char>,
    seed: Seq<char>,
    graph: Map<Seq<char>, Seq<char>>,
    fuel1: nat,
    fuel2: nat,
)
    requires
        graph.dom().finite(),
        fuel1 >= graph.dom().len(),
        fuel2 >= graph.dom().len(),
    ensures
        crawl_site_model(url, seed, graph, fuel1) == crawl_site_model(url, seed, graph, fuel2),
{
    let m0 = new_model(url);
    assert(graph.dom().difference(m0.crawled.to_set()) =~= graph.dom());
    vstd::set_lib::lemma_len_subset(graph.dom().difference(m0.crawled.to_set()), graph.dom());
    lemma_crawl_site_fuel(m0, seed, graph, fuel1, fuel2);
}

/// Law: visited-once, across a whole crawl — the record of followed fetches
/// of a completed crawl holds no URL twice.
pub proof fn lemma_site_visited_once(
    m: CrawlModel,
    pending: Seq<char>,
    graph: Map<Seq<char>, Seq<char>>,
    fuel: nat,
)
    requires
        m.crawled.no_duplicates(),
    ensures
        crawl_site_step(m, pending, graph, fuel) matches Some(mf) ==> mf.crawled.no_duplicates(),
    decreases fuel,
{
    if graph.contains_key(pending) {
        let body = graph[pending];
        let mr = on_page_model(m, body);
        lemma_page_visited_once(m, body);
        if mr.1 is Some && fuel > 0 {
            lemma_site_visited_once(mr.0, mr.1->0, graph, (fuel - 1) as nat);
        }
    }
}

} // verus!
