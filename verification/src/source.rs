//! What every source can do, and the source for one site.

use std::sync::Arc;
use vstd::prelude::*;
use vstd::string::StringExecFns;
use crate::detail::{series_selectors, series_selectors_view, details_on, DetailSelectorsView};
use crate::error::SourceError;
use crate::parser::{
    entries_on, extract_entries, extract_titles, latest_selectors,
    latest_selectors_view, popular_selectors, popular_selectors_view, titles_on, Failure,
    ListingSelectors, ListingSelectorsView, SOURCE_NAME,
};
use crate::resolver::{
    detail_outcome, detail_resolution, each_title_once, listing_outcome, ordered, resolution,
    resolve_detail, resolve_listing, EntryCache, ListingExtractor, MangaCache,
};
use crate::structs::{entry_views, Manga, MangaEntry, MangaEntryView};
use crate::text::texts;

verus! {

/// What a source returns.
pub type SourceResult<T> = Result<T, SourceError>;

/// How a source reaches its site. The settings are fixed when the source is
/// made.
#[derive(Debug)]
pub struct SourceClient {
    /// The address that every request starts with.
    pub base_url: String,
    /// The seconds after which a request is given up.
    pub timeout_secs: u64,
    /// How the source names itself to the site.
    pub user_agent: String,
}

/// The data that every source holds.
#[derive(Debug)]
pub struct Source {
    pub source_client: SourceClient,
}

/// The address to ask for a path below a base address, or for the base
/// address itself.
pub open spec fn url_for(base_url: Seq<char>, path: Option<Seq<char>>) -> Seq<char> {
    base_url + "/"@ + match path {
        Some(p) => p,
        None => Seq::empty(),
    }
}

/// What every source can do.
pub trait SourceMethods: Sized {
    /// The address that every request of the source starts with. A source
    /// that is to be verified says here what its address is.
    open spec fn base_url(&self) -> Seq<char> {
        arbitrary()
    }

    /// The selectors by which the source reads a series page. A source
    /// that is to be verified says here what its selectors are.
    open spec fn detail_selectors(&self) -> DetailSelectorsView {
        arbitrary()
    }

    fn new() -> Self;

    /// The address to ask for `path`, or for the front page.
    fn request_url(&self, path: Option<String>) -> (url: String)
        ensures
            url@ == url_for(
                self.base_url(),
                match path {
                    Some(p) => Some(p@),
                    None => None,
                },
            ),
    ;

    /// The listing that the front page shows, resolved against the cache.
    /// It follows the order of the page and holds no title twice.
    fn get_homepage<E: ListingExtractor>(
        &self,
        cache: &mut EntryCache,
        html_content: &str,
        limit: usize,
        now: u64,
        extractor: &E,
    ) -> (resolved: SourceResult<Vec<Arc<MangaEntry>>>)
        requires
            old(cache).wf(),
        ensures
            final(cache).wf(),
            final(cache).capacity_of() == old(cache).capacity_of(),
            final(cache).time_to_live_of() == old(cache).time_to_live_of(),
            listing_outcome(resolved) == resolution(
                old(cache)@,
                old(cache).capacity_of(),
                old(cache).time_to_live_of(),
                now,
                extractor.titles(html_content@, limit as nat),
                |missing: Seq<Seq<char>>| extractor.entries(html_content@, missing, limit as nat),
            ).result,
            resolved matches Ok(entries) ==> each_title_once(entry_views(entries@)),
            final(cache)@ == resolution(
                old(cache)@,
                old(cache).capacity_of(),
                old(cache).time_to_live_of(),
                now,
                extractor.titles(html_content@, limit as nat),
                |missing: Seq<Seq<char>>| extractor.entries(html_content@, missing, limit as nat),
            ).slots,
    ;

    /// The entries of the pool in the order of the titles, each title once.
    fn order_entries_by_titles(&self, titles: &[String], cached: &[Arc<MangaEntry>]) -> (result:
        SourceResult<Vec<Arc<MangaEntry>>>)
        ensures
            result matches Ok(entries) && entry_views(entries@) == ordered(
                texts(titles@),
                entry_views(cached@),
            ) && each_title_once(entry_views(entries@)),
    ;

    /// The record of a series, from the cache or read off its page.
    fn get_manga(
        &self,
        cache: &mut MangaCache,
        html_content: &str,
        id: &str,
        now: u64,
    ) -> (resolved: SourceResult<Arc<Manga>>)
        requires
            old(cache).wf(),
        ensures
            final(cache).wf(),
            final(cache).capacity_of() == old(cache).capacity_of(),
            final(cache).time_to_live_of() == old(cache).time_to_live_of(),
            detail_outcome(resolved) == detail_resolution(
                old(cache)@,
                old(cache).capacity_of(),
                old(cache).time_to_live_of(),
                now,
                id@,
                details_on(html_content@, self.detail_selectors(), id@),
            ).result,
            final(cache)@ == detail_resolution(
                old(cache)@,
                old(cache).capacity_of(),
                old(cache).time_to_live_of(),
                now,
                id@,
                details_on(html_content@, self.detail_selectors(), id@),
            ).slots,
    ;
}

/// How a listing is extracted by selectors.
#[derive(Debug)]
pub struct SelectorListing {
    pub selectors: ListingSelectors,
    /// The name of the source that the entries are filed under.
    pub source: String,
}

impl ListingExtractor for SelectorListing {
    open spec fn titles(&self, markup: Seq<char>, limit: nat) -> Result<Seq<Seq<char>>, Failure> {
        titles_on(markup, self.selectors@, limit)
    }

    open spec fn entries(&self, markup: Seq<char>, missing: Seq<Seq<char>>, limit: nat) -> Result<
        Seq<MangaEntryView>,
        Failure,
    > {
        entries_on(markup, self.selectors@, missing, limit, self.source@)
    }

    fn extract_titles(&self, html_content: &str, limit: usize) -> (extracted: Result<
        Vec<String>,
        SourceError,
    >) {
        extract_titles(html_content, &self.selectors, limit)
    }

    fn extract_entries(
        &self,
        html_content: &str,
        missing_titles: &[String],
        limit: usize,
    ) -> (extracted: Result<Vec<MangaEntry>, SourceError>) {
        extract_entries(
            html_content,
            &self.selectors,
            missing_titles,
            limit,
            self.source.as_str(),
        )
    }
}

/// The address of the site.
pub const BASE_URL: &'static str = "https://battwo.com";

/// The seconds after which a request to the site is given up.
pub const REQUEST_TIMEOUT_SECS: u64 = 30;

/// How the source names itself to the site.
pub const USER_AGENT: &'static str = "Mozilla/5.0 (Windows NT 10.0; Win64; x64) AppleWebKit/537.36";

/// The source for the site at `BASE_URL`.
#[derive(Debug)]
pub struct BatotoSource {
    data: Source,
}

/// The path of a series below the base address.
pub fn series_path(id: &str) -> (path: String)
    ensures
        path@ == "series/"@ + id@,
{
    String::from_str("series/").concat(id)
}

impl SourceMethods for BatotoSource {
    closed spec fn base_url(&self) -> Seq<char> {
        self.data.source_client.base_url@
    }

    open spec fn detail_selectors(&self) -> DetailSelectorsView {
        series_selectors_view()
    }

    fn new() -> (source: Self)
        ensures
            source.base_url() == BASE_URL@,
            source.client()@ == (SourceClientView {
                base_url: BASE_URL@,
                timeout_secs: REQUEST_TIMEOUT_SECS,
                user_agent: USER_AGENT@,
            }),
    {
        BatotoSource {
            data: Source {
                source_client: SourceClient {
                    base_url: String::from_str(BASE_URL),
                    timeout_secs: REQUEST_TIMEOUT_SECS,
                    user_agent: String::from_str(USER_AGENT),
                },
            },
        }
    }

    fn request_url(&self, path: Option<String>) -> (url: String) {
        let base = self.data.source_client.base_url.clone().concat("/");
        match path {
            Some(p) => base.concat(p.as_str()),
            None => {
                assert(base@ + Seq::<char>::empty() =~= base@);
                base
            },
        }
    }

    fn get_homepage<E: ListingExtractor>(
        &self,
        cache: &mut EntryCache,
        html_content: &str,
        limit: usize,
        now: u64,
        extractor: &E,
    ) -> (resolved: SourceResult<Vec<Arc<MangaEntry>>>) {
        resolve_listing(cache, html_content, limit, now, extractor)
    }

    fn order_entries_by_titles(&self, titles: &[String], cached: &[Arc<MangaEntry>]) -> (result:
        SourceResult<Vec<Arc<MangaEntry>>>) {
        crate::resolver::order_entries_by_titles(titles, cached)
    }

    fn get_manga(
        &self,
        cache: &mut MangaCache,
        html_content: &str,
        id: &str,
        now: u64,
    ) -> (resolved: SourceResult<Arc<Manga>>) {
        resolve_detail(cache, html_content, id, &series_selectors(), now)
    }
}

pub ghost struct SourceClientView {
    pub base_url: Seq<char>,
    pub timeout_secs: u64,
    pub user_agent: Seq<char>,
}

impl View for SourceClient {
    type V = SourceClientView;

    open spec fn view(&self) -> SourceClientView {
        SourceClientView {
            base_url: self.base_url@,
            timeout_secs: self.timeout_secs,
            user_agent: self.user_agent@,
        }
    }
}

/// How the popular releases are extracted.
pub fn popular_listing() -> (listing: SelectorListing)
    ensures
        listing.selectors@ == popular_selectors_view(),
        listing.source@ == SOURCE_NAME@,
{
    SelectorListing { selectors: popular_selectors(), source: String::from_str(SOURCE_NAME) }
}

/// How the latest releases are extracted.
pub fn latest_listing() -> (listing: SelectorListing)
    ensures
        listing.selectors@ == latest_selectors_view(),
        listing.source@ == SOURCE_NAME@,
{
    SelectorListing { selectors: latest_selectors(), source: String::from_str(SOURCE_NAME) }
}

/// Resolves the listing that the selectors find on a page of this source.
pub open spec fn batoto_resolution(
    slots: Seq<crate::cache::Slot<MangaEntryView>>,
    capacity: nat,
    time_to_live: u64,
    now: u64,
    markup: Seq<char>,
    selectors: ListingSelectorsView,
    limit: nat,
) -> crate::resolver::Resolution {
    resolution(
        slots,
        capacity,
        time_to_live,
        now,
        titles_on(markup, selectors, limit),
        |missing: Seq<Seq<char>>| entries_on(markup, selectors, missing, limit, SOURCE_NAME@),
    )
}

impl BatotoSource {
    /// How the source reaches its site.
    pub closed spec fn client(&self) -> SourceClient {
        self.data.source_client
    }

    /// How the source reaches its site.
    pub fn source_client(&self) -> (client: &SourceClient)
        ensures
            *client == self.client(),
    {
        &self.data.source_client
    }

    /// The popular releases that the front page shows, resolved against the
    /// cache.
    pub fn get_popular_manga(
        &self,
        cache: &mut EntryCache,
        html_content: &str,
        limit: usize,
        now: u64,
    ) -> (resolved: SourceResult<Vec<Arc<MangaEntry>>>)
        requires
            old(cache).wf(),
        ensures
            final(cache).wf(),
            final(cache).capacity_of() == old(cache).capacity_of(),
            final(cache).time_to_live_of() == old(cache).time_to_live_of(),
            listing_outcome(resolved) == batoto_resolution(
                old(cache)@,
                old(cache).capacity_of(),
                old(cache).time_to_live_of(),
                now,
                html_content@,
                popular_selectors_view(),
                limit as nat,
            ).result,
            resolved matches Ok(entries) ==> each_title_once(entry_views(entries@)),
            final(cache)@ == batoto_resolution(
                old(cache)@,
                old(cache).capacity_of(),
                old(cache).time_to_live_of(),
                now,
                html_content@,
                popular_selectors_view(),
                limit as nat,
            ).slots,
    {
        let listing = popular_listing();
        self.get_homepage(cache, html_content, limit, now, &listing)
    }

    /// The latest releases that the front page shows, resolved against the
    /// cache.
    pub fn get_latest_manga(
        &self,
        cache: &mut EntryCache,
        html_content: &str,
        limit: usize,
        now: u64,
    ) -> (resolved: SourceResult<Vec<Arc<MangaEntry>>>)
        requires
            old(cache).wf(),
        ensures
            final(cache).wf(),
            final(cache).capacity_of() == old(cache).capacity_of(),
            final(cache).time_to_live_of() == old(cache).time_to_live_of(),
            listing_outcome(resolved) == batoto_resolution(
                old(cache)@,
                old(cache).capacity_of(),
                old(cache).time_to_live_of(),
                now,
                html_content@,
                latest_selectors_view(),
                limit as nat,
            ).result,
            resolved matches Ok(entries) ==> each_title_once(entry_views(entries@)),
            final(cache)@ == batoto_resolution(
                old(cache)@,
                old(cache).capacity_of(),
                old(cache).time_to_live_of(),
                now,
                html_content@,
                latest_selectors_view(),
                limit as nat,
            ).slots,
    {
        let listing = latest_listing();
        self.get_homepage(cache, html_content, limit, now, &listing)
    }

    /// The record of a series, from the cache or read off its page.
    pub fn get_manga_details(
        &self,
        cache: &mut MangaCache,
        html_content: &str,
        id: &str,
        now: u64,
    ) -> (resolved: SourceResult<Arc<Manga>>)
        requires
            old(cache).wf(),
        ensures
            final(cache).wf(),
            final(cache).capacity_of() == old(cache).capacity_of(),
            final(cache).time_to_live_of() == old(cache).time_to_live_of(),
            detail_outcome(resolved) == detail_resolution(
                old(cache)@,
                old(cache).capacity_of(),
                old(cache).time_to_live_of(),
                now,
                id@,
                details_on(html_content@, series_selectors_view(), id@),
            ).result,
            final(cache)@ == detail_resolution(
                old(cache)@,
                old(cache).capacity_of(),
                old(cache).time_to_live_of(),
                now,
                id@,
                details_on(html_content@, series_selectors_view(), id@),
            ).slots,
    {
        self.get_manga(cache, html_content, id, now)
    }
}

/// With a limit of nothing, a page that can be read resolves to the empty
/// list: no entry is extracted and the cache stays as it was. A page that
/// cannot be read is the same failure as with any other limit.
pub proof fn lemma_zero_limit_resolves_to_nothing(
    slots: Seq<crate::cache::Slot<MangaEntryView>>,
    capacity: nat,
    time_to_live: u64,
    now: u64,
    markup: Seq<char>,
    selectors: ListingSelectorsView,
)
    ensures
        match crate::parser::page_of(markup, selectors) {
            Ok(_) => batoto_resolution(slots, capacity, time_to_live, now, markup, selectors, 0) == (
                crate::resolver::Resolution { result: Ok(Seq::<MangaEntryView>::empty()), slots }
            ),
            Err(failure) => batoto_resolution(
                slots,
                capacity,
                time_to_live,
                now,
                markup,
                selectors,
                0,
            ) == (crate::resolver::Resolution { result: Err(failure), slots }),
        },
{
    match crate::parser::page_of(markup, selectors) {
        Ok(items) => {
            assert(crate::parser::listed_titles(items, 0) =~= Seq::<Seq<char>>::empty());
            crate::resolver::lemma_nothing_wanted_resolves_to_nothing(
                slots,
                capacity,
                time_to_live,
                now,
                |missing: Seq<Seq<char>>| entries_on(markup, selectors, missing, 0, SOURCE_NAME@),
            );
        },
        Err(_) => {},
    }
}

} // verus!
