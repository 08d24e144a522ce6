//! From the name of a source to its pages and series.

use std::sync::Arc;
use vstd::prelude::*;
use vstd::string::StringExecFns;
use crate::cache::Slot;
use crate::detail::{details_on, series_selectors_view};
use crate::error::{ErrorKind, SourceError};
use crate::parser::{latest_selectors_view, popular_selectors_view, Failure, SOURCE_NAME};
use crate::resolver::{detail_outcome, detail_resolution, EntryCache, MangaCache};
use crate::source::{batoto_resolution, BatotoSource, SourceMethods, SourceResult};
use crate::structs::{
    ExplorePage, ExplorePageView, ExploreSection, ExploreSectionView, Manga, MangaEntryView,
    };
use crate::text::same_text;

verus! {

/// The title of the section of popular releases.
pub const POPULAR_RELEASES: &'static str = "Popular Releases";

/// The title of the section of latest releases.
pub const LATEST_RELEASES: &'static str = "Latest Releases";

/// The detail of the failure when no source goes by the given name.
pub const UNSUPPORTED_SOURCE: &'static str = "Unsupported source";

/// What building a page comes to: the page or the failure, and the slots
/// that the cache is left with.
pub ghost struct PageResolution {
    pub result: Result<ExplorePageView, Failure>,
    pub slots: Seq<Slot<MangaEntryView>>,
}

/// The page of a front page: its popular releases, resolved against the
/// cache, then its latest releases, resolved against what the cache holds
/// by then. The first failure ends it; what was stored until then stays.
pub open spec fn page_resolution(
    slots: Seq<Slot<MangaEntryView>>,
    capacity: nat,
    time_to_live: u64,
    now: u64,
    markup: Seq<char>,
    popular_limit: nat,
    latest_limit: nat,
) -> PageResolution {
    let popular = batoto_resolution(
        slots,
        capacity,
        time_to_live,
        now,
        markup,
        popular_selectors_view(),
        popular_limit,
    );
    match popular.result {
        Err(failure) => PageResolution { result: Err(failure), slots: popular.slots },
        Ok(popular_entries) => {
            let latest = batoto_resolution(
                popular.slots,
                capacity,
                time_to_live,
                now,
                markup,
                latest_selectors_view(),
                latest_limit,
            );
            match latest.result {
                Err(failure) => PageResolution { result: Err(failure), slots: latest.slots },
                Ok(latest_entries) => PageResolution {
                    result: Ok(
                        ExplorePageView {
                            source: SOURCE_NAME@,
                            sections: seq![
                                ExploreSectionView {
                                    title: POPULAR_RELEASES@,
                                    entries: popular_entries,
                                },
                                ExploreSectionView {
                                    title: LATEST_RELEASES@,
                                    entries: latest_entries,
                                },
                            ],
                        },
                    ),
                    slots: latest.slots,
                },
            }
        },
    }
}

/// The view of what building a page gave.
pub open spec fn page_outcome(
    built: SourceResult<ExplorePage>,
) -> Result<ExplorePageView, Failure> {
    match built {
        Ok(page) => Ok(page@),
        Err(e) => Err(e@),
    }
}

/// Builds the page of a front page with the given limits.
fn build_page(
    cache: &mut EntryCache,
    html_content: &str,
    popular_limit: usize,
    latest_limit: usize,
    now: u64,
) -> (built: SourceResult<ExplorePage>)
    requires
        old(cache).wf(),
    ensures
        final(cache).wf(),
        final(cache).capacity_of() == old(cache).capacity_of(),
        final(cache).time_to_live_of() == old(cache).time_to_live_of(),
        page_outcome(built) == page_resolution(
            old(cache)@,
            old(cache).capacity_of(),
            old(cache).time_to_live_of(),
            now,
            html_content@,
            popular_limit as nat,
            latest_limit as nat,
        ).result,
        final(cache)@ == page_resolution(
            old(cache)@,
            old(cache).capacity_of(),
            old(cache).time_to_live_of(),
            now,
            html_content@,
            popular_limit as nat,
            latest_limit as nat,
        ).slots,
{
    let client = BatotoSource::new();
    let popular = match client.get_popular_manga(cache, html_content, popular_limit, now) {
        Ok(entries) => entries,
        Err(e) => { return Err(e); },
    };
    let latest = match client.get_latest_manga(cache, html_content, latest_limit, now) {
        Ok(entries) => entries,
        Err(e) => { return Err(e); },
    };
    let popular_section = ExploreSection {
        title: String::from_str(POPULAR_RELEASES),
        entries: popular,
    };
    let latest_section = ExploreSection {
        title: String::from_str(LATEST_RELEASES),
        entries: latest,
    };
    let ghost first = popular_section@;
    let ghost second = latest_section@;
    let mut sections: Vec<ExploreSection> = Vec::new();
    sections.push(popular_section);
    sections.push(latest_section);
    let page = ExplorePage { source: String::from_str(SOURCE_NAME), sections };
    assert(page@.sections =~= seq![first, second]);
    Ok(page)
}

/// The limit as a count on this machine: itself, or the largest count
/// where it is larger than any.
pub open spec fn count_of(limit: u64) -> nat {
    if limit > usize::MAX {
        usize::MAX as nat
    } else {
        limit as nat
    }
}

/// The page of the site's front page, each section with at most `limit`
/// entries.
pub fn get_batoto_page(cache: &mut EntryCache, limit: u64, html_content: &str, now: u64) -> (built:
    SourceResult<ExplorePage>)
    requires
        old(cache).wf(),
    ensures
        final(cache).wf(),
        final(cache).capacity_of() == old(cache).capacity_of(),
        final(cache).time_to_live_of() == old(cache).time_to_live_of(),
        page_outcome(built) == page_resolution(
            old(cache)@,
            old(cache).capacity_of(),
            old(cache).time_to_live_of(),
            now,
            html_content@,
            count_of(limit),
            count_of(limit),
        ).result,
        final(cache)@ == page_resolution(
            old(cache)@,
            old(cache).capacity_of(),
            old(cache).time_to_live_of(),
            now,
            html_content@,
            count_of(limit),
            count_of(limit),
        ).slots,
{
    let count: usize = if limit > usize::MAX as u64 {
        usize::MAX
    } else {
        limit as usize
    };
    build_page(cache, html_content, count, count, now)
}

/// The record of a series of the site.
pub fn get_batoto_manga(
    cache: &mut MangaCache,
    id: String,
    html_content: &str,
    now: u64,
) -> (resolved: SourceResult<Arc<Manga>>)
    requires
        old(cache).wf(),
    ensures
        final(cache).wf(),
        final(cache).capacity_of() == old(cache).capacity_of(),
        final(cache).time_to_live_of() == old(cache).time_to_live_of(),
        detail_outcome(resolved) == detail_resolution(
            old(cache)@,
            old(cache).capacity_of(),
            old(cache).time_to_live_of(),
            now,
            id@,
            details_on(html_content@, series_selectors_view(), id@),
        ).result,
        final(cache)@ == detail_resolution(
            old(cache)@,
            old(cache).capacity_of(),
            old(cache).time_to_live_of(),
            now,
            id@,
            details_on(html_content@, series_selectors_view(), id@),
        ).slots,
{
    let client = BatotoSource::new();
    client.get_manga_details(cache, html_content, id.as_str(), now)
}

/// Whether a source goes by the given name.
pub open spec fn is_supported(source: Seq<char>) -> bool {
    source == SOURCE_NAME@
}

/// The source that goes by the given name.
pub fn select_source(source: &str) -> (selected: SourceResult<BatotoSource>)
    ensures
        selected is Ok <==> is_supported(source@),
        selected matches Err(e) ==> e@ == (ErrorKind::Unexpected, UNSUPPORTED_SOURCE@),
        selected matches Ok(client) ==> client.base_url() == crate::source::BASE_URL@,
{
    if same_text(source, SOURCE_NAME) {
        Ok(BatotoSource::new())
    } else {
        Err(SourceError::Unexpected(String::from_str(UNSUPPORTED_SOURCE)))
    }
}

/// The views of a sequence of pages.
pub open spec fn page_views(pages: Seq<ExplorePage>) -> Seq<ExplorePageView> {
    pages.map_values(|page: ExplorePage| page@)
}

/// The pages of the source that goes by the given name, built from its
/// front page. A name that no source goes by is a failure and leaves the
/// cache as it was.
pub fn load_explore_pages(
    cache: &mut EntryCache,
    source: &str,
    limit: u64,
    html_content: &str,
    now: u64,
) -> (loaded: SourceResult<Vec<ExplorePage>>)
    requires
        old(cache).wf(),
    ensures
        final(cache).wf(),
        final(cache).capacity_of() == old(cache).capacity_of(),
        final(cache).time_to_live_of() == old(cache).time_to_live_of(),
        !is_supported(source@) ==> final(cache)@ == old(cache)@ && (loaded matches Err(e) && e@ == (
            ErrorKind::Unexpected,
            UNSUPPORTED_SOURCE@,
        )),
        is_supported(source@) ==> ({
            let built = page_resolution(
                old(cache)@,
                old(cache).capacity_of(),
                old(cache).time_to_live_of(),
                now,
                html_content@,
                count_of(limit),
                count_of(limit),
            );
            &&& final(cache)@ == built.slots
            &&& match built.result {
                Ok(page) => loaded matches Ok(pages) && page_views(pages@) == seq![page],
                Err(failure) => loaded matches Err(e) && e@ == failure,
            }
        }),
{
    if same_text(source, SOURCE_NAME) {
        let page = match get_batoto_page(cache, limit, html_content, now) {
            Ok(page) => page,
            Err(e) => { return Err(e); },
        };
        let ghost view = page@;
        let mut pages: Vec<ExplorePage> = Vec::new();
        pages.push(page);
        assert(page_views(pages@) =~= seq![view]);
        Ok(pages)
    } else {
        Err(SourceError::Unexpected(String::from_str(UNSUPPORTED_SOURCE)))
    }
}

/// The record of a series of the source that goes by the given name. A
/// name that no source goes by is a failure and leaves the cache as it was.
pub fn load_manga_source(
    cache: &mut MangaCache,
    source: &str,
    id: &str,
    html_content: &str,
    now: u64,
) -> (resolved: SourceResult<Arc<Manga>>)
    requires
        old(cache).wf(),
    ensures
        final(cache).wf(),
        final(cache).capacity_of() == old(cache).capacity_of(),
        final(cache).time_to_live_of() == old(cache).time_to_live_of(),
        !is_supported(source@) ==> final(cache)@ == old(cache)@ && (resolved matches Err(e) && e@
            == (ErrorKind::Unexpected, UNSUPPORTED_SOURCE@)),
        is_supported(source@) ==> ({
            let found = detail_resolution(
                old(cache)@,
                old(cache).capacity_of(),
                old(cache).time_to_live_of(),
                now,
                id@,
                details_on(html_content@, series_selectors_view(), id@),
            );
            &&& final(cache)@ == found.slots
            &&& detail_outcome(resolved) == found.result
        }),
{
    if same_text(source, SOURCE_NAME) {
        get_batoto_manga(cache, id.to_string(), html_content, now)
    } else {
        Err(SourceError::Unexpected(String::from_str(UNSUPPORTED_SOURCE)))
    }
}

/// The number of popular releases on the fixed page.
pub const EXPLORE_POPULAR_LIMIT: usize = 16;

/// The number of latest releases on the fixed page.
pub const EXPLORE_LATEST_LIMIT: usize = 36;

/// The view of a page or of the message of the failure to build it.
pub open spec fn told_outcome(
    built: Result<ExplorePage, String>,
) -> Result<ExplorePageView, Seq<char>> {
    match built {
        Ok(page) => Ok(page@),
        Err(message) => Err(message@),
    }
}

/// What a failure tells the user.
pub open spec fn told(
    result: Result<ExplorePageView, Failure>,
) -> Result<ExplorePageView, Seq<char>> {
    match result {
        Ok(page) => Ok(page),
        Err(failure) => Err(crate::error::kind_prefix(failure.0) + failure.1),
    }
}

/// The page of the site's front page with its fixed limits: sixteen popular
/// and thirty-six latest releases. A failure comes as its message.
pub fn get_explore_page(cache: &mut EntryCache, html_content: &str, now: u64) -> (built: Result<
    ExplorePage,
    String,
>)
    requires
        old(cache).wf(),
    ensures
        final(cache).wf(),
        final(cache).capacity_of() == old(cache).capacity_of(),
        final(cache).time_to_live_of() == old(cache).time_to_live_of(),
        told_outcome(built) == told(
            page_resolution(
                old(cache)@,
                old(cache).capacity_of(),
                old(cache).time_to_live_of(),
                now,
                html_content@,
                EXPLORE_POPULAR_LIMIT as nat,
                EXPLORE_LATEST_LIMIT as nat,
            ).result,
        ),
        final(cache)@ == page_resolution(
            old(cache)@,
            old(cache).capacity_of(),
            old(cache).time_to_live_of(),
            now,
            html_content@,
            EXPLORE_POPULAR_LIMIT as nat,
            EXPLORE_LATEST_LIMIT as nat,
        ).slots,
{
    match build_page(cache, html_content, EXPLORE_POPULAR_LIMIT, EXPLORE_LATEST_LIMIT, now) {
        Ok(page) => Ok(page),
        Err(e) => Err(e.message()),
    }
}

} // verus!
