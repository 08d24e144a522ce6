//! Resolving a listing against the cache: what is cached is reused, what is
//! missing is extracted and stored, and the result follows the page.

use std::sync::Arc;
use vstd::prelude::*;
use crate::cache::{inserted, live_map, lookup, share, Slot, TimedCache};
use crate::detail::{details_on, extract_details, DetailSelectors};
use crate::error::SourceError;
use crate::parser::{contains_text, entries_outcome, titles_outcome, views_of, Failure};
use crate::structs::{entry_views, Manga, MangaEntry, MangaEntryView, MangaView};
use crate::text::{same_text, texts};

verus! {

/// The cache of listing entries, keyed by title.
pub type EntryCache = TimedCache<MangaEntry>;

/// The cache of series records, keyed by identifier.
pub type MangaCache = TimedCache<Manga>;

/// What a source supplies so that its listings can be resolved: the titles
/// that a page lists, and the entries for those of them that are missing.
pub trait ListingExtractor {
    /// The titles that the page lists, or why it lists none. A source
    /// that is to be verified says here what its titles are.
    open spec fn titles(&self, markup: Seq<char>, limit: nat) -> Result<Seq<Seq<char>>, Failure> {
        arbitrary()
    }

    /// The entries that the page gives for the missing titles. A source
    /// that is to be verified says here what its entries are.
    open spec fn entries(&self, markup: Seq<char>, missing: Seq<Seq<char>>, limit: nat) -> Result<
        Seq<MangaEntryView>,
        Failure,
    > {
        arbitrary()
    }

    /// The titles that the page lists, in the order of the page and at most
    /// `limit` of them.
    fn extract_titles(&self, html_content: &str, limit: usize) -> (extracted: Result<
        Vec<String>,
        SourceError,
    >)
        ensures
            titles_outcome(extracted) == self.titles(html_content@, limit as nat),
    ;

    /// The entries of the items of the page whose title is among
    /// `missing_titles`, at most `limit` of them.
    fn extract_entries(
        &self,
        html_content: &str,
        missing_titles: &[String],
        limit: usize,
    ) -> (extracted: Result<Vec<MangaEntry>, SourceError>)
        ensures
            entries_outcome(extracted) == self.entries(
                html_content@,
                texts(missing_titles@),
                limit as nat,
            ),
    ;
}

/// The entry that the cache holds under a title.
pub open spec fn hit(live: Map<Seq<char>, MangaEntryView>, title: Seq<char>) -> Option<
    MangaEntryView,
> {
    if live.contains_key(title) {
        Some(live[title])
    } else {
        None
    }
}

/// The entries that the cache holds for the titles, in the order of the
/// titles.
pub open spec fn cached_entries(
    titles: Seq<Seq<char>>,
    live: Map<Seq<char>, MangaEntryView>,
) -> Seq<MangaEntryView> {
    titles.filter_map(|title: Seq<char>| hit(live, title))
}

/// The titles that the cache holds nothing for, in the order of the titles.
pub open spec fn missing_titles(
    titles: Seq<Seq<char>>,
    live: Map<Seq<char>, MangaEntryView>,
) -> Seq<Seq<char>> {
    titles.filter(|title: Seq<char>| !live.contains_key(title))
}

/// The last entry of the pool that carries the title.
pub open spec fn found_by_title(pool: Seq<MangaEntryView>, title: Seq<char>) -> Option<
    MangaEntryView,
>
    decreases pool.len(),
{
    if pool.len() == 0 {
        None
    } else if pool.last().title == title {
        Some(pool.last())
    } else {
        found_by_title(pool.drop_last(), title)
    }
}

/// The titles without their repetitions: each title where it stands first.
pub open spec fn first_occurrences(titles: Seq<Seq<char>>) -> Seq<Seq<char>>
    decreases titles.len(),
{
    if titles.len() == 0 {
        titles
    } else if titles.drop_last().contains(titles.last()) {
        first_occurrences(titles.drop_last())
    } else {
        first_occurrences(titles.drop_last()).push(titles.last())
    }
}

/// For each title in turn, where it stands first among the titles, the
/// entry that the pool has for it; a title that the pool has nothing for is
/// left out. No title comes twice in the result.
pub open spec fn ordered(titles: Seq<Seq<char>>, pool: Seq<MangaEntryView>) -> Seq<MangaEntryView> {
    first_occurrences(titles).filter_map(|title: Seq<char>| found_by_title(pool, title))
}

/// Whether no two entries of a list carry the same title.
pub open spec fn each_title_once(list: Seq<MangaEntryView>) -> bool {
    forall|i: int, j: int| 0 <= i < j < list.len() ==> list[i].title != list[j].title
}

/// The slots of a cache after each of the entries was stored under its title
/// at `now`, one after the other.
pub open spec fn stored_all(
    slots: Seq<Slot<MangaEntryView>>,
    capacity: nat,
    time_to_live: u64,
    now: u64,
    entries: Seq<MangaEntryView>,
) -> Seq<Slot<MangaEntryView>>
    decreases entries.len(),
{
    if entries.len() == 0 {
        slots
    } else {
        inserted(
            stored_all(slots, capacity, time_to_live, now, entries.drop_last()),
            capacity,
            time_to_live,
            now,
            entries.last().title,
            entries.last(),
        )
    }
}

/// Parts the titles into the entries that the cache holds and the titles
/// that it holds nothing for, each in the order of the titles.
pub fn get_cached_data(titles: &[String], cache: &EntryCache, now: u64) -> (parts: (
    Vec<Arc<MangaEntry>>,
    Vec<String>,
))
    ensures
        entry_views(parts.0@) == cached_entries(texts(titles@), cache.live(now)),
        texts(parts.1@) == missing_titles(texts(titles@), cache.live(now)),
{
    let ghost wanted = texts(titles@);
    let ghost live = cache.live(now);
    let mut cached: Vec<Arc<MangaEntry>> = Vec::new();
    let mut missing: Vec<String> = Vec::new();
    let n = titles.len();
    let mut i: usize = 0;
    proof {
        reveal(Seq::filter);
        assert(wanted.take(0) =~= Seq::<Seq<char>>::empty());
        assert(entry_views(cached@) =~= cached_entries(wanted.take(0), live));
        assert(texts(missing@) =~= missing_titles(wanted.take(0), live));
    }
    while i < n
        invariant
            n == titles@.len(),
            i <= n,
            wanted == texts(titles@),
            live == cache.live(now),
            entry_views(cached@) == cached_entries(wanted.take(i as int), live),
            texts(missing@) == missing_titles(wanted.take(i as int), live),
        decreases n - i,
    {
        let title = &titles[i];
        proof {
            reveal(Seq::filter);
            wanted.lemma_filter_map_take_succ(|title: Seq<char>| hit(live, title), i as int);
            assert(wanted.take(i + 1).drop_last() =~= wanted.take(i as int));
            assert(wanted.take(i + 1).last() == title@);
            assert(wanted[i as int] == title@);
        }
        let ghost cached_before = cached@;
        let ghost missing_before = missing@;
        match cache.get(title.as_str(), now) {
            Some(entry) => {
                cached.push(entry);
                assert(entry_views(cached@) =~= entry_views(cached_before) + seq![entry@]);
            },
            None => {
                missing.push(title.clone());
                assert(texts(missing@) =~= texts(missing_before).push(title@));
            },
        }
        i += 1;
    }
    assert(wanted.take(n as int) =~= wanted);
    (cached, missing)
}

/// Stores each entry in the cache under its title and adds it to the pool.
pub fn cache_new_entries(
    entries: Vec<MangaEntry>,
    cache: &mut EntryCache,
    cached: &mut Vec<Arc<MangaEntry>>,
    now: u64,
)
    requires
        old(cache).wf(),
    ensures
        final(cache).wf(),
        final(cache).capacity_of() == old(cache).capacity_of(),
        final(cache).time_to_live_of() == old(cache).time_to_live_of(),
        final(cache)@ == stored_all(
            old(cache)@,
            old(cache).capacity_of(),
            old(cache).time_to_live_of(),
            now,
            views_of(entries@),
        ),
        entry_views(final(cached)@) == entry_views(old(cached)@) + views_of(entries@),
{
    let ghost fresh = views_of(entries@);
    let ghost slots = cache@;
    let ghost pool = entry_views(cached@);
    let ghost capacity = cache.capacity_of();
    let ghost ttl = cache.time_to_live_of();
    let n = entries.len();
    let mut i: usize = 0;
    proof {
        assert(fresh.take(0) =~= Seq::<MangaEntryView>::empty());
        assert(entry_views(cached@) =~= pool + fresh.take(0));
    }
    while i < n
        invariant
            n == entries@.len(),
            i <= n,
            fresh == views_of(entries@),
            cache.wf(),
            cache.capacity_of() == capacity,
            cache.time_to_live_of() == ttl,
            cache@ == stored_all(slots, capacity, ttl, now, fresh.take(i as int)),
            entry_views(cached@) == pool + fresh.take(i as int),
        decreases n - i,
    {
        let entry = Arc::new(entries[i].clone());
        proof {
            assert(fresh.take(i + 1).drop_last() =~= fresh.take(i as int));
            assert(fresh.take(i + 1).last() == entry@);
            assert(fresh[i as int] == entries@[i as int]@);
        }
        let ghost cached_before = cached@;
        cache.insert(entry.title.clone(), share(&entry), now);
        cached.push(entry);
        proof {
            assert(entry_views(cached@) =~= entry_views(cached_before).push(entry@));
            assert(entry_views(cached@) =~= pool + fresh.take(i + 1));
        }
        i += 1;
    }
    assert(fresh.take(n as int) =~= fresh);
}

/// The last entry of the pool that carries the title.
fn find_by_title(pool: &[Arc<MangaEntry>], title: &str) -> (found: Option<Arc<MangaEntry>>)
    ensures
        match found {
            Some(entry) => found_by_title(entry_views(pool@), title@) == Some(entry@),
            None => found_by_title(entry_views(pool@), title@) is None,
        },
{
    let ghost views = entry_views(pool@);
    let mut i = pool.len();
    assert(views.take(i as int) =~= views);
    while i > 0
        invariant
            i <= pool@.len(),
            views == entry_views(pool@),
            found_by_title(views, title@) == found_by_title(views.take(i as int), title@),
        decreases i,
    {
        let entry = &pool[i - 1];
        proof {
            assert(views.take(i as int).last() == entry@);
            assert(views.take(i as int).drop_last() =~= views.take(i - 1));
        }
        if same_text(entry.title.as_str(), title) {
            return Some(share(entry));
        }
        i -= 1;
    }
    None
}

/// The entries of the pool in the order of the titles: for each title,
/// where it stands first among the titles, the last entry of the pool that
/// carries it. A title that the pool has no entry for is left out, and so
/// is a title that stood among the titles before: no title comes twice in
/// the result. This cannot fail.
pub fn order_entries_by_titles(titles: &[String], cached: &[Arc<MangaEntry>]) -> (result: Result<
    Vec<Arc<MangaEntry>>,
    SourceError,
>)
    ensures
        result matches Ok(entries) && entry_views(entries@) == ordered(
            texts(titles@),
            entry_views(cached@),
        ) && each_title_once(entry_views(entries@)),
{
    let ghost wanted = texts(titles@);
    let ghost pool = entry_views(cached@);
    let mut entries: Vec<Arc<MangaEntry>> = Vec::new();
    let n = titles.len();
    let mut i: usize = 0;
    proof {
        assert(wanted.take(0) =~= Seq::<Seq<char>>::empty());
        assert(entry_views(entries@) =~= ordered(wanted.take(0), pool));
    }
    while i < n
        invariant
            n == titles@.len(),
            i <= n,
            wanted == texts(titles@),
            pool == entry_views(cached@),
            entry_views(entries@) == ordered(wanted.take(i as int), pool),
        decreases n - i,
    {
        proof {
            lemma_ordered_step(wanted, pool, i as int);
            assert(wanted[i as int] == titles@[i as int]@);
        }
        let ghost before = entries@;
        let earlier = vstd::slice::slice_subrange(titles, 0, i);
        assert(texts(earlier@) =~= wanted.take(i as int));
        if !contains_text(earlier, titles[i].as_str()) {
            match find_by_title(cached, titles[i].as_str()) {
                Some(entry) => {
                    entries.push(entry);
                    assert(entry_views(entries@) =~= entry_views(before) + seq![entry@]);
                },
                None => {},
            }
        }
        i += 1;
    }
    proof {
        assert(wanted.take(n as int) =~= wanted);
        lemma_ordered_has_each_title_once(wanted, pool);
    }
    Ok(entries)
}

/// What resolving a listing comes to: the list or the failure, and the
/// slots that the cache is left with.
pub ghost struct Resolution {
    pub result: Result<Seq<MangaEntryView>, Failure>,
    pub slots: Seq<Slot<MangaEntryView>>,
}

/// Resolves a listing against a cache. The titles are parted into those
/// that the cache holds at `now` and those that are missing. If any are
/// missing, their entries are extracted and stored under their titles. The
/// result follows the order of the titles and holds no title twice: for
/// each title, where it stands first, the last entry that carries it among
/// the cached and the fresh ones, and nothing for a title without one. A
/// failure to extract leaves the cache as it was.
pub open spec fn resolution(
    slots: Seq<Slot<MangaEntryView>>,
    capacity: nat,
    time_to_live: u64,
    now: u64,
    titles: Result<Seq<Seq<char>>, Failure>,
    entries_for: spec_fn(Seq<Seq<char>>) -> Result<Seq<MangaEntryView>, Failure>,
) -> Resolution {
    match titles {
        Err(failure) => Resolution { result: Err(failure), slots },
        Ok(wanted) => {
            let live = live_map(slots, time_to_live, now);
            let cached = cached_entries(wanted, live);
            let missing = missing_titles(wanted, live);
            if missing.len() == 0 {
                Resolution { result: Ok(ordered(wanted, cached)), slots }
            } else {
                match entries_for(missing) {
                    Err(failure) => Resolution { result: Err(failure), slots },
                    Ok(fresh) => Resolution {
                        result: Ok(ordered(wanted, cached + fresh)),
                        slots: stored_all(slots, capacity, time_to_live, now, fresh),
                    },
                }
            }
        },
    }
}

/// The view of what resolving a listing gave.
pub open spec fn listing_outcome(resolved: Result<Vec<Arc<MangaEntry>>, SourceError>) -> Result<
    Seq<MangaEntryView>,
    Failure,
> {
    match resolved {
        Ok(entries) => Ok(entry_views(entries@)),
        Err(e) => Err(e@),
    }
}

/// The listing that a page shows, in the order of the page and without a
/// title twice, with every entry that the cache already holds taken from
/// the cache and only the others extracted from the page and stored.
pub fn resolve_listing<E: ListingExtractor>(
    cache: &mut EntryCache,
    html_content: &str,
    limit: usize,
    now: u64,
    extractor: &E,
) -> (resolved: Result<Vec<Arc<MangaEntry>>, SourceError>)
    requires
        old(cache).wf(),
    ensures
        final(cache).wf(),
        final(cache).capacity_of() == old(cache).capacity_of(),
        final(cache).time_to_live_of() == old(cache).time_to_live_of(),
        listing_outcome(resolved) == resolution(
            old(cache)@,
            old(cache).capacity_of(),
            old(cache).time_to_live_of(),
            now,
            extractor.titles(html_content@, limit as nat),
            |missing: Seq<Seq<char>>| extractor.entries(html_content@, missing, limit as nat),
        ).result,
        resolved matches Ok(entries) ==> each_title_once(entry_views(entries@)),
        final(cache)@ == resolution(
            old(cache)@,
            old(cache).capacity_of(),
            old(cache).time_to_live_of(),
            now,
            extractor.titles(html_content@, limit as nat),
            |missing: Seq<Seq<char>>| extractor.entries(html_content@, missing, limit as nat),
        ).slots,
{
    let titles = match extractor.extract_titles(html_content, limit) {
        Ok(titles) => titles,
        Err(e) => { return Err(e); },
    };
    let (mut cached, missing) = get_cached_data(titles.as_slice(), cache, now);
    assert(texts(missing@).len() == missing@.len());
    if missing.len() > 0 {
        let fresh = match extractor.extract_entries(html_content, missing.as_slice(), limit) {
            Ok(fresh) => fresh,
            Err(e) => { return Err(e); },
        };
        cache_new_entries(fresh, cache, &mut cached, now);
    }
    order_entries_by_titles(titles.as_slice(), cached.as_slice())
}

/// What resolving a series comes to: the record or the failure, and the
/// slots that the cache is left with.
pub ghost struct DetailResolution {
    pub result: Result<MangaView, Failure>,
    pub slots: Seq<Slot<MangaView>>,
}

/// Resolves a series against a cache: what the cache holds under the
/// identifier at `now`, or else what its page shows, which is then stored
/// under the identifier. A failure leaves the cache as it was.
pub open spec fn detail_resolution(
    slots: Seq<Slot<MangaView>>,
    capacity: nat,
    time_to_live: u64,
    now: u64,
    identifier: Seq<char>,
    details: Result<MangaView, Failure>,
) -> DetailResolution {
    match lookup(slots, time_to_live, now, identifier) {
        Some(manga) => DetailResolution { result: Ok(manga), slots },
        None => match details {
            Ok(manga) => DetailResolution {
                result: Ok(manga),
                slots: inserted(slots, capacity, time_to_live, now, identifier, manga),
            },
            Err(failure) => DetailResolution { result: Err(failure), slots },
        },
    }
}

/// The view of what resolving a series gave.
pub open spec fn detail_outcome(resolved: Result<Arc<Manga>, SourceError>) -> Result<
    MangaView,
    Failure,
> {
    match resolved {
        Ok(manga) => Ok(manga@),
        Err(e) => Err(e@),
    }
}

/// The record of a series: from the cache if it holds one under the
/// identifier, else read off the page and stored.
pub fn resolve_detail(
    cache: &mut MangaCache,
    html_content: &str,
    identifier: &str,
    selectors: &DetailSelectors,
    now: u64,
) -> (resolved: Result<Arc<Manga>, SourceError>)
    requires
        old(cache).wf(),
    ensures
        final(cache).wf(),
        final(cache).capacity_of() == old(cache).capacity_of(),
        final(cache).time_to_live_of() == old(cache).time_to_live_of(),
        detail_outcome(resolved) == detail_resolution(
            old(cache)@,
            old(cache).capacity_of(),
            old(cache).time_to_live_of(),
            now,
            identifier@,
            details_on(html_content@, selectors@, identifier@),
        ).result,
        final(cache)@ == detail_resolution(
            old(cache)@,
            old(cache).capacity_of(),
            old(cache).time_to_live_of(),
            now,
            identifier@,
            details_on(html_content@, selectors@, identifier@),
        ).slots,
{
    if let Some(cached) = cache.get(identifier, now) {
        return Ok(cached);
    }
    let manga = match extract_details(html_content, selectors, identifier) {
        Ok(manga) => Arc::new(manga),
        Err(e) => { return Err(e); },
    };
    cache.insert(identifier.to_string(), share(&manga), now);
    Ok(manga)
}

/// An entry found by a title carries that title and stands in the pool.
pub proof fn lemma_found_carries_title(pool: Seq<MangaEntryView>, title: Seq<char>)
    ensures
        found_by_title(pool, title) matches Some(entry) ==> entry.title == title && pool.contains(
            entry,
        ),
    decreases pool.len(),
{
    if pool.len() > 0 {
        if pool.last().title == title {
            assert(pool[pool.len() - 1] == pool.last());
        } else {
            lemma_found_carries_title(pool.drop_last(), title);
            if found_by_title(pool, title) is Some {
                let entry = found_by_title(pool, title)->0;
                let front = pool.drop_last();
                let at = choose|at: int| 0 <= at < front.len() && front[at] == entry;
                assert(pool[at] == entry);
            }
        }
    }
}

/// Among the first occurrences stands every title that stands among the
/// titles, and no other; and none stands there twice.
pub proof fn lemma_first_occurrences(titles: Seq<Seq<char>>)
    ensures
        first_occurrences(titles).no_duplicates(),
        forall|title: Seq<char>| #[trigger]
            first_occurrences(titles).contains(title) <==> titles.contains(title),
    decreases titles.len(),
{
    if titles.len() > 0 {
        let front = titles.drop_last();
        let last = titles.last();
        let kept = first_occurrences(front);
        lemma_first_occurrences(front);
        assert(titles[titles.len() - 1] == last);
        assert forall|title: Seq<char>| titles.contains(title) <==> (front.contains(title)
            || title == last) by {
            if front.contains(title) {
                let at = choose|at: int| 0 <= at < front.len() && front[at] == title;
                assert(titles[at] == title);
            }
            if titles.contains(title) && title != last {
                let at = choose|at: int| 0 <= at < titles.len() && titles[at] == title;
                assert(front[at] == title);
            }
        }
        if !front.contains(last) {
            let all = kept.push(last);
            assert forall|title: Seq<char>| all.contains(title) <==> (kept.contains(title)
                || title == last) by {
                if kept.contains(title) {
                    let at = choose|at: int| 0 <= at < kept.len() && kept[at] == title;
                    assert(all[at] == title);
                }
                if title == last {
                    assert(all[kept.len() as int] == title);
                }
                if all.contains(title) && title != last {
                    let at = choose|at: int| 0 <= at < all.len() && all[at] == title;
                    assert(kept[at] == title);
                }
            }
            assert forall|i: int, j: int| 0 <= i < all.len() && 0 <= j < all.len() && i
                != j implies all[i] != all[j] by {
                if i < kept.len() && j == kept.len() {
                    assert(kept.contains(kept[i]));
                }
                if j < kept.len() && i == kept.len() {
                    assert(kept.contains(kept[j]));
                }
            }
        }
    }
}

/// One more title adds its entry to the ordered ones, unless the title
/// stood among the titles before or the pool has nothing for it.
pub proof fn lemma_ordered_step(titles: Seq<Seq<char>>, pool: Seq<MangaEntryView>, i: int)
    requires
        0 <= i < titles.len(),
    ensures
        ordered(titles.take(i + 1), pool) == ordered(titles.take(i), pool) + (if titles.take(
            i,
        ).contains(titles[i]) {
            Seq::empty()
        } else {
            match found_by_title(pool, titles[i]) {
                Some(entry) => seq![entry],
                None => Seq::empty(),
            }
        }),
{
    let longer = titles.take(i + 1);
    let shorter = titles.take(i);
    assert(longer.drop_last() =~= shorter);
    assert(longer.last() == titles[i]);
    let kept = first_occurrences(shorter);
    if shorter.contains(titles[i]) {
        assert(ordered(longer, pool) =~= ordered(shorter, pool) + Seq::<MangaEntryView>::empty());
    } else {
        assert(first_occurrences(longer) == kept.push(titles[i]));
        assert(kept.push(titles[i]).drop_last() =~= kept);
        assert(kept.push(titles[i]).last() == titles[i]);
        match found_by_title(pool, titles[i]) {
            Some(entry) => {},
            None => {
                assert(ordered(longer, pool) =~= ordered(shorter, pool) + Seq::<
                    MangaEntryView,
                >::empty());
            },
        }
    }
}

/// Every entry of an ordered list is what the pool has for its title, and
/// that title stands among the titles.
pub proof fn lemma_ordered_entries(titles: Seq<Seq<char>>, pool: Seq<MangaEntryView>)
    ensures
        forall|k: int|
            0 <= k < ordered(titles, pool).len() ==> {
                let entry = #[trigger] ordered(titles, pool)[k];
                &&& titles.contains(entry.title)
                &&& found_by_title(pool, entry.title) == Some(entry)
            },
{
    let list = ordered(titles, pool);
    lemma_first_occurrences(titles);
    assert forall|k: int| 0 <= k < list.len() implies {
        let entry = #[trigger] list[k];
        &&& titles.contains(entry.title)
        &&& found_by_title(pool, entry.title) == Some(entry)
    } by {
        let entry = list[k];
        assert(list.contains(entry));
        first_occurrences(titles).lemma_filter_map_contains(
            |title: Seq<char>| found_by_title(pool, title),
            entry,
        );
        let title = choose|title: Seq<char>| #[trigger]
            first_occurrences(titles).contains(title) && found_by_title(pool, title) == Some(
                entry,
            );
        lemma_found_carries_title(pool, title);
    }
}

/// The result is deduplicated: no two entries of an ordered list carry the
/// same title, however often a title stands among the titles.
pub proof fn lemma_ordered_has_each_title_once(titles: Seq<Seq<char>>, pool: Seq<MangaEntryView>)
    ensures
        each_title_once(ordered(titles, pool)),
    decreases titles.len(),
{
    if titles.len() > 0 {
        let front = titles.drop_last();
        let last = titles.last();
        lemma_ordered_has_each_title_once(front, pool);
        lemma_ordered_entries(front, pool);
        assert(titles.take(titles.len() - 1) =~= front);
        assert(titles.take(titles.len() as int) =~= titles);
        lemma_ordered_step(titles, pool, titles.len() - 1);
        lemma_found_carries_title(pool, last);
        let before = ordered(front, pool);
        let list = ordered(titles, pool);
        assert forall|i: int, j: int| 0 <= i < j < list.len() implies list[i].title
            != list[j].title by {
            if j == before.len() {
                assert(list[i] == before[i]);
                assert(front.contains(before[i].title));
            } else {
                assert(list[i] == before[i] && list[j] == before[j]);
            }
        }
    } else {
        assert(ordered(titles, pool) =~= Seq::<MangaEntryView>::empty());
    }
}

/// The output keeps the order of the wanted titles: the titles of an
/// ordered list are the wanted titles that the pool has an entry for, each
/// where it stands first, in the order in which they are wanted.
pub proof fn lemma_ordered_follows_titles(titles: Seq<Seq<char>>, pool: Seq<MangaEntryView>)
    ensures
        ordered(titles, pool).map_values(|entry: MangaEntryView| entry.title) == first_occurrences(
            titles,
        ).filter(|title: Seq<char>| found_by_title(pool, title) is Some),
{
    lemma_served_titles(first_occurrences(titles), pool);
}

/// The titles of the entries that the pool has for some titles are those
/// of the titles that the pool has an entry for.
proof fn lemma_served_titles(titles: Seq<Seq<char>>, pool: Seq<MangaEntryView>)
    ensures
        titles.filter_map(|title: Seq<char>| found_by_title(pool, title)).map_values(
            |entry: MangaEntryView| entry.title,
        ) == titles.filter(|title: Seq<char>| found_by_title(pool, title) is Some),
    decreases titles.len(),
{
    reveal(Seq::filter);
    let named = |entry: MangaEntryView| entry.title;
    let served = |title: Seq<char>| found_by_title(pool, title) is Some;
    let found = |title: Seq<char>| found_by_title(pool, title);
    if titles.len() == 0 {
        assert(titles.filter_map(found).map_values(named) =~= titles.filter(served));
    } else {
        let front = titles.drop_last();
        lemma_served_titles(front, pool);
        lemma_found_carries_title(pool, titles.last());
        match found_by_title(pool, titles.last()) {
            Some(entry) => {
                assert(titles.filter_map(found) == front.filter_map(found) + seq![entry]);
                assert(titles.filter_map(found).map_values(named) =~= front.filter_map(
                    found,
                ).map_values(named).push(titles.last()));
            },
            None => {},
        }
    }
}

/// Whatever the titles and whatever is extracted, a list that a listing
/// resolves to holds no title twice.
pub proof fn lemma_resolution_has_each_title_once(
    slots: Seq<Slot<MangaEntryView>>,
    capacity: nat,
    time_to_live: u64,
    now: u64,
    titles: Result<Seq<Seq<char>>, Failure>,
    entries_for: spec_fn(Seq<Seq<char>>) -> Result<Seq<MangaEntryView>, Failure>,
)
    ensures
        resolution(slots, capacity, time_to_live, now, titles, entries_for).result matches Ok(
            list,
        ) ==> each_title_once(list),
{
    match titles {
        Ok(wanted) => {
            let live = live_map(slots, time_to_live, now);
            let cached = cached_entries(wanted, live);
            let missing = missing_titles(wanted, live);
            lemma_ordered_has_each_title_once(wanted, cached);
            if missing.len() > 0 {
                match entries_for(missing) {
                    Ok(fresh) => {
                        lemma_ordered_has_each_title_once(wanted, cached + fresh);
                    },
                    Err(_) => {},
                }
            }
        },
        Err(_) => {},
    }
}

/// The order in which a cache was filled does not show in what is
/// resolved: two caches from which the same can be read give the same list.
pub proof fn lemma_resolution_depends_on_reads_only(
    one: Seq<Slot<MangaEntryView>>,
    other: Seq<Slot<MangaEntryView>>,
    capacity: nat,
    time_to_live: u64,
    now: u64,
    titles: Result<Seq<Seq<char>>, Failure>,
    entries_for: spec_fn(Seq<Seq<char>>) -> Result<Seq<MangaEntryView>, Failure>,
)
    requires
        forall|key: Seq<char>|
            lookup(one, time_to_live, now, key) == lookup(other, time_to_live, now, key),
    ensures
        resolution(one, capacity, time_to_live, now, titles, entries_for).result == resolution(
            other,
            capacity,
            time_to_live,
            now,
            titles,
            entries_for,
        ).result,
{
    assert(live_map(one, time_to_live, now) =~= live_map(other, time_to_live, now));
}

/// Where no title is wanted the list is empty, nothing is extracted and the
/// cache stays as it was, whatever an extraction would have given.
pub proof fn lemma_nothing_wanted_resolves_to_nothing(
    slots: Seq<Slot<MangaEntryView>>,
    capacity: nat,
    time_to_live: u64,
    now: u64,
    entries_for: spec_fn(Seq<Seq<char>>) -> Result<Seq<MangaEntryView>, Failure>,
)
    ensures
        resolution(
            slots,
            capacity,
            time_to_live,
            now,
            Ok(Seq::<Seq<char>>::empty()),
            entries_for,
        ) == (Resolution { result: Ok(Seq::<MangaEntryView>::empty()), slots }),
{
    reveal(Seq::filter);
    let wanted = Seq::<Seq<char>>::empty();
    let live = live_map(slots, time_to_live, now);
    assert(missing_titles(wanted, live).len() == 0);
    assert(cached_entries(wanted, live) =~= Seq::<MangaEntryView>::empty());
    assert(ordered(wanted, cached_entries(wanted, live)) =~= Seq::<MangaEntryView>::empty());
}

} // verus!
