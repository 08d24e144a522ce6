//! What holds of a listing after it was resolved: its entries are in the
//! cache, and resolving it again gives the same list.

use vstd::prelude::*;
use crate::cache::{
    lemma_others_read_as_before, lemma_stored_is_read, lemma_unread_key_stays_unread, live_map,
    lookup, Slot,
};
use crate::parser::{
    entries_on, lemma_entries_carry_missing_titles, lemma_listed_titles_are_accepted, page_of,
    titles_on, ListingSelectorsView,
    accepted_title, accepted_titles, entry_of, first_n, found_entries, lemma_accepted_titles_prefix,
    lemma_accepted_titles_step, listed_entries,
    listed_titles, Failure, ListingItemView, UNTITLED,
};
use crate::resolver::{
    cached_entries, first_occurrences, found_by_title, hit, lemma_first_occurrences,
    lemma_found_carries_title, lemma_ordered_entries, missing_titles, ordered,
    resolution, stored_all,
};
use crate::structs::MangaEntryView;

verus! {

/// No two items of the page share a title.
pub open spec fn distinct_titles(items: Seq<ListingItemView>) -> bool {
    forall|i: int, j: int|
        0 <= i < j < items.len() && items[i].title is Some ==> items[i].title != items[j].title
}

/// Every slot is stored under the title of its entry.
pub open spec fn keyed_by_title(slots: Seq<Slot<MangaEntryView>>) -> bool {
    forall|i: int| 0 <= i < slots.len() ==> (#[trigger] slots[i]).key == slots[i].value.title
}

/// Two functions that agree on every element of a sequence select and map
/// it alike.
proof fn lemma_filter_map_agree<A, B>(
    s: Seq<A>,
    f: spec_fn(A) -> Option<B>,
    g: spec_fn(A) -> Option<B>,
)
    requires
        forall|i: int| 0 <= i < s.len() ==> f(s[i]) == g(s[i]),
    ensures
        s.filter_map(f) == s.filter_map(g),
    decreases s.len(),
{
    if s.len() > 0 {
        let front = s.drop_last();
        assert forall|i: int| 0 <= i < front.len() implies f(front[i]) == g(front[i]) by {
            assert(front[i] == s[i]);
        }
        lemma_filter_map_agree(front, f, g);
        assert(f(s.last()) == g(s.last()));
    }
}

/// A pool of one entry finds that entry under its title and nothing else.
proof fn lemma_found_in_one(entry: MangaEntryView, title: Seq<char>)
    ensures
        found_by_title(seq![entry], title) == if entry.title == title {
            Some(entry)
        } else {
            None
        },
{
    let pool = seq![entry];
    assert(pool.last() == entry);
    assert(pool.drop_last() =~= Seq::<MangaEntryView>::empty());
    assert(found_by_title(pool.drop_last(), title) is None);
}

/// In two pools put together, the later pool is searched first.
proof fn lemma_found_in_both(
    first: Seq<MangaEntryView>,
    second: Seq<MangaEntryView>,
    title: Seq<char>,
) ensures found_by_title(first + second, title) == match found_by_title(second, title) {
            Some(entry) => Some(entry),
            None => found_by_title(first, title),
        },
    decreases second.len(),
{
    if second.len() == 0 {
        assert(first + second =~= first);
    } else {
        assert((first + second).last() == second.last());
        assert((first + second).drop_last() =~= first + second.drop_last());
        lemma_found_in_both(first, second.drop_last(), title);
    }
}

/// Among the cached entries of a cache keyed by title, a wanted title finds
/// what the cache holds under it.
proof fn lemma_found_in_cached(
    wanted: Seq<Seq<char>>,
    live: Map<Seq<char>, MangaEntryView>,
    title: Seq<char>,
)
    requires
        forall|key: Seq<char>| live.contains_key(key) ==> (#[trigger] live[key]).title == key,
    ensures
        found_by_title(cached_entries(wanted, live), title) == if wanted.contains(title) {
            hit(live, title)
        } else {
            None
        },
    decreases wanted.len(),
{
    if wanted.len() == 0 {
        assert(cached_entries(wanted, live) =~= Seq::<MangaEntryView>::empty());
    } else {
        let front = wanted.drop_last();
        let last = wanted.last();
        lemma_found_in_cached(front, live, title);
        assert(wanted[wanted.len() - 1] == last);
        assert(wanted.contains(title) <==> (front.contains(title) || last == title)) by {
            if front.contains(title) {
                let at = choose|at: int| 0 <= at < front.len() && front[at] == title;
                assert(wanted[at] == title);
            }
            if wanted.contains(title) && last != title {
                let at = choose|at: int| 0 <= at < wanted.len() && wanted[at] == title;
                assert(front[at] == title);
            }
        }
        match hit(live, last) {
            Some(entry) => {
                assert(cached_entries(wanted, live) == cached_entries(front, live) + seq![entry]);
                lemma_found_in_both(cached_entries(front, live), seq![entry], title);
                lemma_found_in_one(entry, title);
                assert(entry.title == last);
            },
            None => {
                assert(cached_entries(wanted, live) == cached_entries(front, live));
            },
        }
    }
}

/// In a cache with room for all of them, entries that were stored under
/// titles that the cache held nothing for are read back under their
/// titles, unless the cache keeps nothing for any time, and every other
/// key reads as before.
proof fn lemma_lookup_after_stored_all(
    slots: Seq<Slot<MangaEntryView>>,
    capacity: nat,
    time_to_live: u64,
    now: u64,
    entries: Seq<MangaEntryView>,
    key: Seq<char>,
)
    requires
        slots.len() + entries.len() <= capacity,
        forall|k: int|
            0 <= k < entries.len() ==> lookup(slots, time_to_live, now, entries[k].title) is None,
    ensures
        lookup(stored_all(slots, capacity, time_to_live, now, entries), time_to_live, now, key)
            == match found_by_title(entries, key) {
            Some(entry) if time_to_live > 0 => Some(entry),
            _ => lookup(slots, time_to_live, now, key),
        },
        stored_all(slots, capacity, time_to_live, now, entries).len() <= slots.len() + entries.len(),
    decreases entries.len(),
{
    if entries.len() > 0 {
        let front = entries.drop_last();
        let last = entries.last();
        let before = stored_all(slots, capacity, time_to_live, now, front);
        assert forall|k: int| 0 <= k < front.len() implies lookup(
            slots,
            time_to_live,
            now,
            front[k].title,
        ) is None by {
            assert(front[k] == entries[k]);
        }
        assert(entries[entries.len() - 1] == last);
        lemma_lookup_after_stored_all(slots, capacity, time_to_live, now, front, key);
        lemma_lookup_after_stored_all(slots, capacity, time_to_live, now, front, last.title);
        if key != last.title {
            lemma_others_read_as_before(
                before,
                capacity,
                time_to_live,
                now,
                last.title,
                last,
                key,
            );
        } else if time_to_live > 0 {
            lemma_stored_is_read(before, capacity, time_to_live, now, key, last);
        } else {
            lemma_unread_key_stays_unread(before, capacity, time_to_live, now, key, last);
        }
        crate::cache::lemma_inserted_len(before, capacity, time_to_live, now, last.title, last);
    }
}

/// From a cache keyed by title, every key reads an entry with that title.
proof fn lemma_lookup_keyed(
    slots: Seq<Slot<MangaEntryView>>,
    time_to_live: u64,
    now: u64,
    key: Seq<char>,
)
    requires
        keyed_by_title(slots),
    ensures
        lookup(slots, time_to_live, now, key) matches Some(entry) ==> entry.title == key,
    decreases slots.len(),
{
    if slots.len() > 0 {
        assert(slots[slots.len() - 1] == slots.last());
        assert forall|i: int| 0 <= i < slots.drop_last().len() implies (
        #[trigger] slots.drop_last()[i]).key == slots.drop_last()[i].value.title by {
            assert(slots.drop_last()[i] == slots[i]);
        }
        lemma_lookup_keyed(slots.drop_last(), time_to_live, now, key);
    }
}

/// A title that is not missing finds nothing among the entries.
proof fn lemma_unwanted_title_finds_nothing(
    items: Seq<ListingItemView>,
    missing: Seq<Seq<char>>,
    limit: nat,
    source: Seq<char>,
    title: Seq<char>,
)
    requires
        !missing.contains(title),
    ensures
        found_by_title(listed_entries(items, missing, limit, source), title) is None,
{
    let listed = listed_entries(items, missing, limit, source);
    lemma_found_carries_title(listed, title);
    lemma_entries_carry_missing_titles(items, missing, limit, source);
    if found_by_title(listed, title) is Some {
        let entry = found_by_title(listed, title)->0;
        let k = choose|k: int| 0 <= k < listed.len() && listed[k] == entry;
        assert(missing.contains(listed[k].title));
    }
}

/// The entry that the page gives for a title when that title alone is
/// missing.
pub open spec fn own_entry(
    items: Seq<ListingItemView>,
    title: Seq<char>,
    source: Seq<char>,
) -> Option<MangaEntryView> {
    found_by_title(found_entries(items, seq![title], source), title)
}

/// Without a limit, what a title finds among the entries does not depend
/// on which other titles are missing.
proof fn lemma_found_alone(
    items: Seq<ListingItemView>,
    missing: Seq<Seq<char>>,
    source: Seq<char>,
    title: Seq<char>,
)
    requires
        missing.contains(title),
    ensures
        found_by_title(found_entries(items, missing, source), title) == own_entry(
            items,
            title,
            source,
        ),
    decreases items.len(),
{
    if items.len() > 0 {
        let front = items.drop_last();
        let last = items.last();
        lemma_found_alone(front, missing, source, title);
        let alone = seq![title];
        assert(alone[0] == title);
        assert(alone.contains(title));
        assert(forall|other: Seq<char>| alone.contains(other) ==> other == title);
        match entry_of(last, missing, source) {
            Some(entry) => {
                assert(found_entries(items, missing, source) == found_entries(
                    front,
                    missing,
                    source,
                ) + seq![entry]);
                lemma_found_in_both(found_entries(front, missing, source), seq![entry], title);
                lemma_found_in_one(entry, title);
            },
            None => {
                assert(found_entries(items, missing, source) == found_entries(
                    front,
                    missing,
                    source,
                ));
            },
        }
        match entry_of(last, alone, source) {
            Some(entry) => {
                assert(found_entries(items, alone, source) == found_entries(front, alone, source)
                    + seq![entry]);
                lemma_found_in_both(found_entries(front, alone, source), seq![entry], title);
                lemma_found_in_one(entry, title);
            },
            None => {
                assert(found_entries(items, alone, source) == found_entries(front, alone, source));
            },
        }
    } else {
        assert(found_entries(items, missing, source) =~= Seq::<MangaEntryView>::empty());
        assert(found_entries(items, seq![title], source) =~= Seq::<MangaEntryView>::empty());
    }
}

/// Where no missing title is the placeholder, every item that gives an
/// entry also gives a title.
proof fn lemma_entries_no_more_than_titles(
    items: Seq<ListingItemView>,
    missing: Seq<Seq<char>>,
    source: Seq<char>,
)
    requires
        forall|title: Seq<char>| missing.contains(title) ==> title != UNTITLED@,
    ensures
        found_entries(items, missing, source).len() <= accepted_titles(items).len(),
    decreases items.len(),
{
    if items.len() > 0 {
        lemma_entries_no_more_than_titles(items.drop_last(), missing, source);
        let last = items.last();
        if entry_of(last, missing, source) is Some {
            assert(accepted_title(last) is Some);
        }
    }
}

/// The titles of a page whose items have different titles are different.
proof fn lemma_accepted_titles_distinct(items: Seq<ListingItemView>)
    requires
        distinct_titles(items),
    ensures
        accepted_titles(items).no_duplicates(),
    decreases items.len(),
{
    if items.len() > 0 {
        let front = items.drop_last();
        let last = items.last();
        assert(distinct_titles(front)) by {
            assert forall|i: int, j: int|
                0 <= i < j < front.len() && front[i].title is Some implies front[i].title
                != front[j].title by {
                assert(front[i] == items[i] && front[j] == items[j]);
            }
        }
        lemma_accepted_titles_distinct(front);
        let before = accepted_titles(front);
        match accepted_title(last) {
            Some(title) => {
                assert(accepted_titles(items) == before + seq![title]);
                if before.contains(title) {
                    front.lemma_filter_map_contains(
                        |item: ListingItemView| accepted_title(item),
                        title,
                    );
                    let item = choose|item: ListingItemView| #[trigger]
                        front.contains(item) && accepted_title(item) == Some(title);
                    let i = choose|i: int| 0 <= i < front.len() && front[i] == item;
                    assert(items[i] == item);
                    assert(items[items.len() - 1] == last);
                    assert(false);
                }
                assert forall|i: int, j: int|
                    0 <= i < before.len() + 1 && 0 <= j < before.len() + 1 && i != j implies (before
                    + seq![title])[i] != (before + seq![title])[j] by {
                    if i < before.len() && j < before.len() {
                    } else if i < before.len() {
                        assert(before.contains(before[i]));
                    } else {
                        assert(before.contains(before[j]));
                    }
                }
            },
            None => {
                assert(accepted_titles(items) == before);
            },
        }
    }
}

/// An item whose title is listed has fewer than `limit` titles before it.
proof fn lemma_title_position(items: Seq<ListingItemView>, limit: nat, i: int)
    requires
        distinct_titles(items),
        0 <= i < items.len(),
        accepted_title(items[i]) is Some,
        listed_titles(items, limit).contains(accepted_title(items[i])->0),
    ensures
        accepted_titles(items.take(i)).len() < limit,
{
    let all = accepted_titles(items);
    let title = accepted_title(items[i])->0;
    let before = accepted_titles(items.take(i));
    lemma_accepted_titles_prefix(items, i + 1);
    lemma_accepted_titles_step(items, i);
    let with = accepted_titles(items.take(i + 1));
    assert(with == before + seq![title]);
    assert(with[before.len() as int] == title);
    assert(all.take(with.len() as int)[before.len() as int] == title);
    assert(all[before.len() as int] == title);
    let listed = listed_titles(items, limit);
    let q = choose|q: int| 0 <= q < listed.len() && listed[q] == title;
    assert(all[q] == title);
    lemma_accepted_titles_distinct(items);
}

/// The item that an entry comes from: the entries of the items before it
/// are the entries before that entry.
proof fn lemma_entry_origin(
    items: Seq<ListingItemView>,
    missing: Seq<Seq<char>>,
    source: Seq<char>,
    k: int,
) -> (i: int)
    requires
        0 <= k < found_entries(items, missing, source).len(),
    ensures
        0 <= i < items.len(),
        found_entries(items.take(i), missing, source).len() == k,
        entry_of(items[i], missing, source) == Some(found_entries(items, missing, source)[k]),
    decreases items.len(),
{
    let front = items.drop_last();
    let last = items.last();
    let before = found_entries(front, missing, source);
    if k < before.len() {
        let i = lemma_entry_origin(front, missing, source, k);
        assert(front.take(i) =~= items.take(i));
        assert(front[i] == items[i]);
        match entry_of(last, missing, source) {
            Some(entry) => {
                assert(found_entries(items, missing, source) == before + seq![entry]);
            },
            None => {},
        }
        i
    } else {
        let i = items.len() - 1;
        assert(items.take(i) =~= front);
        match entry_of(last, missing, source) {
            Some(entry) => {
                assert(found_entries(items, missing, source) == before + seq![entry]);
            },
            None => {},
        }
        i
    }
}

/// Where no entry from the limit on carries the title, the limit does not
/// change what the title finds.
proof fn lemma_found_below_limit(pool: Seq<MangaEntryView>, limit: nat, title: Seq<char>)
    requires
        forall|k: int| limit <= k < pool.len() ==> pool[k].title != title,
    ensures
        found_by_title(first_n(pool, limit), title) == found_by_title(pool, title),
    decreases pool.len(),
{
    if limit < pool.len() {
        let front = pool.drop_last();
        assert(pool[pool.len() - 1].title != title);
        assert forall|k: int| limit <= k < front.len() implies front[k].title != title by {
            assert(front[k] == pool[k]);
        }
        lemma_found_below_limit(front, limit, title);
        if limit < front.len() {
            assert(pool.take(limit as int) =~= front.take(limit as int));
        } else {
            assert(pool.take(limit as int) =~= front);
        }
    }
}

/// On a page whose items have different titles, the limit does not cut off
/// the entry of a title that is listed: what the title finds is what the
/// page gives for it alone.
proof fn lemma_found_within_limit(
    items: Seq<ListingItemView>,
    missing: Seq<Seq<char>>,
    limit: nat,
    source: Seq<char>,
    title: Seq<char>,
)
    requires
        distinct_titles(items),
        missing.contains(title),
        listed_titles(items, limit).contains(title),
        forall|other: Seq<char>| missing.contains(other) ==> other != UNTITLED@,
    ensures
        found_by_title(listed_entries(items, missing, limit, source), title) == own_entry(
            items,
            title,
            source,
        ),
{
    let found = found_entries(items, missing, source);
    assert forall|k: int| limit <= k < found.len() implies found[k].title != title by {
        if found[k].title == title {
            let i = lemma_entry_origin(items, missing, source, k);
            assert(accepted_title(items[i]) == Some(title));
            lemma_title_position(items, limit, i);
            lemma_entries_no_more_than_titles(items.take(i), missing, source);
        }
    }
    lemma_found_below_limit(found, limit, title);
    lemma_found_alone(items, missing, source, title);
}

/// What is missing is wanted and is not held; what is wanted and not held
/// is missing.
proof fn lemma_missing_titles(wanted: Seq<Seq<char>>, live: Map<Seq<char>, MangaEntryView>)
    ensures
        forall|title: Seq<char>| #[trigger]
            missing_titles(wanted, live).contains(title) <==> wanted.contains(title)
                && !live.contains_key(title),
{
    let absent = |title: Seq<char>| !live.contains_key(title);
    let missing = missing_titles(wanted, live);
    assert forall|title: Seq<char>| #[trigger] missing.contains(title) implies wanted.contains(
        title,
    ) && !live.contains_key(title) by {
        wanted.lemma_filter_contains_rev(absent, title);
        let k = choose|k: int| 0 <= k < missing.len() && missing[k] == title;
        wanted.lemma_filter_pred(absent, k);
    }
    assert forall|title: Seq<char>| wanted.contains(title) && !live.contains_key(
        title,
    ) implies #[trigger] missing.contains(title) by {
        let k = choose|k: int| 0 <= k < wanted.len() && wanted[k] == title;
        wanted.lemma_filter_contains(absent, k);
    }
}

/// Whether every title of `part` stands among those of `whole`.
pub open spec fn all_among(part: Seq<Seq<char>>, whole: Seq<Seq<char>>) -> bool {
    forall|title: Seq<char>| part.contains(title) ==> whole.contains(title)
}

/// Whether an extraction goes title by title, for missing titles taken from
/// the wanted ones: every entry carries one of the missing titles, and what
/// a missing title gets stays the same when fewer titles are missing.
pub open spec fn title_by_title(
    entries_for: spec_fn(Seq<Seq<char>>) -> Result<Seq<MangaEntryView>, Failure>,
    wanted: Seq<Seq<char>>,
) -> bool {
    &&& forall|missing: Seq<Seq<char>>, k: int|
        #![trigger entries_for(missing)->Ok_0[k]]
        entries_for(missing) is Ok && 0 <= k < entries_for(missing)->Ok_0.len()
            ==> missing.contains(entries_for(missing)->Ok_0[k].title)
    &&& forall|larger: Seq<Seq<char>>, smaller: Seq<Seq<char>>, title: Seq<char>|
        #![trigger entries_for(larger), entries_for(smaller), smaller.contains(title)]
        entries_for(larger) is Ok && all_among(larger, wanted) && all_among(smaller, larger)
            && smaller.contains(title) ==> entries_for(smaller) is Ok && found_by_title(
            entries_for(smaller)->Ok_0,
            title,
        ) == found_by_title(entries_for(larger)->Ok_0, title)
}

/// Whether the cache has room for what a run stores.
pub open spec fn room_for_run(
    slots: Seq<Slot<MangaEntryView>>,
    capacity: nat,
    time_to_live: u64,
    now: u64,
    wanted: Seq<Seq<char>>,
    entries_for: spec_fn(Seq<Seq<char>>) -> Result<Seq<MangaEntryView>, Failure>,
) -> bool {
    match entries_for(missing_titles(wanted, live_map(slots, time_to_live, now))) {
        Ok(fresh) => slots.len() + fresh.len() <= capacity,
        Err(_) => true,
    }
}

/// A title that is not missing finds nothing among entries that all carry
/// missing titles.
proof fn lemma_absent_title_finds_nothing(
    fresh: Seq<MangaEntryView>,
    missing: Seq<Seq<char>>,
    title: Seq<char>,
)
    requires
        forall|k: int| 0 <= k < fresh.len() ==> missing.contains(#[trigger] fresh[k].title),
        !missing.contains(title),
    ensures
        found_by_title(fresh, title) is None,
{
    lemma_found_carries_title(fresh, title);
    if found_by_title(fresh, title) is Some {
        let entry = found_by_title(fresh, title)->0;
        let k = choose|k: int| 0 <= k < fresh.len() && fresh[k] == entry;
        assert(missing.contains(fresh[k].title));
    }
}

/// Resolving the same listing again, against the cache as the first run
/// left it and with the same titles, extraction and time, gives the same
/// list, whatever the source. This holds of an extraction that goes title
/// by title, and of a cache that is keyed by title and has room for what
/// the first run stores.
pub proof fn lemma_resolving_again_with_any_source(
    slots: Seq<Slot<MangaEntryView>>,
    capacity: nat,
    time_to_live: u64,
    now: u64,
    wanted: Seq<Seq<char>>,
    entries_for: spec_fn(Seq<Seq<char>>) -> Result<Seq<MangaEntryView>, Failure>,
)
    requires
        keyed_by_title(slots),
        title_by_title(entries_for, wanted),
        room_for_run(slots, capacity, time_to_live, now, wanted, entries_for),
    ensures
        ({
            let titles = Ok::<Seq<Seq<char>>, Failure>(wanted);
            let first = resolution(slots, capacity, time_to_live, now, titles, entries_for);
            let again = resolution(first.slots, capacity, time_to_live, now, titles, entries_for);
            again.result == first.result
        }),
{
    let live = live_map(slots, time_to_live, now);
    let cached = cached_entries(wanted, live);
    let missing = missing_titles(wanted, live);
    if missing.len() > 0 && entries_for(missing) is Ok {
        let fresh = entries_for(missing)->Ok_0;
        let slots_again = stored_all(slots, capacity, time_to_live, now, fresh);
        let live_again = live_map(slots_again, time_to_live, now);
        let cached_again = cached_entries(wanted, live_again);
        let missing_again = missing_titles(wanted, live_again);
        let pool = cached + fresh;
        lemma_missing_titles(wanted, live);
        lemma_missing_titles(wanted, live_again);
        assert forall|k: int| 0 <= k < fresh.len() implies missing.contains(
            #[trigger] fresh[k].title,
        ) by {
            assert(missing.contains(entries_for(missing)->Ok_0[k].title));
        }
        assert forall|k: int| 0 <= k < fresh.len() implies lookup(
            slots,
            time_to_live,
            now,
            fresh[k].title,
        ) is None by {
            assert(missing.contains(fresh[k].title));
        }
        assert forall|key: Seq<char>| live.contains_key(key) implies (#[trigger] live[key]).title
            == key by {
            lemma_lookup_keyed(slots, time_to_live, now, key);
        }
        assert forall|key: Seq<char>| live_again.contains_key(key) implies (
        #[trigger] live_again[key]).title == key by {
            lemma_lookup_after_stored_all(slots, capacity, time_to_live, now, fresh, key);
            lemma_found_carries_title(fresh, key);
            lemma_lookup_keyed(slots, time_to_live, now, key);
        }
        assert(all_among(missing, wanted));
        assert(all_among(missing_again, missing)) by {
            assert forall|title: Seq<char>| missing_again.contains(title) implies missing.contains(
                title,
            ) by {
                lemma_lookup_after_stored_all(slots, capacity, time_to_live, now, fresh, title);
                if live.contains_key(title) {
                    lemma_absent_title_finds_nothing(fresh, missing, title);
                }
            }
        }
        if missing_again.len() > 0 {
            let some = missing_again[0];
            assert(missing_again.contains(some));
            assert(entries_for(missing_again) is Ok);
        }
        let fresh_again = if missing_again.len() == 0 {
            Seq::<MangaEntryView>::empty()
        } else {
            entries_for(missing_again)->Ok_0
        };
        let pool_again = if missing_again.len() == 0 {
            cached_again
        } else {
            cached_again + fresh_again
        };
        assert forall|k: int| 0 <= k < fresh_again.len() implies missing_again.contains(
            #[trigger] fresh_again[k].title,
        ) by {
            assert(missing_again.contains(entries_for(missing_again)->Ok_0[k].title));
        }
        assert forall|i: int| 0 <= i < wanted.len() implies found_by_title(pool_again, wanted[i])
            == found_by_title(pool, wanted[i]) by {
            let title = wanted[i];
            assert(wanted.contains(title));
            lemma_found_in_cached(wanted, live, title);
            lemma_found_in_cached(wanted, live_again, title);
            lemma_found_in_both(cached, fresh, title);
            lemma_found_in_both(cached_again, fresh_again, title);
            lemma_lookup_after_stored_all(slots, capacity, time_to_live, now, fresh, title);
            if live.contains_key(title) {
                lemma_absent_title_finds_nothing(fresh, missing, title);
                assert(live_again.contains_key(title));
                lemma_absent_title_finds_nothing(fresh_again, missing_again, title);
            } else {
                assert(missing.contains(title));
                if found_by_title(fresh, title) is Some && time_to_live > 0 {
                    assert(live_again.contains_key(title));
                    lemma_absent_title_finds_nothing(fresh_again, missing_again, title);
                } else {
                    assert(!live_again.contains_key(title));
                    assert(missing_again.contains(title));
                    assert(found_by_title(entries_for(missing_again)->Ok_0, title)
                        == found_by_title(entries_for(missing)->Ok_0, title));
                }
            }
        }
        let first = first_occurrences(wanted);
        lemma_first_occurrences(wanted);
        assert forall|i: int| 0 <= i < first.len() implies found_by_title(pool_again, first[i])
            == found_by_title(pool, first[i]) by {
            assert(first.contains(first[i]));
            assert(wanted.contains(first[i]));
            let at = choose|at: int| 0 <= at < wanted.len() && wanted[at] == first[i];
            assert(found_by_title(pool_again, wanted[at]) == found_by_title(pool, wanted[at]));
        }
        lemma_filter_map_agree(
            first,
            |title: Seq<char>| found_by_title(pool_again, title),
            |title: Seq<char>| found_by_title(pool, title),
        );
        assert(ordered(wanted, pool_again) == ordered(wanted, pool));
    }
}

/// On a page whose items have different titles, the extraction goes title
/// by title for the titles that the page lists.
pub proof fn lemma_items_go_title_by_title(
    items: Seq<ListingItemView>,
    limit: nat,
    source: Seq<char>,
)
    requires
        distinct_titles(items),
    ensures
        title_by_title(
            |missing: Seq<Seq<char>>|
                Ok::<Seq<MangaEntryView>, Failure>(listed_entries(items, missing, limit, source)),
            listed_titles(items, limit),
        ),
{
    let wanted = listed_titles(items, limit);
    let entries_for = |missing: Seq<Seq<char>>|
        Ok::<Seq<MangaEntryView>, Failure>(listed_entries(items, missing, limit, source));
    lemma_listed_titles_are_accepted(items, limit);
    assert forall|missing: Seq<Seq<char>>, k: int|
        #![trigger entries_for(missing)->Ok_0[k]]
        entries_for(missing) is Ok && 0 <= k < entries_for(missing)->Ok_0.len()
            implies missing.contains(entries_for(missing)->Ok_0[k].title) by {
        lemma_entries_carry_missing_titles(items, missing, limit, source);
        assert(entries_for(missing)->Ok_0 == listed_entries(items, missing, limit, source));
    }
    assert forall|larger: Seq<Seq<char>>, smaller: Seq<Seq<char>>, title: Seq<char>|
        #![trigger entries_for(larger), entries_for(smaller), smaller.contains(title)]
        entries_for(larger) is Ok && all_among(larger, wanted) && all_among(smaller, larger)
            && smaller.contains(title) implies entries_for(smaller) is Ok && found_by_title(
        entries_for(smaller)->Ok_0,
        title,
    ) == found_by_title(entries_for(larger)->Ok_0, title) by {
        assert(larger.contains(title));
        assert(wanted.contains(title));
        assert forall|other: Seq<char>| larger.contains(other) implies other != UNTITLED@ by {
            assert(wanted.contains(other));
        }
        assert forall|other: Seq<char>| smaller.contains(other) implies other != UNTITLED@ by {
            assert(larger.contains(other));
            assert(wanted.contains(other));
        }
        lemma_found_within_limit(items, larger, limit, source, title);
        lemma_found_within_limit(items, smaller, limit, source, title);
    }
}

/// Resolving the same page again, against the cache as the first run left
/// it, gives the same list. This holds of a page whose items have different
/// titles and of a cache that is keyed by title and has room for what the
/// run stores.
pub proof fn lemma_resolving_again_gives_the_same(
    slots: Seq<Slot<MangaEntryView>>,
    capacity: nat,
    time_to_live: u64,
    now: u64,
    items: Seq<ListingItemView>,
    limit: nat,
    source: Seq<char>,
)
    requires
        distinct_titles(items),
        keyed_by_title(slots),
        slots.len() + limit <= capacity,
    ensures
        ({
            let titles = Ok::<Seq<Seq<char>>, Failure>(listed_titles(items, limit));
            let entries_for = |missing: Seq<Seq<char>>|
                Ok::<Seq<MangaEntryView>, Failure>(listed_entries(items, missing, limit, source));
            let first = resolution(slots, capacity, time_to_live, now, titles, entries_for);
            let again = resolution(first.slots, capacity, time_to_live, now, titles, entries_for);
            again.result == first.result
        }),
{
    let entries_for = |missing: Seq<Seq<char>>|
        Ok::<Seq<MangaEntryView>, Failure>(listed_entries(items, missing, limit, source));
    lemma_items_go_title_by_title(items, limit, source);
    lemma_resolving_again_with_any_source(
        slots,
        capacity,
        time_to_live,
        now,
        listed_titles(items, limit),
        entries_for,
    );
}

/// What a listing resolves to is in the cache afterwards: every entry of
/// the list is read from the cache under its title, right after the run.
/// This holds of a cache that is keyed by title, keeps what it stores for
/// some time and has room for what the run stores.
pub proof fn lemma_resolved_entries_are_cached(
    slots: Seq<Slot<MangaEntryView>>,
    capacity: nat,
    time_to_live: u64,
    now: u64,
    items: Seq<ListingItemView>,
    limit: nat,
    source: Seq<char>,
)
    requires
        keyed_by_title(slots),
        time_to_live > 0,
        slots.len() + limit <= capacity,
    ensures
        ({
            let titles = Ok::<Seq<Seq<char>>, Failure>(listed_titles(items, limit));
            let entries_for = |missing: Seq<Seq<char>>|
                Ok::<Seq<MangaEntryView>, Failure>(listed_entries(items, missing, limit, source));
            let run = resolution(slots, capacity, time_to_live, now, titles, entries_for);
            run.result matches Ok(list) && forall|k: int|
                0 <= k < list.len() ==> lookup(
                    run.slots,
                    time_to_live,
                    now,
                    (#[trigger] list[k]).title,
                ) == Some(list[k])
        }),
{
    let wanted = listed_titles(items, limit);
    let live = live_map(slots, time_to_live, now);
    let cached = cached_entries(wanted, live);
    let missing = missing_titles(wanted, live);
    let fresh = if missing.len() == 0 {
        Seq::<MangaEntryView>::empty()
    } else {
        listed_entries(items, missing, limit, source)
    };
    let pool = if missing.len() == 0 {
        cached
    } else {
        cached + fresh
    };
    let after = if missing.len() == 0 {
        slots
    } else {
        stored_all(slots, capacity, time_to_live, now, fresh)
    };
    let list = ordered(wanted, pool);
    lemma_ordered_entries(wanted, pool);
    lemma_missing_titles(wanted, live);
    lemma_entries_carry_missing_titles(items, missing, limit, source);
    assert forall|key: Seq<char>| live.contains_key(key) implies (#[trigger] live[key]).title
        == key by {
        lemma_lookup_keyed(slots, time_to_live, now, key);
    }
    assert forall|k: int| 0 <= k < fresh.len() implies lookup(
        slots,
        time_to_live,
        now,
        fresh[k].title,
    ) is None by {
        assert(missing.contains(fresh[k].title));
    }
    assert forall|k: int| 0 <= k < list.len() implies lookup(
        after,
        time_to_live,
        now,
        (#[trigger] list[k]).title,
    ) == Some(list[k]) by {
        let entry = list[k];
        let title = entry.title;
        lemma_found_in_cached(wanted, live, title);
        lemma_found_in_both(cached, fresh, title);
        if missing.len() > 0 {
            lemma_lookup_after_stored_all(slots, capacity, time_to_live, now, fresh, title);
            if live.contains_key(title) {
                lemma_unwanted_title_finds_nothing(items, missing, limit, source, title);
            }
        } else {
            assert(live.contains_key(title));
        }
    }
}

/// Resolving the listing of a page twice in a row gives the same list both
/// times: the second run, against the cache as the first run left it and
/// with the same page, limit and time, returns what the first returned.
/// This holds of a page whose items have different titles and of a cache
/// that is keyed by title and has room for what the run stores.
pub proof fn lemma_listing_resolves_the_same_again(
    slots: Seq<Slot<MangaEntryView>>,
    capacity: nat,
    time_to_live: u64,
    now: u64,
    markup: Seq<char>,
    selectors: ListingSelectorsView,
    limit: nat,
    source: Seq<char>,
)
    requires
        page_of(markup, selectors) matches Ok(items) ==> distinct_titles(items),
        keyed_by_title(slots),
        slots.len() + limit <= capacity,
    ensures
        ({
            let titles = titles_on(markup, selectors, limit);
            let entries_for = |missing: Seq<Seq<char>>|
                entries_on(markup, selectors, missing, limit, source);
            let first = resolution(slots, capacity, time_to_live, now, titles, entries_for);
            let again = resolution(first.slots, capacity, time_to_live, now, titles, entries_for);
            again.result == first.result
        }),
{
    match page_of(markup, selectors) {
        Ok(items) => {
            lemma_resolving_again_gives_the_same(
                slots,
                capacity,
                time_to_live,
                now,
                items,
                limit,
                source,
            );
        },
        Err(_) => {},
    }
}

} // verus!
