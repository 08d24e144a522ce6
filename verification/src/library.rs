//! The library: its categories, and how entries enter and leave them.

use std::sync::Arc;
use vstd::prelude::*;
use vstd::string::StringExecFns;
use crate::cache::share;
use crate::search::{first_index, lemma_first_index_is, lemma_first_index_none};
use crate::structs::{entry_views, MangaEntry, MangaEntryView};
use crate::text::{
    comes_first_or_same, lemma_text_le_total, lemma_text_le_transitive, lowercase, same_text,
    text_le, trim, trimmed,
};
use crate::utils::{slug_of, slugify};

verus! {

/// The title of the category that holds every entry of the library.
pub const ALL_TITLES: &'static str = "All Titles";

/// The slug of the category that holds every entry of the library.
pub const ALL_TITLES_SLUG: &'static str = "all-titles";

/// By what a new category is sorted.
pub const DEFAULT_SORT_BY: &'static str = "title";

/// In which direction a new category is sorted.
pub const DEFAULT_SORT_ORDER: &'static str = "asc";

/// What is said when an entry is added a second time.
pub const ALREADY_IN_LIBRARY: &'static str = "Manga already exists in library";

/// What is said when the category of every entry is not there.
pub const NO_ALL_TITLES: &'static str = "Default category 'All Titles' does not exist";

/// What is said when no category holds an entry.
pub const IN_NO_CATEGORY: &'static str = "Manga entry not found in any category.";

/// What is said of a removal that does not say what to remove.
pub const INCOMPLETE_REMOVAL: &'static str = "Category name, manga ID, and source are required";

/// What the library knows of a category without opening it.
#[derive(Debug)]
pub struct CategoryMeta {
    pub title: String,
    pub slug: String,
    pub sort_by: String,
    pub sort_order: String,
}

pub ghost struct CategoryMetaView {
    pub title: Seq<char>,
    pub slug: Seq<char>,
    pub sort_by: Seq<char>,
    pub sort_order: Seq<char>,
}

impl View for CategoryMeta {
    type V = CategoryMetaView;

    open spec fn view(&self) -> CategoryMetaView {
        CategoryMetaView {
            title: self.title@,
            slug: self.slug@,
            sort_by: self.sort_by@,
            sort_order: self.sort_order@,
        }
    }
}

/// A category with its entries.
#[derive(Debug)]
pub struct Category {
    pub title: String,
    pub slug: String,
    pub entries: Vec<Arc<MangaEntry>>,
    pub sort_by: String,
    pub sort_order: String,
}

pub ghost struct CategoryView {
    pub title: Seq<char>,
    pub slug: Seq<char>,
    pub entries: Seq<MangaEntryView>,
    pub sort_by: Seq<char>,
    pub sort_order: Seq<char>,
}

impl View for Category {
    type V = CategoryView;

    open spec fn view(&self) -> CategoryView {
        CategoryView {
            title: self.title@,
            slug: self.slug@,
            entries: entry_views(self.entries@),
            sort_by: self.sort_by@,
            sort_order: self.sort_order@,
        }
    }
}

/// The categories of a library, in the order in which they were made.
#[derive(Debug)]
pub struct Library {
    pub categories: Vec<CategoryMeta>,
}

/// The views of a sequence of category descriptions.
pub open spec fn meta_views(metas: Seq<CategoryMeta>) -> Seq<CategoryMetaView> {
    metas.map_values(|meta: CategoryMeta| meta@)
}

/// The views of a sequence of categories.
pub open spec fn category_views(categories: Seq<Category>) -> Seq<CategoryView> {
    categories.map_values(|category: Category| category@)
}

impl View for Library {
    type V = Seq<CategoryMetaView>;

    open spec fn view(&self) -> Seq<CategoryMetaView> {
        meta_views(self.categories@)
    }
}

/// Whether an entry is the one with the given identifier and source.
pub open spec fn is_entry(entry: MangaEntryView, identifier: Seq<char>, source: Seq<char>) -> bool {
    entry.identifier == identifier && entry.source == source
}

/// Whether a category holds the entry with the given identifier and source.
pub open spec fn holds(category: CategoryView, identifier: Seq<char>, source: Seq<char>) -> bool {
    first_index(category.entries, |entry: MangaEntryView| is_entry(entry, identifier, source))
        is Some
}

/// The place of the first category with the given title.
pub open spec fn titled(metas: Seq<CategoryMetaView>, title: Seq<char>) -> Option<int> {
    first_index(metas, |meta: CategoryMetaView| meta.title == title)
}

/// The place of the first of the opened categories with the given slug.
pub open spec fn opened(categories: Seq<CategoryView>, slug: Seq<char>) -> Option<int> {
    first_index(categories, |category: CategoryView| category.slug == slug)
}

/// What is said of a category that is already there.
pub open spec fn already_exists(name: Seq<char>) -> Seq<char> {
    "Category '"@ + name + "' already exists"@
}

/// What is said of a category that is not there.
pub open spec fn does_not_exist(name: Seq<char>) -> Seq<char> {
    "Category '"@ + name + "' does not exist"@
}

/// What is said of a slug that the library does not list.
pub open spec fn slug_not_found(slug: Seq<char>) -> Seq<char> {
    "Category with slug '"@ + slug + "' not found"@
}

/// What is said of a category that is listed but was not opened.
pub open spec fn not_opened(slug: Seq<char>) -> Seq<char> {
    "Category file for '"@ + slug + "' does not exist"@
}

/// What is said of an entry that a category does not hold.
pub open spec fn not_in_category(name: Seq<char>) -> Seq<char> {
    "Manga not found in category '"@ + name + "'"@
}

/// The description of a new category with the given title.
pub open spec fn new_meta(name: Seq<char>) -> CategoryMetaView {
    CategoryMetaView {
        title: name,
        slug: slug_of(lowercase(name)),
        sort_by: DEFAULT_SORT_BY@,
        sort_order: DEFAULT_SORT_ORDER@,
    }
}

/// The empty category that a description stands for.
pub open spec fn empty_category(meta: CategoryMetaView) -> CategoryView {
    CategoryView {
        title: meta.title,
        slug: meta.slug,
        entries: Seq::empty(),
        sort_by: meta.sort_by,
        sort_order: meta.sort_order,
    }
}

/// The description of the category that holds every entry.
pub open spec fn all_titles_meta() -> CategoryMetaView {
    CategoryMetaView {
        title: ALL_TITLES@,
        slug: ALL_TITLES_SLUG@,
        sort_by: DEFAULT_SORT_BY@,
        sort_order: DEFAULT_SORT_ORDER@,
    }
}

/// The entries with one more, put after every entry that does not come
/// after it by title. The entries are taken to be in order.
pub open spec fn inserted_by_title(sorted: Seq<MangaEntryView>, entry: MangaEntryView) -> Seq<
    MangaEntryView,
>
    decreases sorted.len(),
{
    if sorted.len() == 0 {
        seq![entry]
    } else if text_le(sorted.last().title, entry.title) {
        sorted.push(entry)
    } else {
        inserted_by_title(sorted.drop_last(), entry).push(sorted.last())
    }
}

/// The entries in the order of their titles; entries with the same title
/// stay in the order in which they were.
pub open spec fn sorted_by_title(entries: Seq<MangaEntryView>) -> Seq<MangaEntryView>
    decreases entries.len(),
{
    if entries.len() == 0 {
        entries
    } else {
        inserted_by_title(sorted_by_title(entries.drop_last()), entries.last())
    }
}

/// Whether the first of the listed categories that holds the entry is
/// found, and what is said when a listed category was not opened before
/// one was found.
pub open spec fn found_in(
    metas: Seq<CategoryMetaView>,
    categories: Seq<CategoryView>,
    identifier: Seq<char>,
    source: Seq<char>,
) -> Result<Option<Seq<char>>, Seq<char>>
    decreases metas.len(),
{
    if metas.len() == 0 {
        Ok(None)
    } else {
        match opened(categories, metas[0].slug) {
            None => Err(not_opened(metas[0].slug)),
            Some(at) => if holds(categories[at], identifier, source) {
                Ok(Some(categories[at].title))
            } else {
                found_in(metas.drop_first(), categories, identifier, source)
            },
        }
    }
}

/// A category with what its entries become.
pub open spec fn with_entries(
    category: CategoryView,
    entries: Seq<MangaEntryView>,
) -> CategoryView {
    CategoryView { entries, ..category }
}

/// The opened categories and what is answered.
pub ghost struct Change {
    pub categories: Seq<CategoryView>,
    pub answer: Result<(), Seq<char>>,
}

/// The category that goes by a title: the first listed one with the title,
/// opened under its slug; or what is said when there is none.
pub open spec fn category_at(
    metas: Seq<CategoryMetaView>,
    categories: Seq<CategoryView>,
    name: Seq<char>,
    missing: Seq<char>,
) -> Result<int, Seq<char>> {
    match titled(metas, name) {
        None => Err(missing),
        Some(listed) => match opened(categories, metas[listed].slug) {
            None => Err(not_opened(metas[listed].slug)),
            Some(at) => Ok(at),
        },
    }
}

/// What adding an entry to a category makes of the opened categories. An
/// entry that some listed category holds already is refused. The entry is
/// put at the end of the named category. Unless that is the category of
/// every entry, the entry is also put into the category of every entry,
/// which is then sorted by title; where that category is missing, the
/// named category keeps the entry and the failure is reported.
pub open spec fn after_adding(
    metas: Seq<CategoryMetaView>,
    categories: Seq<CategoryView>,
    name: Seq<char>,
    entry: MangaEntryView,
) -> Change {
    match found_in(metas, categories, entry.identifier, entry.source) {
        Err(message) => Change { categories, answer: Err(message) },
        Ok(Some(_)) => Change { categories, answer: Err(ALREADY_IN_LIBRARY@) },
        Ok(None) => match category_at(metas, categories, name, does_not_exist(name)) {
            Err(message) => Change { categories, answer: Err(message) },
            Ok(at) => {
                let added = categories.update(
                    at,
                    with_entries(categories[at], categories[at].entries.push(entry)),
                );
                if name == ALL_TITLES@ {
                    Change { categories: added, answer: Ok(()) }
                } else {
                    match category_at(metas, added, ALL_TITLES@, NO_ALL_TITLES@) {
                        Err(message) => Change { categories: added, answer: Err(message) },
                        Ok(all) => Change {
                            categories: added.update(
                                all,
                                with_entries(
                                    added[all],
                                    sorted_by_title(added[all].entries.push(entry)),
                                ),
                            ),
                            answer: Ok(()),
                        },
                    }
                }
            },
        },
    }
}

/// The entries without the one with the given identifier and source.
pub open spec fn without(
    entries: Seq<MangaEntryView>,
    identifier: Seq<char>,
    source: Seq<char>,
) -> Seq<MangaEntryView> {
    entries.filter(|entry: MangaEntryView| !is_entry(entry, identifier, source))
}

/// What removing an entry from a category makes of the opened categories.
/// The entry leaves the named category, which must hold it, and, unless
/// that is the category of every entry, also the category of every entry
/// where the library lists one.
pub open spec fn after_removing(
    metas: Seq<CategoryMetaView>,
    categories: Seq<CategoryView>,
    name: Seq<char>,
    identifier: Seq<char>,
    source: Seq<char>,
) -> Change {
    match category_at(metas, categories, name, does_not_exist(name)) {
        Err(message) => Change { categories, answer: Err(message) },
        Ok(at) => if !holds(categories[at], identifier, source) {
            Change { categories, answer: Err(not_in_category(name)) }
        } else {
            let removed = categories.update(
                at,
                with_entries(categories[at], without(categories[at].entries, identifier, source)),
            );
            if name == ALL_TITLES@ {
                Change { categories: removed, answer: Ok(()) }
            } else {
                match titled(metas, ALL_TITLES@) {
                    None => Change { categories: removed, answer: Ok(()) },
                    Some(listed) => match opened(removed, metas[listed].slug) {
                        None => Change {
                            categories: removed,
                            answer: Err(not_opened(metas[listed].slug)),
                        },
                        Some(all) => Change {
                            categories: removed.update(
                                all,
                                with_entries(
                                    removed[all],
                                    without(removed[all].entries, identifier, source),
                                ),
                            ),
                            answer: Ok(()),
                        },
                    },
                }
            }
        },
    }
}

/// The view of an answer.
pub open spec fn answer_view(answer: Result<(), String>) -> Result<(), Seq<char>> {
    match answer {
        Ok(()) => Ok(()),
        Err(message) => Err(message@),
    }
}

/// The first place at which a listed category has the given title.
fn find_titled(metas: &Vec<CategoryMeta>, title: &str) -> (found: Option<usize>)
    ensures
        match found {
            Some(at) => titled(meta_views(metas@), title@) == Some(at as int) && at < metas@.len(),
            None => titled(meta_views(metas@), title@) is None,
        },
{
    let ghost views = meta_views(metas@);
    let ghost wanted = |meta: CategoryMetaView| meta.title == title@;
    let n = metas.len();
    let mut i: usize = 0;
    while i < n
        invariant
            n == metas@.len(),
            i <= n,
            views == meta_views(metas@),
            wanted == (|meta: CategoryMetaView| meta.title == title@),
            forall|k: int| 0 <= k < i ==> !wanted(views[k]),
        decreases n - i,
    {
        assert(views[i as int] == metas@[i as int]@);
        if same_text(metas[i].title.as_str(), title) {
            proof {
                lemma_first_index_is(views, wanted, i as int);
            }
            return Some(i);
        }
        i += 1;
    }
    proof {
        lemma_first_index_none(views, wanted);
    }
    None
}

/// The first place at which an opened category has the given slug.
fn find_opened(categories: &Vec<Category>, slug: &str) -> (found: Option<usize>)
    ensures
        match found {
            Some(at) => opened(category_views(categories@), slug@) == Some(at as int) && at
                < categories@.len(),
            None => opened(category_views(categories@), slug@) is None,
        },
{
    let ghost views = category_views(categories@);
    let ghost wanted = |category: CategoryView| category.slug == slug@;
    let n = categories.len();
    let mut i: usize = 0;
    while i < n
        invariant
            n == categories@.len(),
            i <= n,
            views == category_views(categories@),
            wanted == (|category: CategoryView| category.slug == slug@),
            forall|k: int| 0 <= k < i ==> !wanted(views[k]),
        decreases n - i,
    {
        assert(views[i as int] == categories@[i as int]@);
        if same_text(categories[i].slug.as_str(), slug) {
            proof {
                lemma_first_index_is(views, wanted, i as int);
            }
            return Some(i);
        }
        i += 1;
    }
    proof {
        lemma_first_index_none(views, wanted);
    }
    None
}

impl Category {
    /// An empty category, sorted by title.
    pub fn new(title: &str, slug: &str) -> (category: Category)
        ensures
            category@ == (CategoryView {
                title: title@,
                slug: slug@,
                entries: Seq::empty(),
                sort_by: DEFAULT_SORT_BY@,
                sort_order: DEFAULT_SORT_ORDER@,
            }),
    {
        let category = Category {
            title: String::from_str(title),
            slug: String::from_str(slug),
            entries: Vec::new(),
            sort_by: String::from_str(DEFAULT_SORT_BY),
            sort_order: String::from_str(DEFAULT_SORT_ORDER),
        };
        assert(entry_views(category.entries@) =~= Seq::<MangaEntryView>::empty());
        category
    }

    /// Whether the category holds the entry with the given identifier and
    /// source.
    pub fn contains(&self, identifier: &str, source: &str) -> (found: bool)
        ensures
            found == holds(self@, identifier@, source@),
    {
        let ghost views = entry_views(self.entries@);
        let ghost wanted = |entry: MangaEntryView| is_entry(entry, identifier@, source@);
        let n = self.entries.len();
        let mut i: usize = 0;
        while i < n
            invariant
                n == self.entries@.len(),
                i <= n,
                views == entry_views(self.entries@),
                wanted == (|entry: MangaEntryView| is_entry(entry, identifier@, source@)),
                forall|k: int| 0 <= k < i ==> !wanted(views[k]),
            decreases n - i,
        {
            assert(views[i as int] == self.entries@[i as int]@);
            if same_text(self.entries[i].identifier.as_str(), identifier) && same_text(
                self.entries[i].source.as_str(),
                source,
            ) {
                proof {
                    lemma_first_index_is(views, wanted, i as int);
                }
                return true;
            }
            i += 1;
        }
        proof {
            lemma_first_index_none(views, wanted);
        }
        false
    }

    /// Takes out every entry with the given identifier and source.
    pub fn remove(&mut self, identifier: &str, source: &str)
        ensures
            final(self)@ == with_entries(
                old(self)@,
                without(old(self)@.entries, identifier@, source@),
            ),
    {
        let ghost before = entry_views(self.entries@);
        let ghost staying = |entry: MangaEntryView| !is_entry(entry, identifier@, source@);
        let mut i: usize = 0;
        let ghost mut done: int = 0;
        proof {
            reveal(Seq::filter);
            assert(before.take(0) =~= Seq::<MangaEntryView>::empty());
            assert(before.skip(0) =~= before);
            assert(entry_views(self.entries@) =~= before.take(0).filter(staying) + before.skip(0));
        }
        while i < self.entries.len()
            invariant
                0 <= done <= before.len(),
                staying == (|entry: MangaEntryView| !is_entry(entry, identifier@, source@)),
                i == before.take(done).filter(staying).len(),
                entry_views(self.entries@) == before.take(done).filter(staying) + before.skip(done),
                self.title == old(self).title,
                self.slug == old(self).slug,
                self.sort_by == old(self).sort_by,
                self.sort_order == old(self).sort_order,
            decreases before.len() - done,
        {
            let ghost kept = before.take(done).filter(staying);
            proof {
                reveal(Seq::filter);
                assert(entry_views(self.entries@).len() == self.entries@.len());
                assert(entry_views(self.entries@)[i as int] == before.skip(done)[0]);
                assert(entry_views(self.entries@)[i as int] == self.entries@[i as int]@);
                assert(before.take(done + 1).drop_last() =~= before.take(done));
                assert(before.take(done + 1).last() == before[done]);
            }
            if same_text(self.entries[i].identifier.as_str(), identifier) && same_text(
                self.entries[i].source.as_str(),
                source,
            ) {
                let ghost entries_before = self.entries@;
                self.entries.remove(i);
                proof {
                    assert(entry_views(self.entries@) =~= entry_views(entries_before).remove(
                        i as int,
                    ));
                    assert(entry_views(self.entries@) =~= kept + before.skip(done + 1));
                }
            } else {
                i += 1;
                proof {
                    assert(entry_views(self.entries@) =~= kept.push(before[done]) + before.skip(
                        done + 1,
                    ));
                }
            }
            proof {
                done = done + 1;
            }
        }
        proof {
            assert(entry_views(self.entries@).len() == self.entries@.len());
            assert(before.take(done) =~= before);
            assert(before.skip(done) =~= Seq::<MangaEntryView>::empty());
            assert(entry_views(self.entries@) =~= before.filter(staying));
        }
    }

    /// Puts an entry at the end of the category.
    pub fn push(&mut self, entry: Arc<MangaEntry>)
        ensures
            final(self)@ == with_entries(old(self)@, old(self)@.entries.push(entry@)),
    {
        let ghost before = self.entries@;
        self.entries.push(entry);
        assert(entry_views(self.entries@) =~= entry_views(before).push(entry@));
    }

    /// Puts the entries in the order of their titles. Entries with the same
    /// title stay in the order in which they were.
    pub fn sort_by_title(&mut self)
        ensures
            final(self)@ == with_entries(old(self)@, sorted_by_title(old(self)@.entries)),
    {
        let ghost before = entry_views(self.entries@);
        let n = self.entries.len();
        let mut sorted: Vec<Arc<MangaEntry>> = Vec::new();
        let mut i: usize = 0;
        assert(before.take(0) =~= Seq::<MangaEntryView>::empty());
        assert(entry_views(sorted@) =~= sorted_by_title(before.take(0)));
        while i < n
            invariant
                n == self.entries@.len(),
                i <= n,
                before == entry_views(self.entries@),
                entry_views(sorted@) == sorted_by_title(before.take(i as int)),
            decreases n - i,
        {
            let entry = share(&self.entries[i]);
            proof {
                assert(before.take(i + 1).drop_last() =~= before.take(i as int));
                assert(before.take(i + 1).last() == entry@);
                assert(before[i as int] == self.entries@[i as int]@);
            }
            insert_by_title(&mut sorted, entry);
            i += 1;
        }
        assert(before.take(n as int) =~= before);
        self.entries = sorted;
    }
}

/// Puts an entry after every entry that does not come after it by title.
fn insert_by_title(sorted: &mut Vec<Arc<MangaEntry>>, entry: Arc<MangaEntry>)
    ensures
        entry_views(final(sorted)@) == inserted_by_title(entry_views(old(sorted)@), entry@),
{
    let ghost views = entry_views(sorted@);
    let mut at = sorted.len();
    assert(views.take(at as int) =~= views);
    assert(views.skip(at as int) =~= Seq::<MangaEntryView>::empty());
    assert(inserted_by_title(views, entry@) =~= inserted_by_title(views.take(at as int), entry@)
        + views.skip(at as int));
    while at > 0 && !comes_first_or_same(sorted[at - 1].title.as_str(), entry.title.as_str())
        invariant
            at <= sorted@.len(),
            sorted@ == old(sorted)@,
            views == entry_views(sorted@),
            inserted_by_title(views, entry@) == inserted_by_title(views.take(at as int), entry@)
                + views.skip(at as int),
        decreases at,
    {
        proof {
            let front = views.take(at as int);
            assert(front.last() == sorted@[at - 1]@);
            assert(front.drop_last() =~= views.take(at - 1));
            assert(inserted_by_title(front, entry@) == inserted_by_title(
                views.take(at - 1),
                entry@,
            ).push(front.last()));
            assert(inserted_by_title(views.take(at - 1), entry@).push(front.last()) + views.skip(
                at as int,
            ) =~= inserted_by_title(views.take(at - 1), entry@) + views.skip(at - 1));
        }
        at -= 1;
    }
    proof {
        let front = views.take(at as int);
        if at > 0 {
            assert(front.last() == sorted@[at - 1]@);
            assert(inserted_by_title(front, entry@) == front.push(entry@));
        } else {
            assert(inserted_by_title(front, entry@) =~= seq![entry@]);
        }
        assert(inserted_by_title(front, entry@) + views.skip(at as int) =~= views.insert(
            at as int,
            entry@,
        ));
    }
    let ghost before = sorted@;
    sorted.insert(at, entry);
    assert(entry_views(sorted@) =~= entry_views(before).insert(at as int, entry@));
}

/// The place of the category that goes by a title among the opened ones.
fn find_category(
    metas: &Vec<CategoryMeta>,
    categories: &Vec<Category>,
    name: &str,
    missing: String,
) -> (found: Result<usize, String>)
    ensures
        match found {
            Ok(at) => category_at(
                meta_views(metas@),
                category_views(categories@),
                name@,
                missing@,
            ) == Ok::<int, Seq<char>>(at as int) && at < categories@.len(),
            Err(message) => category_at(
                meta_views(metas@),
                category_views(categories@),
                name@,
                missing@,
            ) == Err::<int, Seq<char>>(message@),
        },
{
    let listed = match find_titled(metas, name) {
        Some(listed) => listed,
        None => { return Err(missing); },
    };
    assert(meta_views(metas@)[listed as int] == metas@[listed as int]@);
    match find_opened(categories, metas[listed].slug.as_str()) {
        Some(at) => Ok(at),
        None => Err(not_opened_message(metas[listed].slug.as_str())),
    }
}

/// What is said of a category that is listed but was not opened.
fn not_opened_message(slug: &str) -> (message: String)
    ensures
        message@ == not_opened(slug@),
{
    String::from_str("Category file for '").concat(slug).concat("' does not exist")
}

/// The name of the file that holds the category with the given slug.
pub fn category_file_name(category_slug: &str) -> (name: String)
    ensures
        name@ == category_slug@ + ".json"@,
{
    String::from_str(category_slug).concat(".json")
}

/// Whether a request to remove an entry says what to remove: none of the
/// three texts may be empty or all whitespace.
pub fn check_removal_request(category_name: &str, manga_id: &str, manga_source: &str) -> (checked:
    Result<(), String>)
    ensures
        checked is Ok <==> trimmed(category_name@).len() > 0 && trimmed(manga_id@).len() > 0
            && trimmed(manga_source@).len() > 0,
        checked matches Err(message) ==> message@ == INCOMPLETE_REMOVAL@,
{
    if trim(category_name).as_str().is_empty() || trim(manga_id).as_str().is_empty() || trim(
        manga_source,
    ).as_str().is_empty() {
        Err(String::from_str(INCOMPLETE_REMOVAL))
    } else {
        Ok(())
    }
}

impl Library {
    /// A library without categories.
    pub fn new() -> (library: Library)
        ensures
            library@ == Seq::<CategoryMetaView>::empty(),
    {
        let library = Library { categories: Vec::new() };
        assert(library@ =~= Seq::<CategoryMetaView>::empty());
        library
    }

    /// The library that a new installation starts with, and its one
    /// category, which holds every entry.
    pub fn create_default() -> (made: (Library, Category))
        ensures
            made.0@ == seq![all_titles_meta()],
            made.1@ == empty_category(all_titles_meta()),
    {
        let meta = CategoryMeta {
            title: String::from_str(ALL_TITLES),
            slug: String::from_str(ALL_TITLES_SLUG),
            sort_by: String::from_str(DEFAULT_SORT_BY),
            sort_order: String::from_str(DEFAULT_SORT_ORDER),
        };
        let category = Category::new(ALL_TITLES, ALL_TITLES_SLUG);
        let mut library = Library::new();
        let ghost view = meta@;
        library.categories.push(meta);
        assert(library@ =~= seq![view]);
        (library, category)
    }

    /// Lists a new category under the given title and returns it, empty.
    /// Its slug is made from the title. A title that is listed already is
    /// refused.
    pub fn create_category(&mut self, category_name: &str) -> (created: Result<Category, String>)
        ensures
            match titled(old(self)@, category_name@) {
                Some(_) => final(self)@ == old(self)@ && (created matches Err(message) && message@
                    == already_exists(category_name@)),
                None => final(self)@ == old(self)@.push(new_meta(category_name@)) && (
                created matches Ok(category) && category@ == empty_category(
                    new_meta(category_name@),
                )),
            },
    {
        if find_titled(&self.categories, category_name).is_some() {
            return Err(
                String::from_str("Category '").concat(category_name).concat("' already exists"),
            );
        }
        let slug = slugify(category_name);
        let category = Category::new(category_name, slug.as_str());
        let meta = CategoryMeta {
            title: String::from_str(category_name),
            slug,
            sort_by: String::from_str(DEFAULT_SORT_BY),
            sort_order: String::from_str(DEFAULT_SORT_ORDER),
        };
        let ghost before = self.categories@;
        let ghost view = meta@;
        self.categories.push(meta);
        assert(self@ =~= meta_views(before).push(view));
        Ok(category)
    }

    /// Whether the library lists a category with the given slug; where it
    /// lists none, what is said of that.
    pub fn load_category_by_slug(&self, slug: &str) -> (listed: Result<(), String>)
        ensures
            listed is Ok <==> first_index(self@, |meta: CategoryMetaView| meta.slug == slug@)
                is Some,
            listed matches Err(message) ==> message@ == slug_not_found(slug@),
    {
        let ghost wanted = |meta: CategoryMetaView| meta.slug == slug@;
        let n = self.categories.len();
        let mut i: usize = 0;
        while i < n
            invariant
                n == self.categories@.len(),
                i <= n,
                wanted == (|meta: CategoryMetaView| meta.slug == slug@),
                forall|k: int| 0 <= k < i ==> !wanted(self@[k]),
            decreases n - i,
        {
            assert(self@[i as int] == self.categories@[i as int]@);
            if same_text(self.categories[i].slug.as_str(), slug) {
                proof {
                    lemma_first_index_is(self@, wanted, i as int);
                }
                return Ok(());
            }
            i += 1;
        }
        proof {
            lemma_first_index_none(self@, wanted);
        }
        Err(String::from_str("Category with slug '").concat(slug).concat("' not found"))
    }

    /// The title of the first listed category that holds the entry, among
    /// the opened categories; `None` where no listed category holds it. A
    /// listed category that was not opened before one was found is a
    /// failure.
    pub fn locate(&self, categories: &Vec<Category>, identifier: &str, source: &str) -> (found:
        Result<Option<String>, String>)
        ensures
            match found_in(self@, category_views(categories@), identifier@, source@) {
                Ok(Some(title)) => found matches Ok(Some(t)) && t@ == title,
                Ok(None) => found matches Ok(None),
                Err(message) => found matches Err(m) && m@ == message,
            },
    {
        let ghost opened_views = category_views(categories@);
        let n = self.categories.len();
        let mut i: usize = 0;
        assert(self@.skip(0) =~= self@);
        while i < n
            invariant
                n == self.categories@.len(),
                i <= n,
                opened_views == category_views(categories@),
                found_in(self@, opened_views, identifier@, source@) == found_in(
                    self@.skip(i as int),
                    opened_views,
                    identifier@,
                    source@,
                ),
            decreases n - i,
        {
            proof {
                assert(self@.skip(i as int)[0] == self.categories@[i as int]@);
                assert(self@.skip(i as int).drop_first() =~= self@.skip(i + 1));
            }
            let at = match find_opened(categories, self.categories[i].slug.as_str()) {
                Some(at) => at,
                None => {
                    return Err(not_opened_message(self.categories[i].slug.as_str()));
                },
            };
            assert(opened_views[at as int] == categories@[at as int]@);
            if categories[at].contains(identifier, source) {
                return Ok(Some(categories[at].title.clone()));
            }
            i += 1;
        }
        Ok(None)
    }

    /// Whether some listed category holds the entry.
    pub fn manga_exists(&self, categories: &Vec<Category>, manga_entry: &MangaEntry) -> (found:
        Result<bool, String>)
        ensures
            match found_in(
                self@,
                category_views(categories@),
                manga_entry@.identifier,
                manga_entry@.source,
            ) {
                Ok(place) => found == Ok::<bool, String>(place is Some),
                Err(message) => found matches Err(m) && m@ == message,
            },
    {
        match self.locate(
            categories,
            manga_entry.identifier.as_str(),
            manga_entry.source.as_str(),
        ) {
            Ok(place) => Ok(place.is_some()),
            Err(message) => Err(message),
        }
    }

    /// The title of the first listed category that holds the entry. It is
    /// a failure if none holds it.
    pub fn find_category_for_manga(
        &self,
        categories: &Vec<Category>,
        manga_entry: &MangaEntry,
    ) -> (found: Result<String, String>)
        ensures
            match found_in(
                self@,
                category_views(categories@),
                manga_entry@.identifier,
                manga_entry@.source,
            ) {
                Ok(Some(title)) => found matches Ok(t) && t@ == title,
                Ok(None) => found matches Err(m) && m@ == IN_NO_CATEGORY@,
                Err(message) => found matches Err(m) && m@ == message,
            },
    {
        match self.locate(
            categories,
            manga_entry.identifier.as_str(),
            manga_entry.source.as_str(),
        ) {
            Ok(Some(title)) => Ok(title),
            Ok(None) => Err(String::from_str(IN_NO_CATEGORY)),
            Err(message) => Err(message),
        }
    }

    /// Adds an entry to the category with the given title and, unless that
    /// is the category of every entry, to the category of every entry as
    /// well, which is then sorted by title. An entry that the library holds
    /// already is refused.
    pub fn add_manga(
        &self,
        categories: &mut Vec<Category>,
        category_name: &str,
        manga_entry: Arc<MangaEntry>,
    ) -> (added: Result<(), String>)
        ensures
            category_views(final(categories)@) == after_adding(
                self@,
                category_views(old(categories)@),
                category_name@,
                manga_entry@,
            ).categories,
            answer_view(added) == after_adding(
                self@,
                category_views(old(categories)@),
                category_name@,
                manga_entry@,
            ).answer,
    {
        match self.manga_exists(categories, &manga_entry) {
            Err(message) => { return Err(message); },
            Ok(true) => { return Err(String::from_str(ALREADY_IN_LIBRARY)); },
            Ok(false) => {},
        }
        let missing = String::from_str("Category '").concat(category_name).concat(
            "' does not exist",
        );
        let at = match find_category(&self.categories, categories, category_name, missing) {
            Ok(at) => at,
            Err(message) => { return Err(message); },
        };
        let ghost before = category_views(categories@);
        let mut category = categories.remove(at);
        category.push(share(&manga_entry));
        let ghost first = category@;
        categories.insert(at, category);
        assert(category_views(categories@) =~= before.update(at as int, first));
        if same_text(category_name, ALL_TITLES) {
            return Ok(());
        }
        let all = match find_category(
            &self.categories,
            categories,
            ALL_TITLES,
            String::from_str(NO_ALL_TITLES),
        ) {
            Ok(all) => all,
            Err(message) => { return Err(message); },
        };
        let ghost added = category_views(categories@);
        let mut all_titles = categories.remove(all);
        all_titles.push(manga_entry);
        all_titles.sort_by_title();
        let ghost second = all_titles@;
        categories.insert(all, all_titles);
        assert(category_views(categories@) =~= added.update(all as int, second));
        Ok(())
    }

    /// Removes the entry with the given identifier and source from the
    /// category with the given title, which must hold it, and, unless that
    /// is the category of every entry, from the category of every entry as
    /// well.
    pub fn remove_manga(
        &self,
        categories: &mut Vec<Category>,
        category_name: &str,
        manga_id: &str,
        manga_source: &str,
    ) -> (removed: Result<(), String>)
        ensures
            category_views(final(categories)@) == after_removing(
                self@,
                category_views(old(categories)@),
                category_name@,
                manga_id@,
                manga_source@,
            ).categories,
            answer_view(removed) == after_removing(
                self@,
                category_views(old(categories)@),
                category_name@,
                manga_id@,
                manga_source@,
            ).answer,
    {
        let missing = String::from_str("Category '").concat(category_name).concat(
            "' does not exist",
        );
        let at = match find_category(&self.categories, categories, category_name, missing) {
            Ok(at) => at,
            Err(message) => { return Err(message); },
        };
        let ghost before = category_views(categories@);
        assert(before[at as int] == categories@[at as int]@);
        if !categories[at].contains(manga_id, manga_source) {
            return Err(
                String::from_str("Manga not found in category '").concat(category_name).concat(
                    "'",
                ),
            );
        }
        let mut category = categories.remove(at);
        category.remove(manga_id, manga_source);
        let ghost first = category@;
        categories.insert(at, category);
        assert(category_views(categories@) =~= before.update(at as int, first));
        if same_text(category_name, ALL_TITLES) {
            return Ok(());
        }
        let listed = match find_titled(&self.categories, ALL_TITLES) {
            Some(listed) => listed,
            None => { return Ok(()); },
        };
        assert(self@[listed as int] == self.categories@[listed as int]@);
        let all = match find_opened(categories, self.categories[listed].slug.as_str()) {
            Some(all) => all,
            None => {
                return Err(not_opened_message(self.categories[listed].slug.as_str()));
            },
        };
        let ghost without_first = category_views(categories@);
        let mut all_titles = categories.remove(all);
        all_titles.remove(manga_id, manga_source);
        let ghost second = all_titles@;
        categories.insert(all, all_titles);
        assert(category_views(categories@) =~= without_first.update(all as int, second));
        Ok(())
    }
}

/// Whether the entries are in the order of their titles.
pub open spec fn in_title_order(entries: Seq<MangaEntryView>) -> bool {
    forall|i: int, j: int|
        0 <= i < j < entries.len() ==> text_le(
            (#[trigger] entries[i]).title,
            (#[trigger] entries[j]).title,
        )
}

/// Putting an entry into entries that are in order leaves them in order,
/// and adds that entry and nothing else.
pub proof fn lemma_inserted_by_title(sorted: Seq<MangaEntryView>, entry: MangaEntryView)
    requires
        in_title_order(sorted),
    ensures
        in_title_order(inserted_by_title(sorted, entry)),
        inserted_by_title(sorted, entry).to_multiset() == sorted.to_multiset().insert(entry),
        inserted_by_title(sorted, entry).len() == sorted.len() + 1,
    decreases sorted.len(),
{
    broadcast use vstd::seq_lib::group_to_multiset_ensures;

    let after = inserted_by_title(sorted, entry);
    if sorted.len() == 0 {
        assert(sorted =~= Seq::<MangaEntryView>::empty());
        assert(after =~= Seq::<MangaEntryView>::empty().push(entry));
    } else if text_le(sorted.last().title, entry.title) {
        assert forall|i: int, j: int| 0 <= i < j < after.len() implies text_le(
            (#[trigger] after[i]).title,
            (#[trigger] after[j]).title,
        ) by {
            if j == sorted.len() && i < sorted.len() - 1 {
                assert(text_le(sorted[i].title, sorted[sorted.len() - 1].title));
                lemma_text_le_transitive(sorted[i].title, sorted.last().title, entry.title);
            }
        }
    } else {
        let front = sorted.drop_last();
        let last = sorted.last();
        assert(in_title_order(front)) by {
            assert forall|i: int, j: int| 0 <= i < j < front.len() implies text_le(
                (#[trigger] front[i]).title,
                (#[trigger] front[j]).title,
            ) by {
                assert(front[i] == sorted[i] && front[j] == sorted[j]);
            }
        }
        lemma_inserted_by_title(front, entry);
        let before = inserted_by_title(front, entry);
        lemma_text_le_total(last.title, entry.title);
        assert(sorted =~= front.push(last));
        assert forall|i: int, j: int| 0 <= i < j < after.len() implies text_le(
            (#[trigger] after[i]).title,
            (#[trigger] after[j]).title,
        ) by {
            if j == before.len() {
                assert(before.to_multiset().count(before[i]) > 0);
                if before[i] != entry {
                    assert(front.to_multiset().count(before[i]) > 0);
                    let k = choose|k: int| 0 <= k < front.len() && front[k] == before[i];
                    assert(sorted[k] == before[i]);
                    assert(text_le(sorted[k].title, sorted[sorted.len() - 1].title));
                }
            } else {
                assert(after[i] == before[i] && after[j] == before[j]);
            }
        }
    }
}

/// Sorting by title puts the entries in the order of their titles and
/// neither adds nor loses an entry.
pub proof fn lemma_sorted_by_title(entries: Seq<MangaEntryView>)
    ensures
        in_title_order(sorted_by_title(entries)),
        sorted_by_title(entries).to_multiset() == entries.to_multiset(),
        sorted_by_title(entries).len() == entries.len(),
    decreases entries.len(),
{
    broadcast use vstd::seq_lib::group_to_multiset_ensures;

    if entries.len() > 0 {
        lemma_sorted_by_title(entries.drop_last());
        lemma_inserted_by_title(sorted_by_title(entries.drop_last()), entries.last());
        assert(entries =~= entries.drop_last().push(entries.last()));
    }
}

} // verus!
