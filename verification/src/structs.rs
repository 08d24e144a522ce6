//! The records that sources produce: listing entries, series, pages.

use std::sync::Arc;
use vstd::prelude::*;
use crate::text::texts;

verus! {

/// The summary of one item of a listing.
#[derive(Debug)]
pub struct MangaEntry {
    /// The source that the item comes from.
    pub source: String,
    /// The key of the item within its source.
    pub identifier: String,
    /// The display name, by which a listing is keyed.
    pub title: String,
    pub cover_url: String,
}

pub ghost struct MangaEntryView {
    pub source: Seq<char>,
    pub identifier: Seq<char>,
    pub title: Seq<char>,
    pub cover_url: Seq<char>,
}

impl View for MangaEntry {
    type V = MangaEntryView;

    open spec fn view(&self) -> MangaEntryView {
        MangaEntryView {
            source: self.source@,
            identifier: self.identifier@,
            title: self.title@,
            cover_url: self.cover_url@,
        }
    }
}

impl Clone for MangaEntry {
    fn clone(&self) -> (copy: MangaEntry)
        ensures
            copy@ == self@,
    {
        MangaEntry {
            source: self.source.clone(),
            identifier: self.identifier.clone(),
            title: self.title.clone(),
            cover_url: self.cover_url.clone(),
        }
    }
}

/// One chapter of a series, as its page lists it.
#[derive(Debug)]
pub struct ChapterEntry {
    pub title: String,
    pub url: String,
    /// How long ago the chapter came out, in the site's own words.
    pub released_since: String,
}

pub ghost struct ChapterEntryView {
    pub title: Seq<char>,
    pub url: Seq<char>,
    pub released_since: Seq<char>,
}

impl View for ChapterEntry {
    type V = ChapterEntryView;

    open spec fn view(&self) -> ChapterEntryView {
        ChapterEntryView {
            title: self.title@,
            url: self.url@,
            released_since: self.released_since@,
        }
    }
}

/// The full record of one series.
#[derive(Debug)]
pub struct Manga {
    pub identifier: String,
    pub title: String,
    pub artists: Vec<String>,
    pub authors: Vec<String>,
    pub genres: Vec<String>,
    pub description: String,
    pub cover_url: String,
    pub chapters: Vec<ChapterEntry>,
}

pub ghost struct MangaView {
    pub identifier: Seq<char>,
    pub title: Seq<char>,
    pub artists: Seq<Seq<char>>,
    pub authors: Seq<Seq<char>>,
    pub genres: Seq<Seq<char>>,
    pub description: Seq<char>,
    pub cover_url: Seq<char>,
    pub chapters: Seq<ChapterEntryView>,
}

/// The views of a sequence of chapters.
pub open spec fn chapter_views(chapters: Seq<ChapterEntry>) -> Seq<ChapterEntryView> {
    chapters.map_values(|c: ChapterEntry| c@)
}

/// The views of a sequence of shared listing entries.
pub open spec fn entry_views(entries: Seq<Arc<MangaEntry>>) -> Seq<MangaEntryView> {
    entries.map_values(|e: Arc<MangaEntry>| e@)
}

impl View for Manga {
    type V = MangaView;

    open spec fn view(&self) -> MangaView {
        MangaView {
            identifier: self.identifier@,
            title: self.title@,
            artists: texts(self.artists@),
            authors: texts(self.authors@),
            genres: texts(self.genres@),
            description: self.description@,
            cover_url: self.cover_url@,
            chapters: chapter_views(self.chapters@),
        }
    }
}

/// The pages of one chapter.
#[derive(Debug)]
pub struct Chapter {
    pub id: String,
    pub url: String,
    pub pages: Vec<String>,
}

/// A named group of listing entries, such as the popular releases.
#[derive(Debug)]
pub struct ExploreSection {
    pub title: String,
    pub entries: Vec<Arc<MangaEntry>>,
}

pub ghost struct ExploreSectionView {
    pub title: Seq<char>,
    pub entries: Seq<MangaEntryView>,
}

impl View for ExploreSection {
    type V = ExploreSectionView;

    open spec fn view(&self) -> ExploreSectionView {
        ExploreSectionView { title: self.title@, entries: entry_views(self.entries@) }
    }
}

/// The sections that one source shows, in the order they were asked for.
#[derive(Debug)]
pub struct ExplorePage {
    pub source: String,
    pub sections: Vec<ExploreSection>,
}

pub ghost struct ExplorePageView {
    pub source: Seq<char>,
    pub sections: Seq<ExploreSectionView>,
}

/// The views of a sequence of sections.
pub open spec fn section_views(sections: Seq<ExploreSection>) -> Seq<ExploreSectionView> {
    sections.map_values(|s: ExploreSection| s@)
}

impl View for ExplorePage {
    type V = ExplorePageView;

    open spec fn view(&self) -> ExplorePageView {
        ExplorePageView { source: self.source@, sections: section_views(self.sections@) }
    }
}

} // verus!
