//! The pages of a source with the fixed limits of its front page.

use vstd::prelude::*;
use vstd::string::StringExecFns;
use crate::handler::{
    get_explore_page, is_supported, page_resolution, page_views, told, EXPLORE_LATEST_LIMIT,
    EXPLORE_POPULAR_LIMIT,
};
use crate::parser::SOURCE_NAME;
use crate::resolver::EntryCache;
use crate::structs::ExplorePage;
use crate::text::same_text;

verus! {

/// What is said of a name that no source goes by.
pub open spec fn unsupported(source: Seq<char>) -> Seq<char> {
    "Unsupported source: "@ + source
}

/// The pages of the source that goes by the given name, with the fixed
/// limits of its front page. A failure comes as its message; a name that no
/// source goes by is refused and leaves the cache as it was.
pub fn load_explore_pages(
    cache: &mut EntryCache,
    source: &str,
    html_content: &str,
    now: u64,
) -> (loaded: Result<Vec<ExplorePage>, String>)
    requires
        old(cache).wf(),
    ensures
        final(cache).wf(),
        final(cache).capacity_of() == old(cache).capacity_of(),
        final(cache).time_to_live_of() == old(cache).time_to_live_of(),
        !is_supported(source@) ==> final(cache)@ == old(cache)@ && (loaded matches Err(message)
            && message@ == unsupported(source@)),
        is_supported(source@) ==> ({
            let built = page_resolution(
                old(cache)@,
                old(cache).capacity_of(),
                old(cache).time_to_live_of(),
                now,
                html_content@,
                EXPLORE_POPULAR_LIMIT as nat,
                EXPLORE_LATEST_LIMIT as nat,
            );
            &&& final(cache)@ == built.slots
            &&& match told(built.result) {
                Ok(page) => loaded matches Ok(pages) && page_views(pages@) == seq![page],
                Err(refusal) => loaded matches Err(message) && message@ == refusal,
            }
        }),
{
    if same_text(source, SOURCE_NAME) {
        let page = match get_explore_page(cache, html_content, now) {
            Ok(page) => page,
            Err(message) => { return Err(message); },
        };
        let ghost view = page@;
        let mut pages: Vec<ExplorePage> = Vec::new();
        pages.push(page);
        assert(page_views(pages@) =~= seq![view]);
        Ok(pages)
    } else {
        Err(String::from_str("Unsupported source: ").concat(source))
    }
}

} // verus!
