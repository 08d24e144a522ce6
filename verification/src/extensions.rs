//! The installed extensions and what they tell of themselves.

use vstd::prelude::*;
use vstd::string::StringExecFns;
use crate::search::{first_index, lemma_first_index_is, lemma_first_index_none};
use crate::text::same_text;

verus! {

/// The language that an extension serves.
#[derive(Debug)]
pub struct Language {
    pub key: String,
    pub name: String,
    pub flag_code: String,
    pub iso639_1: String,
}

/// What an extension says it can do.
#[derive(Debug, Clone, Copy, PartialEq, Eq, Structural)]
pub struct Capabilities {
    pub search: bool,
    pub home_sections: bool,
    pub manga_details: bool,
    pub chapter_reading: bool,
    pub manga_tracking: bool,
}

/// One setting that an extension offers.
#[derive(Debug)]
pub struct Setting {
    pub key: String,
    pub name: String,
    pub description: String,
    pub setting_type: String,
    pub default: serde_json::Value,
}

/// What an extension tells of itself.
#[derive(Debug)]
pub struct ExtensionMetadata {
    pub name: String,
    pub version: String,
    pub description: String,
    pub author: String,
    pub homepage_url: String,
    pub icon_url: String,
    pub language: Language,
    pub intents: Vec<String>,
    pub content_rating: String,
    pub capabilities: Capabilities,
    pub settings: Vec<Setting>,
}

/// An installed extension.
#[derive(Debug)]
pub struct Extension {
    pub name: String,
    pub slug: String,
    pub version: String,
    pub repository: String,
    /// What the extension tells of itself, where that could be read.
    pub metadata: Option<ExtensionMetadata>,
}

/// The installed extensions, in the order in which they were added.
#[derive(Debug)]
pub struct ExtensionManager {
    pub extensions: Vec<Extension>,
}

/// The key of the language of extensions that serve every language.
pub const MULTI: &'static str = "Multi";

/// What must be found in the directory of an extension.
pub const REQUIRED_PATHS: [&'static str; 3] = ["src", "Cargo.toml", "metadata.json"];

/// Whether the capabilities hold the one that goes by the given name. A
/// name that no capability goes by holds of none.
pub open spec fn capable_of(capabilities: Capabilities, capability: Seq<char>) -> bool {
    if capability == "search"@ {
        capabilities.search
    } else if capability == "home_sections"@ {
        capabilities.home_sections
    } else if capability == "manga_details"@ {
        capabilities.manga_details
    } else if capability == "chapter_reading"@ {
        capabilities.chapter_reading
    } else if capability == "manga_tracking"@ {
        capabilities.manga_tracking
    } else {
        false
    }
}

/// What is said of an extension that is installed already.
pub open spec fn already_installed(slug: Seq<char>) -> Seq<char> {
    "Extension '"@ + slug + "' already exists"@
}

/// What is said of an extension that is not installed.
pub open spec fn not_installed(slug: Seq<char>) -> Seq<char> {
    "Extension '"@ + slug + "' not found"@
}

impl Capabilities {
    /// Whether the capabilities hold the one that goes by the given name.
    pub fn has(&self, capability: &str) -> (held: bool)
        ensures
            held == capable_of(*self, capability@),
    {
        if same_text(capability, "search") {
            self.search
        } else if same_text(capability, "home_sections") {
            self.home_sections
        } else if same_text(capability, "manga_details") {
            self.manga_details
        } else if same_text(capability, "chapter_reading") {
            self.chapter_reading
        } else if same_text(capability, "manga_tracking") {
            self.manga_tracking
        } else {
            false
        }
    }
}

impl Extension {
    /// Whether the extension says it has the capability. An extension that
    /// tells nothing of itself has none.
    pub open spec fn capable(&self, capability: Seq<char>) -> bool {
        match self.metadata {
            Some(metadata) => capable_of(metadata.capabilities, capability),
            None => false,
        }
    }

    /// Whether the extension serves the language: its own language is that
    /// one, or it serves every language.
    pub open spec fn serves(&self, language_key: Seq<char>) -> bool {
        match self.metadata {
            Some(metadata) => metadata.language.key@ == language_key || metadata.language.key@
                == MULTI@,
            None => false,
        }
    }

    /// An extension of which nothing else is known yet.
    pub fn new(name: String, slug: String, version: String, repository: String) -> (extension:
        Extension)
        ensures
            extension == (Extension { name, slug, version, repository, metadata: None }),
    {
        Extension { name, slug, version, repository, metadata: None }
    }

    /// Whether the extension says it has the capability.
    pub fn has_capability(&self, capability: &str) -> (held: bool)
        ensures
            held == self.capable(capability@),
    {
        match &self.metadata {
            Some(metadata) => metadata.capabilities.has(capability),
            None => false,
        }
    }

    /// The first setting of the extension with the given key.
    pub fn get_setting(&self, key: &str) -> (found: Option<&Setting>)
        ensures
            match self.metadata {
                Some(metadata) => match first_index(
                    metadata.settings@,
                    |setting: Setting| setting.key@ == key@,
                ) {
                    Some(at) => found == Some(&metadata.settings@[at]),
                    None => found is None,
                },
                None => found is None,
            },
    {
        let metadata = match &self.metadata {
            Some(metadata) => metadata,
            None => { return None; },
        };
        let ghost wanted = |setting: Setting| setting.key@ == key@;
        let n = metadata.settings.len();
        let mut i: usize = 0;
        while i < n
            invariant
                self.metadata == Some(*metadata),
                n == metadata.settings@.len(),
                i <= n,
                wanted == (|setting: Setting| setting.key@ == key@),
                forall|k: int| 0 <= k < i ==> !wanted(metadata.settings@[k]),
            decreases n - i,
        {
            if same_text(metadata.settings[i].key.as_str(), key) {
                proof {
                    lemma_first_index_is(metadata.settings@, wanted, i as int);
                }
                return Some(&metadata.settings[i]);
            }
            i += 1;
        }
        proof {
            lemma_first_index_none(metadata.settings@, wanted);
        }
        None
    }

    /// Whether the extension serves the language.
    pub fn supports_language(&self, language_key: &str) -> (served: bool)
        ensures
            served == self.serves(language_key@),
    {
        match &self.metadata {
            Some(metadata) => same_text(metadata.language.key.as_str(), language_key) || same_text(
                metadata.language.key.as_str(),
                MULTI,
            ),
            None => false,
        }
    }
}

/// The place of the first extension with the given slug.
pub open spec fn installed_at(extensions: Seq<Extension>, slug: Seq<char>) -> Option<int> {
    first_index(extensions, |extension: Extension| extension.slug@ == slug)
}

/// The extensions that a sequence of references points to.
pub open spec fn pointed_to(found: Seq<&Extension>) -> Seq<Extension> {
    found.map_values(|extension: &Extension| *extension)
}

/// The extension with what it tells of itself replaced, and its version and
/// repository where new ones are given.
pub open spec fn refreshed(
    extension: Extension,
    version: Option<String>,
    repository: Option<String>,
    metadata: Option<ExtensionMetadata>,
) -> Extension {
    Extension {
        version: match version {
            Some(v) => v,
            None => extension.version,
        },
        repository: match repository {
            Some(r) => r,
            None => extension.repository,
        },
        metadata,
        ..extension
    }
}

/// The extensions with what each tells of itself replaced by what was read
/// for it; an extension that nothing was read for tells nothing.
pub open spec fn all_refreshed(
    extensions: Seq<Extension>,
    metadata: Seq<Option<ExtensionMetadata>>,
) -> Seq<Extension> {
    Seq::new(
        extensions.len(),
        |i: int|
            Extension {
                metadata: if i < metadata.len() {
                    metadata[i]
                } else {
                    None
                },
                ..extensions[i]
            },
    )
}

impl ExtensionManager {
    /// A manager without extensions.
    pub fn new() -> (manager: ExtensionManager)
        ensures
            manager.extensions@ == Seq::<Extension>::empty(),
    {
        ExtensionManager { extensions: Vec::new() }
    }

    /// The place of the first extension with the given slug.
    fn find(&self, slug: &str) -> (found: Option<usize>)
        ensures
            match found {
                Some(at) => installed_at(self.extensions@, slug@) == Some(at as int) && at
                    < self.extensions@.len(),
                None => installed_at(self.extensions@, slug@) is None,
            },
    {
        let ghost wanted = |extension: Extension| extension.slug@ == slug@;
        let n = self.extensions.len();
        let mut i: usize = 0;
        while i < n
            invariant
                n == self.extensions@.len(),
                i <= n,
                wanted == (|extension: Extension| extension.slug@ == slug@),
                forall|k: int| 0 <= k < i ==> !wanted(self.extensions@[k]),
            decreases n - i,
        {
            if same_text(self.extensions[i].slug.as_str(), slug) {
                proof {
                    lemma_first_index_is(self.extensions@, wanted, i as int);
                }
                return Some(i);
            }
            i += 1;
        }
        proof {
            lemma_first_index_none(self.extensions@, wanted);
        }
        None
    }

    /// Adds an extension at the end. A slug that is installed already is
    /// refused.
    pub fn add_extension(
        &mut self,
        name: String,
        slug: String,
        version: String,
        repository: String,
        metadata: Option<ExtensionMetadata>,
    ) -> (added: Result<(), String>)
        ensures
            match installed_at(old(self).extensions@, slug@) {
                Some(_) => final(self).extensions@ == old(self).extensions@ && (
                added matches Err(message) && message@ == already_installed(slug@)),
                None => added is Ok && final(self).extensions@ == old(self).extensions@.push(
                    Extension { name, slug, version, repository, metadata },
                ),
            },
    {
        if self.find(slug.as_str()).is_some() {
            return Err(
                String::from_str("Extension '").concat(slug.as_str()).concat("' already exists"),
            );
        }
        self.extensions.push(Extension { name, slug, version, repository, metadata });
        Ok(())
    }

    /// Removes every extension with the given slug. It is a failure if
    /// there is none.
    pub fn remove_extension(&mut self, slug: &str) -> (removed: Result<(), String>)
        ensures
            final(self).extensions@ == old(self).extensions@.filter(
                |extension: Extension| extension.slug@ != slug@,
            ),
            match installed_at(old(self).extensions@, slug@) {
                Some(_) => removed is Ok,
                None => removed matches Err(message) && message@ == not_installed(slug@),
            },
    {
        let ghost before = self.extensions@;
        let ghost staying = |extension: Extension| extension.slug@ != slug@;
        let found = self.find(slug).is_some();
        let mut i: usize = 0;
        let ghost mut done: int = 0;
        proof {
            reveal(Seq::filter);
            assert(before.take(0) =~= Seq::<Extension>::empty());
            assert(before.skip(0) =~= before);
            assert(self.extensions@ =~= before.take(0).filter(staying) + before.skip(0));
        }
        while i < self.extensions.len()
            invariant
                0 <= done <= before.len(),
                staying == (|extension: Extension| extension.slug@ != slug@),
                i == before.take(done).filter(staying).len(),
                self.extensions@ == before.take(done).filter(staying) + before.skip(done),
            decreases before.len() - done,
        {
            let ghost kept = before.take(done).filter(staying);
            proof {
                reveal(Seq::filter);
                assert(self.extensions@[i as int] == before.skip(done)[0]);
                assert(before.take(done + 1).drop_last() =~= before.take(done));
                assert(before.take(done + 1).last() == before[done]);
            }
            if same_text(self.extensions[i].slug.as_str(), slug) {
                self.extensions.remove(i);
                proof {
                    assert(self.extensions@ =~= kept + before.skip(done + 1));
                }
            } else {
                i += 1;
                proof {
                    assert(self.extensions@ =~= kept.push(before[done]) + before.skip(done + 1));
                }
            }
            proof {
                done = done + 1;
            }
        }
        proof {
            assert(before.take(done) =~= before);
            assert(before.skip(done) =~= Seq::<Extension>::empty());
            assert(self.extensions@ =~= before.filter(staying));
        }
        if found {
            Ok(())
        } else {
            Err(String::from_str("Extension '").concat(slug).concat("' not found"))
        }
    }

    /// The first extension with the given slug.
    pub fn get_extension(&self, slug: &str) -> (found: Option<&Extension>)
        ensures
            match installed_at(self.extensions@, slug@) {
                Some(at) => found == Some(&self.extensions@[at]),
                None => found is None,
            },
    {
        match self.find(slug) {
            Some(at) => Some(&self.extensions[at]),
            None => None,
        }
    }

    /// Whether an extension with the given slug is installed.
    pub fn extension_exists(&self, slug: &str) -> (exists: bool)
        ensures
            exists == installed_at(self.extensions@, slug@) is Some,
    {
        self.find(slug).is_some()
    }

    /// Replaces what the first extension with the given slug tells of
    /// itself, and its version and repository where new ones are given. It
    /// is a failure if there is no such extension.
    pub fn update_extension(
        &mut self,
        slug: &str,
        version: Option<String>,
        repository: Option<String>,
        metadata: Option<ExtensionMetadata>,
    ) -> (updated: Result<(), String>)
        ensures
            match installed_at(old(self).extensions@, slug@) {
                Some(at) => updated is Ok && final(self).extensions@ == old(
                    self,
                ).extensions@.update(
                    at,
                    refreshed(old(self).extensions@[at], version, repository, metadata),
                ),
                None => final(self).extensions@ == old(self).extensions@ && (
                updated matches Err(message) && message@ == not_installed(slug@)),
            },
    {
        let at = match self.find(slug) {
            Some(at) => at,
            None => {
                return Err(String::from_str("Extension '").concat(slug).concat("' not found"));
            },
        };
        let ghost before = self.extensions@;
        let mut extension = self.extensions.remove(at);
        if let Some(new_version) = version {
            extension.version = new_version;
        }
        if let Some(new_repository) = repository {
            extension.repository = new_repository;
        }
        extension.metadata = metadata;
        self.extensions.insert(at, extension);
        assert(self.extensions@ =~= before.update(
            at as int,
            refreshed(before[at as int], version, repository, metadata),
        ));
        Ok(())
    }

    /// Replaces what the first extension with the given slug tells of
    /// itself. It is a failure if there is no such extension.
    pub fn refresh_extension_metadata(
        &mut self,
        slug: &str,
        metadata: Option<ExtensionMetadata>,
    ) -> (refreshed_it: Result<(), String>)
        ensures
            match installed_at(old(self).extensions@, slug@) {
                Some(at) => refreshed_it is Ok && final(self).extensions@ == old(
                    self,
                ).extensions@.update(
                    at,
                    refreshed(old(self).extensions@[at], None, None, metadata),
                ),
                None => final(self).extensions@ == old(self).extensions@ && (
                refreshed_it matches Err(message) && message@ == not_installed(slug@)),
            },
    {
        self.update_extension(slug, None, None, metadata)
    }

    /// Replaces what every extension tells of itself by what was read for
    /// it, in the order of the extensions. An extension that nothing was
    /// read for tells nothing afterwards.
    pub fn refresh_all_metadata(&mut self, metadata: Vec<Option<ExtensionMetadata>>)
        ensures
            final(self).extensions@ == all_refreshed(old(self).extensions@, metadata@),
    {
        let ghost before = self.extensions@;
        let ghost read = metadata@;
        let n = self.extensions.len();
        let mut metadata = metadata;
        if metadata.len() > n {
            metadata.truncate(n);
        }
        let mut i: usize = n;
        assert(metadata@ =~= read.take(if n < read.len() {
            n as int
        } else {
            read.len() as int
        }));
        while i > 0
            invariant
                n == before.len(),
                i <= n,
                self.extensions@.len() == n,
                metadata@ == read.take(if i < read.len() {
                    i as int
                } else {
                    read.len() as int
                }),
                forall|k: int| 0 <= k < i ==> self.extensions@[k] == before[k],
                forall|k: int| i <= k < n ==> self.extensions@[k] == all_refreshed(before, read)[k],
            decreases i,
        {
            i -= 1;
            let told = if i < metadata.len() {
                metadata.pop().unwrap()
            } else {
                None
            };
            let ghost now = self.extensions@;
            let mut extension = self.extensions.remove(i);
            extension.metadata = told;
            self.extensions.insert(i, extension);
            assert(self.extensions@ =~= now.update(
                i as int,
                all_refreshed(before, read)[i as int],
            ));
        }
        assert(self.extensions@ =~= all_refreshed(before, read));
    }

    /// The installed extensions.
    pub fn list_extensions(&self) -> (all: &Vec<Extension>)
        ensures
            all == &self.extensions,
    {
        &self.extensions
    }

    /// The extensions that say they have the capability, in the order in
    /// which they were added.
    pub fn get_extensions_by_capability(&self, capability: &str) -> (found: Vec<&Extension>)
        ensures
            pointed_to(found@) == self.extensions@.filter(
                |extension: Extension| extension.capable(capability@),
            ),
    {
        let ghost wanted = |extension: Extension| extension.capable(capability@);
        let mut found: Vec<&Extension> = Vec::new();
        let n = self.extensions.len();
        let mut i: usize = 0;
        proof {
            reveal(Seq::filter);
            assert(self.extensions@.take(0) =~= Seq::<Extension>::empty());
            assert(pointed_to(found@) =~= self.extensions@.take(0).filter(wanted));
        }
        while i < n
            invariant
                n == self.extensions@.len(),
                i <= n,
                wanted == (|extension: Extension| extension.capable(capability@)),
                pointed_to(found@) == self.extensions@.take(i as int).filter(wanted),
            decreases n - i,
        {
            proof {
                reveal(Seq::filter);
                assert(self.extensions@.take(i + 1).drop_last() =~= self.extensions@.take(
                    i as int,
                ));
                assert(self.extensions@.take(i + 1).last() == self.extensions@[i as int]);
            }
            let ghost before = found@;
            if self.extensions[i].has_capability(capability) {
                found.push(&self.extensions[i]);
                assert(pointed_to(found@) =~= pointed_to(before).push(self.extensions@[i as int]));
            }
            i += 1;
        }
        assert(self.extensions@.take(n as int) =~= self.extensions@);
        found
    }

    /// The extensions that serve the language, in the order in which they
    /// were added.
    pub fn get_extensions_by_language(&self, language_key: &str) -> (found: Vec<&Extension>)
        ensures
            pointed_to(found@) == self.extensions@.filter(
                |extension: Extension| extension.serves(language_key@),
            ),
    {
        let ghost wanted = |extension: Extension| extension.serves(language_key@);
        let mut found: Vec<&Extension> = Vec::new();
        let n = self.extensions.len();
        let mut i: usize = 0;
        proof {
            reveal(Seq::filter);
            assert(self.extensions@.take(0) =~= Seq::<Extension>::empty());
            assert(pointed_to(found@) =~= self.extensions@.take(0).filter(wanted));
        }
        while i < n
            invariant
                n == self.extensions@.len(),
                i <= n,
                wanted == (|extension: Extension| extension.serves(language_key@)),
                pointed_to(found@) == self.extensions@.take(i as int).filter(wanted),
            decreases n - i,
        {
            proof {
                reveal(Seq::filter);
                assert(self.extensions@.take(i + 1).drop_last() =~= self.extensions@.take(
                    i as int,
                ));
                assert(self.extensions@.take(i + 1).last() == self.extensions@[i as int]);
            }
            let ghost before = found@;
            if self.extensions[i].supports_language(language_key) {
                found.push(&self.extensions[i]);
                assert(pointed_to(found@) =~= pointed_to(before).push(self.extensions@[i as int]));
            }
            i += 1;
        }
        assert(self.extensions@.take(n as int) =~= self.extensions@);
        found
    }

    /// Whether the directory of an extension is as it should be: it is
    /// there, and so is every one of the required paths below it.
    pub fn validate_extension_structure(
        &self,
        directory_exists: bool,
        required_exist: &[bool],
    ) -> (valid: bool)
        ensures
            valid == (directory_exists && forall|k: int|
                0 <= k < required_exist@.len() ==> required_exist@[k]),
    {
        if !directory_exists {
            return false;
        }
        let n = required_exist.len();
        let mut i: usize = 0;
        while i < n
            invariant
                n == required_exist@.len(),
                i <= n,
                forall|k: int| 0 <= k < i ==> required_exist@[k],
            decreases n - i,
        {
            if !required_exist[i] {
                return false;
            }
            i += 1;
        }
        true
    }
}

} // verus!
