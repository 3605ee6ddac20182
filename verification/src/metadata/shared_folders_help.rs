//! Mount instructions shown on the shared-folders screen, one entry per
//! guest tier, with embedded defaults that user files may override.

use vstd::prelude::*;
use super::keyed::{entries_map, KeyedStore};

verus! {

/// Help text entry for a shared-folders tier.
#[derive(Debug, Clone)]
pub struct SharedFoldersHelpEntry {
    /// Title for the help panel
    pub title: String,
    /// Description text (may contain a {TAG} placeholder)
    pub description: String,
}

/// Store for shared-folders help text, by tier.
#[derive(Debug)]
pub struct SharedFoldersHelpStore {
    entries: KeyedStore<SharedFoldersHelpEntry>,
}

impl View for SharedFoldersHelpStore {
    type V = Map<Seq<char>, SharedFoldersHelpEntry>;

    closed spec fn view(&self) -> Map<Seq<char>, SharedFoldersHelpEntry> {
        self.entries@
    }
}

impl Default for SharedFoldersHelpStore {
    fn default() -> (s: Self)
        ensures
            s@ == Map::<Seq<char>, SharedFoldersHelpEntry>::empty(),
    {
        SharedFoldersHelpStore { entries: KeyedStore::new() }
    }
}

/// Title and description used when neither the tier nor "unknown" has an entry.
pub open spec fn fallback_help() -> (Seq<char>, Seq<char>) {
    (
        "Mount Instructions"@,
        "Mount command varies by OS. Check your OS documentation for 9p support."@,
    )
}

/// The help shown for `key`: its entry, else the "unknown" entry, else the fallback.
pub open spec fn help_for(m: Map<Seq<char>, SharedFoldersHelpEntry>, key: Seq<char>) -> (
    Seq<char>,
    Seq<char>,
) {
    if m.contains_key(key) {
        (m[key].title@, m[key].description@)
    } else if m.contains_key("unknown"@) {
        (m["unknown"@].title@, m["unknown"@].description@)
    } else {
        fallback_help()
    }
}

impl SharedFoldersHelpStore {
    #[verifier::type_invariant]
    spec fn inv(self) -> bool {
        self.entries.wf()
    }

    /// Adds `entries` in order, each replacing the entry of the same tier
    /// (embedded texts, then user overrides).
    pub fn merge_entries(&mut self, entries: Vec<(String, SharedFoldersHelpEntry)>)
        ensures
            final(self)@ == old(self)@.union_prefer_right(entries_map(entries@)),
    {
        proof {
            use_type_invariant(&*self);
        }
        let mut store = KeyedStore::new();
        std::mem::swap(&mut store, &mut self.entries);
        store.extend(entries);
        self.entries = store;
    }

    /// Help text for a tier, falling back to the "unknown" tier, then to a
    /// generic text.
    pub fn get_or_default(&self, key: &str) -> (res: (&str, &str))
        ensures
            (res.0@, res.1@) == help_for(self@, key@),
    {
        proof {
            use_type_invariant(self);
        }
        match self.entries.get(key) {
            Some(e) => (e.title.as_str(), e.description.as_str()),
            None => match self.entries.get("unknown") {
                Some(e) => (e.title.as_str(), e.description.as_str()),
                None => (
                    "Mount Instructions",
                    "Mount command varies by OS. Check your OS documentation for 9p support.",
                ),
            },
        }
    }
}

} // verus!
