//! Descriptions of operating systems shown beside a VM, and the store that
//! holds them by VM id.

use vstd::prelude::*;
use super::keyed::{entries_map, KeyedStore};
use crate::text::{
    chars_of, contains, has_infix, join, join_strings, lowercase, push_char, push_replaced,
    replace_char, split_whitespace, to_lowercase, views, ws_words,
};

verus! {

/// OS description blurbs.
#[derive(Debug, Clone)]
pub struct OsBlurb {
    /// Short description (1-2 sentences)
    pub short: String,
    /// Long description (2-5 paragraphs)
    pub long: String,
}

impl Default for OsBlurb {
    fn default() -> (res: Self)
        ensures
            res.short@ == Seq::<char>::empty(),
            res.long@ == Seq::<char>::empty(),
    {
        OsBlurb { short: String::new(), long: String::new() }
    }
}

/// Installation step for multi-step VMs.
#[derive(Debug, Clone)]
pub struct InstallStep {
    /// Step number
    pub number: u32,
    /// Step title
    pub title: String,
    /// Instructions
    pub instructions: String,
    /// Boot mode for this step
    pub boot_mode: String,
    /// Hint for completion
    pub completion_hint: String,
}

/// Information about an operating system.
#[derive(Debug, Clone)]
pub struct OsInfo {
    /// Full display name for the VM list (with trademarks)
    pub display_name: Option<String>,
    /// Short name for info panel headers
    pub name: String,
    /// Publisher/developer
    pub publisher: String,
    /// Release date (YYYY-MM-DD format)
    pub release_date: String,
    /// CPU architecture
    pub architecture: String,
    /// Blurb information
    pub blurb: OsBlurb,
    /// Fun facts
    pub fun_facts: Vec<String>,
    /// Installation steps for multi-step installs
    pub install_steps: Vec<InstallStep>,
}

impl Default for OsInfo {
    fn default() -> (res: Self)
        ensures
            res.display_name.is_none(),
            res.name@ == Seq::<char>::empty(),
            res.publisher@ == Seq::<char>::empty(),
            res.release_date@ == Seq::<char>::empty(),
            res.architecture@ == Seq::<char>::empty(),
            res.blurb.short@ == Seq::<char>::empty(),
            res.blurb.long@ == Seq::<char>::empty(),
            res.fun_facts@.len() == 0,
            res.install_steps@.len() == 0,
    {
        OsInfo {
            display_name: None,
            name: String::new(),
            publisher: String::new(),
            release_date: String::new(),
            architecture: String::new(),
            blurb: OsBlurb::default(),
            fun_facts: Vec::new(),
            install_steps: Vec::new(),
        }
    }
}

/// Metadata store for all OS info, by VM id.
#[derive(Debug)]
pub struct MetadataStore {
    entries: KeyedStore<OsInfo>,
}

impl View for MetadataStore {
    type V = Map<Seq<char>, OsInfo>;

    closed spec fn view(&self) -> Map<Seq<char>, OsInfo> {
        self.entries@
    }
}

impl Default for MetadataStore {
    fn default() -> (s: Self)
        ensures
            s@ == Map::<Seq<char>, OsInfo>::empty(),
    {
        MetadataStore { entries: KeyedStore::new() }
    }
}

impl MetadataStore {
    #[verifier::type_invariant]
    spec fn inv(self) -> bool {
        self.entries.wf()
    }

    /// A store holding `entries`, a later entry replacing an earlier one of
    /// the same id.
    pub fn from_entries(entries: Vec<(String, OsInfo)>) -> (s: Self)
        ensures
            s@ == entries_map(entries@),
    {
        let mut store = KeyedStore::new();
        store.extend(entries);
        proof {
            assert(Map::<Seq<char>, OsInfo>::empty().union_prefer_right(entries_map(entries@))
                =~= entries_map(entries@));
        }
        MetadataStore { entries: store }
    }

    /// Stores `info` under `id`, replacing what was there.
    pub fn insert(&mut self, id: String, info: OsInfo)
        ensures
            final(self)@ == old(self)@.insert(id@, info),
    {
        proof {
            use_type_invariant(&*self);
        }
        let mut store = KeyedStore::new();
        std::mem::swap(&mut store, &mut self.entries);
        store.insert(id, info);
        self.entries = store;
    }

    /// Info for a VM by id.
    pub fn get(&self, id: &str) -> (r: Option<&OsInfo>)
        ensures
            match r {
                Some(info) => self@.contains_key(id@) && *info == self@[id@],
                None => !self@.contains_key(id@),
            },
    {
        proof {
            use_type_invariant(self);
        }
        self.entries.get(id)
    }

    /// Merges user overrides over the current entries: an override replaces
    /// the entry of the same id.
    pub fn merge(&mut self, overrides: MetadataStore)
        ensures
            final(self)@ == old(self)@.union_prefer_right(overrides@),
    {
        proof {
            use_type_invariant(&*self);
            use_type_invariant(&overrides);
        }
        let incoming = overrides.entries.into_entries();
        let mut store = KeyedStore::new();
        std::mem::swap(&mut store, &mut self.entries);
        store.extend(incoming);
        self.entries = store;
    }
}

/// ASCII upper case of a character (`char::to_ascii_uppercase`).
pub open spec fn ascii_upper(c: char) -> char {
    if 'a' <= c && c <= 'z' {
        ((c as int) - 32) as char
    } else {
        c
    }
}

fn to_ascii_upper(c: char) -> (r: char)
    ensures
        r == ascii_upper(c),
{
    if 'a' <= c && c <= 'z' {
        ((c as u8) - 32) as char
    } else {
        c
    }
}

/// A word with its first character in ASCII upper case.
pub open spec fn capitalize(w: Seq<char>) -> Seq<char> {
    if w.len() == 0 {
        w
    } else {
        seq![ascii_upper(w[0])] + w.drop_first()
    }
}

/// Display name made from a VM id: dashes become spaces, and each word
/// starts with an upper-case letter.
pub open spec fn display_name_of_id(vm_id: Seq<char>) -> Seq<char> {
    join(ws_words(replace_char(vm_id, '-', " "@)).map_values(|w: Seq<char>| capitalize(w)), " "@)
}

/// A word with its first character in ASCII upper case.
fn capitalize_word(w: &str) -> (res: String)
    ensures
        res@ == capitalize(w@),
{
    let cs = chars_of(w);
    let mut res = String::new();
    let mut i: usize = 0;
    while i < cs.len()
        invariant
            cs@ == w@,
            i <= cs.len(),
            res@ == capitalize(cs@.take(i as int)),
        decreases cs.len() - i,
    {
        if i == 0 {
            push_char(&mut res, to_ascii_upper(cs[0]));
            proof {
                assert(res@ =~= capitalize(cs@.take(1)));
            }
        } else {
            push_char(&mut res, cs[i]);
            proof {
                assert(res@ =~= capitalize(cs@.take(i + 1)));
            }
        }
        i += 1;
    }
    proof {
        assert(cs@.take(cs.len() as int) =~= cs@);
    }
    res
}

/// The words of `vm_id` with dashes read as spaces, each capitalized.
fn capitalized_words(vm_id: &str) -> (res: Vec<String>)
    ensures
        views(res@) == ws_words(replace_char(vm_id@, '-', " "@)).map_values(
            |w: Seq<char>| capitalize(w),
        ),
{
    let mut spaced = String::new();
    push_replaced(&mut spaced, vm_id, '-', " ");
    proof {
        assert(Seq::<char>::empty() + replace_char(vm_id@, '-', " "@) =~= replace_char(vm_id@, '-', " "@));
    }
    let words = split_whitespace(spaced.as_str());
    let ghost ws = views(words@);
    let mut res: Vec<String> = Vec::new();
    let mut i: usize = 0;
    proof {
        assert(views(res@) =~= ws.take(0).map_values(|w: Seq<char>| capitalize(w)));
    }
    while i < words.len()
        invariant
            ws == views(words@),
            ws == ws_words(replace_char(vm_id@, '-', " "@)),
            i <= words.len(),
            views(res@) == ws.take(i as int).map_values(|w: Seq<char>| capitalize(w)),
        decreases words.len() - i,
    {
        let ghost before = res@;
        let w = capitalize_word(words[i].as_str());
        res.push(w);
        proof {
            assert(ws[i as int] == words@[i as int]@);
            assert(res@ == before.push(w));
            assert(ws.len() == words@.len());
            assert(ws.take(i as int).len() == i);
            assert(views(before).len() == before.len());
            assert(before.len() == i);
            assert(views(res@).len() == i + 1);
            assert forall|k: int| 0 <= k < i implies views(res@)[k] == capitalize(ws[k]) by {
                assert(res@[k] == before[k]);
                assert(views(before)[k] == ws.take(i as int).map_values(|w: Seq<char>| capitalize(w))[k]);
            }
            assert(views(res@)[i as int] == capitalize(ws[i as int]));
            assert(views(res@) =~= ws.take(i + 1).map_values(|w: Seq<char>| capitalize(w)));
        }
        i += 1;
    }
    proof {
        assert(ws.take(words.len() as int) =~= ws);
    }
    res
}

/// Publisher and architecture guessed from a lower-cased VM id.
pub open spec fn os_details(id: Seq<char>) -> (Seq<char>, Seq<char>) {
    if has_infix(id, "windows"@) {
        (
            "Microsoft Corporation"@,
            if has_infix(id, "11"@) || has_infix(id, "10"@) || has_infix(id, "8"@) || has_infix(
                id,
                "7"@,
            ) {
                "x86_64"@
            } else {
                "i386"@
            },
        )
    } else if has_infix(id, "mac"@) || has_infix(id, "osx"@) {
        (
            "Apple Inc."@,
            if has_infix(id, "tiger"@) || has_infix(id, "leopard"@) {
                "PowerPC"@
            } else if has_infix(id, "system"@) || has_infix(id, "os-9"@) {
                "Motorola 68k"@
            } else {
                "x86_64"@
            },
        )
    } else if has_infix(id, "linux"@) || has_infix(id, "fedora"@) || has_infix(id, "ubuntu"@) {
        ("Various"@, "x86_64"@)
    } else if has_infix(id, "dos"@) {
        ("Microsoft Corporation"@, "i386"@)
    } else {
        ("Unknown"@, "Unknown"@)
    }
}

/// Publisher and architecture for an already lower-cased VM id.
pub fn os_details_for_lowercase_id(id: &str) -> (res: (String, String))
    ensures
        (res.0@, res.1@) == os_details(id@),
{
    if contains(id, "windows") {
        let arch = if contains(id, "11") || contains(id, "10") || contains(id, "8") || contains(
            id,
            "7",
        ) {
            "x86_64"
        } else {
            "i386"
        };
        (String::from_str("Microsoft Corporation"), String::from_str(arch))
    } else if contains(id, "mac") || contains(id, "osx") {
        let arch = if contains(id, "tiger") || contains(id, "leopard") {
            "PowerPC"
        } else if contains(id, "system") || contains(id, "os-9") {
            "Motorola 68k"
        } else {
            "x86_64"
        };
        (String::from_str("Apple Inc."), String::from_str(arch))
    } else if contains(id, "linux") || contains(id, "fedora") || contains(id, "ubuntu") {
        (String::from_str("Various"), String::from_str("x86_64"))
    } else if contains(id, "dos") {
        (String::from_str("Microsoft Corporation"), String::from_str("i386"))
    } else {
        (String::from_str("Unknown"), String::from_str("Unknown"))
    }
}

/// Publisher and architecture guessed from a VM id, ignoring case.
pub fn guess_os_details(vm_id: &str) -> (res: (String, String))
    ensures
        (res.0@, res.1@) == os_details(lowercase(vm_id@)),
{
    let id = to_lowercase(vm_id);
    os_details_for_lowercase_id(id.as_str())
}

/// Default OS info for a VM id: a display name made from the id, and a
/// publisher and architecture guessed from it.
pub fn default_os_info(vm_id: &str) -> (res: OsInfo)
    ensures
        res.display_name.is_none(),
        res.name@ == display_name_of_id(vm_id@),
        (res.publisher@, res.architecture@) == os_details(lowercase(vm_id@)),
        res.release_date@ == Seq::<char>::empty(),
        res.blurb.short@ == Seq::<char>::empty(),
        res.blurb.long@ == Seq::<char>::empty(),
        res.fun_facts@.len() == 0,
        res.install_steps@.len() == 0,
{
    let words = capitalized_words(vm_id);
    let display_name = join_strings(&words, " ");
    let (publisher, architecture) = guess_os_details(vm_id);
    OsInfo {
        display_name: None,
        name: display_name,
        publisher,
        architecture,
        release_date: String::new(),
        blurb: OsBlurb::default(),
        fun_facts: Vec::new(),
        install_steps: Vec::new(),
    }
}

} // verus!
