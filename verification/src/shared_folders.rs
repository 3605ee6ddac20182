//! Shared folders (virtio-9p): the mount tag a host folder gets, and which
//! tier of mount instructions fits a guest.

use vstd::prelude::*;
use crate::paths::{file_name_of, path_file_name};
use crate::text::{
    alnum, chars_of, contains, has_infix, has_prefix, is_alphanumeric, join, join_strings,
    lowercase, nonempty_parts, push_char, split_nonempty, split_sep, starts_with, str_eq,
    to_lowercase, views,
};

verus! {

/// A folder name lower-cased, with every character that is not alphanumeric
/// replaced by '_'.
pub open spec fn sanitized(name: Seq<char>) -> Seq<char> {
    lowercase(name).map_values(|c: char| if alnum(c) { c } else { '_' })
}

/// The mount tag of a host folder: "host_" and its folder name sanitized,
/// with runs of '_' collapsed and trimmed ("shared" where nothing is left or
/// the path has no folder name).
pub open spec fn mount_tag_of(path: Seq<char>) -> Seq<char> {
    let name = match path_file_name(path) {
        Some(n) => n,
        None => "shared"@,
    };
    let tag = join(nonempty_parts(sanitized(name), '_'), "_"@);
    "host_"@ + if tag.len() == 0 {
        "shared"@
    } else {
        tag
    }
}

/// The virtio-9p mount tag for a host folder.
pub fn generate_mount_tag(path: &str) -> (res: String)
    ensures
        res@ == mount_tag_of(path@),
{
    let name = match file_name_of(path) {
        Some(n) => n,
        None => String::from_str("shared"),
    };
    let lower = to_lowercase(name.as_str());
    let cs = chars_of(lower.as_str());
    let mut san = String::new();
    let mut i: usize = 0;
    while i < cs.len()
        invariant
            i <= cs.len(),
            cs@ == lowercase(name@),
            san@ == cs@.take(i as int).map_values(|c: char| if alnum(c) { c } else { '_' }),
        decreases cs.len() - i,
    {
        let c = cs[i];
        if is_alphanumeric(c) {
            push_char(&mut san, c);
        } else {
            push_char(&mut san, '_');
        }
        proof {
            assert(san@ =~= cs@.take(i + 1).map_values(|c: char| if alnum(c) { c } else { '_' }));
        }
        i += 1;
    }
    proof {
        assert(cs@.take(cs.len() as int) =~= cs@);
        assert(san@ == sanitized(name@));
        assert(name@ == match path_file_name(path@) {
            Some(n) => n,
            None => "shared"@,
        });
    }
    let parts = split_nonempty(san.as_str(), '_');
    let tag = join_strings(&parts, "_");
    proof {
        assert(tag@ == join(nonempty_parts(sanitized(name@), '_'), "_"@));
    }
    let mut res = String::from_str("host_");
    proof {
        reveal_strlit("");
    }
    let ghost t = join(nonempty_parts(sanitized(name@), '_'), "_"@);
    if tag.as_str().is_empty() {
        res.append("shared");
        proof {
            assert(t.len() == 0);
            assert(res@ == "host_"@ + "shared"@);
        }
    } else {
        res.append(tag.as_str());
        proof {
            assert(t.len() != 0);
            assert(res@ == "host_"@ + t);
        }
    }
    proof {
        assert(mount_tag_of(path@) == "host_"@ + if t.len() == 0 {
            "shared"@
        } else {
            t
        });
    }
    res
}

/// Profile ids of guests without virtio-9p support.
pub open spec fn unsupported_profile(id: Seq<char>) -> bool {
    ||| id == "windows-95"@
    ||| id == "windows-98"@
    ||| id == "windows-me"@
    ||| id == "windows-2000"@
    ||| id == "windows-xp"@
    ||| id == "windows-vista"@
    ||| id == "windows-nt"@
    ||| id == "ms-dos"@
    ||| id == "freedos"@
    ||| id == "cpm"@
}

/// Windows profile ids whose mount instructions are the Windows ones.
pub open spec fn windows_profile(id: Seq<char>) -> bool {
    ||| id == "windows-7"@
    ||| id == "windows-8"@
    ||| id == "windows-10"@
    ||| id == "windows-11"@
    ||| id == "generic-windows"@
    ||| has_prefix(id, "windows-server-"@)
}

/// The tier of a profile category.
pub open spec fn category_tier(category: Seq<char>) -> Seq<char> {
    if category == "linux"@ || category == "infrastructure"@ || category == "utilities"@
        || category == "mobile"@ {
        "linux"@
    } else if category == "bsd"@ {
        "bsd"@
    } else if category == "macos"@ {
        "macos"@
    } else if category == "unix"@ {
        "unix"@
    } else if category == "alternative"@ {
        "alternative"@
    } else if category == "retro"@ || category == "classic-mac"@ {
        "not_supported"@
    } else if category == "windows"@ {
        "windows"@
    } else {
        "unknown"@
    }
}

/// The mount-instruction tier of a guest.
pub open spec fn mount_tier_of(profile_id: Seq<char>, emulator: Seq<char>, category: Option<
    Seq<char>,
>) -> Seq<char> {
    if unsupported_profile(profile_id) {
        "not_supported"@
    } else if has_infix(emulator, "m68k"@) || has_infix(emulator, "ppc"@) {
        "not_supported"@
    } else if windows_profile(profile_id) {
        "windows"@
    } else {
        match category {
            Some(c) => category_tier(c),
            None => "unknown"@,
        }
    }
}

/// The mount-instruction tier for a guest with OS profile `profile_id`
/// (or the VM's id), emulator command `emulator`, and the category of its
/// QEMU profile where one exists.
pub fn mount_tier(profile_id: &str, emulator: &str, category: Option<&str>) -> (res: &'static str)
    ensures
        res@ == mount_tier_of(
            profile_id@,
            emulator@,
            match category {
                Some(c) => Some(c@),
                None => None,
            },
        ),
{
    let id = profile_id;
    if str_eq(id, "windows-95") || str_eq(id, "windows-98") || str_eq(id, "windows-me") || str_eq(
        id,
        "windows-2000",
    ) || str_eq(id, "windows-xp") || str_eq(id, "windows-vista") || str_eq(id, "windows-nt")
        || str_eq(id, "ms-dos") || str_eq(id, "freedos") || str_eq(id, "cpm") {
        return "not_supported";
    }
    if contains(emulator, "m68k") || contains(emulator, "ppc") {
        return "not_supported";
    }
    if str_eq(id, "windows-7") || str_eq(id, "windows-8") || str_eq(id, "windows-10") || str_eq(
        id,
        "windows-11",
    ) || str_eq(id, "generic-windows") || starts_with(id, "windows-server-") {
        return "windows";
    }
    match category {
        Some(c) => {
            if str_eq(c, "linux") || str_eq(c, "infrastructure") || str_eq(c, "utilities")
                || str_eq(c, "mobile") {
                "linux"
            } else if str_eq(c, "bsd") {
                "bsd"
            } else if str_eq(c, "macos") {
                "macos"
            } else if str_eq(c, "unix") {
                "unix"
            } else if str_eq(c, "alternative") {
                "alternative"
            } else if str_eq(c, "retro") || str_eq(c, "classic-mac") {
                "not_supported"
            } else if str_eq(c, "windows") {
                "windows"
            } else {
                "unknown"
            }
        },
        None => "unknown",
    }
}

} // verus!

verus! {

/// A well-formed tag body: non-empty, neither starting nor ending with '_',
/// and without two '_' in a row.
pub open spec fn tag_body_ok(t: Seq<char>) -> bool {
    &&& t.len() > 0
    &&& t[0] != '_'
    &&& t[t.len() - 1] != '_'
    &&& forall|k: int| 0 <= k < t.len() - 1 ==> !(#[trigger] t[k] == '_' && t[k + 1] == '_')
}

proof fn lemma_split_sep_parts(s: Seq<char>, sep: char)
    ensures
        forall|i: int|
            0 <= i < split_sep(s, sep).0.len() ==> (#[trigger] split_sep(s, sep).0[i]).len() > 0
                && !split_sep(s, sep).0[i].contains(sep),
        !split_sep(s, sep).1.contains(sep),
    decreases s.len(),
{
    if s.len() > 0 {
        lemma_split_sep_parts(s.drop_last(), sep);
        let (done, cur) = split_sep(s.drop_last(), sep);
        if s.last() != sep {
            assert forall|k: int| 0 <= k < cur.push(s.last()).len() implies cur.push(s.last())[k]
                != sep by {
                if k < cur.len() {
                    assert(cur.push(s.last())[k] == cur[k]);
                    assert(!cur.contains(sep));
                }
            }
        } else if cur.len() > 0 {
            assert forall|i: int| 0 <= i < done.push(cur).len() implies (#[trigger] done.push(
                cur,
            )[i]).len() > 0 && !done.push(cur)[i].contains(sep) by {
                if i < done.len() {
                    assert(done.push(cur)[i] == done[i]);
                }
            }
        }
    }
}

proof fn lemma_nonempty_parts(s: Seq<char>, sep: char)
    ensures
        forall|i: int|
            0 <= i < nonempty_parts(s, sep).len() ==> (#[trigger] nonempty_parts(s, sep)[i]).len()
                > 0 && !nonempty_parts(s, sep)[i].contains(sep),
{
    lemma_split_sep_parts(s, sep);
    let (done, cur) = split_sep(s, sep);
    if cur.len() > 0 {
        assert forall|i: int| 0 <= i < done.push(cur).len() implies (#[trigger] done.push(
            cur,
        )[i]).len() > 0 && !done.push(cur)[i].contains(sep) by {
            if i < done.len() {
                assert(done.push(cur)[i] == done[i]);
            }
        }
    }
}

proof fn lemma_join_underscore(ps: Seq<Seq<char>>)
    requires
        ps.len() > 0,
        forall|i: int| 0 <= i < ps.len() ==> (#[trigger] ps[i]).len() > 0 && !ps[i].contains('_'),
    ensures
        tag_body_ok(join(ps, "_"@)),
    decreases ps.len(),
{
    reveal_strlit("_");
    let p = ps.last();
    assert(ps[ps.len() - 1] == p);
    assert(p[0] != '_') by {
        if p[0] == '_' {
            assert(p.contains('_'));
        }
    }
    assert(p[p.len() - 1] != '_') by {
        if p[p.len() - 1] == '_' {
            assert(p.contains('_'));
        }
    }
    if ps.len() == 1 {
        assert forall|k: int| 0 <= k < p.len() - 1 implies !(#[trigger] p[k] == '_' && p[k + 1]
            == '_') by {
            if p[k] == '_' {
                assert(p.contains('_'));
            }
        }
    } else {
        let q = ps.drop_last();
        assert forall|i: int| 0 <= i < q.len() implies (#[trigger] q[i]).len() > 0 && !q[i].contains(
            '_',
        ) by {
            assert(q[i] == ps[i]);
        }
        lemma_join_underscore(q);
        let a = join(q, "_"@);
        let t = join(ps, "_"@);
        assert(t == a + "_"@ + p);
        assert(t[0] == a[0]);
        assert(t[t.len() - 1] == p[p.len() - 1]);
        assert forall|k: int| 0 <= k < t.len() - 1 implies !(#[trigger] t[k] == '_' && t[k + 1]
            == '_') by {
            if k < a.len() - 1 {
                assert(t[k] == a[k] && t[k + 1] == a[k + 1]);
            } else if k == a.len() - 1 {
                assert(t[k] == a[a.len() - 1]);
            } else if k == a.len() {
                assert(t[k + 1] == p[0]);
            } else {
                assert(t[k] == p[k - a.len() - 1]);
                if p[k - a.len() - 1] == '_' {
                    assert(p.contains('_'));
                }
            }
        }
    }
}

/// Every mount tag is "host_" followed by a well-formed body: not empty, no
/// leading or trailing '_', and no two '_' in a row.
pub proof fn lemma_mount_tag_shape(path: Seq<char>)
    ensures
        has_prefix(mount_tag_of(path), "host_"@),
        tag_body_ok(mount_tag_of(path).skip(5)),
{
    reveal_strlit("host_");
    reveal_strlit("shared");
    let name = match path_file_name(path) {
        Some(n) => n,
        None => "shared"@,
    };
    let ps = nonempty_parts(sanitized(name), '_');
    let tag = join(ps, "_"@);
    let body = if tag.len() == 0 {
        "shared"@
    } else {
        tag
    };
    assert(mount_tag_of(path) == "host_"@ + body);
    assert(mount_tag_of(path).skip(5) =~= body);
    assert(mount_tag_of(path).take(5) =~= "host_"@);
    if tag.len() == 0 {
        assert(tag_body_ok(body));
    } else {
        lemma_nonempty_parts(sanitized(name), '_');
        if ps.len() == 0 {
            assert(tag.len() == 0);
        }
        lemma_join_underscore(ps);
    }
}

} // verus!

verus! {

/// The `k`-th candidate mount tag: `base` itself, then `base_2`, `base_3`, ...
pub open spec fn tag_candidate(base: Seq<char>, k: nat) -> Seq<char> {
    if k == 0 {
        base
    } else {
        base + "_"@ + crate::text::dec(k + 1)
    }
}

proof fn lemma_candidates_distinct(base: Seq<char>, i: nat, j: nat)
    requires
        i < j,
    ensures
        tag_candidate(base, i) != tag_candidate(base, j),
{
    reveal_strlit("_");
    crate::text::lemma_dec_parse(j + 1, (j + 1) as int);
    if i == 0 {
        assert(tag_candidate(base, j).len() > base.len());
    } else {
        crate::text::lemma_dec_parse(i + 1, (j + 1) as int);
        if tag_candidate(base, i) == tag_candidate(base, j) {
            let n = base.len() + 1;
            assert(tag_candidate(base, i).skip(n as int) =~= crate::text::dec(i + 1));
            assert(tag_candidate(base, j).skip(n as int) =~= crate::text::dec(j + 1));
        }
    }
}

/// A selection that holds the first `k + 1` candidates has more than `k` entries.
proof fn lemma_candidates_fit(base: Seq<char>, taken: Seq<Seq<char>>, k: nat)
    requires
        forall|j: nat| j <= k ==> taken.contains(#[trigger] tag_candidate(base, j)),
    ensures
        k + 1 <= taken.len(),
{
    broadcast use vstd::seq_lib::seq_to_set_is_finite;

    let cs = Seq::new(k + 1, |j: int| tag_candidate(base, j as nat));
    assert(cs.no_duplicates()) by {
        assert forall|a: int, b: int| 0 <= a < cs.len() && 0 <= b < cs.len() && a != b implies cs[a]
            != cs[b] by {
            if a < b {
                lemma_candidates_distinct(base, a as nat, b as nat);
            } else {
                lemma_candidates_distinct(base, b as nat, a as nat);
            }
        }
    }
    cs.unique_seq_to_set();
    assert(cs.to_set().subset_of(taken.to_set())) by {
        assert forall|t: Seq<char>| cs.to_set().contains(t) implies taken.to_set().contains(t) by {
            let a = choose|a: int| 0 <= a < cs.len() && cs[a] == t;
            assert(taken.contains(tag_candidate(base, a as nat)));
        }
    }
    vstd::set_lib::lemma_len_subset(cs.to_set(), taken.to_set());
    taken.lemma_cardinality_of_set();
}

/// A mount tag unlike the `existing` ones: the first of `base`, `base_2`,
/// `base_3`, ... that is not taken.
pub fn unique_mount_tag(base: &str, existing: &[String]) -> (res: String)
    requires
        existing@.len() < usize::MAX,
    ensures
        !views(existing@).contains(res@),
        exists|k: nat|
            res@ == tag_candidate(base@, k) && forall|j: nat|
                j < k ==> views(existing@).contains(#[trigger] tag_candidate(base@, j)),
{
    let ghost taken = views(existing@);
    let mut tag = String::from_str(base);
    let mut k: u64 = 0;
    proof {
        assert(taken.len() == existing@.len());
    }
    while contains_tag(existing, tag.as_str())
        invariant
            taken == views(existing@),
            taken.len() == existing@.len(),
            existing@.len() < usize::MAX,
            k <= existing@.len(),
            tag@ == tag_candidate(base@, k as nat),
            forall|j: nat| j < k ==> taken.contains(#[trigger] tag_candidate(base@, j)),
        decreases existing@.len() - k,
    {
        proof {
            assert forall|j: nat| j <= k implies taken.contains(#[trigger] tag_candidate(base@, j)) by {
                if j == k {
                    assert(taken.contains(tag@));
                }
            }
            lemma_candidates_fit(base@, taken, k as nat);
        }
        k = k + 1;
        let mut next = String::from_str(base);
        next.append("_");
        let n = crate::text::dec_string(k + 1);
        next.append(n.as_str());
        tag = next;
    }
    tag
}

/// Whether `tag` is among `existing`.
fn contains_tag(existing: &[String], tag: &str) -> (res: bool)
    ensures
        res == views(existing@).contains(tag@),
{
    let mut i: usize = 0;
    while i < existing.len()
        invariant
            i <= existing@.len(),
            forall|j: int| 0 <= j < i ==> existing@[j]@ != tag@,
        decreases existing@.len() - i,
    {
        if str_eq(existing[i].as_str(), tag) {
            proof {
                assert(views(existing@)[i as int] == tag@);
            }
            return true;
        }
        i += 1;
    }
    proof {
        if views(existing@).contains(tag@) {
            let j = choose|j: int| 0 <= j < views(existing@).len() && views(existing@)[j] == tag@;
            assert(existing@[j]@ == tag@);
        }
    }
    false
}

} // verus!

verus! {

/// Rows the shared-folder list takes for `count` folders: 2 for the
/// message shown when there is none, else one per folder (the count taken
/// as a `u16`), at most 6.
pub fn folder_list_height(count: usize) -> (res: u16)
    ensures
        res == (if count == 0 {
            2
        } else if (count as u16) < 6 {
            count as u16
        } else {
            6
        }),
{
    if count == 0 {
        2
    } else {
        let c = count as u16;
        if c < 6 {
            c
        } else {
            6
        }
    }
}

} // verus!

verus! {

/// A host folder shared with a VM, and the tag the guest mounts it by.
#[derive(Debug, Clone)]
pub struct SharedFolder {
    pub host_path: String,
    pub mount_tag: String,
}

/// The host paths of the folders.
pub open spec fn host_paths(fs: Seq<SharedFolder>) -> Seq<Seq<char>> {
    fs.map_values(|f: SharedFolder| f.host_path@)
}

/// The mount tags of the folders.
pub open spec fn mount_tags(fs: Seq<SharedFolder>) -> Seq<Seq<char>> {
    fs.map_values(|f: SharedFolder| f.mount_tag@)
}

/// The tag a new folder gets: the first of its own tag, `_2`, `_3`, ...
/// that no folder has.
pub open spec fn fresh_tag(tags: Seq<Seq<char>>, base: Seq<char>, tag: Seq<char>) -> bool {
    &&& !tags.contains(tag)
    &&& exists|k: nat|
        tag == tag_candidate(base, k) && forall|j: nat|
            j < k ==> tags.contains(#[trigger] tag_candidate(base, j))
}

/// Add a shared folder under a mount tag no other folder has; a folder
/// already shared is left as it is.
pub fn add_shared_folder(folders: &mut Vec<SharedFolder>, host_path: String)
    requires
        old(folders)@.len() < usize::MAX,
    ensures
        host_paths(old(folders)@).contains(host_path@) ==> final(folders)@ == old(folders)@,
        !host_paths(old(folders)@).contains(host_path@) ==> {
            &&& final(folders)@.len() == old(folders)@.len() + 1
            &&& final(folders)@.take(old(folders)@.len() as int) == old(folders)@
            &&& final(folders)@.last().host_path@ == host_path@
            &&& fresh_tag(
                mount_tags(old(folders)@),
                mount_tag_of(host_path@),
                final(folders)@.last().mount_tag@,
            )
        },
{
    let ghost paths = host_paths(folders@);
    let mut i: usize = 0;
    while i < folders.len()
        invariant
            i <= folders.len(),
            paths == host_paths(folders@),
            forall|j: int| 0 <= j < i ==> paths[j] != host_path@,
        decreases folders.len() - i,
    {
        if str_eq(folders[i].host_path.as_str(), host_path.as_str()) {
            proof {
                assert(paths[i as int] == host_path@);
            }
            return;
        }
        i += 1;
    }
    let mut tags: Vec<String> = Vec::new();
    let mut j: usize = 0;
    while j < folders.len()
        invariant
            j <= folders.len(),
            views(tags@) == mount_tags(folders@).take(j as int),
        decreases folders.len() - j,
    {
        let t = folders[j].mount_tag.clone();
        let ghost before_tags = tags@;
        tags.push(t);
        proof {
            assert(t@ == folders@[j as int].mount_tag@);
            assert(tags@ == before_tags.push(t));
            assert(views(tags@) =~= views(before_tags).push(t@));
            assert(mount_tags(folders@).take(j + 1) =~= mount_tags(folders@).take(j as int).push(
                folders@[j as int].mount_tag@,
            ));
        }
        j += 1;
    }
    proof {
        assert(mount_tags(folders@).take(j as int) =~= mount_tags(folders@));
        assert(!paths.contains(host_path@));
    }
    let base = generate_mount_tag(host_path.as_str());
    let mount_tag = unique_mount_tag(base.as_str(), tags.as_slice());
    let ghost before = folders@;
    folders.push(SharedFolder { host_path, mount_tag });
    proof {
        assert(folders@.take(before.len() as int) =~= before);
    }
}

/// Remove the highlighted folder, keeping the highlight on the list.
pub fn remove_shared_folder(folders: &mut Vec<SharedFolder>, selected: &mut usize)
    ensures
        *old(selected) < old(folders)@.len() ==> {
            &&& final(folders)@ == old(folders)@.remove(*old(selected) as int)
            &&& *final(selected) == (if *old(selected) >= final(folders)@.len() && *old(selected) > 0 {
                *old(selected) - 1
            } else {
                *old(selected) as int
            })
        },
        *old(selected) >= old(folders)@.len() ==> final(folders)@ == old(folders)@
            && *final(selected) == *old(selected),
{
    if !folders.is_empty() && *selected < folders.len() {
        folders.remove(*selected);
        if *selected >= folders.len() && *selected > 0 {
            *selected = *selected - 1;
        }
    }
}

/// Adding a folder keeps the host paths and the mount tags each unique.
pub proof fn lemma_add_keeps_folders_unique(
    before: Seq<SharedFolder>,
    after: Seq<SharedFolder>,
    host_path: Seq<char>,
)
    requires
        host_paths(before).no_duplicates(),
        mount_tags(before).no_duplicates(),
        host_paths(before).contains(host_path) ==> after == before,
        !host_paths(before).contains(host_path) ==> {
            &&& after.len() == before.len() + 1
            &&& after.take(before.len() as int) == before
            &&& after.last().host_path@ == host_path
            &&& fresh_tag(mount_tags(before), mount_tag_of(host_path), after.last().mount_tag@)
        },
    ensures
        host_paths(after).no_duplicates(),
        mount_tags(after).no_duplicates(),
{
    if !host_paths(before).contains(host_path) {
        let n = before.len() as int;
        assert(host_paths(after) =~= host_paths(before).push(host_path));
        assert(mount_tags(after) =~= mount_tags(before).push(after.last().mount_tag@)) by {
            assert forall|i: int| 0 <= i < n implies after[i] == before[i] by {
                assert(after.take(n)[i] == after[i]);
            }
        }
        assert forall|i: int, j: int|
            0 <= i < j < host_paths(after).len() implies host_paths(after)[i] != host_paths(
            after,
        )[j] by {
            if j == n {
                assert(host_paths(before).contains(host_paths(before)[i]));
            }
        }
        assert forall|i: int, j: int|
            0 <= i < j < mount_tags(after).len() implies mount_tags(after)[i] != mount_tags(
            after,
        )[j] by {
            if j == n {
                assert(mount_tags(before).contains(mount_tags(before)[i]));
            }
        }
    }
}

} // verus!
