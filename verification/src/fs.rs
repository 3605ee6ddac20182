//! File-system checks behind VM directory setup: whether a directory lies on
//! BTRFS (from `stat -f` or `/proc/mounts`), and which `chattr +C` failures
//! matter.

use vstd::prelude::*;
use vstd::utf8::encode_utf8;
use crate::text::{
    contains, has_infix, has_prefix, lines, lines_of, lowercase, split_whitespace, starts_with,
    str_eq, to_lowercase, trim, trim_ws, views, ws_words,
};

verus! {

/// `stat -f -c %t` output of a BTRFS file system: its magic number 0x9123683E
/// in lower-case hex.
pub open spec fn btrfs_magic_hex() -> Seq<char> {
    "9123683e"@
}

/// Whether `stat -f -c %t` printed the BTRFS magic number (ignoring case and
/// surrounding white space).
pub fn stat_reports_btrfs(stdout: &str) -> (res: bool)
    ensures
        res == (lowercase(trim_ws(stdout@)) == btrfs_magic_hex()),
{
    let t = trim(stdout);
    let l = to_lowercase(t.as_str());
    str_eq(l.as_str(), "9123683e")
}

/// Byte length of a text in UTF-8 (`str::len`).
pub open spec fn byte_len(s: Seq<char>) -> usize {
    encode_utf8(s).len() as usize
}

/// (mount point, file-system type) of each `/proc/mounts` line with at least
/// three fields.
pub open spec fn mount_entries(ls: Seq<Seq<char>>) -> Seq<(Seq<char>, Seq<char>)>
    decreases ls.len(),
{
    if ls.len() == 0 {
        seq![]
    } else {
        mount_entries(ls.drop_last()) + if ws_words(ls.last()).len() >= 3 {
            seq![(ws_words(ls.last())[1], ws_words(ls.last())[2])]
        } else {
            seq![]
        }
    }
}

/// Whether a mount point holds `path` (a prefix of it, or the root).
pub open spec fn mount_covers(mount_point: Seq<char>, path: Seq<char>) -> bool {
    has_prefix(path, mount_point) || mount_point == "/"@
}

/// Index of the mount that holds `path`: the longest covering mount point
/// (in bytes), the first listed among equally long ones.
pub open spec fn chosen_mount(es: Seq<(Seq<char>, Seq<char>)>, path: Seq<char>) -> Option<int>
    decreases es.len(),
{
    if es.len() == 0 {
        None
    } else {
        let b = chosen_mount(es.drop_last(), path);
        let i = es.len() - 1;
        if mount_covers(es[i].0, path) && match b {
            None => true,
            Some(j) => byte_len(es[i].0) > byte_len(es[j].0),
        } {
            Some(i)
        } else {
            b
        }
    }
}

/// Whether `/proc/mounts` text places `path` on a BTRFS file system.
pub open spec fn mounted_on_btrfs(mounts: Seq<char>, path: Seq<char>) -> bool {
    let es = mount_entries(lines(mounts));
    match chosen_mount(es, path) {
        Some(i) => es[i].1 == "btrfs"@,
        None => false,
    }
}

proof fn lemma_chosen_mount_bound(es: Seq<(Seq<char>, Seq<char>)>, path: Seq<char>)
    ensures
        match chosen_mount(es, path) {
            Some(i) => 0 <= i < es.len(),
            None => true,
        },
    decreases es.len(),
{
    if es.len() > 0 {
        lemma_chosen_mount_bound(es.drop_last(), path);
    }
}

/// Whether the mount holding `path` (a canonical path) is BTRFS, going by
/// the text of `/proc/mounts`.
pub fn btrfs_from_mounts(mounts: &str, path: &str) -> (res: bool)
    ensures
        res == mounted_on_btrfs(mounts@, path@),
{
    proof {
        reveal_strlit("/");
    }
    let ls = lines_of(mounts);
    let ghost lv = views(ls@);
    let mut found = false;
    let mut best_len: usize = 0;
    let mut best_is_btrfs = false;
    let ghost mut best: Option<int> = None;
    let mut i: usize = 0;
    while i < ls.len()
        invariant
            i <= ls.len(),
            lv == views(ls@),
            lv == lines(mounts@),
            "/"@ == seq!['/'],
            best == chosen_mount(mount_entries(lv.take(i as int)), path@),
            found == best.is_some(),
            match best {
                Some(j) => {
                    &&& 0 <= j < mount_entries(lv.take(i as int)).len()
                    &&& best_len == byte_len(mount_entries(lv.take(i as int))[j].0)
                    &&& best_is_btrfs == (mount_entries(lv.take(i as int))[j].1 == "btrfs"@)
                },
                None => true,
            },
        decreases ls.len() - i,
    {
        let ghost es = mount_entries(lv.take(i as int));
        proof {
            assert(lv.take(i + 1).drop_last() =~= lv.take(i as int));
            assert(lv.take(i + 1).last() == ls@[i as int]@);
            lemma_chosen_mount_bound(es, path@);
        }
        let words = split_whitespace(ls[i].as_str());
        if words.len() >= 3 {
            let mp = words[1].as_str();
            proof {
                let e = (ws_words(ls@[i as int]@)[1], ws_words(ls@[i as int]@)[2]);
                let es2 = mount_entries(lv.take(i + 1));
                assert(es2 == es + seq![e]);
                assert(es2.drop_last() =~= es);
                assert(es2[es2.len() - 1] == e);
                assert(views(words@)[1] == words@[1]@);
                assert(views(words@)[2] == words@[2]@);
                match best {
                    Some(j) => {
                        assert(es2[j] == es[j]);
                    },
                    None => {},
                }
            }
            let covers = starts_with(path, mp) || str_eq(mp, "/");
            let len = mp.len();
            if covers && (!found || len > best_len) {
                found = true;
                best_len = len;
                best_is_btrfs = str_eq(words[2].as_str(), "btrfs");
                proof {
                    best = Some(es.len() as int);
                }
            } else {
                proof {
                    let es2 = mount_entries(lv.take(i + 1));
                    match best {
                        Some(j) => {
                            assert(es2[j] == es[j]);
                        },
                        None => {},
                    }
                }
            }
        } else {
            proof {
                assert(mount_entries(lv.take(i + 1)) =~= es);
            }
        }
        i += 1;
    }
    proof {
        assert(lv.take(ls.len() as int) =~= lv);
    }
    found && best_is_btrfs
}

/// Whether a failed `chattr +C` is an error: file systems that do not
/// support the attribute ("Operation not supported", "Inappropriate ioctl")
/// are not.
pub fn chattr_failure_is_error(stderr: &str) -> (res: bool)
    ensures
        res == (!has_infix(stderr@, "Operation not supported"@) && !has_infix(
            stderr@,
            "Inappropriate ioctl"@,
        )),
{
    !contains(stderr, "Operation not supported") && !contains(stderr, "Inappropriate ioctl")
}

/// What a run of `chattr +C` achieved.
#[derive(Debug, Clone, Copy, PartialEq, Eq)]
pub enum ChattrOutcome {
    /// Copy-on-write is now off.
    Disabled,
    /// The file system does not support the attribute: nothing was done.
    NotSupported,
    /// The command failed otherwise.
    Failed,
}

/// The outcome of `chattr +C` from whether it succeeded and its stderr.
pub fn chattr_outcome(succeeded: bool, stderr: &str) -> (res: ChattrOutcome)
    ensures
        succeeded ==> res == ChattrOutcome::Disabled,
        !succeeded ==> res == (if !has_infix(stderr@, "Operation not supported"@) && !has_infix(
            stderr@,
            "Inappropriate ioctl"@,
        ) {
            ChattrOutcome::Failed
        } else {
            ChattrOutcome::NotSupported
        }),
{
    if succeeded {
        ChattrOutcome::Disabled
    } else if chattr_failure_is_error(stderr) {
        ChattrOutcome::Failed
    } else {
        ChattrOutcome::NotSupported
    }
}

} // verus!

verus! {

/// The mount chosen for a path is the most specific one: it holds the path,
/// no mount that holds the path is longer, and any equally long one is
/// listed after it; no mount is chosen only when none holds the path.
pub proof fn lemma_chosen_mount_most_specific(es: Seq<(Seq<char>, Seq<char>)>, path: Seq<char>)
    ensures
        match chosen_mount(es, path) {
            Some(i) => {
                &&& 0 <= i < es.len()
                &&& mount_covers(es[i].0, path)
                &&& forall|j: int|
                    0 <= j < es.len() && mount_covers(#[trigger] es[j].0, path) ==> byte_len(
                        es[j].0,
                    ) <= byte_len(es[i].0)
                &&& forall|j: int|
                    0 <= j < i && mount_covers(#[trigger] es[j].0, path) ==> byte_len(es[j].0)
                        < byte_len(es[i].0)
            },
            None => forall|j: int| 0 <= j < es.len() ==> !mount_covers(#[trigger] es[j].0, path),
        },
    decreases es.len(),
{
    if es.len() > 0 {
        let p = es.drop_last();
        lemma_chosen_mount_most_specific(p, path);
        let n = es.len() - 1;
        assert forall|j: int| 0 <= j < n implies #[trigger] es[j] == p[j] by {}
        match chosen_mount(p, path) {
            Some(b) => {
                assert(p[b] == es[b]);
                if mount_covers(es[n].0, path) && byte_len(es[n].0) > byte_len(es[b].0) {
                    assert forall|j: int|
                        0 <= j < es.len() && mount_covers(#[trigger] es[j].0, path) implies byte_len(
                        es[j].0,
                    ) <= byte_len(es[n].0) by {
                        if j < n {
                            assert(es[j] == p[j]);
                        }
                    }
                    assert forall|j: int|
                        0 <= j < n && mount_covers(#[trigger] es[j].0, path) implies byte_len(es[j].0)
                        < byte_len(es[n].0) by {
                        assert(es[j] == p[j]);
                    }
                } else {
                    assert forall|j: int|
                        0 <= j < es.len() && mount_covers(#[trigger] es[j].0, path) implies byte_len(
                        es[j].0,
                    ) <= byte_len(es[b].0) by {
                        if j < n {
                            assert(es[j] == p[j]);
                        }
                    }
                    assert forall|j: int|
                        0 <= j < b && mount_covers(#[trigger] es[j].0, path) implies byte_len(es[j].0)
                        < byte_len(es[b].0) by {
                        assert(es[j] == p[j]);
                    }
                }
            },
            None => {
                if !mount_covers(es[n].0, path) {
                    assert forall|j: int| 0 <= j < es.len() implies !mount_covers(
                        #[trigger] es[j].0,
                        path,
                    ) by {
                        if j < n {
                            assert(es[j] == p[j]);
                        }
                    }
                } else {
                    assert forall|j: int|
                        0 <= j < es.len() && mount_covers(#[trigger] es[j].0, path) implies byte_len(
                        es[j].0,
                    ) <= byte_len(es[n].0) by {
                        if j < n {
                            assert(es[j] == p[j]);
                        }
                    }
                    assert forall|j: int|
                        0 <= j < n && mount_covers(#[trigger] es[j].0, path) implies byte_len(es[j].0)
                        < byte_len(es[n].0) by {
                        assert(es[j] == p[j]);
                    }
                }
            },
        }
    }
}

} // verus!
