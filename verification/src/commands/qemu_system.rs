//! QEMU system emulators: which ones exist, what their `--version` and
//! `-display help` print, and which KVM module `lsmod` lists.

use vstd::prelude::*;
use crate::text::{
    contains, first_word, first_word_of, has_infix, has_prefix, lines, lines_of, starts_with,
    trim, trim_ws, views,
};

verus! {

/// The QEMU system emulators the library knows, in order.
pub open spec fn known_emulators() -> Seq<Seq<char>> {
    seq![
        "qemu-system-x86_64"@,
        "qemu-system-i386"@,
        "qemu-system-ppc"@,
        "qemu-system-m68k"@,
        "qemu-system-arm"@,
        "qemu-system-aarch64"@,
    ]
}

/// The QEMU system emulators to look for, in order.
pub fn emulator_candidates() -> (res: Vec<&'static str>)
    ensures
        res@.map_values(|s: &str| s@) == known_emulators(),
{
    let res = vec![
        "qemu-system-x86_64",
        "qemu-system-i386",
        "qemu-system-ppc",
        "qemu-system-m68k",
        "qemu-system-arm",
        "qemu-system-aarch64",
    ];
    proof {
        assert(res@.map_values(|s: &str| s@) =~= known_emulators());
    }
    res
}

/// The first `n` known emulators whose entry in `available` is true, in
/// order (an emulator without an entry counts as absent).
pub open spec fn available_emulators(available: Seq<bool>, n: nat) -> Seq<Seq<char>>
    decreases n,
{
    if n == 0 {
        seq![]
    } else {
        available_emulators(available, (n - 1) as nat) + if n - 1 < available.len() && available[n
            - 1] {
            seq![known_emulators()[n - 1]]
        } else {
            seq![]
        }
    }
}

/// The known emulators, in order, whose entry in `available` (parallel to
/// `emulator_candidates`) is true.
pub fn list_available_emulators(available: &[bool]) -> (res: Vec<String>)
    ensures
        views(res@) == available_emulators(available@, 6),
{
    let names = emulator_candidates();
    proof {
        assert(names@.map_values(|s: &str| s@).len() == names@.len());
    }
    let mut res: Vec<String> = Vec::new();
    let mut i: usize = 0;
    while i < 6
        invariant
            i <= 6,
            names@.len() == 6,
            names@.map_values(|s: &str| s@) == known_emulators(),
            views(res@) == available_emulators(available@, i as nat),
        decreases 6 - i,
    {
        let ghost before = views(res@);
        if i < available.len() && available[i] {
            res.push(String::from_str(names[i]));
            proof {
                assert(names@.map_values(|s: &str| s@)[i as int] == names@[i as int]@);
                assert(views(res@) =~= before + seq![known_emulators()[i as int]]);
            }
        } else {
            proof {
                assert(views(res@) =~= before + Seq::<Seq<char>>::empty());
            }
        }
        i += 1;
    }
    res
}

/// The first line of what `--version` printed, or "Unknown".
pub fn version_line(stdout: &str) -> (res: String)
    ensures
        res@ == if lines(stdout@).len() > 0 {
            lines(stdout@)[0]
        } else {
            "Unknown"@
        },
{
    let mut ls = lines_of(stdout);
    if ls.len() > 0 {
        proof {
            assert(views(ls@)[0] == ls@[0]@);
        }
        ls.swap_remove(0)
    } else {
        String::from_str("Unknown")
    }
}

/// Whether a trimmed line of `-display help` names a backend: not empty,
/// not the "Available ..." header, and without a colon.
pub open spec fn is_backend_line(t: Seq<char>) -> bool {
    t.len() > 0 && !has_prefix(t, "Available"@) && !has_infix(t, ":"@)
}

/// The backends listed by the lines `ls` of a `-display help` text: the first
/// word of each trimmed line that names one; the list ends at the first
/// blank line after a backend (`started`: one was listed already), so that
/// QEMU's usage paragraph after the list is not read as backends.
pub open spec fn backends_from(ls: Seq<Seq<char>>, started: bool) -> Seq<Seq<char>>
    decreases ls.len(),
{
    if ls.len() == 0 {
        seq![]
    } else {
        let t = trim_ws(ls[0]);
        if t.len() == 0 && started {
            seq![]
        } else if is_backend_line(t) {
            match first_word(t) {
                Some(w) => seq![w] + backends_from(ls.drop_first(), true),
                None => backends_from(ls.drop_first(), started),
            }
        } else {
            backends_from(ls.drop_first(), started)
        }
    }
}

/// The backends listed by a `-display help` text.
pub open spec fn backends_in(ls: Seq<Seq<char>>) -> Seq<Seq<char>> {
    backends_from(ls, false)
}

/// The display backends that `<emulator> -display help` lists; its stderr
/// is read where its stdout is empty.
pub fn parse_display_backends(stdout: &str, stderr: &str) -> (res: Vec<String>)
    ensures
        views(res@) == backends_in(lines(if stdout@.len() == 0 {
            stderr@
        } else {
            stdout@
        })),
{
    proof {
        reveal_strlit("");
    }
    let text = if crate::text::str_eq(stdout, "") {
        stderr
    } else {
        stdout
    };
    proof {
        if stdout@.len() == 0 {
            assert(stdout@ =~= ""@);
        }
    }
    let ls = lines_of(text);
    let ghost all = views(ls@);
    let mut res: Vec<String> = Vec::new();
    let mut started = false;
    let mut i: usize = 0;
    proof {
        assert(all.skip(0) =~= all);
        assert(Seq::<Seq<char>>::empty() + backends_from(all, false) =~= backends_from(all, false));
    }
    while i < ls.len()
        invariant
            i <= ls.len(),
            all == views(ls@),
            all == lines(text@),
            text@ == (if stdout@.len() == 0 {
                stderr@
            } else {
                stdout@
            }),
            ""@ == Seq::<char>::empty(),
            views(res@) + backends_from(all.skip(i as int), started) == backends_from(all, false),
        decreases ls.len() - i,
    {
        let t = trim(ls[i].as_str());
        proof {
            assert(all.skip(i as int)[0] == ls@[i as int]@);
            assert(all.skip(i as int).drop_first() =~= all.skip(i + 1));
        }
        let ghost before = views(res@);
        let ghost rest = all.skip(i as int);
        proof {
            assert(rest.len() > 0);
            assert(t@ == trim_ws(rest[0]));
            assert(rest.drop_first() == all.skip(i + 1));
        }
        let blank = crate::text::str_eq(t.as_str(), "");
        if blank && started {
            proof {
                assert(before + Seq::<Seq<char>>::empty() =~= before);
            }
            return res;
        }
        proof {
            if t@.len() == 0 {
                assert(t@ =~= Seq::<char>::empty());
            }
            assert(blank == (trim_ws(rest[0]).len() == 0));
            assert(!(trim_ws(rest[0]).len() == 0 && started));
        }
        if !blank && !starts_with(t.as_str(), "Available") && !contains(t.as_str(), ":") {
            proof {
                assert(is_backend_line(t@));
            }
            match first_word_of(t.as_str()) {
                Some(w) => {
                    res.push(w);
                    proof {
                        assert(views(res@) =~= before + seq![w@]);
                        assert(before + (seq![w@] + backends_from(all.skip(i + 1), true)) =~= views(res@)
                            + backends_from(all.skip(i + 1), true));
                    }
                    started = true;
                },
                None => {
                    proof {
                        assert(backends_from(rest, started) == backends_from(all.skip(i + 1), started));
                    }
                },
            }
        } else {
            proof {
                assert(!is_backend_line(t@));
                assert(backends_from(rest, started) == backends_from(all.skip(i + 1), started));
            }
        }
        i += 1;
    }
    proof {
        assert(all.skip(ls.len() as int) =~= Seq::<Seq<char>>::empty());
        assert(views(res@) + Seq::<Seq<char>>::empty() =~= views(res@));
    }
    res
}

/// The KVM module that `lsmod` lists: the first word of the first line
/// starting with "kvm_intel" or "kvm_amd", or "kvm".
pub open spec fn kvm_module_in(ls: Seq<Seq<char>>) -> Seq<char>
    decreases ls.len(),
{
    if ls.len() == 0 {
        "kvm"@
    } else if has_prefix(ls[0], "kvm_intel"@) || has_prefix(ls[0], "kvm_amd"@) {
        match first_word(ls[0]) {
            Some(w) => w,
            None => "kvm"@,
        }
    } else {
        kvm_module_in(ls.drop_first())
    }
}

/// The loaded KVM variant named in `lsmod` output (`kvm_intel`, `kvm_amd`),
/// or "kvm".
pub fn kvm_module_from_lsmod(stdout: &str) -> (res: String)
    ensures
        res@ == kvm_module_in(lines(stdout@)),
{
    let ls = lines_of(stdout);
    let mut i: usize = 0;
    proof {
        assert(views(ls@).skip(0) =~= views(ls@));
    }
    while i < ls.len()
        invariant
            i <= ls.len(),
            kvm_module_in(views(ls@)) == kvm_module_in(views(ls@).skip(i as int)),
            views(ls@) == lines(stdout@),
        decreases ls.len() - i,
    {
        let line = ls[i].as_str();
        proof {
            assert(views(ls@).skip(i as int)[0] == ls@[i as int]@);
            assert(views(ls@).skip(i as int).drop_first() =~= views(ls@).skip(i + 1));
        }
        if starts_with(line, "kvm_intel") || starts_with(line, "kvm_amd") {
            match first_word_of(line) {
                Some(w) => {
                    return w;
                },
                None => {
                    return String::from_str("kvm");
                },
            }
        }
        i += 1;
    }
    String::from_str("kvm")
}

} // verus!
