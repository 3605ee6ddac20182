//! The file browser: which entries of a directory it lists for a mode, in
//! which order, and what choosing one does.

use vstd::prelude::*;
use std::path::PathBuf;
use crate::hardware::pci::lemma_insert_to_multiset;
use crate::navigation::FileBrowserMode;
use crate::text::{
    ends_with, has_prefix, has_suffix, lemma_lex_antisym, lemma_lex_refl, lemma_lex_total,
    lemma_lex_trans, lex_le,
    lowercase, starts_with, str_eq, str_le, to_lowercase, views,
};
use vstd::relations::{sorted_by, total_ordering};

verus! {

/// An entry of the file browser.
#[derive(Debug)]
pub struct FileBrowserEntry {
    pub name: String,
    pub path: PathBuf,
    pub is_dir: bool,
}

/// The file name endings a mode lists.
pub open spec fn mode_extensions(mode: FileBrowserMode) -> Seq<Seq<char>> {
    match mode {
        FileBrowserMode::Iso => seq![".iso"@, ".ISO"@],
        FileBrowserMode::RecoveryImage => seq![".dmg"@, ".DMG"@, ".qcow2"@, ".QCOW2"@],
        FileBrowserMode::Disk => seq![".qcow2"@, ".QCOW2"@, ".qcow"@, ".QCOW"@],
        FileBrowserMode::Directory => seq![],
        FileBrowserMode::ImportConfig => seq![".xml"@, ".XML"@, ".conf"@],
        FileBrowserMode::Bios => seq![
            ".bin"@,
            ".BIN"@,
            ".rom"@,
            ".ROM"@,
            ".qcow2"@,
            ".QCOW2"@,
            ".fd"@,
            ".FD"@,
        ],
        FileBrowserMode::Floppy => seq![
            ".img"@,
            ".IMG"@,
            ".ima"@,
            ".IMA"@,
            ".flp"@,
            ".FLP"@,
            ".vfd"@,
            ".VFD"@,
        ],
    }
}

/// The file name endings a mode lists.
pub fn extensions_for(mode: FileBrowserMode) -> (res: Vec<&'static str>)
    ensures
        res@.map_values(|e: &str| e@) == mode_extensions(mode),
{
    let res: Vec<&'static str> = match mode {
        FileBrowserMode::Iso => vec![".iso", ".ISO"],
        FileBrowserMode::RecoveryImage => vec![".dmg", ".DMG", ".qcow2", ".QCOW2"],
        FileBrowserMode::Disk => vec![".qcow2", ".QCOW2", ".qcow", ".QCOW"],
        FileBrowserMode::Directory => vec![],
        FileBrowserMode::ImportConfig => vec![".xml", ".XML", ".conf"],
        FileBrowserMode::Bios => vec![".bin", ".BIN", ".rom", ".ROM", ".qcow2", ".QCOW2", ".fd", ".FD"],
        FileBrowserMode::Floppy => vec![".img", ".IMG", ".ima", ".IMA", ".flp", ".FLP", ".vfd", ".VFD"],
    };
    proof {
        assert(res@.map_values(|e: &str| e@) =~= mode_extensions(mode));
    }
    res
}

/// A hidden entry: its name starts with a dot.
pub open spec fn hidden(name: Seq<char>) -> bool {
    has_prefix(name, "."@)
}

/// A file the mode lists: its name ends with one of the mode's endings.
pub open spec fn listed_file(mode: FileBrowserMode, name: Seq<char>) -> bool {
    exists|k: int| 0 <= k < mode_extensions(mode).len() && has_suffix(name, #[trigger] mode_extensions(mode)[k])
}

/// A row of the file browser.
#[derive(Debug, Clone, Copy, PartialEq, Eq, Structural)]
pub enum BrowserRow {
    /// "[Select This Directory]" (directory mode only), choosing the
    /// directory shown.
    SelectThisDirectory,
    /// "..", the parent directory.
    Parent,
    /// The entry at this position of the directory listing.
    Entry(usize),
}

/// Listing position `i` comes no later than `j`: by lower-cased name, equal
/// names in listing order.
pub open spec fn name_before(keys: Seq<Seq<char>>, i: usize, j: usize) -> bool {
    let a = keys[i as int];
    let b = keys[j as int];
    (a != b && lex_le(a, b)) || (a == b && i <= j)
}

/// The positions of the listing, in listing order.
pub open spec fn positions(n: nat) -> Seq<usize> {
    Seq::new(n, |i: int| i as usize)
}

/// Whether listing position `i` is a directory the browser shows.
pub open spec fn shown_dir(names: Seq<Seq<char>>, dirs: Seq<bool>) -> spec_fn(usize) -> bool {
    |i: usize| dirs[i as int] && !hidden(names[i as int])
}

/// Whether listing position `i` is a file the browser shows in `mode`.
pub open spec fn shown_file(mode: FileBrowserMode, names: Seq<Seq<char>>, dirs: Seq<bool>) -> spec_fn(
    usize,
) -> bool {
    |i: usize|
        !dirs[i as int] && !hidden(names[i as int]) && !(mode is Directory) && listed_file(
            mode,
            names[i as int],
        )
}

/// The rows of the browser: "[Select This Directory]" in directory mode,
/// ".." where the directory has a parent, then the shown directories and
/// the shown files, each sorted by lower-cased name (`keys`), equal names in
/// listing order.
pub open spec fn browser_rows_spec(
    mode: FileBrowserMode,
    has_parent: bool,
    names: Seq<Seq<char>>,
    dirs: Seq<bool>,
    keys: Seq<Seq<char>>,
) -> Seq<BrowserRow> {
    let leq = |i: usize, j: usize| name_before(keys, i, j);
    (if mode is Directory {
        seq![BrowserRow::SelectThisDirectory]
    } else {
        Seq::empty()
    }) + (if has_parent {
        seq![BrowserRow::Parent]
    } else {
        Seq::empty()
    }) + positions(names.len()).filter(shown_dir(names, dirs)).sort_by(leq).map_values(
        |i: usize| BrowserRow::Entry(i),
    ) + positions(names.len()).filter(shown_file(mode, names, dirs)).sort_by(leq).map_values(
        |i: usize| BrowserRow::Entry(i),
    )
}

proof fn lemma_name_before_total(keys: Seq<Seq<char>>)
    ensures
        total_ordering(|i: usize, j: usize| name_before(keys, i, j)),
{
    let r = |i: usize, j: usize| name_before(keys, i, j);
    assert forall|i: usize| #[trigger] r(i, i) by {}
    assert forall|i: usize, j: usize| #[trigger] r(i, j) && #[trigger] r(j, i) implies i == j by {
        if keys[i as int] != keys[j as int] {
            lemma_lex_antisym(keys[i as int], keys[j as int]);
        }
    }
    assert forall|i: usize, j: usize, k: usize| #[trigger] r(i, j) && #[trigger] r(j, k) implies r(
        i,
        k,
    ) by {
        let (a, b, c) = (keys[i as int], keys[j as int], keys[k as int]);
        if a != b || b != c {
            lemma_lex_refl(a);
            lemma_lex_refl(b);
            lemma_lex_trans(a, b, c);
            if a == c {
                lemma_lex_antisym(a, b);
            }
        }
    }
    assert forall|i: usize, j: usize| #[trigger] r(i, j) || #[trigger] r(j, i) by {
        lemma_lex_total(keys[i as int], keys[j as int]);
    }
}

/// Whether `name` ends with one of the mode's endings.
fn has_listed_extension(mode: FileBrowserMode, name: &str) -> (res: bool)
    ensures
        res == listed_file(mode, name@),
{
    let exts = extensions_for(mode);
    let ghost es = mode_extensions(mode);
    let mut k: usize = 0;
    while k < exts.len()
        invariant
            k <= exts.len(),
            es == mode_extensions(mode),
            exts@.map_values(|e: &str| e@) == es,
            forall|j: int| 0 <= j < k ==> !has_suffix(name@, #[trigger] es[j]),
        decreases exts.len() - k,
    {
        proof {
            assert(es[k as int] == exts@[k as int]@);
        }
        if ends_with(name, exts[k]) {
            return true;
        }
        k += 1;
    }
    false
}

/// The positions of `wanted` in listing order, sorted by `keys`.
fn sorted_positions(keys: &Vec<String>, wanted: &Vec<bool>) -> (res: Vec<usize>)
    requires
        keys.len() == wanted.len(),
    ensures
        res@ == positions(keys@.len()).filter(|i: usize| wanted@[i as int]).sort_by(
            |i: usize, j: usize| name_before(views(keys@), i, j),
        ),
{
    broadcast use vstd::seq_lib::group_to_multiset_ensures;

    let ghost ks = views(keys@);
    let ghost leq = |i: usize, j: usize| name_before(ks, i, j);
    let ghost pred = |i: usize| wanted@[i as int];
    let mut res: Vec<usize> = Vec::new();
    let mut i: usize = 0;
    proof {
        assert(positions(0).filter(pred) =~= Seq::<usize>::empty());
    }
    while i < keys.len()
        invariant
            i <= keys.len(),
            keys.len() == wanted.len(),
            ks == views(keys@),
            leq == (|i: usize, j: usize| name_before(ks, i, j)),
            pred == (|i: usize| wanted@[i as int]),
            sorted_by(res@, leq),
            res@.to_multiset() == positions(i as nat).filter(pred).to_multiset(),
            forall|k: int| 0 <= k < res@.len() ==> res@[k] < i,
        decreases keys.len() - i,
    {
        let ghost before = positions(i as nat);
        proof {
            assert(positions((i + 1) as nat) =~= before + seq![i]);
            Seq::filter_distributes_over_add(before, seq![i], pred);
            reveal_with_fuel(Seq::filter, 2);
            assert(seq![i].drop_last() =~= Seq::<usize>::empty());
        }
        if wanted[i] {
            let mut p: usize = 0;
            while p < res.len() && !(str_le(keys[i].as_str(), keys[res[p]].as_str()) && !str_eq(
                keys[i].as_str(),
                keys[res[p]].as_str(),
            ))
                invariant
                    p <= res.len(),
                    i < keys.len(),
                    ks == views(keys@),
                    forall|k: int| 0 <= k < res@.len() ==> res@[k] < i,
                    forall|q: int|
                        0 <= q < p ==> !(ks[i as int] != ks[res@[q] as int] && lex_le(
                            ks[i as int],
                            ks[res@[q] as int],
                        )),
                decreases res.len() - p,
            {
                proof {
                    assert(ks[i as int] == keys@[i as int]@);
                    assert(ks[res@[p as int] as int] == keys@[res@[p as int] as int]@);
                }
                p += 1;
            }
            proof {
                if p < res.len() {
                    assert(ks[i as int] == keys@[i as int]@);
                    assert(ks[res@[p as int] as int] == keys@[res@[p as int] as int]@);
                }
            }
            let ghost old_res = res@;
            res.insert(p, i);
            proof {
                let ki = ks[i as int];
                assert forall|a: int, b: int| 0 <= a < b < res@.len() implies #[trigger] leq(
                    res@[a],
                    res@[b],
                ) by {
                    let x = res@[a];
                    let y = res@[b];
                    if a < p && b < p {
                        assert(x == old_res[a] && y == old_res[b]);
                        assert(leq(old_res[a], old_res[b]));
                    } else if a < p && b == p {
                        assert(x == old_res[a]);
                        lemma_lex_total(ki, ks[x as int]);
                    } else if a < p {
                        assert(x == old_res[a] && y == old_res[b - 1]);
                        assert(leq(old_res[a], old_res[b - 1]));
                    } else if a == p {
                        let z = old_res[p as int];
                        assert(y == old_res[b - 1]);
                        assert(ki != ks[z as int] && lex_le(ki, ks[z as int]));
                        if b - 1 > p {
                            assert(leq(z, old_res[b - 1]));
                            lemma_lex_refl(ks[z as int]);
                            lemma_lex_trans(ki, ks[z as int], ks[y as int]);
                            if ki == ks[y as int] {
                                lemma_lex_antisym(ki, ks[z as int]);
                            }
                        }
                    } else {
                        assert(x == old_res[a - 1] && y == old_res[b - 1]);
                        assert(leq(old_res[a - 1], old_res[b - 1]));
                    }
                }
                lemma_insert_to_multiset(old_res, p as int, i);
                assert(pred(i));
                assert(positions((i + 1) as nat).filter(pred) =~= before.filter(pred).push(i));
                vstd::seq_lib::to_multiset_build(before.filter(pred), i);
            }
        } else {
            proof {
                assert(!pred(i));
                assert(positions((i + 1) as nat).filter(pred) =~= before.filter(pred));
            }
        }
        i += 1;
    }
    proof {
        let g = positions(keys@.len()).filter(pred);
        lemma_name_before_total(ks);
        g.lemma_sort_by_ensures(leq);
        vstd::seq_lib::lemma_sorted_unique(res@, g.sort_by(leq), leq);
    }
    res
}

} // verus!

verus! {

proof fn lemma_filter_same<A>(s: Seq<A>, p: spec_fn(A) -> bool, q: spec_fn(A) -> bool)
    requires
        forall|i: int| 0 <= i < s.len() ==> p(#[trigger] s[i]) == q(s[i]),
    ensures
        s.filter(p) == s.filter(q),
    decreases s.len(),
{
    reveal_with_fuel(Seq::filter, 1);
    if s.len() > 0 {
        assert(p(s[s.len() - 1]) == q(s[s.len() - 1]));
        lemma_filter_same(s.drop_last(), p, q);
    }
}

/// The lower-cased names.
pub open spec fn lowered(names: Seq<Seq<char>>) -> Seq<Seq<char>> {
    names.map_values(|n: Seq<char>| lowercase(n))
}

/// The rows of the file browser for a directory listing (`names[i]` and
/// `dirs[i]` describe entry `i`), in `mode`, with or without a parent.
pub fn browser_rows(mode: FileBrowserMode, has_parent: bool, names: &Vec<String>, dirs: &Vec<bool>) -> (res:
    Vec<BrowserRow>)
    requires
        names.len() == dirs.len(),
    ensures
        res@ == browser_rows_spec(mode, has_parent, views(names@), dirs@, lowered(views(names@))),
{
    let ghost ns = views(names@);
    let mut keys: Vec<String> = Vec::new();
    let mut want_dir: Vec<bool> = Vec::new();
    let mut want_file: Vec<bool> = Vec::new();
    let directory_mode = matches!(mode, FileBrowserMode::Directory);
    let mut i: usize = 0;
    while i < names.len()
        invariant
            i <= names.len(),
            names.len() == dirs.len(),
            ns == views(names@),
            directory_mode == (mode is Directory),
            keys@.len() == i && want_dir@.len() == i && want_file@.len() == i,
            forall|k: int| 0 <= k < i ==> keys@[k]@ == lowercase(#[trigger] ns[k]),
            forall|k: int|
                0 <= k < i ==> want_dir@[k] == shown_dir(ns, dirs@)(#[trigger] (k as usize)),
            forall|k: int|
                0 <= k < i ==> want_file@[k] == shown_file(mode, ns, dirs@)(#[trigger] (k as usize)),
        decreases names.len() - i,
    {
        let name = names[i].as_str();
        proof {
            assert(ns[i as int] == name@);
        }
        let is_hidden = starts_with(name, ".");
        keys.push(to_lowercase(name));
        want_dir.push(dirs[i] && !is_hidden);
        let file_ok = !dirs[i] && !is_hidden && !directory_mode && has_listed_extension(mode, name);
        want_file.push(file_ok);
        i += 1;
    }
    proof {
        assert(views(keys@) =~= lowered(ns));
        lemma_filter_same(
            positions(names@.len()),
            |i: usize| want_dir@[i as int],
            shown_dir(ns, dirs@),
        );
        lemma_filter_same(
            positions(names@.len()),
            |i: usize| want_file@[i as int],
            shown_file(mode, ns, dirs@),
        );
    }
    let d = sorted_positions(&keys, &want_dir);
    let f = sorted_positions(&keys, &want_file);
    let mut rows: Vec<BrowserRow> = Vec::new();
    if directory_mode {
        rows.push(BrowserRow::SelectThisDirectory);
    }
    if has_parent {
        rows.push(BrowserRow::Parent);
    }
    let ghost head = rows@;
    let mut j: usize = 0;
    while j < d.len()
        invariant
            j <= d.len(),
            rows@ == head + d@.take(j as int).map_values(|i: usize| BrowserRow::Entry(i)),
        decreases d.len() - j,
    {
        rows.push(BrowserRow::Entry(d[j]));
        proof {
            assert(d@.take(j + 1).map_values(|i: usize| BrowserRow::Entry(i)) =~= d@.take(
                j as int,
            ).map_values(|i: usize| BrowserRow::Entry(i)).push(BrowserRow::Entry(d@[j as int])));
        }
        j += 1;
    }
    let ghost mid = rows@;
    let mut j: usize = 0;
    while j < f.len()
        invariant
            j <= f.len(),
            rows@ == mid + f@.take(j as int).map_values(|i: usize| BrowserRow::Entry(i)),
        decreases f.len() - j,
    {
        rows.push(BrowserRow::Entry(f[j]));
        proof {
            assert(f@.take(j + 1).map_values(|i: usize| BrowserRow::Entry(i)) =~= f@.take(
                j as int,
            ).map_values(|i: usize| BrowserRow::Entry(i)).push(BrowserRow::Entry(f@[j as int])));
        }
        j += 1;
    }
    proof {
        assert(d@.take(d.len() as int) =~= d@);
        assert(f@.take(f.len() as int) =~= f@);
        assert(head =~= (if mode is Directory {
            seq![BrowserRow::SelectThisDirectory]
        } else {
            Seq::empty()
        }) + (if has_parent {
            seq![BrowserRow::Parent]
        } else {
            Seq::empty()
        }));
    }
    rows
}

} // verus!

verus! {

/// What choosing the highlighted row does.
#[derive(Debug, Clone, Copy, PartialEq, Eq, Structural)]
pub enum BrowserChoice {
    /// Open the directory of this row ("..", or a listed directory).
    Open(BrowserRow),
    /// Choose the file (or, for "[Select This Directory]", the directory
    /// shown) of this row.
    Choose(BrowserRow),
    /// Nothing is highlighted.
    Nothing,
}

/// What choosing row `selected` of `rows` does (`dirs[i]` tells whether
/// listing entry `i` is a directory).
pub open spec fn choice_at(rows: Seq<BrowserRow>, dirs: Seq<bool>, selected: int) -> BrowserChoice {
    if 0 <= selected < rows.len() {
        match rows[selected] {
            BrowserRow::SelectThisDirectory => BrowserChoice::Choose(rows[selected]),
            BrowserRow::Parent => BrowserChoice::Open(rows[selected]),
            BrowserRow::Entry(i) => if dirs[i as int] {
                BrowserChoice::Open(rows[selected])
            } else {
                BrowserChoice::Choose(rows[selected])
            },
        }
    } else {
        BrowserChoice::Nothing
    }
}

/// What choosing the highlighted row does.
pub fn browser_enter(rows: &[BrowserRow], dirs: &[bool], selected: usize) -> (res: BrowserChoice)
    requires
        forall|k: int| 0 <= k < rows.len() ==> (#[trigger] rows[k] matches BrowserRow::Entry(i)
            ==> i < dirs.len()),
    ensures
        res == choice_at(rows@, dirs@, selected as int),
{
    if selected < rows.len() {
        let row = rows[selected];
        match row {
            BrowserRow::SelectThisDirectory => BrowserChoice::Choose(row),
            BrowserRow::Parent => BrowserChoice::Open(row),
            BrowserRow::Entry(i) => {
                proof {
                    assert(rows@[selected as int] matches BrowserRow::Entry(j) ==> j < dirs.len());
                }
                if dirs[i] {
                    BrowserChoice::Open(row)
                } else {
                    BrowserChoice::Choose(row)
                }
            },
        }
    } else {
        BrowserChoice::Nothing
    }
}

/// The highlight after moving up (`down` false) or down in a list of
/// `len` rows.
pub fn browser_move(selected: usize, len: usize, down: bool) -> (res: usize)
    ensures
        res == (if down {
            if len > 0 && selected + 1 < len {
                selected + 1
            } else {
                selected as int
            }
        } else if selected > 0 {
            selected - 1
        } else {
            0
        }),
{
    if down {
        if len > 0 && selected < len - 1 {
            selected + 1
        } else {
            selected
        }
    } else if selected > 0 {
        selected - 1
    } else {
        0
    }
}

/// Every row of the browser is a listed entry, "..", or the directory
/// choice: the rows name only positions of the listing.
pub proof fn lemma_rows_name_listing(
    mode: FileBrowserMode,
    has_parent: bool,
    names: Seq<Seq<char>>,
    dirs: Seq<bool>,
    keys: Seq<Seq<char>>,
)
    requires
        names.len() == dirs.len(),
        names.len() <= usize::MAX,
    ensures
        forall|k: int|
            0 <= k < browser_rows_spec(mode, has_parent, names, dirs, keys).len() ==> (
            #[trigger] browser_rows_spec(mode, has_parent, names, dirs, keys)[k] matches BrowserRow::Entry(i)
                ==> i < names.len()),
{
    let leq = |i: usize, j: usize| name_before(keys, i, j);
    let all = positions(names.len());
    lemma_name_before_total(keys);
    let d = all.filter(shown_dir(names, dirs));
    let f = all.filter(shown_file(mode, names, dirs));
    assert forall|i: int| 0 <= i < all.len() implies (#[trigger] all[i]) < names.len() by {
        assert(all[i] as int == i);
    }
    lemma_filter_below(all, shown_dir(names, dirs), names.len());
    lemma_filter_below(all, shown_file(mode, names, dirs), names.len());
    d.lemma_sort_by_ensures(leq);
    f.lemma_sort_by_ensures(leq);
    let ds = d.sort_by(leq);
    let fs = f.sort_by(leq);
    assert forall|k: int| 0 <= k < ds.len() implies (#[trigger] ds[k]) < names.len() by {
        assert(ds.contains(ds[k]));
        assert(d.contains(ds[k]));
    }
    assert forall|k: int| 0 <= k < fs.len() implies (#[trigger] fs[k]) < names.len() by {
        assert(fs.contains(fs[k]));
        assert(f.contains(fs[k]));
    }
}

proof fn lemma_filter_below(s: Seq<usize>, pred: spec_fn(usize) -> bool, n: nat)
    requires
        forall|i: int| 0 <= i < s.len() ==> (#[trigger] s[i]) < n,
    ensures
        forall|i: int| 0 <= i < s.filter(pred).len() ==> (#[trigger] s.filter(pred)[i]) < n,
        forall|x: usize| s.filter(pred).contains(x) ==> x < n,
    decreases s.len(),
{
    reveal_with_fuel(Seq::filter, 1);
    if s.len() > 0 {
        lemma_filter_below(s.drop_last(), pred, n);
        let sub = s.drop_last().filter(pred);
        if pred(s.last()) {
            assert(s.filter(pred) =~= sub.push(s.last()));
        } else {
            assert(s.filter(pred) =~= sub);
        }
    }
}

/// The file endings each mode lists: a file is listed in a mode exactly
/// when its name ends with one of these.
pub proof fn lemma_mode_endings(mode: FileBrowserMode, name: Seq<char>)
    ensures
        listed_file(mode, name) <==> match mode {
            FileBrowserMode::Iso => has_suffix(name, ".iso"@) || has_suffix(name, ".ISO"@),
            FileBrowserMode::RecoveryImage => has_suffix(name, ".dmg"@) || has_suffix(name, ".DMG"@)
                || has_suffix(name, ".qcow2"@) || has_suffix(name, ".QCOW2"@),
            FileBrowserMode::Disk => has_suffix(name, ".qcow2"@) || has_suffix(name, ".QCOW2"@)
                || has_suffix(name, ".qcow"@) || has_suffix(name, ".QCOW"@),
            FileBrowserMode::Directory => false,
            FileBrowserMode::ImportConfig => has_suffix(name, ".xml"@) || has_suffix(name, ".XML"@)
                || has_suffix(name, ".conf"@),
            FileBrowserMode::Bios => has_suffix(name, ".bin"@) || has_suffix(name, ".BIN"@)
                || has_suffix(name, ".rom"@) || has_suffix(name, ".ROM"@) || has_suffix(name, ".qcow2"@)
                || has_suffix(name, ".QCOW2"@) || has_suffix(name, ".fd"@) || has_suffix(name, ".FD"@),
            FileBrowserMode::Floppy => has_suffix(name, ".img"@) || has_suffix(name, ".IMG"@)
                || has_suffix(name, ".ima"@) || has_suffix(name, ".IMA"@) || has_suffix(name, ".flp"@)
                || has_suffix(name, ".FLP"@) || has_suffix(name, ".vfd"@) || has_suffix(name, ".VFD"@),
        },
{
}

/// Every file the browser shows in a mode (not a directory, not hidden, its
/// name with one of the mode's endings) is among the rows.
pub proof fn lemma_shown_files_listed(
    mode: FileBrowserMode,
    has_parent: bool,
    names: Seq<Seq<char>>,
    dirs: Seq<bool>,
    keys: Seq<Seq<char>>,
    i: int,
)
    requires
        names.len() == dirs.len(),
        names.len() <= usize::MAX,
        0 <= i < names.len(),
        !dirs[i],
        !hidden(names[i]),
        !(mode is Directory),
        listed_file(mode, names[i]),
    ensures
        browser_rows_spec(mode, has_parent, names, dirs, keys).contains(BrowserRow::Entry(i as usize)),
{
    broadcast use vstd::seq_lib::group_to_multiset_ensures;

    let leq = |a: usize, b: usize| name_before(keys, a, b);
    let all = positions(names.len());
    lemma_name_before_total(keys);
    assert(all[i] == i as usize);
    assert(shown_file(mode, names, dirs)(all[i]));
    all.lemma_filter_contains(shown_file(mode, names, dirs), i);
    let f = all.filter(shown_file(mode, names, dirs));
    f.lemma_sort_by_ensures(leq);
    let fs = f.sort_by(leq);
    assert(f.to_multiset().count(i as usize) > 0);
    assert(fs.to_multiset().count(i as usize) > 0);
    assert(fs.contains(i as usize));
    let w = choose|w: int| 0 <= w < fs.len() && fs[w] == i as usize;
    let fm = fs.map_values(|x: usize| BrowserRow::Entry(x));
    assert(fm[w] == BrowserRow::Entry(i as usize));
    let pre = (if mode is Directory {
        seq![BrowserRow::SelectThisDirectory]
    } else {
        Seq::empty()
    }) + (if has_parent {
        seq![BrowserRow::Parent]
    } else {
        Seq::empty()
    }) + all.filter(shown_dir(names, dirs)).sort_by(leq).map_values(|x: usize| BrowserRow::Entry(x));
    assert(browser_rows_spec(mode, has_parent, names, dirs, keys) == pre + fm);
    assert((pre + fm)[pre.len() + w] == BrowserRow::Entry(i as usize));
}

/// In disk mode every shown file whose name ends with ".qcow2", ".QCOW2",
/// ".qcow" or ".QCOW" is among the rows.
pub proof fn lemma_disk_images_listed(
    has_parent: bool,
    names: Seq<Seq<char>>,
    dirs: Seq<bool>,
    keys: Seq<Seq<char>>,
    i: int,
)
    requires
        names.len() == dirs.len(),
        names.len() <= usize::MAX,
        0 <= i < names.len(),
        !dirs[i],
        !hidden(names[i]),
        has_suffix(names[i], ".qcow2"@) || has_suffix(names[i], ".QCOW2"@) || has_suffix(
            names[i],
            ".qcow"@,
        ) || has_suffix(names[i], ".QCOW"@),
    ensures
        browser_rows_spec(FileBrowserMode::Disk, has_parent, names, dirs, keys).contains(
            BrowserRow::Entry(i as usize),
        ),
{
    lemma_mode_endings(FileBrowserMode::Disk, names[i]);
    lemma_shown_files_listed(FileBrowserMode::Disk, has_parent, names, dirs, keys, i);
}

} // verus!

verus! {

/// The name a row shows.
pub open spec fn row_name_spec(row: BrowserRow, names: Seq<Seq<char>>) -> Seq<char> {
    match row {
        BrowserRow::SelectThisDirectory => "[Select This Directory]"@,
        BrowserRow::Parent => ".."@,
        BrowserRow::Entry(i) => names[i as int],
    }
}

/// The name a row shows.
pub fn row_name(row: BrowserRow, names: &[String]) -> (res: String)
    requires
        row matches BrowserRow::Entry(i) ==> i < names.len(),
    ensures
        res@ == row_name_spec(row, views(names@)),
{
    match row {
        BrowserRow::SelectThisDirectory => String::from_str("[Select This Directory]"),
        BrowserRow::Parent => String::from_str(".."),
        BrowserRow::Entry(i) => {
            proof {
                assert(views(names@)[i as int] == names@[i as int]@);
            }
            names[i].clone()
        },
    }
}

} // verus!
