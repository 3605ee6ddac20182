//! The VM list: VMs grouped by OS family and subcategory, each group sorted
//! by release date or name, and the rows the list shows.

use vstd::prelude::*;
use crate::metadata::hierarchy::{categorize_by, Family, HierarchyConfig, SortBy, Subcategory};
use crate::metadata::os_info::{MetadataStore, OsInfo};
use crate::hardware::pci::lemma_insert_to_multiset;
use crate::text::{
    contains, has_infix, lemma_lex_antisym, lemma_lex_total, lemma_lex_trans, lex_le, lowercase, str_eq,
    str_le, to_lowercase,
};
use vstd::relations::{sorted_by, total_ordering};

verus! {

/// What the list reads of a discovered VM: its id and the name it gives
/// itself.
#[derive(Debug, Clone)]
pub struct VmSummary {
    pub id: String,
    pub display_name: String,
}

/// The name shown for a VM: the metadata's display name, else its short
/// name where that is not empty, else the VM's own name.
pub open spec fn shown_name(id: Seq<char>, own: Seq<char>, m: Map<Seq<char>, OsInfo>) -> Seq<char> {
    if m.contains_key(id) {
        match m[id].display_name {
            Some(d) => d@,
            None => if m[id].name@.len() > 0 {
                m[id].name@
            } else {
                own
            },
        }
    } else {
        own
    }
}

/// The release date the metadata gives a VM ("" where it has none).
pub open spec fn release_date_of(id: Seq<char>, m: Map<Seq<char>, OsInfo>) -> Seq<char> {
    if m.contains_key(id) {
        m[id].release_date@
    } else {
        Seq::empty()
    }
}

/// Get the display name for a VM, using metadata where there is some.
pub fn get_display_name(vm: &VmSummary, metadata: &MetadataStore) -> (res: String)
    ensures
        res@ == shown_name(vm.id@, vm.display_name@, metadata@),
{
    if let Some(info) = metadata.get(vm.id.as_str()) {
        if let Some(display_name) = &info.display_name {
            return display_name.clone();
        }
        if !info.name.as_str().is_empty() {
            return info.name.clone();
        }
    }
    vm.display_name.clone()
}

/// What the list knows of one listed VM: where it is placed, and what it
/// is sorted by.
pub struct CatalogEntry {
    pub family: Seq<char>,
    pub subcategory: Seq<char>,
    pub name: Seq<char>,
    pub date: Seq<char>,
}

/// The entry of a VM under the hierarchy's patterns and the metadata.
pub open spec fn entry_of(
    vm: VmSummary,
    patterns: Seq<(Seq<char>, Seq<char>, Seq<char>)>,
    m: Map<Seq<char>, OsInfo>,
) -> CatalogEntry {
    let place = categorize_by(patterns, vm.id@);
    CatalogEntry {
        family: place.0,
        subcategory: place.1,
        name: shown_name(vm.id@, vm.display_name@, m),
        date: release_date_of(vm.id@, m),
    }
}

/// The entries of the listed VMs, one per position of `filtered` (which
/// holds indices into `vms`).
pub open spec fn catalog(
    vms: Seq<VmSummary>,
    filtered: Seq<usize>,
    patterns: Seq<(Seq<char>, Seq<char>, Seq<char>)>,
    m: Map<Seq<char>, OsInfo>,
) -> Seq<CatalogEntry> {
    Seq::new(filtered.len(), |i: int| entry_of(vms[filtered[i] as int], patterns, m))
}

/// An entry as the list holds it.
struct ListEntry {
    family: String,
    subcategory: String,
    name: String,
    date: String,
}

impl View for ListEntry {
    type V = CatalogEntry;

    closed spec fn view(&self) -> CatalogEntry {
        CatalogEntry {
            family: self.family@,
            subcategory: self.subcategory@,
            name: self.name@,
            date: self.date@,
        }
    }
}

/// The views of a sequence of entries.
spec fn entry_views(es: Seq<ListEntry>) -> Seq<CatalogEntry> {
    es.map_values(|e: ListEntry| e@)
}

/// The entries of the listed VMs.
fn build_catalog(
    vms: &[VmSummary],
    filtered: &[usize],
    hierarchy: &HierarchyConfig,
    metadata: &MetadataStore,
) -> (res: Vec<ListEntry>)
    requires
        forall|i: int| 0 <= i < filtered.len() ==> filtered[i] < vms.len(),
    ensures
        entry_views(res@) == catalog(vms@, filtered@, hierarchy.patterns(), metadata@),
{
    let mut res: Vec<ListEntry> = Vec::new();
    let mut i: usize = 0;
    while i < filtered.len()
        invariant
            i <= filtered.len(),
            forall|k: int| 0 <= k < filtered.len() ==> filtered[k] < vms.len(),
            res@.len() == i,
            forall|k: int|
                0 <= k < i ==> res@[k]@ == entry_of(
                    vms@[filtered@[k] as int],
                    hierarchy.patterns(),
                    metadata@,
                ),
        decreases filtered.len() - i,
    {
        let vm = &vms[filtered[i]];
        let (family, subcategory) = hierarchy.categorize(vm.id.as_str());
        let name = get_display_name(vm, metadata);
        let date = match metadata.get(vm.id.as_str()) {
            Some(info) => info.release_date.clone(),
            None => String::new(),
        };
        res.push(ListEntry { family, subcategory, name, date });
        i += 1;
    }
    proof {
        assert(entry_views(res@) =~= catalog(vms@, filtered@, hierarchy.patterns(), metadata@));
    }
    res
}

/// How the subcategory `id` sorts its VMs: as the first subcategory of that
/// id says, by name where there is none.
pub open spec fn sort_of(subs: Seq<Subcategory>, id: Seq<char>) -> SortBy
    decreases subs.len(),
{
    if subs.len() == 0 {
        SortBy::Name
    } else if subs[0].id@ == id {
        subs[0].sort_by
    } else {
        sort_of(subs.drop_first(), id)
    }
}

proof fn lemma_sort_of_first(subs: Seq<Subcategory>, id: Seq<char>, i: int)
    requires
        0 <= i < subs.len(),
        subs[i].id@ == id,
        forall|j: int| 0 <= j < i ==> subs[j].id@ != id,
    ensures
        sort_of(subs, id) == subs[i].sort_by,
    decreases i,
{
    if i > 0 {
        assert(subs[0].id@ != id);
        lemma_sort_of_first(subs.drop_first(), id, i - 1);
    }
}

proof fn lemma_sort_of_none(subs: Seq<Subcategory>, id: Seq<char>)
    requires
        forall|j: int| 0 <= j < subs.len() ==> subs[j].id@ != id,
    ensures
        sort_of(subs, id) == SortBy::Name,
    decreases subs.len(),
{
    if subs.len() > 0 {
        assert(subs[0].id@ != id);
        lemma_sort_of_none(subs.drop_first(), id);
    }
}

/// How the subcategory `id` sorts its VMs.
fn sort_for(hierarchy: &HierarchyConfig, id: &str) -> (res: SortBy)
    ensures
        res == sort_of(hierarchy.subcategory_list(), id@),
{
    match hierarchy.get_subcategory(id) {
        Some(s) => {
            proof {
                let subs = hierarchy.subcategory_list();
                let i = choose|i: int|
                    0 <= i < subs.len() && *s == subs[i] && s.id@ == id@ && forall|j: int|
                        0 <= j < i ==> subs[j].id@ != id@;
                lemma_sort_of_first(subs, id@, i);
            }
            s.sort_by
        },
        None => {
            proof {
                lemma_sort_of_none(hierarchy.subcategory_list(), id@);
            }
            SortBy::Name
        },
    }
}

} // verus!

verus! {

/// What a group is sorted by. By date: VMs with a release date first,
/// oldest first, then those without one by name. By name: the name.
pub open spec fn sort_key(e: CatalogEntry, sort: SortBy) -> (bool, Seq<char>) {
    match sort {
        SortBy::Date => if e.date.len() == 0 {
            (true, e.name)
        } else {
            (false, e.date)
        },
        SortBy::Name => (false, e.name),
    }
}

/// Key `a` sorts strictly before key `b`.
pub open spec fn key_lt(a: (bool, Seq<char>), b: (bool, Seq<char>)) -> bool {
    ||| (!a.0 && b.0)
    ||| (a.0 == b.0 && a.1 != b.1 && lex_le(a.1, b.1))
}

/// Position `i` of the catalog is listed no later than position `j` in a
/// group sorted by `sort`: the smaller key first, equal keys in catalog
/// order.
pub open spec fn listed_before(cat: Seq<CatalogEntry>, sort: SortBy, i: usize, j: usize) -> bool {
    let a = sort_key(cat[i as int], sort);
    let b = sort_key(cat[j as int], sort);
    key_lt(a, b) || (a == b && i <= j)
}

/// The positions of the catalog placed in `family` and `subcategory`, in
/// catalog order.
pub open spec fn group(cat: Seq<CatalogEntry>, family: Seq<char>, subcategory: Seq<char>) -> Seq<
    usize,
> {
    Seq::new(cat.len(), |i: int| i as usize).filter(
        |i: usize| cat[i as int].family == family && cat[i as int].subcategory == subcategory,
    )
}

/// The group of `family` and `subcategory`, sorted by `sort`.
pub open spec fn ordered_group(
    cat: Seq<CatalogEntry>,
    family: Seq<char>,
    subcategory: Seq<char>,
    sort: SortBy,
) -> Seq<usize> {
    group(cat, family, subcategory).sort_by(|i: usize, j: usize| listed_before(cat, sort, i, j))
}

proof fn lemma_key_lt_asym(a: (bool, Seq<char>), b: (bool, Seq<char>))
    ensures
        !(key_lt(a, b) && key_lt(b, a)),
        !key_lt(a, a),
{
    if key_lt(a, b) && key_lt(b, a) {
        lemma_lex_antisym(a.1, b.1);
    }
}

proof fn lemma_key_lt_trans(a: (bool, Seq<char>), b: (bool, Seq<char>), c: (bool, Seq<char>))
    requires
        key_lt(a, b) || a == b,
        key_lt(b, c) || b == c,
        key_lt(a, b) || key_lt(b, c),
    ensures
        key_lt(a, c),
{
    if a.0 == b.0 && b.0 == c.0 && key_lt(a, b) && key_lt(b, c) {
        lemma_lex_trans(a.1, b.1, c.1);
        if a.1 == c.1 {
            lemma_lex_antisym(a.1, b.1);
        }
    }
}

proof fn lemma_key_total(a: (bool, Seq<char>), b: (bool, Seq<char>))
    ensures
        key_lt(a, b) || key_lt(b, a) || a == b,
{
    lemma_lex_total(a.1, b.1);
}

/// Listing order within a group is a total order.
proof fn lemma_listed_before_total(cat: Seq<CatalogEntry>, sort: SortBy)
    ensures
        total_ordering(|i: usize, j: usize| listed_before(cat, sort, i, j)),
{
    let r = |i: usize, j: usize| listed_before(cat, sort, i, j);
    assert forall|i: usize| #[trigger] r(i, i) by {}
    assert forall|i: usize, j: usize| #[trigger] r(i, j) && #[trigger] r(j, i) implies i == j by {
        lemma_key_lt_asym(sort_key(cat[i as int], sort), sort_key(cat[j as int], sort));
    }
    assert forall|i: usize, j: usize, k: usize| #[trigger] r(i, j) && #[trigger] r(j, k) implies r(
        i,
        k,
    ) by {
        let a = sort_key(cat[i as int], sort);
        let b = sort_key(cat[j as int], sort);
        let c = sort_key(cat[k as int], sort);
        if key_lt(a, b) || key_lt(b, c) {
            lemma_key_lt_trans(a, b, c);
        }
    }
    assert forall|i: usize, j: usize| #[trigger] r(i, j) || #[trigger] r(j, i) by {
        lemma_key_total(sort_key(cat[i as int], sort), sort_key(cat[j as int], sort));
    }
}

/// Whether entry `a` sorts strictly before entry `b`.
fn sorts_before(cat: &Vec<ListEntry>, sort: SortBy, a: usize, b: usize) -> (res: bool)
    requires
        a < cat.len(),
        b < cat.len(),
    ensures
        res == key_lt(sort_key(cat@[a as int]@, sort), sort_key(cat@[b as int]@, sort)),
{
    let (fa, ta) = match sort {
        SortBy::Date => if cat[a].date.as_str().is_empty() {
            (true, cat[a].name.as_str())
        } else {
            (false, cat[a].date.as_str())
        },
        SortBy::Name => (false, cat[a].name.as_str()),
    };
    let (fb, tb) = match sort {
        SortBy::Date => if cat[b].date.as_str().is_empty() {
            (true, cat[b].name.as_str())
        } else {
            (false, cat[b].date.as_str())
        },
        SortBy::Name => (false, cat[b].name.as_str()),
    };
    if fa != fb {
        !fa && fb
    } else {
        str_le(ta, tb) && !str_eq(ta, tb)
    }
}

/// The positions of the catalog placed in `family` and `subcategory`,
/// sorted by `sort`.
fn ordered_group_of(cat: &Vec<ListEntry>, family: &str, subcategory: &str, sort: SortBy) -> (res:
    Vec<usize>)
    ensures
        res@ == ordered_group(entry_views(cat@), family@, subcategory@, sort),
{
    broadcast use vstd::seq_lib::group_to_multiset_ensures;

    let ghost cv = entry_views(cat@);
    let ghost leq = |i: usize, j: usize| listed_before(cv, sort, i, j);
    let ghost pred = |i: usize| cv[i as int].family == family@ && cv[i as int].subcategory
        == subcategory@;
    let mut res: Vec<usize> = Vec::new();
    let mut i: usize = 0;
    proof {
        assert(Seq::new(0, |k: int| k as usize).filter(pred) =~= Seq::<usize>::empty());
    }
    while i < cat.len()
        invariant
            i <= cat.len(),
            cv == entry_views(cat@),
            leq == (|i: usize, j: usize| listed_before(cv, sort, i, j)),
            pred == (|i: usize|
                cv[i as int].family == family@ && cv[i as int].subcategory == subcategory@),
            sorted_by(res@, leq),
            res@.to_multiset() == Seq::new(i as nat, |k: int| k as usize).filter(pred).to_multiset(),
            forall|k: int| 0 <= k < res@.len() ==> res@[k] < i,
        decreases cat.len() - i,
    {
        let ghost before = Seq::new(i as nat, |k: int| k as usize);
        proof {
            assert(Seq::new((i + 1) as nat, |k: int| k as usize) =~= before + seq![i]);
            Seq::filter_distributes_over_add(before, seq![i], pred);
            reveal_with_fuel(Seq::filter, 2);
            assert(seq![i].drop_last() =~= Seq::<usize>::empty());
        }
        if str_eq(cat[i].family.as_str(), family) && str_eq(cat[i].subcategory.as_str(), subcategory) {
            let mut p: usize = 0;
            while p < res.len() && !sorts_before(cat, sort, i, res[p])
                invariant
                    p <= res.len(),
                    i < cat.len(),
                    cv == entry_views(cat@),
                    forall|k: int| 0 <= k < res@.len() ==> res@[k] < i,
                    forall|q: int|
                        0 <= q < p ==> !key_lt(
                            sort_key(cv[i as int], sort),
                            sort_key(cv[res@[q] as int], sort),
                        ),
                decreases res.len() - p,
            {
                p += 1;
            }
            let ghost old_res = res@;
            res.insert(p, i);
            proof {
                let ki = sort_key(cv[i as int], sort);
                assert forall|a: int, b: int| 0 <= a < b < res@.len() implies #[trigger] leq(
                    res@[a],
                    res@[b],
                ) by {
                    let x = res@[a];
                    let y = res@[b];
                    let kx = sort_key(cv[x as int], sort);
                    let ky = sort_key(cv[y as int], sort);
                    if a < p && b < p {
                        assert(x == old_res[a] && y == old_res[b]);
                        assert(leq(old_res[a], old_res[b]));
                    } else if a < p && b == p {
                        assert(x == old_res[a]);
                        lemma_key_total(ki, kx);
                    } else if a < p {
                        assert(x == old_res[a] && y == old_res[b - 1]);
                        assert(leq(old_res[a], old_res[b - 1]));
                    } else if a == p {
                        assert(y == old_res[b - 1]);
                        assert(key_lt(ki, sort_key(cv[old_res[p as int] as int], sort)));
                        if b - 1 > p {
                            assert(leq(old_res[p as int], old_res[b - 1]));
                            lemma_key_lt_trans(ki, sort_key(cv[old_res[p as int] as int], sort), ky);
                        }
                    } else {
                        assert(x == old_res[a - 1] && y == old_res[b - 1]);
                        assert(leq(old_res[a - 1], old_res[b - 1]));
                    }
                }
                lemma_insert_to_multiset(old_res, p as int, i);
                assert(cv[i as int] == cat@[i as int]@);
                assert(pred(i));
                assert(Seq::new((i + 1) as nat, |k: int| k as usize).filter(pred) =~= before.filter(
                    pred,
                ).push(i));
                vstd::seq_lib::to_multiset_build(before.filter(pred), i);
            }
        } else {
            proof {
                assert(cv[i as int] == cat@[i as int]@);
                assert(!pred(i));
                assert(Seq::new((i + 1) as nat, |k: int| k as usize).filter(pred) =~= before.filter(
                    pred,
                ));
            }
        }
        i += 1;
    }
    proof {
        let g = group(cv, family@, subcategory@);
        assert(Seq::new(cat.len() as nat, |k: int| k as usize).filter(pred) =~= g);
        lemma_listed_before_total(cv, sort);
        g.lemma_sort_by_ensures(leq);
        vstd::seq_lib::lemma_sorted_unique(res@, g.sort_by(leq), leq);
    }
    res
}

} // verus!

verus! {

/// The listed VMs of one subcategory of `family`, sorted as that
/// subcategory says.
pub open spec fn subcategory_order(
    cat: Seq<CatalogEntry>,
    subs: Seq<Subcategory>,
    family: Seq<char>,
    sub: Subcategory,
) -> Seq<usize> {
    ordered_group(cat, family, sub.id@, sort_of(subs, sub.id@))
}

/// Whether a subcategory belongs to `family`.
pub open spec fn of_family(family: Seq<char>) -> spec_fn(Subcategory) -> bool {
    |s: Subcategory| s.family@ == family
}

/// The listed VMs of a family, subcategory after subcategory.
pub open spec fn family_order(cat: Seq<CatalogEntry>, subs: Seq<Subcategory>, family: Seq<char>) -> Seq<
    usize,
> {
    subs.filter(of_family(family)).map_values(
        |s: Subcategory| subcategory_order(cat, subs, family, s),
    ).flatten()
}

/// The order in which the list shows the listed VMs (as catalog
/// positions): family after family, in the hierarchy's order. A VM placed
/// in a family or subcategory the hierarchy does not list is not shown.
pub open spec fn visual_order(cat: Seq<CatalogEntry>, fams: Seq<Family>, subs: Seq<Subcategory>) -> Seq<
    usize,
> {
    fams.map_values(|f: Family| family_order(cat, subs, f.id@)).flatten()
}

proof fn lemma_map_take_push<A, B>(s: Seq<A>, f: spec_fn(A) -> B, k: int)
    requires
        0 <= k < s.len(),
    ensures
        s.take(k + 1).map_values(f) == s.take(k).map_values(f).push(f(s[k])),
{
    assert(s.take(k + 1).map_values(f) =~= s.take(k).map_values(f).push(f(s[k])));
}

/// The VMs of one family, in list order.
fn family_order_of(
    cat: &Vec<ListEntry>,
    hierarchy: &HierarchyConfig,
    family: &str,
) -> (res: Vec<usize>)
    ensures
        res@ == family_order(entry_views(cat@), hierarchy.subcategory_list(), family@),
{
    let ghost cv = entry_views(cat@);
    let ghost all = hierarchy.subcategory_list();
    let ghost f = |s: Subcategory| subcategory_order(cv, all, family@, s);
    let subs = hierarchy.subcategories_for_family(family);
    let ghost ss = subs@.map_values(|s: &Subcategory| *s);
    let mut block: Vec<usize> = Vec::new();
    let mut k: usize = 0;
    proof {
        assert(ss.take(0).map_values(f) =~= Seq::<Seq<usize>>::empty());
    }
    while k < subs.len()
        invariant
            k <= subs.len(),
            ss == subs@.map_values(|s: &Subcategory| *s),
            ss.len() == subs.len(),
            f == (|s: Subcategory| subcategory_order(cv, all, family@, s)),
            cv == entry_views(cat@),
            all == hierarchy.subcategory_list(),
            block@ == ss.take(k as int).map_values(f).flatten(),
        decreases subs.len() - k,
    {
        let sub = subs[k];
        let sort = sort_for(hierarchy, sub.id.as_str());
        let mut g = ordered_group_of(cat, family, sub.id.as_str(), sort);
        proof {
            assert(ss[k as int] == *sub);
            lemma_map_take_push(ss, f, k as int);
            ss.take(k as int).map_values(f).lemma_flatten_push(f(ss[k as int]));
        }
        block.append(&mut g);
        k += 1;
    }
    proof {
        assert(ss.take(k as int) =~= ss);
    }
    block
}

/// Build the order in which the list shows the VMs: for each position of
/// the order, the position in `filtered_indices` of the VM shown there.
pub fn build_visual_order(
    vms: &[VmSummary],
    filtered_indices: &[usize],
    hierarchy: &HierarchyConfig,
    metadata: &MetadataStore,
) -> (res: Vec<usize>)
    requires
        forall|i: int| 0 <= i < filtered_indices.len() ==> filtered_indices[i] < vms.len(),
    ensures
        res@ == visual_order(
            catalog(vms@, filtered_indices@, hierarchy.patterns(), metadata@),
            hierarchy.family_list(),
            hierarchy.subcategory_list(),
        ),
{
    let cat = build_catalog(vms, filtered_indices, hierarchy, metadata);
    let ghost cv = entry_views(cat@);
    let ghost subs = hierarchy.subcategory_list();
    let ghost f = |fam: Family| family_order(cv, subs, fam.id@);
    let families = hierarchy.families_in_order();
    let mut order: Vec<usize> = Vec::new();
    let mut i: usize = 0;
    proof {
        assert(families@.take(0).map_values(f) =~= Seq::<Seq<usize>>::empty());
    }
    while i < families.len()
        invariant
            i <= families.len(),
            families@ == hierarchy.family_list(),
            cv == entry_views(cat@),
            subs == hierarchy.subcategory_list(),
            f == (|fam: Family| family_order(cv, subs, fam.id@)),
            order@ == families@.take(i as int).map_values(f).flatten(),
        decreases families.len() - i,
    {
        let mut block = family_order_of(&cat, hierarchy, families[i].id.as_str());
        proof {
            lemma_map_take_push(families@, f, i as int);
            families@.take(i as int).map_values(f).lemma_flatten_push(f(families@[i as int]));
        }
        order.append(&mut block);
        i += 1;
    }
    proof {
        assert(families@.take(i as int) =~= families@);
    }
    order
}

} // verus!

verus! {

/// Some listed VM is placed in `family`.
pub open spec fn has_family(cat: Seq<CatalogEntry>, family: Seq<char>) -> bool {
    exists|i: int| 0 <= i < cat.len() && #[trigger] cat[i].family == family
}

/// The rows of one subcategory: a header, then its VMs (as catalog
/// positions); nothing where it has no VM.
pub open spec fn subcategory_rows(
    cat: Seq<CatalogEntry>,
    subs: Seq<Subcategory>,
    family: Seq<char>,
    sub: Subcategory,
) -> Seq<Option<usize>> {
    let g = subcategory_order(cat, subs, family, sub);
    if g.len() > 0 {
        seq![None::<usize>] + g.map_values(|i: usize| Some(i))
    } else {
        Seq::empty()
    }
}

/// The rows of one family: a header, then its subcategories' rows; nothing
/// where no VM is placed in it.
pub open spec fn family_rows(cat: Seq<CatalogEntry>, subs: Seq<Subcategory>, family: Seq<char>) -> Seq<
    Option<usize>,
> {
    if has_family(cat, family) {
        seq![None::<usize>] + subs.filter(of_family(family)).map_values(
            |s: Subcategory| subcategory_rows(cat, subs, family, s),
        ).flatten()
    } else {
        Seq::empty()
    }
}

/// The rows of the list: headers (`None`) and VMs (their catalog positions).
pub open spec fn list_rows(cat: Seq<CatalogEntry>, fams: Seq<Family>, subs: Seq<Subcategory>) -> Seq<
    Option<usize>,
> {
    fams.map_values(|f: Family| family_rows(cat, subs, f.id@)).flatten()
}

/// The first position of `x` in `s`.
pub open spec fn position_in(s: Seq<usize>, x: usize) -> Option<int>
    decreases s.len(),
{
    if s.len() == 0 {
        None
    } else if s[0] == x {
        Some(0)
    } else {
        match position_in(s.drop_first(), x) {
            Some(p) => Some(p + 1),
            None => None,
        }
    }
}

proof fn lemma_position_in(s: Seq<usize>, x: usize, k: int)
    requires
        0 <= k <= s.len(),
        forall|j: int| 0 <= j < k ==> s[j] != x,
    ensures
        k < s.len() && s[k] == x ==> position_in(s, x) == Some(k),
        k == s.len() ==> position_in(s, x) is None,
    decreases k,
{
    if k > 0 {
        assert(s[0] != x);
        lemma_position_in(s.drop_first(), x, k - 1);
    }
}

/// Whether some entry is placed in `family`.
fn any_in_family(cat: &Vec<ListEntry>, family: &str) -> (res: bool)
    ensures
        res == has_family(entry_views(cat@), family@),
{
    let ghost cv = entry_views(cat@);
    let mut i: usize = 0;
    while i < cat.len()
        invariant
            i <= cat.len(),
            cv == entry_views(cat@),
            forall|k: int| 0 <= k < i ==> cv[k].family != family@,
        decreases cat.len() - i,
    {
        proof {
            assert(cv[i as int] == cat@[i as int]@);
        }
        if str_eq(cat[i].family.as_str(), family) {
            proof {
                assert(cv[i as int].family == family@);
            }
            return true;
        }
        i += 1;
    }
    false
}

/// The rows of one family.
fn family_rows_of(cat: &Vec<ListEntry>, hierarchy: &HierarchyConfig, family: &str) -> (res: Vec<
    Option<usize>,
>)
    ensures
        res@ == family_rows(entry_views(cat@), hierarchy.subcategory_list(), family@),
{
    let ghost cv = entry_views(cat@);
    let ghost all = hierarchy.subcategory_list();
    let ghost f = |s: Subcategory| subcategory_rows(cv, all, family@, s);
    let mut rows: Vec<Option<usize>> = Vec::new();
    if !any_in_family(cat, family) {
        proof {
            assert(rows@ =~= family_rows(cv, all, family@));
        }
        return rows;
    }
    rows.push(None);
    let subs = hierarchy.subcategories_for_family(family);
    let ghost ss = subs@.map_values(|s: &Subcategory| *s);
    let mut k: usize = 0;
    proof {
        assert(ss.take(0).map_values(f) =~= Seq::<Seq<Option<usize>>>::empty());
        assert(rows@ =~= seq![None::<usize>] + ss.take(0).map_values(f).flatten());
    }
    while k < subs.len()
        invariant
            k <= subs.len(),
            ss == subs@.map_values(|s: &Subcategory| *s),
            ss.len() == subs.len(),
            f == (|s: Subcategory| subcategory_rows(cv, all, family@, s)),
            cv == entry_views(cat@),
            all == hierarchy.subcategory_list(),
            rows@ == seq![None::<usize>] + ss.take(k as int).map_values(f).flatten(),
        decreases subs.len() - k,
    {
        let sub = subs[k];
        let sort = sort_for(hierarchy, sub.id.as_str());
        let g = ordered_group_of(cat, family, sub.id.as_str(), sort);
        let ghost before = rows@;
        if g.len() > 0 {
            rows.push(None);
            let mut j: usize = 0;
            while j < g.len()
                invariant
                    j <= g.len(),
                    rows@ == before + seq![None::<usize>] + g@.take(j as int).map_values(
                        |i: usize| Some(i),
                    ),
                decreases g.len() - j,
            {
                rows.push(Some(g[j]));
                proof {
                    assert(g@.take(j + 1).map_values(|i: usize| Some(i)) =~= g@.take(
                        j as int,
                    ).map_values(|i: usize| Some(i)).push(Some(g@[j as int])));
                }
                j += 1;
            }
            proof {
                assert(g@.take(j as int) =~= g@);
            }
        }
        proof {
            assert(ss[k as int] == *sub);
            lemma_map_take_push(ss, f, k as int);
            ss.take(k as int).map_values(f).lemma_flatten_push(f(ss[k as int]));
            assert(rows@ =~= seq![None::<usize>] + ss.take(k + 1).map_values(f).flatten());
        }
        k += 1;
    }
    proof {
        assert(ss.take(k as int) =~= ss);
    }
    rows
}

/// The position in `visual_order` of the VM on row `clicked_row` of the
/// list; `None` for a header row, a row past the end, or a VM that
/// `visual_order` does not hold.
pub fn click_row_to_visual_index(
    vms: &[VmSummary],
    filtered_indices: &[usize],
    hierarchy: &HierarchyConfig,
    metadata: &MetadataStore,
    visual_order: &[usize],
    clicked_row: usize,
) -> (res: Option<usize>)
    requires
        forall|i: int| 0 <= i < filtered_indices.len() ==> filtered_indices[i] < vms.len(),
    ensures
        ({
            let rows = list_rows(
                catalog(vms@, filtered_indices@, hierarchy.patterns(), metadata@),
                hierarchy.family_list(),
                hierarchy.subcategory_list(),
            );
            res == (if clicked_row < rows.len() {
                match rows[clicked_row as int] {
                    Some(fi) => match position_in(visual_order@, fi) {
                        Some(p) => Some(p as usize),
                        None => None,
                    },
                    None => None,
                }
            } else {
                None
            })
        }),
{
    let cat = build_catalog(vms, filtered_indices, hierarchy, metadata);
    let ghost cv = entry_views(cat@);
    let ghost subs = hierarchy.subcategory_list();
    let ghost f = |fam: Family| family_rows(cv, subs, fam.id@);
    let families = hierarchy.families_in_order();
    let mut rows: Vec<Option<usize>> = Vec::new();
    let mut i: usize = 0;
    proof {
        assert(families@.take(0).map_values(f) =~= Seq::<Seq<Option<usize>>>::empty());
    }
    while i < families.len()
        invariant
            i <= families.len(),
            families@ == hierarchy.family_list(),
            cv == entry_views(cat@),
            subs == hierarchy.subcategory_list(),
            f == (|fam: Family| family_rows(cv, subs, fam.id@)),
            rows@ == families@.take(i as int).map_values(f).flatten(),
        decreases families.len() - i,
    {
        let mut block = family_rows_of(&cat, hierarchy, families[i].id.as_str());
        proof {
            lemma_map_take_push(families@, f, i as int);
            families@.take(i as int).map_values(f).lemma_flatten_push(f(families@[i as int]));
        }
        rows.append(&mut block);
        i += 1;
    }
    proof {
        assert(families@.take(i as int) =~= families@);
    }
    if clicked_row >= rows.len() {
        return None;
    }
    let target = match rows[clicked_row] {
        Some(fi) => fi,
        None => {
            return None;
        },
    };
    let mut p: usize = 0;
    while p < visual_order.len()
        invariant
            p <= visual_order.len(),
            forall|j: int| 0 <= j < p ==> visual_order@[j] != target,
            clicked_row < rows@.len(),
            rows@[clicked_row as int] == Some(target),
            rows@ == list_rows(
                catalog(vms@, filtered_indices@, hierarchy.patterns(), metadata@),
                hierarchy.family_list(),
                hierarchy.subcategory_list(),
            ),
        decreases visual_order.len() - p,
    {
        if visual_order[p] == target {
            proof {
                lemma_position_in(visual_order@, target, p as int);
            }
            return Some(p);
        }
        p += 1;
    }
    proof {
        lemma_position_in(visual_order@, target, p as int);
    }
    None
}

} // verus!

verus! {

/// The VMs of a sequence of rows, top to bottom (headers left out).
pub open spec fn vm_rows(rows: Seq<Option<usize>>) -> Seq<usize>
    decreases rows.len(),
{
    if rows.len() == 0 {
        Seq::empty()
    } else {
        match rows[0] {
            Some(i) => seq![i] + vm_rows(rows.drop_first()),
            None => vm_rows(rows.drop_first()),
        }
    }
}

proof fn lemma_vm_rows_header()
    ensures
        vm_rows(seq![None::<usize>]) == Seq::<usize>::empty(),
{
    let h = seq![None::<usize>];
    assert(h.drop_first() =~= Seq::<Option<usize>>::empty());
    assert(vm_rows(Seq::<Option<usize>>::empty()) == Seq::<usize>::empty());
    assert(h[0] is None);
}

proof fn lemma_vm_rows_add(a: Seq<Option<usize>>, b: Seq<Option<usize>>)
    ensures
        vm_rows(a + b) == vm_rows(a) + vm_rows(b),
    decreases a.len(),
{
    if a.len() == 0 {
        assert(a + b =~= b);
        assert(vm_rows(a) + vm_rows(b) =~= vm_rows(b));
    } else {
        assert((a + b).drop_first() =~= a.drop_first() + b);
        lemma_vm_rows_add(a.drop_first(), b);
        assert((a + b)[0] == a[0]);
        match a[0] {
            Some(i) => {
                assert(seq![i] + vm_rows(a.drop_first()) + vm_rows(b) =~= seq![i] + (vm_rows(
                    a.drop_first(),
                ) + vm_rows(b)));
            },
            None => {},
        }
    }
}

proof fn lemma_vm_rows_flatten(ss: Seq<Seq<Option<usize>>>)
    ensures
        vm_rows(ss.flatten()) == ss.map_values(|r: Seq<Option<usize>>| vm_rows(r)).flatten(),
    decreases ss.len(),
{
    let g = |r: Seq<Option<usize>>| vm_rows(r);
    if ss.len() == 0 {
        assert(ss.map_values(g) =~= Seq::<Seq<usize>>::empty());
    } else {
        lemma_vm_rows_flatten(ss.drop_first());
        lemma_vm_rows_add(ss[0], ss.drop_first().flatten());
        assert(ss.map_values(g).drop_first() =~= ss.drop_first().map_values(g));
        assert(ss.map_values(g)[0] == vm_rows(ss[0]));
    }
}

proof fn lemma_vm_rows_of_vms(g: Seq<usize>)
    ensures
        vm_rows(g.map_values(|i: usize| Some(i))) == g,
    decreases g.len(),
{
    if g.len() > 0 {
        let m = g.map_values(|i: usize| Some(i));
        assert(m.drop_first() =~= g.drop_first().map_values(|i: usize| Some(i)));
        lemma_vm_rows_of_vms(g.drop_first());
        assert(g =~= seq![g[0]] + g.drop_first());
    } else {
        assert(g.map_values(|i: usize| Some(i)) =~= Seq::<Option<usize>>::empty());
    }
}

proof fn lemma_empty_group(cat: Seq<CatalogEntry>, family: Seq<char>, sub: Seq<char>, sort: SortBy)
    requires
        cat.len() <= usize::MAX,
        !has_family(cat, family),
    ensures
        ordered_group(cat, family, sub, sort).len() == 0,
{
    let pred = |i: usize| cat[i as int].family == family && cat[i as int].subcategory == sub;
    let all = Seq::new(cat.len(), |i: int| i as usize);
    let g = group(cat, family, sub);
    assert forall|i: int| 0 <= i < all.len() implies !pred(#[trigger] all[i]) by {
        assert(all[i] as int == i);
        if pred(all[i]) {
            assert(cat[i].family == family);
        }
    }
    lemma_filter_none(all, pred);
    let leq = |i: usize, j: usize| listed_before(cat, sort, i, j);
    assert(g.len() == 0);
    lemma_listed_before_total(cat, sort);
    g.lemma_sort_by_ensures(leq);
    vstd::seq_lib::to_multiset_len(g);
    vstd::seq_lib::to_multiset_len(g.sort_by(leq));
}

/// Read top to bottom, the VM rows of the list are exactly the visual
/// order: a click on a VM row finds that VM in the order the list keys
/// navigate by.
pub proof fn lemma_rows_follow_visual_order(
    cat: Seq<CatalogEntry>,
    fams: Seq<Family>,
    subs: Seq<Subcategory>,
)
    requires
        cat.len() <= usize::MAX,
    ensures
        vm_rows(list_rows(cat, fams, subs)) == visual_order(cat, fams, subs),
{
    let fr = |f: Family| family_rows(cat, subs, f.id@);
    let fo = |f: Family| family_order(cat, subs, f.id@);
    let vr = |r: Seq<Option<usize>>| vm_rows(r);
    lemma_vm_rows_flatten(fams.map_values(fr));
    assert(fams.map_values(fr).map_values(vr) =~= fams.map_values(fo)) by {
        assert forall|k: int| 0 <= k < fams.len() implies #[trigger] fams.map_values(fr).map_values(
            vr,
        )[k] == fams.map_values(fo)[k] by {
            lemma_family_rows(cat, subs, fams[k].id@);
        }
    }
}

proof fn lemma_family_rows(cat: Seq<CatalogEntry>, subs: Seq<Subcategory>, family: Seq<char>)
    requires
        cat.len() <= usize::MAX,
    ensures
        vm_rows(family_rows(cat, subs, family)) == family_order(cat, subs, family),
{
    let fs = subs.filter(of_family(family));
    let sr = |s: Subcategory| subcategory_rows(cat, subs, family, s);
    let so = |s: Subcategory| subcategory_order(cat, subs, family, s);
    let vr = |r: Seq<Option<usize>>| vm_rows(r);
    assert forall|k: int| 0 <= k < fs.len() implies vm_rows(#[trigger] sr(fs[k])) == so(fs[k]) by {
        let g = so(fs[k]);
        if g.len() > 0 {
            lemma_vm_rows_add(seq![None::<usize>], g.map_values(|i: usize| Some(i)));
            lemma_vm_rows_of_vms(g);
            assert(vm_rows(seq![None::<usize>]) == Seq::<usize>::empty()) by {
                lemma_vm_rows_header();
            }
            assert(Seq::<usize>::empty() + g =~= g);
        }
    }
    assert(fs.map_values(sr).map_values(vr) =~= fs.map_values(so)) by {
        assert forall|k: int| 0 <= k < fs.len() implies #[trigger] fs.map_values(sr).map_values(
            vr,
        )[k] == fs.map_values(so)[k] by {
            assert(vm_rows(sr(fs[k])) == so(fs[k]));
        }
    }
    lemma_vm_rows_flatten(fs.map_values(sr));
    assert(vm_rows(fs.map_values(sr).flatten()) == fs.map_values(so).flatten());
    if has_family(cat, family) {
        lemma_vm_rows_add(seq![None::<usize>], fs.map_values(sr).flatten());
        assert(vm_rows(seq![None::<usize>]) == Seq::<usize>::empty()) by {
            lemma_vm_rows_header();
        }
        assert(Seq::<usize>::empty() + fs.map_values(so).flatten() =~= fs.map_values(so).flatten());
    } else {
        assert forall|k: int| 0 <= k < fs.len() implies #[trigger] so(fs[k]).len() == 0 by {
            lemma_empty_group(cat, family, fs[k].id@, sort_of(subs, fs[k].id@));
        }
        lemma_flatten_empties(fs.map_values(so));
        assert(vm_rows(Seq::<Option<usize>>::empty()) == Seq::<usize>::empty());
    }
}

proof fn lemma_filter_none<A>(s: Seq<A>, pred: spec_fn(A) -> bool)
    requires
        forall|i: int| 0 <= i < s.len() ==> !pred(#[trigger] s[i]),
    ensures
        s.filter(pred).len() == 0,
    decreases s.len(),
{
    reveal_with_fuel(Seq::filter, 1);
    if s.len() > 0 {
        assert(!pred(s[s.len() - 1]));
        lemma_filter_none(s.drop_last(), pred);
    }
}

proof fn lemma_flatten_empties(ss: Seq<Seq<usize>>)
    requires
        forall|k: int| 0 <= k < ss.len() ==> (#[trigger] ss[k]).len() == 0,
    ensures
        ss.flatten() == Seq::<usize>::empty(),
    decreases ss.len(),
{
    if ss.len() > 0 {
        lemma_flatten_empties(ss.drop_first());
        assert(ss[0] + ss.drop_first().flatten() =~= Seq::<usize>::empty());
    }
}

/// Within a subcategory the VMs are listed in order of their sort keys
/// (by date: dated ones oldest first, then undated ones by name; by name:
/// by name), VMs with equal keys in the order they were listed in, and
/// every VM of the group appears exactly as often as in the group.
pub proof fn lemma_groups_sorted(
    cat: Seq<CatalogEntry>,
    family: Seq<char>,
    sub: Seq<char>,
    sort: SortBy,
)
    ensures
        ordered_group(cat, family, sub, sort).to_multiset() == group(cat, family, sub).to_multiset(),
        forall|a: int, b: int|
            0 <= a < b < ordered_group(cat, family, sub, sort).len() ==> listed_before(
                cat,
                sort,
                #[trigger] ordered_group(cat, family, sub, sort)[a],
                #[trigger] ordered_group(cat, family, sub, sort)[b],
            ),
{
    let leq = |i: usize, j: usize| listed_before(cat, sort, i, j);
    lemma_listed_before_total(cat, sort);
    group(cat, family, sub).lemma_sort_by_ensures(leq);
    let o = ordered_group(cat, family, sub, sort);
    assert forall|a: int, b: int| 0 <= a < b < o.len() implies listed_before(
        cat,
        sort,
        #[trigger] o[a],
        #[trigger] o[b],
    ) by {
        assert(leq(o[a], o[b]));
    }
}

} // verus!

verus! {

/// The row of the VM list under a click at (`x`, `y`) on a terminal of
/// `width` × `height` cells, where the list's inner area is: columns 1 up to
/// 40% of the width less one, rows 4 up to 4 rows above the bottom.
pub open spec fn list_row_at(width: int, height: int, x: int, y: int) -> Option<int> {
    let list_width = width * 40 / 100;
    let inner_width = if list_width >= 2 {
        list_width - 2
    } else {
        0
    };
    let content_height = if height >= 6 {
        height - 6
    } else {
        0
    };
    let inner_height = if content_height >= 2 {
        content_height - 2
    } else {
        0
    };
    if 1 <= x < 1 + inner_width && 4 <= y < 4 + inner_height {
        Some(y - 4)
    } else {
        None
    }
}

/// The row of the VM list under a click on the main screen, if the click
/// falls inside the list.
pub fn clicked_list_row(width: u16, height: u16, x: u16, y: u16) -> (res: Option<usize>)
    requires
        width * 40 <= u16::MAX,
    ensures
        res == (match list_row_at(width as int, height as int, x as int, y as int) {
            Some(r) => Some(r as usize),
            None => None,
        }),
{
    let title_height: u16 = 3;
    let help_height: u16 = 3;
    let content_y = title_height;
    let content_height = height.saturating_sub(title_height + help_height);
    let list_width = (width * 40) / 100;
    let list_inner_x: u16 = 1;
    let list_inner_y = content_y + 1;
    let list_inner_width = list_width.saturating_sub(2);
    let list_inner_height = content_height.saturating_sub(2);
    if x >= list_inner_x && x < list_inner_x + list_inner_width && y >= list_inner_y && y
        < list_inner_y + list_inner_height {
        Some((y - list_inner_y) as usize)
    } else {
        None
    }
}

} // verus!

verus! {

/// Whether the VM at position `i` matches a non-empty search: its own name
/// or its id contains the query, letter case ignored.
pub open spec fn matches_query(vms: Seq<VmSummary>, query: Seq<char>) -> spec_fn(usize) -> bool {
    |i: usize|
        has_infix(lowercase(vms[i as int].display_name@), lowercase(query)) || has_infix(
            lowercase(vms[i as int].id@),
            lowercase(query),
        )
}

/// The positions of the VMs a search shows: all of them for an empty
/// query, else those that match it.
pub open spec fn searched(vms: Seq<VmSummary>, query: Seq<char>) -> Seq<usize> {
    if query.len() == 0 {
        Seq::new(vms.len(), |i: int| i as usize)
    } else {
        Seq::new(vms.len(), |i: int| i as usize).filter(matches_query(vms, query))
    }
}

/// The positions of the VMs a search shows.
pub fn filter_indices(vms: &[VmSummary], query: &str) -> (res: Vec<usize>)
    ensures
        res@ == searched(vms@, query@),
{
    let mut res: Vec<usize> = Vec::new();
    let mut i: usize = 0;
    if query.is_empty() {
        while i < vms.len()
            invariant
                i <= vms.len(),
                res@ == Seq::new(i as nat, |k: int| k as usize),
            decreases vms.len() - i,
        {
            res.push(i);
            proof {
                assert(res@ =~= Seq::new((i + 1) as nat, |k: int| k as usize));
            }
            i += 1;
        }
        return res;
    }
    let q = to_lowercase(query);
    let ghost pred = matches_query(vms@, query@);
    proof {
        assert(Seq::new(0, |k: int| k as usize).filter(pred) =~= Seq::<usize>::empty());
    }
    while i < vms.len()
        invariant
            i <= vms.len(),
            q@ == lowercase(query@),
            pred == matches_query(vms@, query@),
            res@ == Seq::new(i as nat, |k: int| k as usize).filter(pred),
        decreases vms.len() - i,
    {
        let ghost before = Seq::new(i as nat, |k: int| k as usize);
        proof {
            assert(Seq::new((i + 1) as nat, |k: int| k as usize) =~= before + seq![i]);
            Seq::filter_distributes_over_add(before, seq![i], pred);
            reveal_with_fuel(Seq::filter, 2);
            assert(seq![i].drop_last() =~= Seq::<usize>::empty());
        }
        let name = to_lowercase(vms[i].display_name.as_str());
        let id = to_lowercase(vms[i].id.as_str());
        let hit = contains(name.as_str(), q.as_str()) || contains(id.as_str(), q.as_str());
        if hit {
            res.push(i);
        }
        proof {
            assert(hit == pred(i));
            assert(res@ =~= Seq::new((i + 1) as nat, |k: int| k as usize).filter(pred));
        }
        i += 1;
    }
    res
}

/// The VM list after a search: the VMs shown, their order, and the
/// highlighted position kept within the order.
pub struct Listing {
    pub filtered_indices: Vec<usize>,
    pub visual_order: Vec<usize>,
    pub selected: usize,
}

/// Rebuild the VM list for a search query (the highlight moves to the last
/// VM where it falls past the end).
pub fn update_filter(
    vms: &[VmSummary],
    query: &str,
    hierarchy: &HierarchyConfig,
    metadata: &MetadataStore,
    selected: usize,
) -> (res: Listing)
    ensures
        res.filtered_indices@ == searched(vms@, query@),
        res.visual_order@ == visual_order(
            catalog(vms@, res.filtered_indices@, hierarchy.patterns(), metadata@),
            hierarchy.family_list(),
            hierarchy.subcategory_list(),
        ),
        res.selected as int == (if selected >= res.visual_order.len() {
            if res.visual_order.len() == 0 {
                0
            } else {
                res.visual_order.len() - 1
            }
        } else {
            selected as int
        }),
{
    let filtered_indices = filter_indices(vms, query);
    proof {
        assert forall|i: int| 0 <= i < filtered_indices.len() implies filtered_indices[i]
            < vms.len() by {
            let all = Seq::new(vms@.len(), |k: int| k as usize);
            if query@.len() != 0 {
                all.filter_lemma(matches_query(vms@, query@));
                lemma_filter_below(all, matches_query(vms@, query@), vms@.len());
            }
        }
    }
    let visual_order = build_visual_order(vms, filtered_indices.as_slice(), hierarchy, metadata);
    let n = visual_order.len();
    let selected = if selected >= n {
        if n == 0 {
            0
        } else {
            n - 1
        }
    } else {
        selected
    };
    Listing { filtered_indices, visual_order, selected }
}

/// Every element of a filter of `0..n` is below `n`.
proof fn lemma_filter_below(s: Seq<usize>, pred: spec_fn(usize) -> bool, n: nat)
    requires
        forall|i: int| 0 <= i < s.len() ==> (#[trigger] s[i]) < n,
    ensures
        forall|i: int| 0 <= i < s.filter(pred).len() ==> (#[trigger] s.filter(pred)[i]) < n,
    decreases s.len(),
{
    reveal_with_fuel(Seq::filter, 1);
    if s.len() > 0 {
        lemma_filter_below(s.drop_last(), pred, n);
        let sub = s.drop_last().filter(pred);
        if pred(s.last()) {
            assert(s.filter(pred) =~= sub.push(s.last()));
        } else {
            assert(s.filter(pred) =~= sub);
        }
    }
}

} // verus!
