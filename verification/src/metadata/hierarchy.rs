//! The VM hierarchy: OS families, their subcategories, and the
//! case-insensitive patterns that place a VM id in one of them.

use vstd::prelude::*;
use crate::text::{lex_le, str_eq, str_le};

verus! {

/// Whether `pattern` is a valid regular expression (`regex::Regex::new`
/// succeeds on it).
pub uninterp spec fn regex_valid(pattern: Seq<char>) -> bool;

/// Whether `pattern` is a valid regular expression that matches somewhere in
/// `text` (`regex::Regex::is_match`).
pub uninterp spec fn regex_matches(pattern: Seq<char>, text: Seq<char>) -> bool;

/// `regex::Regex::new`: whether `pattern` compiles. The result is taken to
/// depend on the pattern alone.
#[verifier::external_body]
fn regex_compiles(pattern: &str) -> (res: bool)
    ensures
        res == regex_valid(pattern@),
{
    regex::Regex::new(pattern).is_ok()
}

/// `regex::Regex::is_match` of `pattern` on `text`; false where the pattern
/// does not compile.
#[verifier::external_body]
fn regex_is_match(pattern: &str, text: &str) -> (res: bool)
    ensures
        res == regex_matches(pattern@, text@),
{
    match regex::Regex::new(pattern) {
        Ok(re) => re.is_match(text),
        Err(_) => false,
    }
}

/// The case-insensitive form of a hierarchy pattern: `(?i)` before it.
pub open spec fn case_insensitive(pattern: Seq<char>) -> Seq<char> {
    "(?i)"@ + pattern
}

/// Whether the case-insensitive form of `pattern` compiles.
pub open spec fn ci_regex_valid(pattern: Seq<char>) -> bool {
    regex_valid(case_insensitive(pattern))
}

/// Whether the case-insensitive form of `pattern` compiles and matches
/// somewhere in `text`.
pub open spec fn ci_regex_matches(pattern: Seq<char>, text: Seq<char>) -> bool {
    regex_matches(case_insensitive(pattern), text)
}

fn case_insensitive_pattern(pattern: &str) -> (res: String)
    ensures
        res@ == case_insensitive(pattern@),
{
    let mut s = String::from_str("(?i)");
    s.append(pattern);
    proof {
        reveal_strlit("(?i)");
    }
    s
}

fn ci_regex_compiles(pattern: &str) -> (res: bool)
    ensures
        res == ci_regex_valid(pattern@),
{
    let p = case_insensitive_pattern(pattern);
    regex_compiles(p.as_str())
}

fn ci_regex_is_match(pattern: &str, text: &str) -> (res: bool)
    ensures
        res == ci_regex_matches(pattern@, text@),
{
    let p = case_insensitive_pattern(pattern);
    regex_is_match(p.as_str(), text)
}

/// An OS family (top-level grouping).
#[derive(Debug, Clone)]
pub struct Family {
    /// Internal ID (e.g., "microsoft")
    pub id: String,
    /// Display name (e.g., "Microsoft")
    pub name: String,
    /// Icon emoji
    pub icon: String,
    /// Sort order
    pub order: i32,
}

/// Sort method for VMs within a subcategory.
#[derive(Debug, Clone, Copy, PartialEq, Eq, Structural)]
pub enum SortBy {
    /// Sort by release date (oldest first) - for version-based subcategories
    Date,
    /// Sort alphabetically by display name - for non-version subcategories
    Name,
}

impl Default for SortBy {
    fn default() -> (res: Self)
        ensures
            res == SortBy::Name,
    {
        SortBy::Name
    }
}

/// The sort method a subcategory names: "date" sorts by date, anything
/// else (or nothing) by name.
pub fn sort_by_from_name(name: Option<&str>) -> (res: SortBy)
    ensures
        res == (match name {
            Some(n) => if n@ == "date"@ {
                SortBy::Date
            } else {
                SortBy::Name
            },
            None => SortBy::Name,
        }),
{
    match name {
        Some(n) => if str_eq(n, "date") {
            SortBy::Date
        } else {
            SortBy::Name
        },
        None => SortBy::Name,
    }
}

/// A subcategory within an OS family.
#[derive(Debug, Clone)]
pub struct Subcategory {
    /// Internal ID (e.g., "windows_9x")
    pub id: String,
    /// Display name (e.g., "Windows 9x")
    pub name: String,
    /// Parent family ID
    pub family: String,
    /// Sort order within family
    pub order: i32,
    /// Regex patterns to match VM IDs
    pub patterns: Vec<String>,
    /// How to sort VMs within this subcategory
    pub sort_by: SortBy,
}

/// A pattern that compiled, with the family and subcategory it selects.
#[derive(Debug)]
struct CompiledPattern {
    pattern: String,
    family_id: String,
    subcategory_id: String,
}

/// Configuration for the VM hierarchy display.
#[derive(Debug)]
pub struct HierarchyConfig {
    /// OS family definitions, by order
    pub families: Vec<Family>,
    /// Subcategory definitions, by family then order
    pub subcategories: Vec<Subcategory>,
    /// Patterns for categorization, in the order they are tried
    compiled_patterns: Vec<CompiledPattern>,
}

/// Subcategory `a` sorts no later than `b`: by family id, then by order.
pub open spec fn sub_le(a: Subcategory, b: Subcategory) -> bool {
    ||| !lex_le(b.family@, a.family@)
    ||| (a.family@ == b.family@ && a.order <= b.order)
}

/// The (pattern, family, subcategory) triples tried by categorization: each
/// subcategory's patterns in order, those that compile only.
pub open spec fn compiled_of(subs: Seq<Subcategory>) -> Seq<(Seq<char>, Seq<char>, Seq<char>)>
    decreases subs.len(),
{
    if subs.len() == 0 {
        seq![]
    } else {
        compiled_of(subs.drop_last()) + valid_patterns_of(subs.last(), subs.last().patterns@)
    }
}

/// The compiling patterns among `ps`, each with `s`'s family and id.
pub open spec fn valid_patterns_of(s: Subcategory, ps: Seq<String>) -> Seq<
    (Seq<char>, Seq<char>, Seq<char>),
>
    decreases ps.len(),
{
    if ps.len() == 0 {
        seq![]
    } else {
        valid_patterns_of(s, ps.drop_last()) + if ci_regex_valid(ps.last()@) {
            seq![(ps.last()@, s.family@, s.id@)]
        } else {
            seq![]
        }
    }
}

/// Family and subcategory of the first pattern that matches `vm_id`, or
/// ("other", "uncategorized").
pub open spec fn categorize_by(ps: Seq<(Seq<char>, Seq<char>, Seq<char>)>, vm_id: Seq<char>) -> (
    Seq<char>,
    Seq<char>,
)
    decreases ps.len(),
{
    if ps.len() == 0 {
        ("other"@, "uncategorized"@)
    } else if ci_regex_matches(ps[0].0, vm_id) {
        (ps[0].1, ps[0].2)
    } else {
        categorize_by(ps.drop_first(), vm_id)
    }
}

/// Inserting at position `i` adds one copy of `a` to the multiset.
proof fn lemma_insert_multiset<A>(s: Seq<A>, i: int, a: A)
    requires
        0 <= i <= s.len(),
    ensures
        s.insert(i, a).to_multiset() == s.to_multiset().insert(a),
{
    broadcast use vstd::seq_lib::group_to_multiset_ensures;

    let t = s.insert(i, a);
    assert(t.remove(i) =~= s);
    assert(t[i] == a);
    assert(t.contains(a));
    assert(t.to_multiset() =~= s.to_multiset().insert(a));
}

/// `families` sorted by order; equal orders keep their input order.
fn sort_families(families: Vec<Family>) -> (res: Vec<Family>)
    ensures
        res@.to_multiset() == families@.to_multiset(),
        forall|a: int, b: int| 0 <= a < b < res.len() ==> res@[a].order <= res@[b].order,
{
    broadcast use vstd::seq_lib::group_to_multiset_ensures;

    let ghost orig = families@;
    let mut rest = families;
    let mut res: Vec<Family> = Vec::new();
    while rest.len() > 0
        invariant
            res@.to_multiset().add(rest@.to_multiset()) == orig.to_multiset(),
            forall|a: int, b: int| 0 <= a < b < res.len() ==> res@[a].order <= res@[b].order,
        decreases rest.len(),
    {
        let ghost before = rest@;
        let f = rest.remove(0);
        let ghost removed = f;
        proof {
            assert(rest@ == before.remove(0));
            assert(before[0] == removed);
            vstd::seq_lib::to_multiset_remove(before, 0);
            assert(before.contains(removed));
            before.to_multiset_ensures();
            assert(before.to_multiset().count(removed) > 0);
        }
        let mut pos: usize = 0;
        while pos < res.len() && res[pos].order <= f.order
            invariant
                pos <= res.len(),
                forall|k: int| 0 <= k < pos ==> res@[k].order <= f.order,
            decreases res.len() - pos,
        {
            pos += 1;
        }
        let ghost old_res = res@;
        let ghost fv = f;
        res.insert(pos, f);
        proof {
            lemma_insert_multiset(old_res, pos as int, fv);
            assert(res@.to_multiset().add(rest@.to_multiset()) =~= orig.to_multiset());
            assert forall|a: int, b: int| 0 <= a < b < res.len() implies res@[a].order
                <= res@[b].order by {
                if b < pos {
                    assert(res@[a] == old_res[a] && res@[b] == old_res[b]);
                } else if b == pos {
                    assert(res@[a] == old_res[a]);
                } else if a > pos {
                    assert(res@[a] == old_res[a - 1] && res@[b] == old_res[b - 1]);
                } else if a == pos {
                    assert(res@[b] == old_res[b - 1]);
                    assert(old_res[pos as int].order > fv.order);
                    if b - 1 > pos {
                        assert(old_res[pos as int].order <= old_res[b - 1].order);
                    }
                } else {
                    assert(res@[a] == old_res[a] && res@[b] == old_res[b - 1]);
                }
            }
        }
    }
    proof {
        assert(rest@.to_multiset() =~= vstd::multiset::Multiset::empty());
        assert(res@.to_multiset().add(vstd::multiset::Multiset::empty()) =~= res@.to_multiset());
    }
    res
}

proof fn lemma_sub_le_total(a: Subcategory, b: Subcategory)
    ensures
        sub_le(a, b) || sub_le(b, a),
{
    crate::text::lemma_lex_total(a.family@, b.family@);
    if lex_le(a.family@, b.family@) && lex_le(b.family@, a.family@) {
        crate::text::lemma_lex_antisym(a.family@, b.family@);
    }
}

proof fn lemma_sub_le_trans(a: Subcategory, b: Subcategory, c: Subcategory)
    requires
        sub_le(a, b),
        sub_le(b, c),
    ensures
        sub_le(a, c),
{
    crate::text::lemma_lex_total(a.family@, b.family@);
    crate::text::lemma_lex_total(b.family@, c.family@);
    crate::text::lemma_lex_total(a.family@, c.family@);
    if lex_le(c.family@, a.family@) {
        if a.family@ == b.family@ {
            if lex_le(b.family@, c.family@) && lex_le(c.family@, b.family@) {
                crate::text::lemma_lex_antisym(b.family@, c.family@);
            }
        } else {
            crate::text::lemma_lex_trans(c.family@, a.family@, b.family@);
            if b.family@ != c.family@ {
                crate::text::lemma_lex_antisym(b.family@, c.family@);
            } else {
                crate::text::lemma_lex_antisym(a.family@, b.family@);
            }
        }
    }
}

/// Whether `a <= b` by (family id, order).
fn subcategory_le(a: &Subcategory, b: &Subcategory) -> (res: bool)
    ensures
        res == sub_le(*a, *b),
{
    if str_eq(a.family.as_str(), b.family.as_str()) {
        proof {
            crate::text::lemma_lex_refl(a.family@);
        }
        a.order <= b.order
    } else {
        !str_le(b.family.as_str(), a.family.as_str())
    }
}

/// `subs` sorted by family id, then order; ties keep their input order.
fn sort_subcategories(subs: Vec<Subcategory>) -> (res: Vec<Subcategory>)
    ensures
        res@.to_multiset() == subs@.to_multiset(),
        forall|a: int, b: int| 0 <= a < b < res.len() ==> sub_le(res@[a], res@[b]),
{
    broadcast use vstd::seq_lib::group_to_multiset_ensures;

    let ghost orig = subs@;
    let mut rest = subs;
    let mut res: Vec<Subcategory> = Vec::new();
    while rest.len() > 0
        invariant
            res@.to_multiset().add(rest@.to_multiset()) == orig.to_multiset(),
            forall|a: int, b: int| 0 <= a < b < res.len() ==> sub_le(res@[a], res@[b]),
        decreases rest.len(),
    {
        let ghost before = rest@;
        let s = rest.remove(0);
        let ghost removed = s;
        proof {
            assert(rest@ == before.remove(0));
            assert(before[0] == removed);
            vstd::seq_lib::to_multiset_remove(before, 0);
            assert(before.contains(removed));
            before.to_multiset_ensures();
            assert(before.to_multiset().count(removed) > 0);
        }
        let mut pos: usize = 0;
        while pos < res.len() && subcategory_le(&res[pos], &s)
            invariant
                pos <= res.len(),
                forall|k: int| 0 <= k < pos ==> sub_le(res@[k], s),
            decreases res.len() - pos,
        {
            pos += 1;
        }
        let ghost old_res = res@;
        let ghost sv = s;
        proof {
            if pos < res.len() {
                lemma_sub_le_total(old_res[pos as int], sv);
            }
        }
        res.insert(pos, s);
        proof {
            lemma_insert_multiset(old_res, pos as int, sv);
            assert(res@.to_multiset().add(rest@.to_multiset()) =~= orig.to_multiset());
            assert forall|a: int, b: int| 0 <= a < b < res.len() implies sub_le(res@[a], res@[b]) by {
                if b < pos {
                    assert(res@[a] == old_res[a] && res@[b] == old_res[b]);
                } else if b == pos {
                    assert(res@[a] == old_res[a]);
                } else if a > pos {
                    assert(res@[a] == old_res[a - 1] && res@[b] == old_res[b - 1]);
                } else if a == pos {
                    assert(res@[b] == old_res[b - 1]);
                    if b - 1 > pos {
                        lemma_sub_le_trans(sv, old_res[pos as int], old_res[b - 1]);
                    }
                } else {
                    assert(res@[a] == old_res[a] && res@[b] == old_res[b - 1]);
                }
            }
        }
    }
    proof {
        assert(rest@.to_multiset() =~= vstd::multiset::Multiset::empty());
        assert(res@.to_multiset().add(vstd::multiset::Multiset::empty()) =~= res@.to_multiset());
    }
    res
}

/// The patterns of `subs` that compile, in order, with their family and
/// subcategory.
fn compile_patterns(subs: &Vec<Subcategory>) -> (res: Vec<CompiledPattern>)
    ensures
        res@.map_values(|c: CompiledPattern| (c.pattern@, c.family_id@, c.subcategory_id@))
            == compiled_of(subs@),
{
    let mut res: Vec<CompiledPattern> = Vec::new();
    let mut i: usize = 0;
    while i < subs.len()
        invariant
            i <= subs.len(),
            res@.map_values(|c: CompiledPattern| (c.pattern@, c.family_id@, c.subcategory_id@))
                == compiled_of(subs@.take(i as int)),
        decreases subs.len() - i,
    {
        let s = &subs[i];
        let ghost base = compiled_of(subs@.take(i as int));
        let mut j: usize = 0;
        while j < s.patterns.len()
            invariant
                i < subs.len(),
                *s == subs@[i as int],
                j <= s.patterns.len(),
                res@.map_values(|c: CompiledPattern| (c.pattern@, c.family_id@, c.subcategory_id@))
                    == base + valid_patterns_of(*s, s.patterns@.take(j as int)),
            decreases s.patterns.len() - j,
        {
            let p = s.patterns[j].as_str();
            proof {
                assert(s.patterns@.take(j + 1).drop_last() =~= s.patterns@.take(j as int));
                assert(s.patterns@.take(j + 1).last() == s.patterns@[j as int]);
            }
            let ghost before = res@;
            if ci_regex_compiles(p) {
                res.push(
                    CompiledPattern {
                        pattern: s.patterns[j].clone(),
                        family_id: s.family.clone(),
                        subcategory_id: s.id.clone(),
                    },
                );
            }
            proof {
                let f = |c: CompiledPattern| (c.pattern@, c.family_id@, c.subcategory_id@);
                let vp = valid_patterns_of(*s, s.patterns@.take(j + 1));
                assert(vp == valid_patterns_of(*s, s.patterns@.take(j as int)) + if ci_regex_valid(
                    s.patterns@[j as int]@,
                ) {
                    seq![(s.patterns@[j as int]@, s.family@, s.id@)]
                } else {
                    seq![]
                });
                if ci_regex_valid(s.patterns@[j as int]@) {
                    assert(res@ == before.push(res@.last()));
                    assert(res@.map_values(f) =~= before.map_values(f).push(f(res@.last())));
                } else {
                    assert(res@ == before);
                }
                assert(res@.map_values(f) =~= base + vp);
            }
            j += 1;
        }
        proof {
            assert(s.patterns@.take(s.patterns.len() as int) =~= s.patterns@);
            assert(subs@.take(i + 1).drop_last() =~= subs@.take(i as int));
            assert(subs@.take(i + 1).last() == subs@[i as int]);
        }
        i += 1;
    }
    proof {
        assert(subs@.take(subs.len() as int) =~= subs@);
    }
    res
}

impl Default for HierarchyConfig {
    fn default() -> (res: Self)
        ensures
            res.family_list().len() == 0,
            res.subcategory_list().len() == 0,
            res.patterns().len() == 0,
    {
        HierarchyConfig {
            families: Vec::new(),
            subcategories: Vec::new(),
            compiled_patterns: Vec::new(),
        }
    }
}

impl HierarchyConfig {
    /// The families, in display order.
    pub closed spec fn family_list(&self) -> Seq<Family> {
        self.families@
    }

    /// The subcategories, in display order.
    pub closed spec fn subcategory_list(&self) -> Seq<Subcategory> {
        self.subcategories@
    }

    /// The (pattern, family, subcategory) triples categorization tries, in order.
    pub closed spec fn patterns(&self) -> Seq<(Seq<char>, Seq<char>, Seq<char>)> {
        self.compiled_patterns@.map_values(
            |c: CompiledPattern| (c.pattern@, c.family_id@, c.subcategory_id@),
        )
    }

    /// A hierarchy from its parts: families sorted by order, subcategories by
    /// family then order (ties in any order the input gives), and the
    /// subcategories' patterns that compile, tried in that order.
    pub fn from_parts(families: Vec<Family>, subcategories: Vec<Subcategory>) -> (res: Self)
        ensures
            res.family_list().to_multiset() == families@.to_multiset(),
            forall|a: int, b: int|
                0 <= a < b < res.family_list().len() ==> res.family_list()[a].order
                    <= res.family_list()[b].order,
            res.subcategory_list().to_multiset() == subcategories@.to_multiset(),
            forall|a: int, b: int|
                0 <= a < b < res.subcategory_list().len() ==> sub_le(
                    res.subcategory_list()[a],
                    res.subcategory_list()[b],
                ),
            res.patterns() == compiled_of(res.subcategory_list()),
    {
        let families = sort_families(families);
        let subcategories = sort_subcategories(subcategories);
        let compiled_patterns = compile_patterns(&subcategories);
        HierarchyConfig { families, subcategories, compiled_patterns }
    }

    /// Family and subcategory of a VM id: those of the first pattern that
    /// matches it, else ("other", "uncategorized").
    pub fn categorize(&self, vm_id: &str) -> (res: (String, String))
        ensures
            (res.0@, res.1@) == categorize_by(self.patterns(), vm_id@),
    {
        let mut i: usize = 0;
        proof {
            assert(self.patterns().skip(0) =~= self.patterns());
        }
        while i < self.compiled_patterns.len()
            invariant
                i <= self.compiled_patterns.len(),
                categorize_by(self.patterns(), vm_id@) == categorize_by(
                    self.patterns().skip(i as int),
                    vm_id@,
                ),
            decreases self.compiled_patterns.len() - i,
        {
            let cp = &self.compiled_patterns[i];
            proof {
                assert(self.patterns().skip(i as int)[0] == self.patterns()[i as int]);
                assert(self.patterns().skip(i as int).drop_first() =~= self.patterns().skip(
                    i + 1,
                ));
            }
            if ci_regex_is_match(cp.pattern.as_str(), vm_id) {
                return (cp.family_id.clone(), cp.subcategory_id.clone());
            }
            i += 1;
        }
        (String::from_str("other"), String::from_str("uncategorized"))
    }

    /// The families, in display order.
    pub fn families_in_order(&self) -> (res: &[Family])
        ensures
            res@ == self.family_list(),
    {
        self.families.as_slice()
    }

    /// The first family with the given id.
    pub fn get_family(&self, id: &str) -> (res: Option<&Family>)
        ensures
            match res {
                Some(f) => exists|i: int|
                    0 <= i < self.family_list().len() && *f == self.family_list()[i] && f.id@ == id@
                        && forall|j: int| 0 <= j < i ==> self.family_list()[j].id@ != id@,
                None => forall|i: int|
                    0 <= i < self.family_list().len() ==> self.family_list()[i].id@ != id@,
            },
    {
        let mut i: usize = 0;
        while i < self.families.len()
            invariant
                i <= self.families.len(),
                forall|j: int| 0 <= j < i ==> self.families@[j].id@ != id@,
            decreases self.families.len() - i,
        {
            if str_eq(self.families[i].id.as_str(), id) {
                proof {
                    assert(self.family_list()[i as int] == self.families@[i as int]);
                }
                return Some(&self.families[i]);
            }
            i += 1;
        }
        None
    }

    /// The first subcategory with the given id.
    pub fn get_subcategory(&self, id: &str) -> (res: Option<&Subcategory>)
        ensures
            match res {
                Some(s) => exists|i: int|
                    0 <= i < self.subcategory_list().len() && *s == self.subcategory_list()[i]
                        && s.id@ == id@ && forall|j: int|
                        0 <= j < i ==> self.subcategory_list()[j].id@ != id@,
                None => forall|i: int|
                    0 <= i < self.subcategory_list().len() ==> self.subcategory_list()[i].id@
                        != id@,
            },
    {
        let mut i: usize = 0;
        while i < self.subcategories.len()
            invariant
                i <= self.subcategories.len(),
                forall|j: int| 0 <= j < i ==> self.subcategories@[j].id@ != id@,
            decreases self.subcategories.len() - i,
        {
            if str_eq(self.subcategories[i].id.as_str(), id) {
                proof {
                    assert(self.subcategory_list()[i as int] == self.subcategories@[i as int]);
                }
                return Some(&self.subcategories[i]);
            }
            i += 1;
        }
        None
    }

    /// The subcategories of a family, in order.
    pub fn subcategories_for_family(&self, family_id: &str) -> (res: Vec<&Subcategory>)
        ensures
            res@.map_values(|s: &Subcategory| *s) == self.subcategory_list().filter(
                |s: Subcategory| s.family@ == family_id@,
            ),
    {
        let ghost pred = |s: Subcategory| s.family@ == family_id@;
        let mut res: Vec<&Subcategory> = Vec::new();
        let mut i: usize = 0;
        while i < self.subcategories.len()
            invariant
                i <= self.subcategories.len(),
                pred == (|s: Subcategory| s.family@ == family_id@),
                res@.map_values(|s: &Subcategory| *s) == self.subcategories@.take(i as int).filter(
                    pred,
                ),
            decreases self.subcategories.len() - i,
        {
            let s = &self.subcategories[i];
            proof {
                let t = self.subcategories@.take(i as int);
                assert(self.subcategories@.take(i + 1) =~= t + seq![*s]);
                Seq::filter_distributes_over_add(t, seq![*s], pred);
                reveal_with_fuel(Seq::filter, 2);
                assert(seq![*s].drop_last() =~= Seq::<Subcategory>::empty());
            }
            if str_eq(s.family.as_str(), family_id) {
                res.push(s);
            }
            proof {
                assert(res@.map_values(|s: &Subcategory| *s) =~= self.subcategories@.take(
                    i + 1,
                ).filter(pred));
            }
            i += 1;
        }
        proof {
            assert(self.subcategories@.take(self.subcategories.len() as int) =~= self.subcategories@);
        }
        res
    }
}

/// A compiling pattern of a list of patterns is among the compiled ones,
/// with the subcategory's family and id.
proof fn lemma_valid_pattern_listed(s: Subcategory, ps: Seq<String>, k: int)
    requires
        0 <= k < ps.len(),
        ci_regex_valid(ps[k]@),
    ensures
        valid_patterns_of(s, ps).contains((ps[k]@, s.family@, s.id@)),
    decreases ps.len(),
{
    let e = (ps[k]@, s.family@, s.id@);
    let init = valid_patterns_of(s, ps.drop_last());
    let tail = if ci_regex_valid(ps.last()@) {
        seq![(ps.last()@, s.family@, s.id@)]
    } else {
        seq![]
    };
    assert(valid_patterns_of(s, ps) == init + tail);
    if k == ps.len() - 1 {
        assert((init + tail)[init.len() as int] == e);
    } else {
        assert(ps.drop_last()[k] == ps[k]);
        lemma_valid_pattern_listed(s, ps.drop_last(), k);
        let j = choose|j: int| 0 <= j < init.len() && init[j] == e;
        assert((init + tail)[j] == e);
    }
}

/// Every pattern of every subcategory whose case-insensitive form compiles
/// is among the compiled patterns, with that subcategory's family and id.
pub proof fn lemma_every_valid_pattern_compiled(subs: Seq<Subcategory>, i: int, k: int)
    requires
        0 <= i < subs.len(),
        0 <= k < subs[i].patterns@.len(),
        ci_regex_valid(subs[i].patterns@[k]@),
    ensures
        compiled_of(subs).contains((subs[i].patterns@[k]@, subs[i].family@, subs[i].id@)),
    decreases subs.len(),
{
    let e = (subs[i].patterns@[k]@, subs[i].family@, subs[i].id@);
    let init = compiled_of(subs.drop_last());
    let tail = valid_patterns_of(subs.last(), subs.last().patterns@);
    assert(compiled_of(subs) == init + tail);
    if i == subs.len() - 1 {
        lemma_valid_pattern_listed(subs.last(), subs.last().patterns@, k);
        let j = choose|j: int| 0 <= j < tail.len() && tail[j] == e;
        assert((init + tail)[init.len() + j] == e);
    } else {
        assert(subs.drop_last()[i] == subs[i]);
        lemma_every_valid_pattern_compiled(subs.drop_last(), i, k);
        let j = choose|j: int| 0 <= j < init.len() && init[j] == e;
        assert((init + tail)[j] == e);
    }
}

/// Every compiled entry of a list of patterns is one of its compiling
/// patterns, with the subcategory's family and id.
proof fn lemma_listed_pattern_valid(s: Subcategory, ps: Seq<String>, j: int)
    requires
        0 <= j < valid_patterns_of(s, ps).len(),
    ensures
        exists|k: int|
            0 <= k < ps.len() && ci_regex_valid(ps[k]@) && valid_patterns_of(s, ps)[j] == (
                ps[k]@,
                s.family@,
                s.id@,
            ),
    decreases ps.len(),
{
    let init = valid_patterns_of(s, ps.drop_last());
    let tail = if ci_regex_valid(ps.last()@) {
        seq![(ps.last()@, s.family@, s.id@)]
    } else {
        seq![]
    };
    assert(valid_patterns_of(s, ps) == init + tail);
    if j < init.len() {
        lemma_listed_pattern_valid(s, ps.drop_last(), j);
        let k = choose|k: int|
            0 <= k < ps.drop_last().len() && ci_regex_valid(ps.drop_last()[k]@)
                && init[j] == (ps.drop_last()[k]@, s.family@, s.id@);
        assert(ps.drop_last()[k] == ps[k]);
        assert((init + tail)[j] == init[j]);
    } else {
        let k = ps.len() - 1;
        assert((init + tail)[j] == tail[j - init.len()]);
        assert(0 <= k < ps.len() && ci_regex_valid(ps[k]@));
    }
}

/// Every compiled pattern comes from a subcategory: it is one of that
/// subcategory's patterns whose case-insensitive form compiles, paired with
/// the subcategory's family and id.
pub proof fn lemma_compiled_patterns_come_from_subcategories(subs: Seq<Subcategory>, j: int)
    requires
        0 <= j < compiled_of(subs).len(),
    ensures
        exists|i: int, k: int|
            0 <= i < subs.len() && 0 <= k < subs[i].patterns@.len() && ci_regex_valid(
                subs[i].patterns@[k]@,
            ) && compiled_of(subs)[j] == (subs[i].patterns@[k]@, subs[i].family@, subs[i].id@),
    decreases subs.len(),
{
    let init = compiled_of(subs.drop_last());
    let tail = valid_patterns_of(subs.last(), subs.last().patterns@);
    assert(compiled_of(subs) == init + tail);
    if j < init.len() {
        lemma_compiled_patterns_come_from_subcategories(subs.drop_last(), j);
        let (i, k) = choose|i: int, k: int|
            0 <= i < subs.drop_last().len() && 0 <= k < subs.drop_last()[i].patterns@.len()
                && ci_regex_valid(subs.drop_last()[i].patterns@[k]@) && init[j] == (
                subs.drop_last()[i].patterns@[k]@,
                subs.drop_last()[i].family@,
                subs.drop_last()[i].id@,
            );
        assert(subs.drop_last()[i] == subs[i]);
        assert((init + tail)[j] == init[j]);
    } else {
        let i = subs.len() - 1;
        lemma_listed_pattern_valid(subs.last(), subs.last().patterns@, j - init.len());
        assert((init + tail)[j] == tail[j - init.len()]);
        let k = choose|k: int|
            0 <= k < subs.last().patterns@.len() && ci_regex_valid(subs.last().patterns@[k]@)
                && tail[j - init.len()] == (
                subs.last().patterns@[k]@,
                subs.last().family@,
                subs.last().id@,
            );
        assert(subs[i] == subs.last());
    }
}

/// Categorizing gives the family and subcategory of the first pattern that
/// matches the id, and ("other", "uncategorized") when none matches.
pub proof fn lemma_categorize_first_match(ps: Seq<(Seq<char>, Seq<char>, Seq<char>)>, vm_id: Seq<char>)
    ensures
        (forall|j: int| 0 <= j < ps.len() ==> !ci_regex_matches(#[trigger] ps[j].0, vm_id))
            ==> categorize_by(ps, vm_id) == ("other"@, "uncategorized"@),
        forall|j: int|
            0 <= j < ps.len() && ci_regex_matches(#[trigger] ps[j].0, vm_id) && (forall|m: int|
                0 <= m < j ==> !ci_regex_matches(ps[m].0, vm_id)) ==> categorize_by(ps, vm_id) == (
                ps[j].1,
                ps[j].2,
            ),
    decreases ps.len(),
{
    if ps.len() > 0 {
        lemma_categorize_first_match(ps.drop_first(), vm_id);
        assert forall|j: int|
            0 <= j < ps.len() && ci_regex_matches(#[trigger] ps[j].0, vm_id) && (forall|m: int|
                0 <= m < j ==> !ci_regex_matches(ps[m].0, vm_id)) implies categorize_by(ps, vm_id)
            == (ps[j].1, ps[j].2) by {
            if j > 0 {
                assert(!ci_regex_matches(ps[0].0, vm_id));
                assert(ps.drop_first()[j - 1] == ps[j]);
                assert forall|m: int| 0 <= m < j - 1 implies !ci_regex_matches(
                    ps.drop_first()[m].0,
                    vm_id,
                ) by {
                    assert(ps.drop_first()[m] == ps[m + 1]);
                }
            }
        }
        if forall|j: int| 0 <= j < ps.len() ==> !ci_regex_matches(#[trigger] ps[j].0, vm_id) {
            assert(!ci_regex_matches(ps[0].0, vm_id));
            assert forall|j: int| 0 <= j < ps.drop_first().len() implies !ci_regex_matches(
                #[trigger] ps.drop_first()[j].0,
                vm_id,
            ) by {
                assert(ps.drop_first()[j] == ps[j + 1]);
            }
        }
    }
}

/// A VM id that a compiling pattern of some subcategory matches is placed by
/// a matching pattern: never in ("other", "uncategorized") by default, but
/// in the family and subcategory of the first compiled pattern that matches.
pub proof fn lemma_matching_pattern_categorizes(subs: Seq<Subcategory>, vm_id: Seq<char>, i: int, k: int)
    requires
        0 <= i < subs.len(),
        0 <= k < subs[i].patterns@.len(),
        ci_regex_valid(subs[i].patterns@[k]@),
        ci_regex_matches(subs[i].patterns@[k]@, vm_id),
    ensures
        exists|j: int|
            0 <= j < compiled_of(subs).len() && ci_regex_matches(
                #[trigger] compiled_of(subs)[j].0,
                vm_id,
            ) && (forall|m: int| 0 <= m < j ==> !ci_regex_matches(compiled_of(subs)[m].0, vm_id))
                && categorize_by(compiled_of(subs), vm_id) == (
                compiled_of(subs)[j].1,
                compiled_of(subs)[j].2,
            ),
{
    let ps = compiled_of(subs);
    lemma_every_valid_pattern_compiled(subs, i, k);
    let w = choose|w: int| 0 <= w < ps.len() && ps[w] == (subs[i].patterns@[k]@, subs[i].family@, subs[i].id@);
    assert(ci_regex_matches(ps[w].0, vm_id));
    lemma_first_index_matching(ps, vm_id, w);
    let j = choose|j: int|
        0 <= j <= w && ci_regex_matches(ps[j].0, vm_id) && (forall|m: int| 0 <= m < j ==> !ci_regex_matches(ps[m].0, vm_id));
    lemma_categorize_first_match(ps, vm_id);
    assert(ci_regex_matches(ps[j].0, vm_id));
}

proof fn lemma_first_index_matching(ps: Seq<(Seq<char>, Seq<char>, Seq<char>)>, vm_id: Seq<char>, w: int)
    requires
        0 <= w < ps.len(),
        ci_regex_matches(ps[w].0, vm_id),
    ensures
        exists|j: int|
            0 <= j <= w && ci_regex_matches(ps[j].0, vm_id) && (forall|m: int|
                0 <= m < j ==> !ci_regex_matches(ps[m].0, vm_id)),
    decreases w,
{
    if exists|m: int| 0 <= m < w && ci_regex_matches(ps[m].0, vm_id) {
        let m = choose|m: int| 0 <= m < w && ci_regex_matches(ps[m].0, vm_id);
        lemma_first_index_matching(ps, vm_id, m);
    } else {
        assert(forall|m: int| 0 <= m < w ==> !ci_regex_matches(ps[m].0, vm_id));
    }
}

} // verus!
