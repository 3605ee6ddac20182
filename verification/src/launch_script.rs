//! Edits to a VM's launch script: setting the display backend of its
//! `-display` options.

use vstd::prelude::*;
use regex::Regex;
use crate::editor::{
    at_boundary, byte_len, index_at, index_of_offset, lemma_index_at, lemma_offset_mono, offset_of,
};
use crate::text::{chars_of, slice_range, string_of};

verus! {

/// `regex::Regex::captures_iter` of `pattern` over `text`: for each match in
/// turn, its byte span and whether the pattern's second capture group took
/// part in it (nothing where the pattern does not compile).
pub uninterp spec fn regex_capture_spans(pattern: Seq<char>, text: Seq<char>) -> Seq<(usize, usize, bool)>;

/// The pattern of a display option: `-display`, the backend, and an optional
/// `,gl=on` as the second group.
pub open spec fn display_option_pattern() -> Seq<char> {
    "-display\\s+([\\w-]+)(,gl=on)?"@
}

/// The byte spans of the `-display` options of a launch script, each with
/// whether `,gl=on` is part of it.
pub open spec fn display_option_spans(script: Seq<char>) -> Seq<(usize, usize, bool)> {
    regex_capture_spans(display_option_pattern(), script)
}

/// Spans of `s` that start and end at character boundaries, each ending
/// no later than the next starts.
#[verifier::opaque]
pub open spec fn spans_in_order(s: Seq<char>, spans: Seq<(usize, usize, bool)>) -> bool {
    &&& forall|i: int|
        0 <= i < spans.len() ==> #[trigger] spans[i].0 <= spans[i].1 && at_boundary(
            s,
            spans[i].0 as int,
        ) && at_boundary(s, spans[i].1 as int)
    &&& forall|i: int, j: int| 0 <= i < j < spans.len() ==> #[trigger] spans[i].1 <= #[trigger] spans[j].0
}

/// `regex::Regex::captures_iter` of `pattern` over `text`: for each match,
/// its byte span and whether the second capture group took part. As the
/// crate documents, matches come one after another without overlapping, and
/// a match starts and ends at character boundaries. Which spans are found is
/// named, not stated; a pattern that does not compile finds none.
#[verifier::external_body]
fn capture_spans(pattern: &str, text: &str) -> (res: Vec<(usize, usize, bool)>)
    ensures
        res@ == regex_capture_spans(pattern@, text@),
        spans_in_order(text@, res@),
{
    match Regex::new(pattern) {
        Ok(re) => re.captures_iter(text).map(
            |c| (c.get_match().start(), c.get_match().end(), c.get(2).is_some()),
        ).collect(),
        Err(_) => Vec::new(),
    }
}

/// The spans of the display options of `script`.
fn find_display_options(script: &str) -> (res: Vec<(usize, usize, bool)>)
    ensures
        res@ == display_option_spans(script@),
        spans_in_order(script@, res@),
{
    proof {
        reveal_strlit("-display\\s+([\\w-]+)(,gl=on)?");
    }
    capture_spans("-display\\s+([\\w-]+)(,gl=on)?", script)
}

/// The text that replaces a display option: `-display` and the backend,
/// keeping `,gl=on` where the option had it.
pub open spec fn display_option_text(display: Seq<char>, gl: bool) -> Seq<char> {
    "-display "@ + display + (if gl {
        ",gl=on"@
    } else {
        Seq::empty()
    })
}

/// `s` with each span replaced by the display option for `display`.
pub open spec fn with_display(s: Seq<char>, spans: Seq<(usize, usize, bool)>, display: Seq<char>) -> Seq<
    char,
>
    decreases spans.len(),
{
    if spans.len() == 0 {
        s
    } else {
        let (a, b, gl) = spans.last();
        with_display(s.take(index_at(s, a as int)), spans.drop_last(), display)
            + display_option_text(display, gl) + s.skip(index_at(s, b as int))
    }
}

proof fn lemma_index_concat(t: Seq<char>, u: Seq<char>, x: int)
    requires
        at_boundary(t, x),
    ensures
        at_boundary(t + u, x),
        index_at(t + u, x) == index_at(t, x),
        index_at(t, x) <= t.len(),
{
    let k = index_at(t, x);
    assert((t + u).take(k) =~= t.take(k));
    lemma_index_at(t + u, x, k);
}

proof fn lemma_index_prefix(s: Seq<char>, p: int, x: int)
    requires
        at_boundary(s, x),
        0 <= p <= s.len(),
        index_at(s, x) <= p,
    ensures
        at_boundary(s.take(p), x),
        index_at(s.take(p), x) == index_at(s, x),
{
    let k = index_at(s, x);
    assert(s.take(p).take(k) =~= s.take(k));
    lemma_index_at(s.take(p), x, k);
}

/// Appending text after the spans leaves their replacement unchanged.
proof fn lemma_with_display_append(
    t: Seq<char>,
    u: Seq<char>,
    spans: Seq<(usize, usize, bool)>,
    display: Seq<char>,
)
    requires
        spans_in_order(t, spans),
    ensures
        with_display(t + u, spans, display) == with_display(t, spans, display) + u,
{
    reveal(spans_in_order);
    if spans.len() > 0 {
        let (a, b, gl) = spans.last();
        assert(spans[spans.len() - 1] == spans.last());
        lemma_index_concat(t, u, a as int);
        lemma_index_concat(t, u, b as int);
        let ia = index_at(t, a as int);
        let ib = index_at(t, b as int);
        assert((t + u).take(ia) =~= t.take(ia));
        assert((t + u).skip(ib) =~= t.skip(ib) + u);
        let w = with_display(t.take(ia), spans.drop_last(), display);
        assert(w + display_option_text(display, gl) + (t.skip(ib) + u) =~= w
            + display_option_text(display, gl) + t.skip(ib) + u);
    }
}

/// The span `i` lies after the text already handled and within `cs`.
proof fn lemma_step_bounds(cs: Seq<char>, spans: Seq<(usize, usize, bool)>, i: int, pos: int)
    requires
        spans_in_order(cs, spans),
        0 <= i < spans.len(),
        0 <= pos <= cs.len(),
        i > 0 ==> pos == index_at(cs, spans[i - 1].1 as int),
        i == 0 ==> pos == 0,
    ensures
        pos <= index_at(cs, spans[i].0 as int) <= index_at(cs, spans[i].1 as int) <= cs.len(),
        at_boundary(cs, spans[i].0 as int),
        at_boundary(cs, spans[i].1 as int),
{
    reveal(spans_in_order);
    let (st, en, gl) = spans[i];
    assert(st <= en && at_boundary(cs, st as int) && at_boundary(cs, en as int));
    let a = index_at(cs, st as int);
    let b = index_at(cs, en as int);
    if i > 0 {
        assert(spans[i - 1].1 <= spans[i].0);
        assert(spans[i - 1].0 <= spans[i - 1].1 && at_boundary(cs, spans[i - 1].1 as int));
        let p = index_at(cs, spans[i - 1].1 as int);
        if a < p {
            lemma_offset_mono(cs, a, p);
        }
    }
    if b < a {
        lemma_offset_mono(cs, b, a);
    }
}

/// One span more: the replacement of the text up to the end of span `i`
/// is that up to the end of the span before, the text in between, and the
/// new option.
proof fn lemma_step_value(
    cs: Seq<char>,
    spans: Seq<(usize, usize, bool)>,
    i: int,
    pos: int,
    display: Seq<char>,
)
    requires
        0 <= i < spans.len(),
        pos <= index_at(cs, spans[i].0 as int) <= index_at(cs, spans[i].1 as int) <= cs.len(),
        0 <= pos,
        at_boundary(cs, spans[i].0 as int),
        at_boundary(cs, spans[i].1 as int),
        spans_in_order(cs.take(pos), spans.take(i)),
    ensures
        with_display(cs.take(pos), spans.take(i), display) + cs.subrange(
            pos,
            index_at(cs, spans[i].0 as int),
        ) + display_option_text(display, spans[i].2) == with_display(
            cs.take(index_at(cs, spans[i].1 as int)),
            spans.take(i + 1),
            display,
        ),
{
    let (st, en, gl) = spans[i];
    let a = index_at(cs, st as int);
    let b = index_at(cs, en as int);
    let old_take = spans.take(i);
    let new_take = spans.take(i + 1);
    assert(new_take.drop_last() =~= old_take);
    assert(new_take.last() == spans[i]);
    assert(cs.take(a) =~= cs.take(pos) + cs.subrange(pos, a));
    lemma_with_display_append(cs.take(pos), cs.subrange(pos, a), old_take, display);
    lemma_index_prefix(cs, b, st as int);
    lemma_index_prefix(cs, b, en as int);
    assert(cs.take(b).take(a) =~= cs.take(a));
    assert(cs.take(b).skip(b) =~= Seq::<char>::empty());
    let w = with_display(cs.take(pos), old_take, display);
    assert(w + cs.subrange(pos, a) + display_option_text(display, gl) =~= w + cs.subrange(pos, a)
        + display_option_text(display, gl) + cs.take(b).skip(b));
}

/// The spans up to `i` lie in the text up to the end of span `i`.
proof fn lemma_step_order(cs: Seq<char>, spans: Seq<(usize, usize, bool)>, i: int)
    requires
        spans_in_order(cs, spans),
        0 <= i < spans.len(),
        index_at(cs, spans[i].1 as int) <= cs.len(),
    ensures
        spans_in_order(cs.take(index_at(cs, spans[i].1 as int)), spans.take(i + 1)),
{
    reveal(spans_in_order);
    let b = index_at(cs, spans[i].1 as int);
    let new_take = spans.take(i + 1);
    assert forall|k: int| 0 <= k < new_take.len() implies #[trigger] new_take[k].0
        <= new_take[k].1 && at_boundary(cs.take(b), new_take[k].0 as int) && at_boundary(
        cs.take(b),
        new_take[k].1 as int,
    ) by {
        assert(new_take[k] == spans[k]);
        assert(spans[k].0 <= spans[k].1 && at_boundary(cs, spans[k].0 as int) && at_boundary(
            cs,
            spans[k].1 as int,
        ));
        let ik0 = index_at(cs, spans[k].0 as int);
        let ik1 = index_at(cs, spans[k].1 as int);
        if k < i {
            assert(spans[k].1 <= spans[i].0);
            assert(spans[i].0 <= spans[i].1);
            if ik1 > b {
                lemma_offset_mono(cs, b, ik1);
            }
        }
        if ik0 > ik1 {
            lemma_offset_mono(cs, ik1, ik0);
        }
        lemma_index_prefix(cs, b, spans[k].0 as int);
        lemma_index_prefix(cs, b, spans[k].1 as int);
    }
    assert forall|x: int, y: int| 0 <= x < y < new_take.len() implies #[trigger] new_take[x].1
        <= #[trigger] new_take[y].0 by {
        assert(new_take[x] == spans[x] && new_take[y] == spans[y]);
    }
}

/// Replace each span of `script` by the display option for `display`.
pub fn replace_display_options(script: &str, spans: &[(usize, usize, bool)], display: &str) -> (res:
    String)
    requires
        spans_in_order(script@, spans@),
        byte_len(script@) <= usize::MAX,
    ensures
        res@ == with_display(script@, spans@, display@),
{
    let cs = chars_of(script);
    let opt_gl = chars_of(",gl=on");
    let opt = chars_of("-display ");
    let disp = chars_of(display);
    let mut out: Vec<char> = Vec::new();
    let mut pos: usize = 0;
    let mut i: usize = 0;
    proof {
        assert(cs@.take(0) =~= Seq::<char>::empty());
        assert(spans@.take(0) =~= Seq::<(usize, usize, bool)>::empty());
        reveal(spans_in_order);
    }
    while i < spans.len()
        invariant
            i <= spans.len(),
            pos <= cs.len(),
            cs@ == script@,
            opt@ == "-display "@,
            opt_gl@ == ",gl=on"@,
            disp@ == display@,
            spans_in_order(cs@, spans@),
            byte_len(cs@) <= usize::MAX,
            out@ == with_display(cs@.take(pos as int), spans@.take(i as int), display@),
            i > 0 ==> pos == index_at(cs@, spans@[i - 1].1 as int),
            i == 0 ==> pos == 0,
            spans_in_order(cs@.take(pos as int), spans@.take(i as int)),
        decreases spans.len() - i,
    {
        let (st, en, gl) = spans[i];
        proof {
            lemma_step_bounds(cs@, spans@, i as int, pos as int);
        }
        let a = index_of_offset(&cs, st).unwrap();
        let b = index_of_offset(&cs, en).unwrap();
        proof {
            lemma_step_bounds(cs@, spans@, i as int, pos as int);
            lemma_step_value(cs@, spans@, i as int, pos as int, display@);
            lemma_step_order(cs@, spans@, i as int);
        }
        let ghost before = out@;
        let mut mid = slice_range(&cs, pos, a);
        out.append(&mut mid);
        let mut o = opt.clone();
        out.append(&mut o);
        let mut d = disp.clone();
        out.append(&mut d);
        if gl {
            let mut g = opt_gl.clone();
            out.append(&mut g);
        }
        proof {
            assert(out@ =~= before + cs@.subrange(pos as int, a as int) + display_option_text(
                display@,
                gl,
            ));
        }
        pos = b;
        i += 1;
    }
    let mut rest = slice_range(&cs, pos, cs.len());
    out.append(&mut rest);
    proof {
        assert(spans@.take(i as int) =~= spans@);
        assert(cs@ =~= cs@.take(pos as int) + cs@.subrange(pos as int, cs@.len() as int));
        lemma_with_display_append(
            cs@.take(pos as int),
            cs@.subrange(pos as int, cs@.len() as int),
            spans@,
            display@,
        );
    }
    string_of(out.as_slice())
}

/// A launch script with the backend of its display options set to
/// `display` (`,gl=on` kept where an option had it); unchanged where it
/// has none.
pub fn update_display_option(script: &str, display: &str) -> (res: String)
    requires
        byte_len(script@) <= usize::MAX,
    ensures
        res@ == with_display(script@, display_option_spans(script@), display@),
{
    let spans = find_display_options(script);
    replace_display_options(script, spans.as_slice(), display)
}

} // verus!
