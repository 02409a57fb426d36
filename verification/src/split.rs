//! Splitting a value into segments on a configurable separator character set.
//!
//! A value is cut into (content, separator) pairs: a maximal run of
//! non-separator characters followed by the maximal run of separator
//! characters after it.  An empty value yields one empty segment, and a
//! value ending in separator characters yields a final empty-content
//! segment, so a trailing separator run remains visible in the output.
//! The split is lossless: concatenating all contents and separators in
//! order gives back the value.

use vstd::prelude::*;

verus! {

/// One delimited chunk of a value: its content and the run of separator
/// characters that follows it (possibly empty at the end of the value).
pub struct Segment {
    pub content: Vec<char>,
    pub separator: Vec<char>,
}

/// Mathematical image of a [`Segment`].
#[verifier::ext_equal]
pub ghost struct SegView {
    pub content: Seq<char>,
    pub separator: Seq<char>,
}

impl View for Segment {
    type V = SegView;

    open spec fn view(&self) -> SegView {
        SegView { content: self.content@, separator: self.separator@ }
    }
}

/// The views of a sequence of segments.
pub open spec fn seg_views(s: Seq<Segment>) -> Seq<SegView> {
    s.map_values(|seg: Segment| seg@)
}

/// Whether `c` belongs to the separator character set `seps`.
pub open spec fn is_sep(c: char, seps: Seq<char>) -> bool {
    seps.contains(c)
}

/// Length of the maximal run of characters starting at `i` whose
/// separator-set membership equals `in_sep`.
pub open spec fn run_len(v: Seq<char>, seps: Seq<char>, in_sep: bool, i: int) -> nat
    decreases v.len() - i,
    when 0 <= i <= v.len()
{
    if i == v.len() {
        0
    } else if is_sep(v[i], seps) == in_sep {
        (1 + run_len(v, seps, in_sep, i + 1)) as nat
    } else {
        0
    }
}

pub proof fn lemma_run_len_bound(v: Seq<char>, seps: Seq<char>, in_sep: bool, i: int)
    requires
        0 <= i <= v.len(),
    ensures
        i + run_len(v, seps, in_sep, i) <= v.len(),
    decreases v.len() - i,
{
    if i < v.len() && is_sep(v[i], seps) == in_sep {
        lemma_run_len_bound(v, seps, in_sep, i + 1);
    }
}

/// The segments of the suffix of `v` that starts at `i`, provided `i` is a
/// segment boundary.
pub open spec fn split_from(v: Seq<char>, seps: Seq<char>, i: int) -> Seq<SegView>
    decreases v.len() - i,
    when 0 <= i <= v.len()
    via split_from_dec
{
    let c = run_len(v, seps, false, i) as int;
    let s = run_len(v, seps, true, i + c) as int;
    let seg = SegView {
        content: v.subrange(i, i + c),
        separator: v.subrange(i + c, i + c + s),
    };
    if i + c + s == v.len() {
        if s > 0 {
            seq![seg, SegView { content: Seq::empty(), separator: Seq::empty() }]
        } else {
            seq![seg]
        }
    } else {
        seq![seg] + split_from(v, seps, i + c + s)
    }
}

#[via_fn]
proof fn split_from_dec(v: Seq<char>, seps: Seq<char>, i: int) {
    let c = run_len(v, seps, false, i) as int;
    lemma_run_len_bound(v, seps, false, i);
    lemma_run_len_bound(v, seps, true, i + c);
    if i < v.len() && c == 0 {
        assert(is_sep(v[i], seps));
        assert(run_len(v, seps, true, i) >= 1);
    }
}

/// The segments of `v`, split on the separator set `seps`.
pub open spec fn spec_split(v: Seq<char>, seps: Seq<char>) -> Seq<SegView> {
    split_from(v, seps, 0)
}

/// Number of characters from index `i` on whose separator-set membership
/// equals `in_sep`, computed by scanning.
fn scan_run(v: &Vec<char>, seps: &Vec<char>, in_sep: bool, i: usize) -> (n: usize)
    requires
        i <= v.len(),
    ensures
        n == run_len(v@, seps@, in_sep, i as int),
        i + n <= v.len(),
{
    let mut j: usize = i;
    loop
        invariant
            i <= j <= v.len(),
            run_len(v@, seps@, in_sep, i as int) == (j - i) + run_len(v@, seps@, in_sep, j as int),
        decreases v.len() - j,
    {
        if j == v.len() {
            return j - i;
        }
        if crate::text::contains_char(seps, v[j]) != in_sep {
            return j - i;
        }
        j = j + 1;
    }
}

/// Splits `value` into segments on the separator set `seps`.
pub fn split_value(value: &Vec<char>, seps: &Vec<char>) -> (r: Vec<Segment>)
    ensures
        seg_views(r@) == spec_split(value@, seps@),
{
    let mut out: Vec<Segment> = Vec::new();
    let mut i: usize = 0;
    loop
        invariant
            0 <= i <= value.len(),
            spec_split(value@, seps@) == seg_views(out@) + split_from(value@, seps@, i as int),
        decreases value.len() - i,
    {
        let c = scan_run(value, seps, false, i);
        let s = scan_run(value, seps, true, i + c);
        let mut content: Vec<char> = Vec::new();
        let mut sep: Vec<char> = Vec::new();
        let mut k: usize = i;
        while k < i + c
            invariant
                i <= k <= i + c,
                i + c <= value.len(),
                content@ == value@.subrange(i as int, k as int),
            decreases i + c - k,
        {
            content.push(value[k]);
            proof {
                assert(value@.subrange(i as int, k as int) + seq![value@[k as int]]
                    =~= value@.subrange(i as int, k + 1));
            }
            k = k + 1;
        }
        while k < i + c + s
            invariant
                i + c <= k <= i + c + s,
                i + c + s <= value.len(),
                sep@ == value@.subrange(i + c, k as int),
            decreases i + c + s - k,
        {
            sep.push(value[k]);
            proof {
                assert(value@.subrange(i + c, k as int) + seq![value@[k as int]]
                    =~= value@.subrange(i + c, k + 1));
            }
            k = k + 1;
        }
        let ghost prev = out@;
        let ghost seg_v = SegView {
            content: value@.subrange(i as int, i + c),
            separator: value@.subrange(i + c, i + c + s),
        };
        out.push(Segment { content, separator: sep });
        proof {
            assert(seg_views(out@) =~= seg_views(prev) + seq![seg_v]);
        }
        if i + c + s == value.len() {
            if s > 0 {
                let ghost prev2 = out@;
                out.push(Segment { content: Vec::new(), separator: Vec::new() });
                proof {
                    let empty_seg = SegView { content: Seq::empty(), separator: Seq::empty() };
                    assert(seg_views(out@) =~~= seg_views(prev) + seq![seg_v, empty_seg]);
                    assert(split_from(value@, seps@, i as int) == seq![seg_v, empty_seg]);
                    assert(spec_split(value@, seps@) =~~= seg_views(out@));
                }
            } else {
                proof {
                    assert(split_from(value@, seps@, i as int) == seq![seg_v]);
                    assert(spec_split(value@, seps@) =~~= seg_views(out@));
                }
            }
            return out;
        } else {
            proof {
                if c == 0 && s == 0 {
                    assert(is_sep(value@[i as int], seps@));
                    assert(run_len(value@, seps@, true, i as int) >= 1);
                }
                assert(split_from(value@, seps@, i as int) =~= seq![seg_v] + split_from(
                    value@,
                    seps@,
                    i + c + s,
                ));
                assert(seg_views(prev) + split_from(value@, seps@, i as int) =~= seg_views(out@)
                    + split_from(value@, seps@, i + c + s));
            }
            i = i + c + s;
        }
    }
}

/// Concatenation of every segment's content followed by its separator.
pub open spec fn segs_concat(s: Seq<SegView>) -> Seq<char>
    decreases s.len(),
{
    if s.len() == 0 {
        Seq::empty()
    } else {
        s[0].content + s[0].separator + segs_concat(s.drop_first())
    }
}

proof fn lemma_segs_concat_cons(seg: SegView, rest: Seq<SegView>)
    ensures
        segs_concat(seq![seg] + rest) == seg.content + seg.separator + segs_concat(rest),
{
    let s = seq![seg] + rest;
    assert(s.len() == 1 + rest.len());
    assert(s[0] == seg);
    assert(s.drop_first() =~~= rest);
}

proof fn lemma_split_from_concat(v: Seq<char>, seps: Seq<char>, i: int)
    requires
        0 <= i <= v.len(),
    ensures
        segs_concat(split_from(v, seps, i)) == v.subrange(i, v.len() as int),
    decreases v.len() - i,
{
    let c = run_len(v, seps, false, i) as int;
    lemma_run_len_bound(v, seps, false, i);
    let s = run_len(v, seps, true, i + c) as int;
    lemma_run_len_bound(v, seps, true, i + c);
    let seg = SegView {
        content: v.subrange(i, i + c),
        separator: v.subrange(i + c, i + c + s),
    };
    assert(seg.content + seg.separator =~= v.subrange(i, i + c + s));
    if i + c + s == v.len() {
        if s > 0 {
            let empty_seg = SegView { content: Seq::empty(), separator: Seq::empty() };
            let tail = seq![empty_seg];
            assert(split_from(v, seps, i) == seq![seg] + tail);
            assert(segs_concat(Seq::<SegView>::empty()) == Seq::<char>::empty());
            assert(tail.drop_first() =~~= Seq::<SegView>::empty());
            assert(segs_concat(tail) =~= Seq::<char>::empty());
            lemma_segs_concat_cons(seg, tail);
            assert(seg.content + seg.separator + segs_concat(tail) =~= v.subrange(
                i,
                v.len() as int,
            ));
        } else {
            assert(split_from(v, seps, i) == seq![seg]);
            assert(seq![seg] =~~= seq![seg] + Seq::<SegView>::empty());
            lemma_segs_concat_cons(seg, Seq::<SegView>::empty());
            assert(seg.content + seg.separator + segs_concat(Seq::<SegView>::empty())
                =~= v.subrange(i, v.len() as int));
        }
    } else {
        if i < v.len() && c == 0 {
            assert(is_sep(v[i], seps));
            assert(run_len(v, seps, true, i) >= 1);
        }
        lemma_split_from_concat(v, seps, i + c + s);
        let rest = split_from(v, seps, i + c + s);
        assert(split_from(v, seps, i) == seq![seg] + rest);
        lemma_segs_concat_cons(seg, rest);
        assert(seg.content + seg.separator + v.subrange(i + c + s, v.len() as int) =~= v.subrange(
            i,
            v.len() as int,
        ));
    }
}

/// The split is lossless: concatenating every segment's content and
/// separator, in order, reconstructs the value exactly.
pub proof fn lemma_split_round_trip(v: Seq<char>, seps: Seq<char>)
    ensures
        segs_concat(spec_split(v, seps)) == v,
{
    lemma_split_from_concat(v, seps, 0);
    assert(v.subrange(0, v.len() as int) =~= v);
}

} // verus!
