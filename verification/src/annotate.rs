//! Per-segment search, highlighting, and elision bookkeeping.
//!
//! With a search configured, each segment is tested for a match inside its
//! raw content; matching segments have every occurrence wrapped in the
//! `matched` style (resetting to the segment's base style after each), and
//! in only-matching mode a run of consecutive non-matching segments
//! collapses to a single `...` marker, later segments of the run being
//! dropped.  A matching segment, or one with no search configured, resets
//! the elision state.  Content is control-character-escaped before
//! highlighting.  Path-missing flags are carried through unchanged from
//! the answers of the existence predicate.

use vstd::prelude::*;

use crate::escape::spec_escape;
use crate::palette::Palette;
use crate::palette::PaletteView;
use crate::regexes::re_found;
use crate::regexes::re_wrapped;
use crate::regexes::SearchRegex;
use crate::regexes::SearchRegexView;
use crate::split::SegView;
use crate::split::Segment;

verus! {

/// One segment as it will be rendered: its two orthogonal flags, its
/// escaped and possibly highlighted text (or the elision marker), and its
/// trailing separator.
pub struct AnnotatedSeg {
    /// `None` when no search is active, else whether the raw content
    /// matched the search.
    pub matched: Option<bool>,
    /// `None` when path checking is inactive for this value, else whether
    /// the raw content names a missing path.
    pub missing: Option<bool>,
    /// The text to render: escaped content, highlighted when matched, or
    /// the elision marker.
    pub text: Vec<char>,
    /// The trailing separator run (empty for an elision marker).
    pub separator: Vec<char>,
}

/// Mathematical image of an [`AnnotatedSeg`].
#[verifier::ext_equal]
pub ghost struct AnnSegView {
    pub matched: Option<bool>,
    pub missing: Option<bool>,
    pub text: Seq<char>,
    pub separator: Seq<char>,
}

impl View for AnnotatedSeg {
    type V = AnnSegView;

    open spec fn view(&self) -> AnnSegView {
        AnnSegView {
            matched: self.matched,
            missing: self.missing,
            text: self.text@,
            separator: self.separator@,
        }
    }
}

/// The views of a sequence of annotated segments.
pub open spec fn ann_views(s: Seq<AnnotatedSeg>) -> Seq<AnnSegView> {
    s.map_values(|a: AnnotatedSeg| a@)
}

/// The view of an optional compiled search.
pub open spec fn search_view(s: Option<SearchRegex>) -> Option<SearchRegexView> {
    match s {
        Some(r) => Some(r@),
        None => None,
    }
}

/// Whether a value passes the search gate: with no search configured
/// every value passes, else some segment's raw content must match.
pub open spec fn spec_any_match(segs: Seq<SegView>, search: Option<SearchRegexView>) -> bool {
    match search {
        None => true,
        Some(re) => exists|k: int|
            0 <= k < segs.len() && re_found(re.pattern, re.case_insensitive, segs[k].content),
    }
}

/// The base style a segment's content resets to after a highlight:
/// missing takes precedence over the plain value style.
pub open spec fn base_style(miss: Option<bool>, pal: PaletteView) -> Seq<char> {
    if miss == Some(true) {
        pal.missing
    } else {
        pal.value
    }
}

/// The elision marker.
pub open spec fn elision_marker() -> Seq<char> {
    seq!['.', '.', '.']
}

/// The annotated segments produced from `segs[i..]`, where `ex` holds the
/// existence predicate's answer for each segment, `checking` says whether
/// path checking is active for this value, and `elided` says whether the
/// immediately preceding segment was already collapsed into a marker.
pub open spec fn annotate_from(
    segs: Seq<SegView>,
    ex: Seq<bool>,
    search: Option<SearchRegexView>,
    only_matching: bool,
    checking: bool,
    pal: PaletteView,
    i: int,
    elided: bool,
) -> Seq<AnnSegView>
    decreases segs.len() - i,
    when 0 <= i <= segs.len() && ex.len() == segs.len()
{
    if i == segs.len() {
        Seq::empty()
    } else {
        let seg = segs[i];
        let miss: Option<bool> = if checking {
            Some(!ex[i])
        } else {
            None
        };
        let esc = spec_escape(seg.content, pal.special, pal.reset);
        match search {
            None => seq![
                AnnSegView { matched: None, missing: miss, text: esc, separator: seg.separator },
            ] + annotate_from(segs, ex, search, only_matching, checking, pal, i + 1, false),
            Some(re) => {
                if re_found(re.pattern, re.case_insensitive, seg.content) {
                    seq![
                        AnnSegView {
                            matched: Some(true),
                            missing: miss,
                            text: re_wrapped(
                                re.pattern,
                                re.case_insensitive,
                                esc,
                                pal.matched,
                                pal.reset + base_style(miss, pal),
                            ),
                            separator: seg.separator,
                        },
                    ] + annotate_from(segs, ex, search, only_matching, checking, pal, i + 1, false)
                } else if only_matching {
                    if elided {
                        annotate_from(segs, ex, search, only_matching, checking, pal, i + 1, true)
                    } else {
                        seq![
                            AnnSegView {
                                matched: Some(false),
                                missing: None,
                                text: elision_marker(),
                                separator: Seq::empty(),
                            },
                        ] + annotate_from(
                            segs,
                            ex,
                            search,
                            only_matching,
                            checking,
                            pal,
                            i + 1,
                            true,
                        )
                    }
                } else {
                    seq![
                        AnnSegView {
                            matched: Some(false),
                            missing: miss,
                            text: esc,
                            separator: seg.separator,
                        },
                    ] + annotate_from(segs, ex, search, only_matching, checking, pal, i + 1, elided)
                }
            },
        }
    }
}

/// The annotated segments of a whole value.
pub open spec fn spec_annotate(
    segs: Seq<SegView>,
    ex: Seq<bool>,
    search: Option<SearchRegexView>,
    only_matching: bool,
    checking: bool,
    pal: PaletteView,
) -> Seq<AnnSegView> {
    annotate_from(segs, ex, search, only_matching, checking, pal, 0, false)
}

proof fn lemma_elision_from(
    segs: Seq<SegView>,
    ex: Seq<bool>,
    search: Option<SearchRegexView>,
    checking: bool,
    pal: PaletteView,
    i: int,
    elided: bool,
)
    requires
        0 <= i <= segs.len(),
        ex.len() == segs.len(),
        search is Some,
    ensures
        ({
            let out = annotate_from(segs, ex, search, true, checking, pal, i, elided);
            &&& forall|k: int|
                0 <= k < out.len() - 1 ==> !((#[trigger] out[k]).matched == Some(false)
                    && out[k + 1].matched == Some(false))
            &&& elided && out.len() > 0 ==> out[0].matched != Some(false)
        }),
    decreases segs.len() - i,
{
    if i < segs.len() {
        let re = search->0;
        let out = annotate_from(segs, ex, search, true, checking, pal, i, elided);
        if re_found(re.pattern, re.case_insensitive, segs[i].content) {
            lemma_elision_from(segs, ex, search, checking, pal, i + 1, false);
            let rest = annotate_from(segs, ex, search, true, checking, pal, i + 1, false);
            assert forall|k: int| 0 <= k < out.len() - 1 implies !((#[trigger] out[k]).matched
                == Some(false) && out[k + 1].matched == Some(false)) by {
                if k > 0 {
                    assert(out[k] == rest[k - 1]);
                    assert(out[k + 1] == rest[k]);
                }
            }
        } else if elided {
            lemma_elision_from(segs, ex, search, checking, pal, i + 1, true);
        } else {
            lemma_elision_from(segs, ex, search, checking, pal, i + 1, true);
            let rest = annotate_from(segs, ex, search, true, checking, pal, i + 1, true);
            assert forall|k: int| 0 <= k < out.len() - 1 implies !((#[trigger] out[k]).matched
                == Some(false) && out[k + 1].matched == Some(false)) by {
                if k == 0 {
                    assert(out[1] == rest[0]);
                } else {
                    assert(out[k] == rest[k - 1]);
                    assert(out[k + 1] == rest[k]);
                }
            }
        }
    }
}

/// Elision collapses each run: in only-matching mode, a run of
/// consecutive non-matching segments contributes exactly one marker, so
/// no two consecutive rendered segments are non-matching.
pub proof fn lemma_elision_collapses_runs(
    segs: Seq<SegView>,
    ex: Seq<bool>,
    search: Option<SearchRegexView>,
    checking: bool,
    pal: PaletteView,
)
    requires
        ex.len() == segs.len(),
        search is Some,
    ensures
        ({
            let out = spec_annotate(segs, ex, search, true, checking, pal);
            forall|k: int|
                0 <= k < out.len() - 1 ==> !((#[trigger] out[k]).matched == Some(false) && out[k
                    + 1].matched == Some(false))
        }),
{
    lemma_elision_from(segs, ex, search, checking, pal, 0, false);
}

/// Annotates the segments of one value: tests each raw content against
/// the search, escapes and highlights, collapses runs of non-matching
/// segments in only-matching mode, and carries the existence answers
/// through as missing flags.  Also reports whether any segment matched,
/// which gates the whole value.
pub fn annotate_value(
    segs: &Vec<Segment>,
    ex: &Vec<bool>,
    search: &Option<SearchRegex>,
    only_matching: bool,
    checking: bool,
    pal: &Palette,
) -> (r: (Vec<AnnotatedSeg>, bool))
    requires
        ex@.len() == segs@.len(),
    ensures
        ann_views(r.0@) == spec_annotate(
            crate::split::seg_views(segs@),
            ex@,
            search_view(*search),
            only_matching,
            checking,
            pal@,
        ),
        r.1 == spec_any_match(crate::split::seg_views(segs@), search_view(*search)),
{
    let ghost seg_vs = crate::split::seg_views(segs@);
    let ghost sv = search_view(*search);
    let mut out: Vec<AnnotatedSeg> = Vec::new();
    let mut any: bool = match search {
        None => true,
        Some(_) => false,
    };
    let mut elided: bool = false;
    let mut i: usize = 0;
    proof {
        assert(ann_views(out@) =~~= Seq::<AnnSegView>::empty());
    }
    while i < segs.len()
        invariant
            0 <= i <= segs.len(),
            ex@.len() == segs@.len(),
            seg_vs == crate::split::seg_views(segs@),
            sv == search_view(*search),
            spec_annotate(seg_vs, ex@, sv, only_matching, checking, pal@) == ann_views(out@)
                + annotate_from(
                seg_vs,
                ex@,
                sv,
                only_matching,
                checking,
                pal@,
                i as int,
                elided,
            ),
            match sv {
                None => any,
                Some(re) => any == exists|k: int|
                    0 <= k < i && re_found(re.pattern, re.case_insensitive, seg_vs[k].content),
            },
        decreases segs.len() - i,
    {
        let ghost prev = out@;
        let ghost old_elided = elided;
        let seg = &segs[i];
        let miss: Option<bool> = if checking {
            Some(!ex[i])
        } else {
            None
        };
        match search {
            None => {
                let esc = crate::escape::escape_content(&seg.content, &pal.special, &pal.reset);
                let sep = crate::text::clone_chars(&seg.separator);
                out.push(AnnotatedSeg { matched: None, missing: miss, text: esc, separator: sep });
                elided = false;
            },
            Some(re) => {
                let found = crate::regexes::regex_found(re, &seg.content);
                if found {
                    let esc = crate::escape::escape_content(
                        &seg.content,
                        &pal.special,
                        &pal.reset,
                    );
                    let base = if matches!(miss, Some(true)) {
                        &pal.missing
                    } else {
                        &pal.value
                    };
                    let post = crate::text::concat_chars(&pal.reset, base);
                    let text = crate::regexes::regex_wrap_matches(re, &esc, &pal.matched, &post);
                    let sep = crate::text::clone_chars(&seg.separator);
                    out.push(
                        AnnotatedSeg {
                            matched: Some(true),
                            missing: miss,
                            text,
                            separator: sep,
                        },
                    );
                    elided = false;
                    any = true;
                    proof {
                        assert(re_found(re@.pattern, re@.case_insensitive, seg_vs[i as int].content));
                    }
                } else if only_matching {
                    if !elided {
                        let mut marker: Vec<char> = Vec::new();
                        marker.push('.');
                        marker.push('.');
                        marker.push('.');
                        proof {
                            assert(marker@ =~= elision_marker());
                        }
                        let empty_sep: Vec<char> = Vec::new();
                        out.push(
                            AnnotatedSeg {
                                matched: Some(false),
                                missing: None,
                                text: marker,
                                separator: empty_sep,
                            },
                        );
                    }
                    elided = true;
                } else {
                    let esc = crate::escape::escape_content(
                        &seg.content,
                        &pal.special,
                        &pal.reset,
                    );
                    let sep = crate::text::clone_chars(&seg.separator);
                    out.push(
                        AnnotatedSeg {
                            matched: Some(false),
                            missing: miss,
                            text: esc,
                            separator: sep,
                        },
                    );
                }
            },
        }
        proof {
            let tail = annotate_from(
                seg_vs,
                ex@,
                sv,
                only_matching,
                checking,
                pal@,
                i + 1,
                elided,
            );
            if out@.len() > prev.len() {
                assert(ann_views(out@) =~~= ann_views(prev) + seq![out@.last()@]);
                assert(annotate_from(
                    seg_vs,
                    ex@,
                    sv,
                    only_matching,
                    checking,
                    pal@,
                    i as int,
                    old_elided,
                ) == seq![out@.last()@] + tail);
                assert(ann_views(prev) + (seq![out@.last()@] + tail) =~~= ann_views(out@) + tail);
            } else {
                assert(annotate_from(
                    seg_vs,
                    ex@,
                    sv,
                    only_matching,
                    checking,
                    pal@,
                    i as int,
                    old_elided,
                ) == tail);
            }
        }
        i = i + 1;
    }
    proof {
        assert(annotate_from(
            seg_vs,
            ex@,
            sv,
            only_matching,
            checking,
            pal@,
            seg_vs.len() as int,
            elided,
        ) == Seq::<AnnSegView>::empty());
        assert(ann_views(out@) + Seq::<AnnSegView>::empty() =~~= ann_views(out@));
    }
    (out, any)
}

} // verus!
