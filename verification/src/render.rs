//! Composing the output lines of one variable.
//!
//! A surviving variable is rendered as a header line, one line per
//! surviving segment, and a terminating blank line.  A segment line
//! carries the found and missing fallback markers (spaces when color is
//! enabled), the content style with missing > unmatched > value
//! precedence, the escaped and highlighted text, and the styled trailing
//! separator.

use vstd::prelude::*;

use crate::annotate::ann_views;
use crate::annotate::annotate_value;
use crate::annotate::spec_annotate;
use crate::annotate::spec_any_match;
use crate::annotate::AnnSegView;
use crate::annotate::AnnotatedSeg;
use crate::config::Config;
use crate::config::ConfigView;
use crate::palette::Palette;
use crate::palette::PaletteView;
use crate::split::spec_split;
use crate::split::split_value;
use crate::text::contains_char;
use crate::text::push_all;

verus! {

/// The views of a sequence of output lines.
pub open spec fn line_views(s: Seq<Vec<char>>) -> Seq<Seq<char>> {
    s.map_values(|l: Vec<char>| l@)
}

/// The marker of a line whose segment matched the search: a space when
/// color carries the signal, else `*`.
pub open spec fn marker_found(use_color: bool) -> char {
    if use_color {
        ' '
    } else {
        '*'
    }
}

/// The marker of a line whose segment names a missing path: a space when
/// color carries the signal, else `!`.
pub open spec fn marker_missing(use_color: bool) -> char {
    if use_color {
        ' '
    } else {
        '!'
    }
}

/// The content style of a segment line: missing takes precedence over
/// unmatched, which takes precedence over the plain value style.
pub open spec fn seg_style(a: AnnSegView, pal: PaletteView) -> Seq<char> {
    if a.missing == Some(true) {
        pal.missing
    } else if a.matched == Some(false) {
        pal.unmatched
    } else {
        pal.value
    }
}

/// One rendered segment line.
pub open spec fn spec_render_seg(a: AnnSegView, pal: PaletteView, use_color: bool) -> Seq<char> {
    seq![
        if a.matched == Some(true) {
            marker_found(use_color)
        } else {
            ' '
        },
        if a.missing == Some(true) {
            marker_missing(use_color)
        } else {
            ' '
        },
    ] + seg_style(a, pal) + a.text + pal.reset + pal.separator + a.separator + pal.reset
}

/// Missing-path styling takes precedence: a segment that failed the
/// existence check renders with the `missing` content style whatever its
/// match flag says, while its text — which carries the highlight markup
/// inserted for a matched segment — stands in the line unchanged.
pub proof fn lemma_missing_style_precedence(a: AnnSegView, pal: PaletteView, use_color: bool)
    requires
        a.missing == Some(true),
    ensures
        seg_style(a, pal) == pal.missing,
        spec_render_seg(a, pal, use_color) == seq![
            if a.matched == Some(true) {
                marker_found(use_color)
            } else {
                ' '
            },
            marker_missing(use_color),
        ] + pal.missing + a.text + pal.reset + pal.separator + a.separator + pal.reset,
{
}

/// The header line of a variable.
pub open spec fn spec_header(name: Seq<char>, pal: PaletteView) -> Seq<char> {
    pal.variable + name + pal.reset + pal.separator + seq!['='] + pal.reset
}

/// Whether path checking is active for a value: the feature is on and the
/// value contains the platform's path separator at all.
pub open spec fn spec_value_checking(value: Seq<char>, cfg: ConfigView) -> bool {
    cfg.check_paths && value.contains(cfg.path_separator)
}

/// Renders one segment line.
fn render_seg_line(a: &AnnotatedSeg, pal: &Palette, use_color: bool) -> (r: Vec<char>)
    ensures
        r@ == spec_render_seg(a@, pal@, use_color),
{
    let mut out: Vec<char> = Vec::new();
    if matches!(a.matched, Some(true)) {
        if use_color {
            out.push(' ');
        } else {
            out.push('*');
        }
    } else {
        out.push(' ');
    }
    if matches!(a.missing, Some(true)) {
        if use_color {
            out.push(' ');
        } else {
            out.push('!');
        }
    } else {
        out.push(' ');
    }
    if matches!(a.missing, Some(true)) {
        push_all(&mut out, &pal.missing);
    } else if matches!(a.matched, Some(false)) {
        push_all(&mut out, &pal.unmatched);
    } else {
        push_all(&mut out, &pal.value);
    }
    push_all(&mut out, &a.text);
    push_all(&mut out, &pal.reset);
    push_all(&mut out, &pal.separator);
    push_all(&mut out, &a.separator);
    push_all(&mut out, &pal.reset);
    proof {
        assert(out@ =~= spec_render_seg(a@, pal@, use_color));
    }
    out
}

/// Renders the header line of a variable.
fn render_header(name: &Vec<char>, pal: &Palette) -> (r: Vec<char>)
    ensures
        r@ == spec_header(name@, pal@),
{
    let mut out: Vec<char> = Vec::new();
    push_all(&mut out, &pal.variable);
    push_all(&mut out, name);
    push_all(&mut out, &pal.reset);
    push_all(&mut out, &pal.separator);
    out.push('=');
    push_all(&mut out, &pal.reset);
    proof {
        assert(out@ =~= spec_header(name@, pal@));
    }
    out
}

/// The block of output lines of one variable, empty when the variable is
/// suppressed because a configured search matched none of its segments.
pub open spec fn spec_entry_block(
    name: Seq<char>,
    value: Seq<char>,
    ex: Seq<bool>,
    cfg: ConfigView,
    pal: PaletteView,
) -> Seq<Seq<char>> {
    let segs = spec_split(value, cfg.separators);
    if !spec_any_match(segs, cfg.search) {
        Seq::empty()
    } else {
        seq![spec_header(name, pal)] + spec_annotate(
            segs,
            ex,
            cfg.search,
            cfg.only_matching,
            spec_value_checking(value, cfg),
            pal,
        ).map_values(|a: AnnSegView| spec_render_seg(a, pal, cfg.use_color)) + seq![
            Seq::<char>::empty(),
        ]
    }
}

/// Renders one variable: splits the value, annotates the segments with
/// the given existence answers, and composes the lines; returns `None`
/// exactly when a configured search matched none of the segments, in
/// which case the variable is suppressed entirely.
pub fn render_entry(
    name: &Vec<char>,
    value: &Vec<char>,
    ex: &Vec<bool>,
    cfg: &Config,
    pal: &Palette,
) -> (r: Option<Vec<Vec<char>>>)
    requires
        ex@.len() == spec_split(value@, cfg@.separators).len(),
    ensures
        r is Some <==> spec_any_match(spec_split(value@, cfg@.separators), cfg@.search),
        (match r {
            Some(ls) => line_views(ls@),
            None => Seq::empty(),
        }) == spec_entry_block(name@, value@, ex@, cfg@, pal@),
{
    let ghost segs_v = spec_split(value@, cfg@.separators);
    let segs = split_value(value, &cfg.separators);
    let checking = cfg.check_paths && contains_char(value, cfg.path_separator);
    let (anns, any) = annotate_value(&segs, ex, &cfg.search, cfg.only_matching, checking, pal);
    if !any {
        return None;
    }
    let ghost rendered = spec_annotate(
        segs_v,
        ex@,
        cfg@.search,
        cfg@.only_matching,
        spec_value_checking(value@, cfg@),
        pal@,
    ).map_values(|a: AnnSegView| spec_render_seg(a, pal@, cfg@.use_color));
    let mut lines: Vec<Vec<char>> = Vec::new();
    lines.push(render_header(name, pal));
    proof {
        assert(line_views(lines@) =~~= seq![spec_header(name@, pal@)]);
        assert(ann_views(anns@).map_values(
            |a: AnnSegView| spec_render_seg(a, pal@, cfg@.use_color),
        ) =~~= rendered);
    }
    let mut j: usize = 0;
    while j < anns.len()
        invariant
            0 <= j <= anns.len(),
            rendered.len() == anns.len(),
            forall|k: int|
                0 <= k < anns.len() ==> #[trigger] rendered[k] == spec_render_seg(
                    anns@[k]@,
                    pal@,
                    cfg@.use_color,
                ),
            line_views(lines@) == seq![spec_header(name@, pal@)] + rendered.take(j as int),
        decreases anns.len() - j,
    {
        let line = render_seg_line(&anns[j], pal, cfg.use_color);
        proof {
            assert(rendered[j as int] == spec_render_seg(anns@[j as int]@, pal@, cfg@.use_color));
            assert(line@ == rendered[j as int]);
        }
        let ghost prev_lines = lines@;
        lines.push(line);
        proof {
            assert(line_views(lines@) =~~= line_views(prev_lines).push(line@));
            assert((seq![spec_header(name@, pal@)] + rendered.take(j as int)).push(
                rendered[j as int],
            ) =~~= seq![spec_header(name@, pal@)] + rendered.take(j + 1));
            assert(line_views(lines@) == seq![spec_header(name@, pal@)] + rendered.take(j + 1));
        }
        j = j + 1;
    }
    lines.push(Vec::new());
    proof {
        assert(rendered.take(anns@.len() as int) =~~= rendered);
        assert(line_views(lines@) =~~= seq![spec_header(name@, pal@)] + rendered + seq![
            Seq::<char>::empty(),
        ]);
    }
    Some(lines)
}

} // verus!
