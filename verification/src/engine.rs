//! One whole run: select variables by name, sort them, gather existence
//! answers, and render every surviving block in order.
//!
//! The filesystem existence predicate is injected as a function value; it
//! is consulted once per segment of a path-checked value, and everything
//! that is done with its answers is specified over the sequence of
//! answers it gave.

use vstd::prelude::*;

use crate::config::Config;
use crate::config::ConfigView;
use crate::order::entry_views;
use crate::order::sort_entries;
use crate::order::spec_sort;
use crate::order::EnvEntry;
use crate::order::EnvEntryView;
use crate::palette::Palette;
use crate::palette::PaletteView;
use crate::pattern::name_selected;
use crate::pattern::NamePattern;
use crate::pattern::NamePatternView;
use crate::render::line_views;
use crate::render::render_entry;
use crate::render::spec_entry_block;
use crate::render::spec_value_checking;
use crate::split::spec_split;
use crate::split::split_value;
use crate::text::clone_chars;
use crate::text::contains_char;

verus! {

/// The entries from `i` on whose names the pattern selects, in order.
pub open spec fn filter_from(
    entries: Seq<EnvEntryView>,
    pat: NamePatternView,
    i: int,
) -> Seq<EnvEntryView>
    decreases entries.len() - i,
    when 0 <= i <= entries.len()
{
    if i == entries.len() {
        Seq::empty()
    } else if name_selected(pat, entries[i].name) {
        seq![entries[i]] + filter_from(entries, pat, i + 1)
    } else {
        filter_from(entries, pat, i + 1)
    }
}

/// The entries whose names the pattern selects, in order.
pub open spec fn spec_filter(entries: Seq<EnvEntryView>, pat: NamePatternView) -> Seq<
    EnvEntryView,
> {
    filter_from(entries, pat, 0)
}

/// The selected entries in display order: filtered by name, then sorted
/// lexicographically ascending.
pub open spec fn spec_selected(entries: Seq<EnvEntryView>, pat: NamePatternView) -> Seq<
    EnvEntryView,
> {
    spec_sort(spec_filter(entries, pat))
}

/// The rows of existence answers, as sequences.
pub open spec fn answer_views(s: Seq<Vec<bool>>) -> Seq<Seq<bool>> {
    s.map_values(|v: Vec<bool>| v@)
}

/// The output blocks of the selected entries from `i` on, concatenated,
/// where `ex[i]` holds the existence answers for entry `i`'s segments.
pub open spec fn blocks_from(
    sel: Seq<EnvEntryView>,
    ex: Seq<Seq<bool>>,
    cfg: ConfigView,
    pal: PaletteView,
    i: int,
) -> Seq<Seq<char>>
    decreases sel.len() - i,
    when 0 <= i <= sel.len() && ex.len() == sel.len()
{
    if i == sel.len() {
        Seq::empty()
    } else {
        spec_entry_block(sel[i].name, sel[i].value, ex[i], cfg, pal) + blocks_from(
            sel,
            ex,
            cfg,
            pal,
            i + 1,
        )
    }
}

/// All output lines of a run, given the existence answers.
pub open spec fn spec_render_blocks(
    sel: Seq<EnvEntryView>,
    ex: Seq<Seq<bool>>,
    cfg: ConfigView,
    pal: PaletteView,
) -> Seq<Seq<char>> {
    blocks_from(sel, ex, cfg, pal, 0)
}

/// `ans` is an answer the existence predicate can give for `content`.
pub open spec fn probe_consistent<F: Fn(Vec<char>) -> bool>(
    probe: F,
    content: Seq<char>,
    ans: bool,
) -> bool {
    exists|pv: Vec<char>| pv@ == content && call_ensures(probe, (pv,), ans)
}

/// Keeps the entries whose names the pattern selects, in order.
fn filter_entries(entries: Vec<EnvEntry>, pattern: &NamePattern) -> (r: Vec<EnvEntry>)
    ensures
        entry_views(r@) == spec_filter(entry_views(entries@), pattern@),
{
    let ghost orig = entry_views(entries@);
    let mut rest = entries;
    let mut kept: Vec<EnvEntry> = Vec::new();
    proof {
        assert(entry_views(rest@) =~~= orig.skip(0));
        assert(entry_views(kept@) + filter_from(orig, pattern@, 0) =~~= spec_filter(
            orig,
            pattern@,
        ));
    }
    loop
        invariant
            orig == entry_views(entries@),
            rest@.len() <= orig.len(),
            entry_views(rest@) == orig.skip(orig.len() - rest@.len()),
            spec_filter(orig, pattern@) == entry_views(kept@) + filter_from(
                orig,
                pattern@,
                orig.len() - rest@.len(),
            ),
        decreases rest.len(),
    {
        let ghost i = orig.len() - rest@.len();
        if rest.len() == 0 {
            proof {
                assert(filter_from(orig, pattern@, orig.len() as int)
                    == Seq::<EnvEntryView>::empty());
                assert(entry_views(kept@) + Seq::<EnvEntryView>::empty() =~~= entry_views(kept@));
            }
            return kept;
        }
        let ghost prev_rest = rest@;
        let e = rest.remove(0);
        proof {
            assert(entry_views(prev_rest)[0] == orig.skip(i)[0]);
            assert(e@ == orig[i]);
            assert(rest@.len() == orig.len() - i - 1);
            assert forall|q: int| 0 <= q < rest@.len() implies #[trigger] entry_views(rest@)[q]
                == orig.skip(i + 1)[q] by {
                assert(rest@[q] == prev_rest[q + 1]);
                assert(entry_views(prev_rest)[q + 1] == prev_rest[q + 1]@);
                assert(entry_views(prev_rest)[q + 1] == orig.skip(i)[q + 1]);
                assert(orig.skip(i)[q + 1] == orig[i + 1 + q]);
                assert(orig.skip(i + 1)[q] == orig[i + 1 + q]);
            }
            assert(entry_views(rest@) =~~= orig.skip(i + 1));
        }
        let ghost prev_kept = kept@;
        if pattern.matches_name(&e.name) {
            kept.push(e);
            proof {
                assert(filter_from(orig, pattern@, i) == seq![orig[i]] + filter_from(
                    orig,
                    pattern@,
                    i + 1,
                ));
                assert(entry_views(kept@) =~~= entry_views(prev_kept) + seq![orig[i]]);
                assert(entry_views(prev_kept) + (seq![orig[i]] + filter_from(
                    orig,
                    pattern@,
                    i + 1,
                )) =~~= entry_views(kept@) + filter_from(orig, pattern@, i + 1));
            }
        } else {
            proof {
                assert(filter_from(orig, pattern@, i) == filter_from(orig, pattern@, i + 1));
            }
        }
    }
}

/// Moves every line of `ls` onto the end of `out`.
fn append_lines(out: &mut Vec<Vec<char>>, ls: Vec<Vec<char>>)
    ensures
        line_views(final(out)@) == line_views(old(out)@) + line_views(ls@),
{
    let mut rest = ls;
    proof {
        assert(line_views(old(out)@) + line_views(rest@) =~~= line_views(out@) + line_views(
            rest@,
        ));
    }
    loop
        invariant
            line_views(old(out)@) + line_views(ls@) == line_views(out@) + line_views(rest@),
        decreases rest.len(),
    {
        if rest.len() == 0 {
            proof {
                assert(line_views(out@) + line_views(rest@) =~~= line_views(out@));
            }
            return ;
        }
        let ghost prev_rest = rest@;
        let ghost prev_out = out@;
        let l = rest.remove(0);
        out.push(l);
        proof {
            assert(line_views(prev_rest) =~~= seq![line_views(prev_rest)[0]] + line_views(rest@));
            assert(line_views(out@) =~~= line_views(prev_out) + seq![line_views(prev_rest)[0]]);
            assert(line_views(prev_out) + (seq![line_views(prev_rest)[0]] + line_views(rest@))
                =~~= line_views(out@) + line_views(rest@));
        }
    }
}

/// Renders the whole run: filters the snapshot by name pattern, sorts the
/// survivors lexicographically, consults the existence predicate once per
/// segment of each path-checked value, and concatenates every surviving
/// variable's block of lines.  The output equals the specified rendering
/// for some sequence of answer rows that the predicate can give, one row
/// per selected entry, one answer per segment.
pub fn render_env<F: Fn(Vec<char>) -> bool>(
    entries: Vec<EnvEntry>,
    cfg: &Config,
    pal: &Palette,
    probe: F,
) -> (out: Vec<Vec<char>>)
    requires
        forall|p: Vec<char>| #[trigger] call_requires(probe, (p,)),
    ensures
        ({
            let sel = spec_selected(entry_views(entries@), cfg@.pattern);
            exists|ex: Seq<Seq<bool>>|
                {
                    &&& ex.len() == sel.len()
                    &&& (forall|i: int|
                        0 <= i < sel.len() ==> (#[trigger] ex[i]).len() == spec_split(
                            sel[i].value,
                            cfg@.separators,
                        ).len())
                    &&& (forall|i: int, j: int|
                        0 <= i < sel.len() && 0 <= j < ex[i].len() && spec_value_checking(
                            sel[i].value,
                            cfg@,
                        ) ==> probe_consistent(
                            probe,
                            spec_split(sel[i].value, cfg@.separators)[j].content,
                            #[trigger] ex[i][j],
                        ))
                    &&& (forall|i: int, j: int|
                        0 <= i < sel.len() && 0 <= j < ex[i].len() && !spec_value_checking(
                            sel[i].value,
                            cfg@,
                        ) ==> #[trigger] ex[i][j] == false)
                    &&& line_views(out@) == spec_render_blocks(sel, ex, cfg@, pal@)
                }
        }),
{
    let ghost allv = entry_views(entries@);
    let kept = filter_entries(entries, &cfg.pattern);
    let sorted = sort_entries(kept);
    let ghost sel = spec_selected(allv, cfg@.pattern);
    proof {
        assert(entry_views(sorted@) == sel);
    }
    let mut answers: Vec<Vec<bool>> = Vec::new();
    let mut i: usize = 0;
    while i < sorted.len()
        invariant
            0 <= i <= sorted.len(),
            entry_views(sorted@) == sel,
            answers@.len() == i,
            forall|k: int|
                0 <= k < i ==> (#[trigger] answer_views(answers@)[k]).len() == spec_split(
                    sel[k].value,
                    cfg@.separators,
                ).len(),
            forall|k: int, j: int|
                0 <= k < i && 0 <= j < answer_views(answers@)[k].len() && spec_value_checking(
                    sel[k].value,
                    cfg@,
                ) ==> probe_consistent(
                    probe,
                    spec_split(sel[k].value, cfg@.separators)[j].content,
                    #[trigger] answer_views(answers@)[k][j],
                ),
            forall|k: int, j: int|
                0 <= k < i && 0 <= j < answer_views(answers@)[k].len() && !spec_value_checking(
                    sel[k].value,
                    cfg@,
                ) ==> #[trigger] answer_views(answers@)[k][j] == false,
            forall|p: Vec<char>| #[trigger] call_requires(probe, (p,)),
        decreases sorted.len() - i,
    {
        let ghost segs_v = spec_split(sel[i as int].value, cfg@.separators);
        let segs = split_value(&sorted[i].value, &cfg.separators);
        let checking = cfg.check_paths && contains_char(&sorted[i].value, cfg.path_separator);
        proof {
            assert(sorted@[i as int]@ == sel[i as int]);
            assert(crate::split::seg_views(segs@) == segs_v);
            assert(checking == spec_value_checking(sel[i as int].value, cfg@));
        }
        let mut row: Vec<bool> = Vec::new();
        let mut j: usize = 0;
        while j < segs.len()
            invariant
                0 <= j <= segs.len(),
                row@.len() == j,
                crate::split::seg_views(segs@) == segs_v,
                checking == spec_value_checking(sel[i as int].value, cfg@),
                i < sorted@.len(),
                forall|q: int|
                    0 <= q < j && checking ==> probe_consistent(
                        probe,
                        segs_v[q].content,
                        #[trigger] row@[q],
                    ),
                forall|q: int| 0 <= q < j && !checking ==> #[trigger] row@[q] == false,
                forall|p: Vec<char>| #[trigger] call_requires(probe, (p,)),
            decreases segs.len() - j,
        {
            if checking {
                let content_copy = clone_chars(&segs[j].content);
                let ghost gcopy = content_copy;
                let ans = probe(content_copy);
                proof {
                    assert(gcopy@ == segs_v[j as int].content);
                    assert(call_ensures(probe, (gcopy,), ans));
                    assert(probe_consistent(probe, segs_v[j as int].content, ans));
                }
                row.push(ans);
            } else {
                row.push(false);
            }
            j = j + 1;
        }
        let ghost prev_answers = answers@;
        answers.push(row);
        proof {
            assert(answer_views(answers@) =~~= answer_views(prev_answers).push(row@));
            assert(answer_views(answers@)[i as int].len() == segs_v.len());
        }
        i = i + 1;
    }
    let ghost exs = answer_views(answers@);
    let mut out: Vec<Vec<char>> = Vec::new();
    let mut k: usize = 0;
    proof {
        assert(line_views(out@) + blocks_from(sel, exs, cfg@, pal@, 0) =~~= spec_render_blocks(
            sel,
            exs,
            cfg@,
            pal@,
        ));
    }
    while k < sorted.len()
        invariant
            0 <= k <= sorted.len(),
            entry_views(sorted@) == sel,
            answers@.len() == sel.len(),
            exs == answer_views(answers@),
            exs.len() == sel.len(),
            forall|q: int|
                0 <= q < sel.len() ==> (#[trigger] exs[q]).len() == spec_split(
                    sel[q].value,
                    cfg@.separators,
                ).len(),
            spec_render_blocks(sel, exs, cfg@, pal@) == line_views(out@) + blocks_from(
                sel,
                exs,
                cfg@,
                pal@,
                k as int,
            ),
        decreases sorted.len() - k,
    {
        proof {
            assert(sorted@[k as int]@ == sel[k as int]);
            assert(answers@[k as int]@ == exs[k as int]);
        }
        let ghost block = spec_entry_block(
            sel[k as int].name,
            sel[k as int].value,
            exs[k as int],
            cfg@,
            pal@,
        );
        let ghost prev_out_views = line_views(out@);
        match render_entry(&sorted[k].name, &sorted[k].value, &answers[k], cfg, pal) {
            Some(ls) => {
                proof {
                    assert(line_views(ls@) == block);
                }
                append_lines(&mut out, ls);
                proof {
                    assert(blocks_from(sel, exs, cfg@, pal@, k as int) == block + blocks_from(
                        sel,
                        exs,
                        cfg@,
                        pal@,
                        k + 1,
                    ));
                    assert(prev_out_views + (block + blocks_from(sel, exs, cfg@, pal@, k + 1))
                        =~~= line_views(out@) + blocks_from(sel, exs, cfg@, pal@, k + 1));
                }
            },
            None => {
                proof {
                    assert(block =~~= Seq::<Seq<char>>::empty());
                    assert(blocks_from(sel, exs, cfg@, pal@, k as int) == block + blocks_from(
                        sel,
                        exs,
                        cfg@,
                        pal@,
                        k + 1,
                    ));
                    assert(block + blocks_from(sel, exs, cfg@, pal@, k + 1) =~~= blocks_from(
                        sel,
                        exs,
                        cfg@,
                        pal@,
                        k + 1,
                    ));
                }
            },
        }
        k = k + 1;
    }
    proof {
        assert(blocks_from(sel, exs, cfg@, pal@, sel.len() as int) == Seq::<Seq<char>>::empty());
        assert(line_views(out@) + Seq::<Seq<char>>::empty() =~~= line_views(out@));
        assert(line_views(out@) == spec_render_blocks(sel, exs, cfg@, pal@));
    }
    out
}

} // verus!
