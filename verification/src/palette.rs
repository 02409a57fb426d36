//! Resolving the color palette that drives rendering.
//!
//! Seven style slots can be overridden through a colon-separated list of
//! `key=value` pairs, where a key is one of `var`, `val`, `mat`, `unm`,
//! `mis`, `spe`, `sep` and a value is a (possibly empty) run of digits and
//! semicolons; malformed parts are ignored, and a later pair for the same
//! key wins.  With color enabled, each slot resolves to the escape
//! sequence for its override or compiled-in default, and `reset` always
//! restores the terminal default; with color disabled every slot is the
//! empty string.

use vstd::prelude::*;

verus! {

/// The resolved style tokens used to render one invocation's output.
pub struct Palette {
    pub variable: Vec<char>,
    pub value: Vec<char>,
    pub matched: Vec<char>,
    pub unmatched: Vec<char>,
    pub missing: Vec<char>,
    pub special: Vec<char>,
    pub separator: Vec<char>,
    pub reset: Vec<char>,
}

/// Mathematical image of a [`Palette`].
#[verifier::ext_equal]
pub ghost struct PaletteView {
    pub variable: Seq<char>,
    pub value: Seq<char>,
    pub matched: Seq<char>,
    pub unmatched: Seq<char>,
    pub missing: Seq<char>,
    pub special: Seq<char>,
    pub separator: Seq<char>,
    pub reset: Seq<char>,
}

impl View for Palette {
    type V = PaletteView;

    open spec fn view(&self) -> PaletteView {
        PaletteView {
            variable: self.variable@,
            value: self.value@,
            matched: self.matched@,
            unmatched: self.unmatched@,
            missing: self.missing@,
            special: self.special@,
            separator: self.separator@,
            reset: self.reset@,
        }
    }
}

/// The seven overridable style slots.
#[derive(PartialEq, Eq, Structural, Clone, Copy)]
pub enum SlotKey {
    Variable,
    Value,
    Matched,
    Unmatched,
    Missing,
    Special,
    Separator,
}

/// One parsed override: a slot and the style token it is set to.
pub struct StyleOverride {
    pub key: SlotKey,
    pub token: Vec<char>,
}

/// Mathematical image of a [`StyleOverride`].
#[verifier::ext_equal]
pub ghost struct StyleOverrideView {
    pub key: SlotKey,
    pub token: Seq<char>,
}

impl View for StyleOverride {
    type V = StyleOverrideView;

    open spec fn view(&self) -> StyleOverrideView {
        StyleOverrideView { key: self.key, token: self.token@ }
    }
}

/// The views of a sequence of overrides.
pub open spec fn override_views(s: Seq<StyleOverride>) -> Seq<StyleOverrideView> {
    s.map_values(|o: StyleOverride| o@)
}

/// The compiled-in default token of each slot.
pub open spec fn default_token(k: SlotKey) -> Seq<char> {
    match k {
        SlotKey::Variable => seq!['1'],
        SlotKey::Value => Seq::empty(),
        SlotKey::Matched => seq!['4', ';', '9', '7'],
        SlotKey::Unmatched => seq!['9', '0'],
        SlotKey::Missing => seq!['2', ';', '3', '1'],
        SlotKey::Special => seq!['3', '6'],
        SlotKey::Separator => seq!['9', '0'],
    }
}

/// The slot named by three key characters, if any.
pub open spec fn spec_key_of(a: char, b: char, c: char) -> Option<SlotKey> {
    if a == 'v' && b == 'a' && c == 'r' {
        Some(SlotKey::Variable)
    } else if a == 'v' && b == 'a' && c == 'l' {
        Some(SlotKey::Value)
    } else if a == 'm' && b == 'a' && c == 't' {
        Some(SlotKey::Matched)
    } else if a == 'u' && b == 'n' && c == 'm' {
        Some(SlotKey::Unmatched)
    } else if a == 'm' && b == 'i' && c == 's' {
        Some(SlotKey::Missing)
    } else if a == 's' && b == 'p' && c == 'e' {
        Some(SlotKey::Special)
    } else if a == 's' && b == 'e' && c == 'p' {
        Some(SlotKey::Separator)
    } else {
        None
    }
}

/// Whether `c` may appear in a style token: a digit or a semicolon.
pub open spec fn is_token_char(c: char) -> bool {
    (('0' as u32) <= (c as u32) && (c as u32) <= ('9' as u32)) || c == ';'
}

/// Whether every character of `s` may appear in a style token.
pub open spec fn all_token_chars(s: Seq<char>) -> bool {
    forall|k: int| 0 <= k < s.len() ==> is_token_char(s[k])
}

/// The override denoted by one colon-separated part, if it is well formed:
/// three key characters naming a slot, `=`, and a token of digits and
/// semicolons.
pub open spec fn spec_parse_part(p: Seq<char>) -> Option<StyleOverrideView> {
    if p.len() >= 4 && p[3] == '=' && spec_key_of(p[0], p[1], p[2]) is Some && all_token_chars(
        p.subrange(4, p.len() as int),
    ) {
        Some(
            StyleOverrideView {
                key: spec_key_of(p[0], p[1], p[2])->0,
                token: p.subrange(4, p.len() as int),
            },
        )
    } else {
        None
    }
}

/// The overrides denoted by the parts from `i` on, in order, with
/// malformed parts ignored.
pub open spec fn parse_parts_from(parts: Seq<crate::split::SegView>, i: int) -> Seq<
    StyleOverrideView,
>
    decreases parts.len() - i,
    when 0 <= i <= parts.len()
{
    if i == parts.len() {
        Seq::empty()
    } else {
        match spec_parse_part(parts[i].content) {
            Some(o) => seq![o] + parse_parts_from(parts, i + 1),
            None => parse_parts_from(parts, i + 1),
        }
    }
}

/// The overrides denoted by a colon-separated `key=value` list.
pub open spec fn spec_parse_overrides(s: Seq<char>) -> Seq<StyleOverrideView> {
    parse_parts_from(crate::split::spec_split(s, seq![':']), 0)
}

/// Parses one colon-separated part.
fn parse_part(p: &Vec<char>) -> (r: Option<StyleOverride>)
    ensures
        r is Some <==> spec_parse_part(p@) is Some,
        r matches Some(o) ==> spec_parse_part(p@) == Some(o@),
{
    if p.len() < 4 {
        return None;
    }
    if p[3] != '=' {
        return None;
    }
    let a = p[0];
    let b = p[1];
    let c = p[2];
    let key: SlotKey;
    if a == 'v' && b == 'a' && c == 'r' {
        key = SlotKey::Variable;
    } else if a == 'v' && b == 'a' && c == 'l' {
        key = SlotKey::Value;
    } else if a == 'm' && b == 'a' && c == 't' {
        key = SlotKey::Matched;
    } else if a == 'u' && b == 'n' && c == 'm' {
        key = SlotKey::Unmatched;
    } else if a == 'm' && b == 'i' && c == 's' {
        key = SlotKey::Missing;
    } else if a == 's' && b == 'p' && c == 'e' {
        key = SlotKey::Special;
    } else if a == 's' && b == 'e' && c == 'p' {
        key = SlotKey::Separator;
    } else {
        return None;
    }
    let mut token: Vec<char> = Vec::new();
    let mut i: usize = 4;
    while i < p.len()
        invariant
            4 <= i <= p.len(),
            p@.len() >= 4,
            token@ == p@.subrange(4, i as int),
            all_token_chars(p@.subrange(4, i as int)),
        decreases p.len() - i,
    {
        let ch = p[i];
        let code = ch as u32;
        if !((code >= ('0' as u32) && code <= ('9' as u32)) || ch == ';') {
            proof {
                assert(p@.subrange(4, p@.len() as int)[i - 4] == p@[i as int]);
            }
            return None;
        }
        token.push(ch);
        proof {
            assert(p@.subrange(4, i as int) + seq![p@[i as int]] =~= p@.subrange(4, i + 1));
        }
        i = i + 1;
    }
    proof {
        assert(p@.subrange(4, p@.len() as int) =~= token@);
    }
    Some(StyleOverride { key, token })
}

/// Parses a colon-separated `key=value` override list; malformed parts
/// are ignored rather than reported.
pub fn parse_overrides(s: &Vec<char>) -> (r: Vec<StyleOverride>)
    ensures
        override_views(r@) == spec_parse_overrides(s@),
{
    let mut colon: Vec<char> = Vec::new();
    colon.push(':');
    proof {
        assert(colon@ =~= seq![':']);
    }
    let parts = crate::split::split_value(s, &colon);
    let ghost part_views = crate::split::spec_split(s@, seq![':']);
    let mut out: Vec<StyleOverride> = Vec::new();
    let mut i: usize = 0;
    while i < parts.len()
        invariant
            0 <= i <= parts.len(),
            crate::split::seg_views(parts@) == part_views,
            spec_parse_overrides(s@) == override_views(out@) + parse_parts_from(
                part_views,
                i as int,
            ),
        decreases parts.len() - i,
    {
        let ghost prev = out@;
        let parsed = parse_part(&parts[i].content);
        proof {
            assert(part_views[i as int].content == parts@[i as int]@.content);
        }
        match parsed {
            Some(o) => {
                out.push(o);
                proof {
                    assert(override_views(out@) =~~= override_views(prev) + seq![out@.last()@]);
                    assert(override_views(prev) + (seq![out@.last()@] + parse_parts_from(
                        part_views,
                        i + 1,
                    )) =~~= override_views(out@) + parse_parts_from(part_views, i + 1));
                }
            },
            None => {
            },
        }
        i = i + 1;
    }
    proof {
        assert(override_views(out@) + parse_parts_from(part_views, part_views.len() as int)
            =~~= override_views(out@));
    }
    out
}

/// The token a slot resolves to: the last override for it, if any, else
/// its default.
pub open spec fn spec_lookup(ovr: Seq<StyleOverrideView>, k: SlotKey) -> Option<Seq<char>>
    decreases ovr.len(),
{
    if ovr.len() == 0 {
        None
    } else if ovr.last().key == k {
        Some(ovr.last().token)
    } else {
        spec_lookup(ovr.drop_last(), k)
    }
}

/// The escape sequence that applies a style token.
pub open spec fn styled(token: Seq<char>) -> Seq<char> {
    seq!['\x1b', '['] + token + seq!['m']
}

/// What a slot resolves to under a color decision and a set of overrides.
pub open spec fn resolved_slot(
    use_color: bool,
    ovr: Seq<StyleOverrideView>,
    k: SlotKey,
) -> Seq<char> {
    if use_color {
        match spec_lookup(ovr, k) {
            Some(t) => styled(t),
            None => styled(default_token(k)),
        }
    } else {
        Seq::empty()
    }
}

/// What the non-overridable `reset` slot resolves to.
pub open spec fn resolved_reset(use_color: bool) -> Seq<char> {
    if use_color {
        styled(seq!['0'])
    } else {
        Seq::empty()
    }
}

/// The palette resolved from a color decision and a set of overrides.
pub open spec fn spec_resolve(use_color: bool, ovr: Seq<StyleOverrideView>) -> PaletteView {
    PaletteView {
        variable: resolved_slot(use_color, ovr, SlotKey::Variable),
        value: resolved_slot(use_color, ovr, SlotKey::Value),
        matched: resolved_slot(use_color, ovr, SlotKey::Matched),
        unmatched: resolved_slot(use_color, ovr, SlotKey::Unmatched),
        missing: resolved_slot(use_color, ovr, SlotKey::Missing),
        special: resolved_slot(use_color, ovr, SlotKey::Special),
        separator: resolved_slot(use_color, ovr, SlotKey::Separator),
        reset: resolved_reset(use_color),
    }
}

/// Pushes the default token of `k`.
fn push_default_token(out: &mut Vec<char>, k: SlotKey)
    ensures
        final(out)@ == old(out)@ + default_token(k),
{
    match k {
        SlotKey::Variable => {
            out.push('1');
            proof {
                assert(final(out)@ =~= old(out)@ + default_token(k));
            }
        },
        SlotKey::Value => {
            proof {
                assert(final(out)@ =~= old(out)@ + default_token(k));
            }
        },
        SlotKey::Matched => {
            out.push('4');
            out.push(';');
            out.push('9');
            out.push('7');
            proof {
                assert(final(out)@ =~= old(out)@ + default_token(k));
            }
        },
        SlotKey::Unmatched => {
            out.push('9');
            out.push('0');
            proof {
                assert(final(out)@ =~= old(out)@ + default_token(k));
            }
        },
        SlotKey::Missing => {
            out.push('2');
            out.push(';');
            out.push('3');
            out.push('1');
            proof {
                assert(final(out)@ =~= old(out)@ + default_token(k));
            }
        },
        SlotKey::Special => {
            out.push('3');
            out.push('6');
            proof {
                assert(final(out)@ =~= old(out)@ + default_token(k));
            }
        },
        SlotKey::Separator => {
            out.push('9');
            out.push('0');
            proof {
                assert(final(out)@ =~= old(out)@ + default_token(k));
            }
        },
    }
}

/// Builds the resolved text of one slot.
fn build_slot(use_color: bool, overrides: &Vec<StyleOverride>, k: SlotKey) -> (r: Vec<char>)
    ensures
        r@ == resolved_slot(use_color, override_views(overrides@), k),
{
    let mut out: Vec<char> = Vec::new();
    if !use_color {
        return out;
    }
    out.push('\x1b');
    out.push('[');
    proof {
        assert(out@ =~= seq!['\x1b', '[']);
    }
    let ghost all = override_views(overrides@);
    let mut j: usize = overrides.len();
    let mut found = false;
    proof {
        assert(all.take(overrides.len() as int) =~~= all);
    }
    while j > 0 && !found
        invariant
            0 <= j <= overrides.len(),
            all == override_views(overrides@),
            !found ==> spec_lookup(all, k) == spec_lookup(all.take(j as int), k),
            !found ==> out@ == seq!['\x1b', '['],
            found ==> match spec_lookup(all, k) {
                Some(t) => out@ == seq!['\x1b', '['] + t,
                None => false,
            },
        decreases j,
    {
        proof {
            assert(all.take(j as int).last() == all[j - 1]);
            assert(all.take(j as int).drop_last() =~~= all.take(j - 1));
        }
        if overrides[j - 1].key == k {
            crate::text::push_all(&mut out, &overrides[j - 1].token);
            found = true;
        }
        j = j - 1;
    }
    if !found {
        proof {
            assert(all.take(0) =~~= Seq::<StyleOverrideView>::empty());
        }
        push_default_token(&mut out, k);
    }
    out.push('m');
    proof {
        match spec_lookup(all, k) {
            Some(t) => {
                assert(out@ =~= styled(t));
            },
            None => {
                assert(out@ =~= styled(default_token(k)));
            },
        }
    }
    out
}

/// Builds the `reset` text.
fn build_reset(use_color: bool) -> (r: Vec<char>)
    ensures
        r@ == resolved_reset(use_color),
{
    let mut out: Vec<char> = Vec::new();
    if use_color {
        out.push('\x1b');
        out.push('[');
        out.push('0');
        out.push('m');
        proof {
            assert(out@ =~= styled(seq!['0']));
        }
    }
    out
}

/// Resolves the palette: every slot is its override if present, else its
/// compiled-in default, framed as a terminal escape sequence; with color
/// disabled every slot is empty, and `reset` is never overridable.
pub fn resolve_palette(use_color: bool, overrides: &Vec<StyleOverride>) -> (p: Palette)
    ensures
        p@ == spec_resolve(use_color, override_views(overrides@)),
{
    let p = Palette {
        variable: build_slot(use_color, overrides, SlotKey::Variable),
        value: build_slot(use_color, overrides, SlotKey::Value),
        matched: build_slot(use_color, overrides, SlotKey::Matched),
        unmatched: build_slot(use_color, overrides, SlotKey::Unmatched),
        missing: build_slot(use_color, overrides, SlotKey::Missing),
        special: build_slot(use_color, overrides, SlotKey::Special),
        separator: build_slot(use_color, overrides, SlotKey::Separator),
        reset: build_reset(use_color),
    };
    proof {
        assert(p@ =~~= spec_resolve(use_color, override_views(overrides@)));
    }
    p
}

} // verus!
