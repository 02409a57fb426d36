//! Control-character escaping.
//!
//! Segment content is made printable before rendering: each control
//! character with a conventional escape is replaced by the escape spelled
//! out (`\x1b`, `\r`, `\n`, `\t`, `\x07`), wrapped in the palette's
//! `special` style and followed by the `reset` style.  All other
//! characters pass through unchanged.

use vstd::prelude::*;

verus! {

/// Whether `c` is one of the control characters that are escaped.
pub open spec fn is_special(c: char) -> bool {
    c == '\x1b' || c == '\r' || c == '\n' || c == '\t' || c == '\x07'
}

/// The printable spelling of a special character, without styling.
pub open spec fn special_spelling(c: char) -> Seq<char> {
    if c == '\x1b' {
        seq!['\\', 'x', '1', 'b']
    } else if c == '\r' {
        seq!['\\', 'r']
    } else if c == '\n' {
        seq!['\\', 'n']
    } else if c == '\t' {
        seq!['\\', 't']
    } else {
        seq!['\\', 'x', '0', '7']
    }
}

/// What one character contributes to the escaped text: special characters
/// become their styled spelling, all others stand unchanged.
pub open spec fn escaped_char(c: char, spe: Seq<char>, res: Seq<char>) -> Seq<char> {
    if is_special(c) {
        spe + special_spelling(c) + res
    } else {
        seq![c]
    }
}

/// The escaped form of the suffix of `s` that starts at `i`.
pub open spec fn escape_from(s: Seq<char>, spe: Seq<char>, res: Seq<char>, i: int) -> Seq<char>
    decreases s.len() - i,
    when 0 <= i <= s.len()
{
    if i == s.len() {
        Seq::empty()
    } else {
        escaped_char(s[i], spe, res) + escape_from(s, spe, res, i + 1)
    }
}

/// The control-character-escaped form of `s`, with special characters
/// styled by `spe` and the style reset by `res`.
pub open spec fn spec_escape(s: Seq<char>, spe: Seq<char>, res: Seq<char>) -> Seq<char> {
    escape_from(s, spe, res, 0)
}

/// Pushes the spelling of the special character `c`, without styling.
fn push_spelling(out: &mut Vec<char>, c: char)
    requires
        is_special(c),
    ensures
        final(out)@ == old(out)@ + special_spelling(c),
{
    if c == '\x1b' {
        out.push('\\');
        out.push('x');
        out.push('1');
        out.push('b');
        proof {
            assert(final(out)@ =~= old(out)@ + special_spelling(c));
        }
    } else if c == '\r' {
        out.push('\\');
        out.push('r');
        proof {
            assert(final(out)@ =~= old(out)@ + special_spelling(c));
        }
    } else if c == '\n' {
        out.push('\\');
        out.push('n');
        proof {
            assert(final(out)@ =~= old(out)@ + special_spelling(c));
        }
    } else if c == '\t' {
        out.push('\\');
        out.push('t');
        proof {
            assert(final(out)@ =~= old(out)@ + special_spelling(c));
        }
    } else {
        out.push('\\');
        out.push('x');
        out.push('0');
        out.push('7');
        proof {
            assert(final(out)@ =~= old(out)@ + special_spelling(c));
        }
    }
}

/// Escapes the control characters of `s`, styling each spelled-out escape
/// with `spe` and resetting with `res`.
pub fn escape_content(s: &Vec<char>, spe: &Vec<char>, res: &Vec<char>) -> (r: Vec<char>)
    ensures
        r@ == spec_escape(s@, spe@, res@),
{
    let mut out: Vec<char> = Vec::new();
    let mut i: usize = 0;
    loop
        invariant
            0 <= i <= s.len(),
            spec_escape(s@, spe@, res@) == out@ + escape_from(s@, spe@, res@, i as int),
        decreases s.len() - i,
    {
        if i == s.len() {
            proof {
                assert(out@ + escape_from(s@, spe@, res@, i as int) =~= out@);
            }
            return out;
        }
        let c = s[i];
        let ghost prev = out@;
        if c == '\x1b' || c == '\r' || c == '\n' || c == '\t' || c == '\x07' {
            crate::text::push_all(&mut out, spe);
            push_spelling(&mut out, c);
            crate::text::push_all(&mut out, res);
            proof {
                assert(out@ =~= prev + escaped_char(s@[i as int], spe@, res@));
            }
        } else {
            out.push(c);
            proof {
                assert(out@ =~= prev + escaped_char(s@[i as int], spe@, res@));
            }
        }
        proof {
            assert(prev + (escaped_char(s@[i as int], spe@, res@) + escape_from(
                s@,
                spe@,
                res@,
                i + 1,
            )) =~= out@ + escape_from(s@, spe@, res@, i + 1));
        }
        i = i + 1;
    }
}

} // verus!
