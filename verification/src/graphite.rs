//! Graphite-safe metric path components.
//!
//! Graphite separates path components with dots and reads whitespace and
//! control characters as framing, so a component taken from free-form
//! config text must have those characters replaced before submission.

use vstd::prelude::*;

verus! {

/// The White_Space property of a character; it depends on the character
/// alone.
pub uninterp spec fn unicode_whitespace(c: char) -> bool;

/// The control-code property of a character; it depends on the character
/// alone.
pub uninterp spec fn unicode_control(c: char) -> bool;

/// Relies on char::is_whitespace: whether the character has the Unicode
/// White_Space property.
#[verifier::external_body]
fn char_is_whitespace(c: char) -> (r: bool)
    ensures
        r == unicode_whitespace(c),
{
    c.is_whitespace()
}

/// Relies on char::is_control: whether the character is a Unicode control
/// code.
#[verifier::external_body]
fn char_is_control(c: char) -> (r: bool)
    ensures
        r == unicode_control(c),
{
    c.is_control()
}

/// Whether graphite would read this character as structure rather than
/// content.
pub open spec fn graphite_special(c: char) -> bool {
    c == '.' || unicode_whitespace(c) || unicode_control(c)
}

/// The character as graphite may see it: itself, or a dash in place of a
/// special one.
pub open spec fn graphite_char(c: char) -> char {
    if graphite_special(c) {
        '-'
    } else {
        c
    }
}

/// The text with every special character replaced by a dash.
pub open spec fn graphitize_spec(s: Seq<char>) -> Seq<char> {
    Seq::new(
        s.len(),
        |i: int|
            if 0 <= i < s.len() {
                graphite_char(s[i])
            } else {
                '-'
            },
    )
}

/// Replaces every character graphite would read as structure — dots,
/// whitespace, control codes — with a dash.
pub fn graphitize(s: &str) -> (r: String)
    ensures
        r@ == graphitize_spec(s@),
{
    let n = s.unicode_len();
    let mut out = String::new();
    let mut i: usize = 0;
    proof {
        assert(out@ =~= graphitize_spec(s@).take(0));
    }
    while i < n
        invariant
            i <= n,
            n == s@.len(),
            out@ == graphitize_spec(s@).take(i as int),
        decreases n - i,
    {
        let c = s.get_char(i);
        let special = c == '.' || char_is_whitespace(c) || char_is_control(c);
        let ghost prev = out@;
        if special {
            out.append("-");
            proof {
                reveal_strlit("-");
                assert(out@ =~= prev.push('-'));
            }
        } else {
            let piece = s.substring_char(i, i + 1);
            out.append(piece);
            proof {
                assert(piece@ =~= seq![s@[i as int]]);
                assert(out@ =~= prev.push(s@[i as int]));
            }
        }
        proof {
            assert(out@ =~= graphitize_spec(s@).take(i as int + 1));
        }
        i += 1;
    }
    proof {
        assert(graphitize_spec(s@).take(n as int) =~= graphitize_spec(s@));
    }
    out
}

} // verus!
