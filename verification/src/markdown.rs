//! Escaping for a markup-sensitive chat rendering mode: body text gets
//! every markup-special character backslash-prefixed, link URLs only the
//! two characters special inside an inline-link target.

use vstd::prelude::*;
use vstd::string::StrSliceExecFns;
use vstd::string::StringExecFns;

verus! {

/// The characters the rendering mode treats as markup in ordinary text.
pub open spec fn is_markup_special(c: char) -> bool {
    c == '\\' || c == '_' || c == '*' || c == '[' || c == ']' || c == '(' || c == ')' || c == '~'
        || c == '`' || c == '>' || c == '#' || c == '+' || c == '-' || c == '=' || c == '|'
        || c == '{' || c == '}' || c == '.' || c == '!'
}

/// The characters special inside an inline-link URL.
pub open spec fn is_link_special(c: char) -> bool {
    c == '`' || c == ')'
}

/// One character of output text: backslash-prefixed when special.
pub open spec fn escaped_char(c: char, special: spec_fn(char) -> bool) -> Seq<char> {
    if special(c) {
        seq!['\\', c]
    } else {
        seq![c]
    }
}

/// `s` with every character selected by `special` backslash-prefixed.
pub open spec fn escaped(s: Seq<char>, special: spec_fn(char) -> bool) -> Seq<char>
    decreases s.len(),
{
    if s.len() == 0 {
        Seq::<char>::empty()
    } else {
        escaped(s.drop_last(), special) + escaped_char(s.last(), special)
    }
}

/// Body text escaped for the rendering mode.
pub open spec fn escaped_text(s: Seq<char>) -> Seq<char> {
    escaped(s, |c: char| is_markup_special(c))
}

/// A link URL escaped for the rendering mode.
pub open spec fn escaped_link_url(s: Seq<char>) -> Seq<char> {
    escaped(s, |c: char| is_link_special(c))
}

fn is_markup_special_exec(c: char) -> (r: bool)
    ensures
        r == is_markup_special(c),
{
    c == '\\' || c == '_' || c == '*' || c == '[' || c == ']' || c == '(' || c == ')' || c == '~'
        || c == '`' || c == '>' || c == '#' || c == '+' || c == '-' || c == '=' || c == '|'
        || c == '{' || c == '}' || c == '.' || c == '!'
}

fn is_link_special_exec(c: char) -> (r: bool)
    ensures
        r == is_link_special(c),
{
    c == '`' || c == ')'
}

fn escape_with(s: &str, markup: bool) -> (r: String)
    ensures
        markup ==> r@ == escaped_text(s@),
        !markup ==> r@ == escaped_link_url(s@),
{
    let ghost special: spec_fn(char) -> bool = if markup {
        |c: char| is_markup_special(c)
    } else {
        |c: char| is_link_special(c)
    };
    let len = s.unicode_len();
    let mut out = String::new();
    proof {
        assert(s@.subrange(0, 0) =~= Seq::<char>::empty());
    }
    let mut i: usize = 0;
    while i < len
        invariant
            0 <= i <= len,
            len == s@.len(),
            special == (if markup {
                |c: char| is_markup_special(c)
            } else {
                |c: char| is_link_special(c)
            }),
            out@ == escaped(s@.subrange(0, i as int), special),
        decreases len - i,
    {
        let c = s.get_char(i);
        let hit = if markup {
            is_markup_special_exec(c)
        } else {
            is_link_special_exec(c)
        };
        if hit {
            out.append("\\");
            proof {
                reveal_strlit("\\");
            }
        }
        let piece = s.substring_char(i, i + 1);
        out.append(piece);
        proof {
            let pre = s@.subrange(0, i as int);
            let pre1 = s@.subrange(0, i + 1);
            assert(pre1.drop_last() =~= pre);
            assert(pre1.last() == c);
            assert(piece@ =~= seq![c]);
            if special(c) {
                assert("\\"@ =~= seq!['\\']);
                assert(out@ =~= escaped(pre, special) + seq!['\\', c]);
            } else {
                assert(out@ =~= escaped(pre, special) + seq![c]);
            }
            assert(out@ == escaped(pre1, special));
        }
        i = i + 1;
    }
    proof {
        assert(s@.subrange(0, len as int) =~= s@);
    }
    out
}

/// Escapes every markup-special character of `s` with a backslash.
pub fn escape(s: &str) -> (r: String)
    ensures
        r@ == escaped_text(s@),
{
    escape_with(s, true)
}

/// Escapes the characters special inside an inline-link URL.
pub fn escape_link_url(s: &str) -> (r: String)
    ensures
        r@ == escaped_link_url(s@),
{
    escape_with(s, false)
}

} // verus!
