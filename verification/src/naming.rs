//! From SVG file stems to Rust function names.

use vstd::prelude::*;

use crate::text;

verus! {

/// The capital at position `i` of `s` begins a new word: it follows a lower-case letter or a
/// digit, or it is the last capital of a run and a lower-case letter follows it.
pub open spec fn begins_word(s: Seq<char>, i: int) -> bool {
    &&& 0 < i < s.len()
    &&& text::is_upper(s[i])
    &&& {
        ||| text::is_lower(s[i - 1])
        ||| text::is_digit(s[i - 1])
        ||| text::is_upper(s[i - 1]) && i + 1 < s.len() && text::is_lower(s[i + 1])
    }
}

/// What the character at position `i` of `s` contributes to the snake-case name: nothing for
/// an underscore that follows another, else its lower-case form, with an underscore before it
/// where it begins a word.
pub open spec fn snake_piece(s: Seq<char>, i: int) -> Seq<char> {
    if s[i] == '_' && i > 0 && s[i - 1] == '_' {
        Seq::empty()
    } else if begins_word(s, i) {
        seq!['_', text::lower_char(s[i])]
    } else {
        seq![text::lower_char(s[i])]
    }
}

/// The contributions of the first `n` characters of `s`.
pub open spec fn snake_prefix(s: Seq<char>, n: nat) -> Seq<char>
    decreases n,
{
    if n == 0 {
        Seq::empty()
    } else {
        snake_prefix(s, (n - 1) as nat) + snake_piece(s, n - 1)
    }
}

/// The snake-case form of `s`: the contributions of all its characters, or a single
/// underscore where there are none.
pub open spec fn snake_case(s: Seq<char>) -> Seq<char> {
    if s.len() == 0 {
        seq!['_']
    } else {
        snake_prefix(s, s.len())
    }
}

/// A non-empty prefix ends with the lower-case form of the last character that it covers.
pub proof fn lemma_prefix_last(s: Seq<char>, n: nat)
    requires
        0 < n <= s.len(),
    ensures
        snake_prefix(s, n).len() > 0,
        snake_prefix(s, n).last() == text::lower_char(s[n - 1]),
    decreases n,
{
    if s[n - 1] == '_' && n > 1 && s[n - 2] == '_' {
        lemma_prefix_last(s, (n - 1) as nat);
        assert(snake_prefix(s, n) =~= snake_prefix(s, (n - 1) as nat));
    }
}

/// Convert an `UpperCamelCase` (or mixed-case) stem to `snake_case`.
///
/// Rules applied in priority order:
///
/// 1. A `_` in the input is preserved (consecutive underscores are collapsed to one).
/// 2. A capital that follows a lower-case letter or an ASCII digit gets a `_` prefix.
/// 3. A capital that is followed by a lower-case letter and preceded by another capital also
///    gets a `_` prefix, which handles runs like `HTML` in `HTMLParser`.
///
/// | input | output |
/// |---|---|
/// | `AddRegular` | `add_regular` |
/// | `DismissCircleColor` | `dismiss_circle_color` |
/// | `HTMLParser` | `html_parser` |
/// | `SVGColor` | `svg_color` |
/// | `Add24Filled` | `add24_filled` |
pub fn to_snake_case(s: &str) -> (r: String)
    ensures
        r@ == snake_case(s@),
{
    let chars: Vec<char> = text::chars_of(s);
    let len: usize = chars.len();
    let mut out: String = String::new();
    let mut i: usize = 0;
    while i < len
        invariant
            len == chars.len(),
            chars@ == s@,
            i <= len,
            out@ == snake_prefix(s@, i as nat),
        decreases len - i,
    {
        let c: char = chars[i];
        let ghost before = out@;
        if c == '_' {
            let after_underscore: bool = i > 0 && chars[i - 1] == '_';
            if !after_underscore {
                out.push('_');
                assert(out@ =~= before + snake_piece(s@, i as int));
            } else {
                assert(out@ =~= before + snake_piece(s@, i as int));
            }
        } else {
            if text::is_ascii_upper(c) && i > 0 {
                let prev: char = chars[i - 1];
                let prev_lower_or_digit: bool = text::is_ascii_lower(prev) || text::is_ascii_digit(prev);
                let prev_upper_next_lower: bool = text::is_ascii_upper(prev) && i + 1 < len
                    && text::is_ascii_lower(chars[i + 1]);
                if prev_lower_or_digit || prev_upper_next_lower {
                    out.push('_');
                }
            }
            out.push(text::to_lower_char(c));
            assert(out@ =~= before + snake_piece(s@, i as int));
        }
        i += 1;
    }
    if len == 0 {
        out.push('_');
    }
    out
}

/// `s` holds no ASCII capital.
pub open spec fn no_capitals(s: Seq<char>) -> bool {
    forall|i: int| 0 <= i < s.len() ==> !text::is_upper(#[trigger] s[i])
}

/// `s` holds no two underscores in a row.
pub open spec fn no_double_underscore(s: Seq<char>) -> bool {
    forall|i: int| 0 < i < s.len() && #[trigger] s[i] == '_' ==> s[i - 1] != '_'
}

proof fn lemma_prefix_shape(s: Seq<char>, n: nat)
    requires
        n <= s.len(),
    ensures
        no_capitals(snake_prefix(s, n)),
        no_double_underscore(snake_prefix(s, n)),
    decreases n,
{
    if n > 0 {
        let p = snake_prefix(s, (n - 1) as nat);
        lemma_prefix_shape(s, (n - 1) as nat);
        if n > 1 {
            lemma_prefix_last(s, (n - 1) as nat);
        }
        let q = snake_piece(s, n - 1);
        let r = p + q;
        assert forall|i: int| 0 <= i < r.len() implies !text::is_upper(#[trigger] r[i]) by {
            if i < p.len() {
                assert(r[i] == p[i]);
            } else {
                assert(r[i] == q[i - p.len()]);
            }
        }
        assert forall|i: int| 0 < i < r.len() && #[trigger] r[i] == '_' implies r[i - 1] != '_' by {
            if i < p.len() {
                assert(p[i] == '_');
            } else if i == p.len() {
                assert(p.last() == text::lower_char(s[n - 2]));
            }
        }
    }
}

/// The snake-case form of any text is non-empty, holds no ASCII capital, and never has two
/// underscores in a row. That of the empty text is a single underscore.
pub proof fn law_snake_case_shape(s: Seq<char>)
    ensures
        s.len() == 0 ==> snake_case(s) == seq!['_'],
        snake_case(s).len() > 0,
        no_capitals(snake_case(s)),
        no_double_underscore(snake_case(s)),
{
    if s.len() > 0 {
        lemma_prefix_shape(s, s.len());
        lemma_prefix_last(s, s.len());
    }
}

proof fn lemma_prefix_of_snake(t: Seq<char>, n: nat)
    requires
        n <= t.len(),
        no_capitals(t),
        no_double_underscore(t),
    ensures
        snake_prefix(t, n) == t.take(n as int),
    decreases n,
{
    if n > 0 {
        lemma_prefix_of_snake(t, (n - 1) as nat);
        assert(!text::is_upper(t[n - 1]));
        assert(snake_piece(t, n - 1) == seq![t[n - 1]]);
        assert(t.take(n as int) =~= t.take(n - 1) + seq![t[n - 1]]);
    } else {
        assert(t.take(0) =~= Seq::empty());
    }
}

/// A name that is in snake case already stays as it is.
pub proof fn law_snake_case_idempotent(s: Seq<char>)
    ensures
        snake_case(snake_case(s)) == snake_case(s),
{
    let t = snake_case(s);
    law_snake_case_shape(s);
    lemma_prefix_of_snake(t, t.len());
    assert(t.take(t.len() as int) =~= t);
}

/// `s` without its underscores.
pub open spec fn without_underscores(s: Seq<char>) -> Seq<char>
    decreases s.len(),
{
    if s.len() == 0 {
        Seq::empty()
    } else {
        let rest = without_underscores(s.drop_last());
        if s.last() == '_' {
            rest
        } else {
            rest.push(s.last())
        }
    }
}

proof fn lemma_without_underscores_push(s: Seq<char>, c: char)
    ensures
        without_underscores(s.push(c)) == if c == '_' {
            without_underscores(s)
        } else {
            without_underscores(s).push(c)
        },
{
    assert(s.push(c).drop_last() =~= s);
}

proof fn lemma_prefix_letters(s: Seq<char>, n: nat)
    requires
        n <= s.len(),
    ensures
        without_underscores(snake_prefix(s, n)) == text::ascii_lowered(
            without_underscores(s.take(n as int)),
        ),
    decreases n,
{
    if n == 0 {
        assert(s.take(0) =~= Seq::empty());
        assert(text::ascii_lowered(without_underscores(s.take(0))) =~= Seq::empty());
    } else {
        let m = (n - 1) as nat;
        lemma_prefix_letters(s, m);
        let p = snake_prefix(s, m);
        let c = s[n - 1];
        let l = text::lower_char(c);
        assert(s.take(n as int) =~= s.take(n - 1).push(c));
        lemma_without_underscores_push(s.take(n - 1), c);
        lemma_without_underscores_push(p, l);
        lemma_without_underscores_push(p, '_');
        lemma_without_underscores_push(p.push('_'), l);
        assert(l == '_' <==> c == '_');
        if c == '_' && n > 1 && s[n - 2] == '_' {
            assert(snake_prefix(s, n) =~= p);
        } else if begins_word(s, n - 1) {
            assert(snake_prefix(s, n) =~= p.push('_').push(l));
        } else {
            assert(snake_prefix(s, n) =~= p.push(l));
        }
        if c != '_' {
            assert(text::ascii_lowered(without_underscores(s.take(n - 1)).push(c)) =~= text::ascii_lowered(
                without_underscores(s.take(n - 1)),
            ).push(l));
        }
    }
}

/// Up to underscores, the snake-case form of a text is the text in lower case: no letter or
/// digit is lost, added or moved.
pub proof fn law_snake_case_keeps_letters(s: Seq<char>)
    ensures
        without_underscores(snake_case(s)) == text::ascii_lowered(without_underscores(s)),
{
    lemma_prefix_letters(s, s.len());
    assert(s.take(s.len() as int) =~= s);
    if s.len() == 0 {
        lemma_without_underscores_push(Seq::empty(), '_');
        assert(seq!['_'] =~= Seq::<char>::empty().push('_'));
        assert(text::ascii_lowered(without_underscores(s)) =~= Seq::empty());
    }
}

/// The shape of an identifier in snake case: lower-case letters, digits and underscores, with
/// no digit in front. Only the shape is meant: a keyword such as `fn` has it, and so has a lone
/// underscore.
pub open spec fn is_snake_identifier(s: Seq<char>) -> bool {
    &&& s.len() > 0
    &&& !text::is_digit(s[0])
    &&& forall|i: int|
        0 <= i < s.len() ==> text::is_lower(#[trigger] s[i]) || text::is_digit(s[i]) || s[i] == '_'
}

/// A character that may stand in an icon's file stem.
pub open spec fn is_stem_char(c: char) -> bool {
    text::is_letter(c) || text::is_digit(c) || c == '_'
}

/// `stem` has the shape of a Rust identifier: it begins with an ASCII letter or `_`, and holds
/// only ASCII letters, digits and `_`. A keyword has that shape too.
pub open spec fn valid_stem(stem: Seq<char>) -> bool {
    &&& stem.len() > 0
    &&& !text::is_digit(stem[0])
    &&& forall|i: int| 0 <= i < stem.len() ==> is_stem_char(#[trigger] stem[i])
}

proof fn lemma_prefix_identifier(s: Seq<char>, n: nat)
    requires
        valid_stem(s),
        0 < n <= s.len(),
    ensures
        is_snake_identifier(snake_prefix(s, n)),
    decreases n,
{
    let p = snake_prefix(s, (n - 1) as nat);
    let q = snake_piece(s, n - 1);
    let r = p + q;
    assert(is_stem_char(s[n - 1]));
    if n > 1 {
        lemma_prefix_identifier(s, (n - 1) as nat);
        assert(r[0] == p[0]);
    } else {
        assert(r =~= q);
    }
    assert forall|i: int| 0 <= i < r.len() implies text::is_lower(#[trigger] r[i]) || text::is_digit(r[i])
        || r[i] == '_' by {
        if i < p.len() {
            assert(r[i] == p[i]);
        } else {
            assert(r[i] == q[i - p.len()]);
        }
    }
}

/// Every valid stem becomes a name with the shape of an identifier in snake case.
pub proof fn law_valid_stem_becomes_identifier(stem: Seq<char>)
    requires
        valid_stem(stem),
    ensures
        is_snake_identifier(snake_case(stem)),
{
    lemma_prefix_identifier(stem, stem.len());
}

/// What is wrong with a file stem.
#[derive(Clone, Copy, Debug, PartialEq, Eq, Structural)]
pub enum StemFault {
    /// The stem is empty.
    Empty,
    /// The stem begins with something other than an ASCII letter or `_`.
    Start,
    /// The stem holds something other than ASCII letters, digits and `_`.
    Character,
}

/// The fault that `stem` is rejected for, if any: emptiness first, then the first character,
/// then the others.
pub open spec fn stem_fault(stem: Seq<char>) -> Option<StemFault> {
    if stem.len() == 0 {
        Some(StemFault::Empty)
    } else if !(text::is_letter(stem[0]) || stem[0] == '_') {
        Some(StemFault::Start)
    } else if !(forall|i: int| 0 <= i < stem.len() ==> is_stem_char(#[trigger] stem[i])) {
        Some(StemFault::Character)
    } else {
        None
    }
}

/// Verify that `stem` can be turned into a name with the shape of a Rust identifier.
pub fn validate_stem(stem: &str) -> (r: Result<(), StemFault>)
    ensures
        r == (match stem_fault(stem@) {
            Some(fault) => Err::<(), StemFault>(fault),
            None => Ok(()),
        }),
        r is Ok <==> valid_stem(stem@),
{
    let chars: Vec<char> = text::chars_of(stem);
    if chars.len() == 0 {
        return Err(StemFault::Empty);
    }
    let first: char = chars[0];
    if !(text::is_ascii_upper(first) || text::is_ascii_lower(first) || first == '_') {
        assert(valid_stem(stem@) ==> is_stem_char(stem@[0]));
        return Err(StemFault::Start);
    }
    let mut i: usize = 0;
    while i < chars.len()
        invariant
            i <= chars.len(),
            chars@ == stem@,
            stem@.len() > 0,
            text::is_letter(stem@[0]) || stem@[0] == '_',
            forall|k: int| 0 <= k < i ==> is_stem_char(#[trigger] stem@[k]),
        decreases chars.len() - i,
    {
        let c: char = chars[i];
        if !(text::is_ascii_upper(c) || text::is_ascii_lower(c) || text::is_ascii_digit(c) || c == '_') {
            assert(!is_stem_char(stem@[i as int]));
            return Err(StemFault::Character);
        }
        i += 1;
    }
    Ok(())
}

/// Where each character of a text stands in its snake-case form. The result says for each
/// position of `s` the position in the name that stands for it.
///
/// - Each character stands there in lower case, and otherwise unchanged.
/// - The first one stands in front, and the last one at the end: nothing comes before, behind
///   or between but what is said here.
/// - An underscore that follows another one has no place of its own.
/// - Directly before a capital, and nowhere else, stands an added underscore where the capital
///   follows a lower-case letter or a digit, or where it follows a capital and a lower-case
///   letter follows it.
pub proof fn law_snake_case_by_position(s: Seq<char>) -> (at: Seq<int>)
    requires
        s.len() > 0,
    ensures
        at.len() == s.len(),
        at[0] == 0,
        snake_case(s).len() == at[s.len() - 1] + 1,
        forall|i: int| 0 <= i < s.len() ==> 0 <= #[trigger] at[i] < snake_case(s).len(),
        forall|i: int|
            0 <= i < s.len() && 'A' <= s[i] <= 'Z' ==> snake_case(s)[#[trigger] at[i]] as u32
                == s[i] as u32 + 32,
        forall|i: int|
            0 <= i < s.len() && !('A' <= s[i] <= 'Z') ==> snake_case(s)[#[trigger] at[i]] == s[i],
        forall|i: int|
            0 < i < s.len() && 'A' <= s[i] <= 'Z' && ('a' <= s[i - 1] <= 'z' || '0' <= s[i - 1]
                <= '9' || ('A' <= s[i - 1] <= 'Z' && i + 1 < s.len() && 'a' <= s[i + 1] <= 'z'))
                ==> (#[trigger] at[i]) == at[i - 1] + 2 && snake_case(s)[at[i] - 1] == '_',
        forall|i: int|
            0 < i < s.len() && s[i] == '_' && s[i - 1] == '_' ==> (#[trigger] at[i]) == at[i - 1],
        forall|i: int|
            0 < i < s.len() && !(s[i] == '_' && s[i - 1] == '_') && !('A' <= s[i] <= 'Z' && ('a'
                <= s[i - 1] <= 'z' || '0' <= s[i - 1] <= '9' || ('A' <= s[i - 1] <= 'Z' && i + 1
                < s.len() && 'a' <= s[i + 1] <= 'z'))) ==> (#[trigger] at[i]) == at[i - 1] + 1,
{
    let at = Seq::new(s.len(), |i: int| snake_prefix(s, (i + 1) as nat).len() - 1);
    let out = snake_prefix(s, s.len());
    assert(snake_prefix(s, 0).len() == 0);
    assert forall|i: int| 0 <= i < s.len() implies {
        &&& 0 <= #[trigger] at[i] < out.len()
        &&& out[at[i]] == text::lower_char(s[i])
        &&& at[i] + 1 == snake_prefix(s, i as nat).len() + snake_piece(s, i).len()
        &&& snake_piece(s, i).len() == 2 ==> out[at[i] - 1] == '_'
    } by {
        lemma_prefix_last(s, (i + 1) as nat);
        lemma_prefix_extends(s, (i + 1) as nat, s.len());
        let p = snake_prefix(s, (i + 1) as nat);
        assert(out[at[i]] == p[at[i]]);
        if snake_piece(s, i).len() == 2 {
            assert(out[at[i] - 1] == p[at[i] - 1]);
        }
    }
    at
}

/// A longer prefix begins with a shorter one.
proof fn lemma_prefix_extends(s: Seq<char>, n: nat, m: nat)
    requires
        n <= m,
    ensures
        snake_prefix(s, n).len() <= snake_prefix(s, m).len(),
        forall|k: int|
            0 <= k < snake_prefix(s, n).len() ==> #[trigger] snake_prefix(s, m)[k]
                == snake_prefix(s, n)[k],
    decreases m,
{
    if n < m {
        lemma_prefix_extends(s, n, (m - 1) as nat);
    }
}

/// What is wrong with a stem, by its characters: nothing in it, a first character that is no
/// ASCII letter and no underscore, or, behind a good first one, a character that is no ASCII
/// letter, no digit and no underscore. Every other stem is valid.
pub proof fn law_stem_faults_by_character(stem: Seq<char>)
    ensures
        stem_fault(stem) == Some(StemFault::Empty) <==> stem.len() == 0,
        stem_fault(stem) == Some(StemFault::Start) <==> stem.len() > 0 && !('A' <= stem[0] <= 'Z'
            || 'a' <= stem[0] <= 'z' || stem[0] == '_'),
        stem_fault(stem) == Some(StemFault::Character) <==> stem.len() > 0 && ('A' <= stem[0]
            <= 'Z' || 'a' <= stem[0] <= 'z' || stem[0] == '_') && exists|i: int|
            0 <= i < stem.len() && !('A' <= #[trigger] stem[i] <= 'Z' || 'a' <= stem[i] <= 'z'
                || '0' <= stem[i] <= '9' || stem[i] == '_'),
        valid_stem(stem) <==> stem_fault(stem) is None,
{
    if stem.len() > 0 {
        assert(valid_stem(stem) ==> is_stem_char(stem[0]));
        if exists|i: int|
            0 <= i < stem.len() && !('A' <= #[trigger] stem[i] <= 'Z' || 'a' <= stem[i] <= 'z'
                || '0' <= stem[i] <= '9' || stem[i] == '_') {
            let i = choose|i: int|
                0 <= i < stem.len() && !('A' <= #[trigger] stem[i] <= 'Z' || 'a' <= stem[i] <= 'z'
                    || '0' <= stem[i] <= '9' || stem[i] == '_');
            assert(!is_stem_char(stem[i]));
        }
        if !(forall|i: int| 0 <= i < stem.len() ==> is_stem_char(#[trigger] stem[i])) {
            let i = choose|i: int| 0 <= i < stem.len() && !is_stem_char(#[trigger] stem[i]);
            assert(!('A' <= stem[i] <= 'Z' || 'a' <= stem[i] <= 'z' || '0' <= stem[i] <= '9'
                || stem[i] == '_'));
        }
    }
}

}
