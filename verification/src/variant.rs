//! The variants that an icon comes in. A file stem ends with the name of its variant.

use vstd::prelude::*;

use crate::catalogue::{EntryView, McpIconEntry};
use crate::naming;
use crate::text;

verus! {

/// A variant of an icon.
#[derive(Clone, Copy, Debug, PartialEq, Eq, Structural)]
pub enum Variant {
    /// Solid style.
    Filled,
    /// Multicolour style.
    Color,
    /// Outline style.
    Regular,
    /// Outline style with a thinner stroke.
    Light,
}

/// The name of a variant, with which the stems of its files end.
pub open spec fn variant_name(variant: Variant) -> Seq<char> {
    match variant {
        Variant::Filled => "Filled"@,
        Variant::Color => "Color"@,
        Variant::Regular => "Regular"@,
        Variant::Light => "Light"@,
    }
}

/// `s` ends with `suffix`.
pub open spec fn ends_with(s: Seq<char>, suffix: Seq<char>) -> bool {
    text::occurs_at(s, suffix, s.len() - suffix.len())
}

/// The variant whose name ends `stem`, if any.
pub open spec fn variant_of(stem: Seq<char>) -> Option<Variant> {
    if ends_with(stem, "Filled"@) {
        Some(Variant::Filled)
    } else if ends_with(stem, "Color"@) {
        Some(Variant::Color)
    } else if ends_with(stem, "Regular"@) {
        Some(Variant::Regular)
    } else if ends_with(stem, "Light"@) {
        Some(Variant::Light)
    } else {
        None
    }
}

/// Decides [`ends_with`].
pub fn has_suffix(s: &str, suffix: &str) -> (r: bool)
    ensures
        r == ends_with(s@, suffix@),
{
    let x: Vec<char> = text::chars_of(s);
    let y: Vec<char> = text::chars_of(suffix);
    if y.len() > x.len() {
        return false;
    }
    text::stands_at(&x, &y, x.len() - y.len())
}

/// The name of a variant.
pub fn name_of(variant: Variant) -> (r: &'static str)
    ensures
        r@ == variant_name(variant),
{
    match variant {
        Variant::Filled => "Filled",
        Variant::Color => "Color",
        Variant::Regular => "Regular",
        Variant::Light => "Light",
    }
}

/// Finds the variant whose name ends `stem`.
pub fn find_variant(stem: &str) -> (r: Option<Variant>)
    ensures
        r == variant_of(stem@),
{
    if has_suffix(stem, "Filled") {
        Some(Variant::Filled)
    } else if has_suffix(stem, "Color") {
        Some(Variant::Color)
    } else if has_suffix(stem, "Regular") {
        Some(Variant::Regular)
    } else if has_suffix(stem, "Light") {
        Some(Variant::Light)
    } else {
        None
    }
}

/// The catalogue's entry for a file stem: its function name, its variant and its base name,
/// which is the stem without the variant. A stem that ends with no variant's name is its own
/// base name, and has no variant.
pub open spec fn entry_of(stem: Seq<char>) -> EntryView {
    let suffix = match variant_of(stem) {
        Some(variant) => variant_name(variant),
        None => Seq::empty(),
    };
    EntryView {
        fn_name: naming::snake_case(stem),
        variant: suffix,
        base_name: stem.take(stem.len() - suffix.len()),
    }
}

/// The text of the first `n` characters.
fn text_of_first(chars: &Vec<char>, n: usize) -> (r: String)
    requires
        n <= chars.len(),
    ensures
        r@ == chars@.take(n as int),
{
    let mut r: String = String::new();
    let mut i: usize = 0;
    while i < n
        invariant
            i <= n <= chars.len(),
            r@ =~= chars@.take(i as int),
        decreases n - i,
    {
        r.push(chars[i]);
        i += 1;
    }
    r
}

/// Makes the catalogue's entry for a file stem.
pub fn catalogue_entry(stem: &str) -> (r: McpIconEntry)
    ensures
        r@ == entry_of(stem@),
{
    let suffix: &str = match find_variant(stem) {
        Some(variant) => name_of(variant),
        None => "",
    };
    proof {
        reveal_strlit("");
        assert(""@ =~= Seq::empty());
    }
    let chars: Vec<char> = text::chars_of(stem);
    let suffix_len: usize = text::chars_of(suffix).len();
    McpIconEntry {
        fn_name: naming::to_snake_case(stem),
        variant: suffix.to_owned(),
        base_name: text_of_first(&chars, chars.len() - suffix_len),
    }
}

/// The first letter of a variant's name is a capital, and the others are lower-case letters.
proof fn lemma_variant_name_shape(variant: Variant)
    ensures
        variant_name(variant).len() > 1,
        text::is_upper(variant_name(variant)[0]),
        forall|i: int|
            0 < i < variant_name(variant).len() ==> text::is_lower(
                #[trigger] variant_name(variant)[i],
            ),
{
    reveal_strlit("Filled");
    reveal_strlit("Color");
    reveal_strlit("Regular");
    reveal_strlit("Light");
    let name = variant_name(variant);
    match variant {
        Variant::Filled => {
            assert(name.len() == 6);
            assert(name[0] == 'F' && name[1] == 'i' && name[2] == 'l' && name[3] == 'l' && name[4]
                == 'e' && name[5] == 'd');
        },
        Variant::Color => {
            assert(name.len() == 5);
            assert(name[0] == 'C' && name[1] == 'o' && name[2] == 'l' && name[3] == 'o' && name[4]
                == 'r');
        },
        Variant::Regular => {
            assert(name.len() == 7);
            assert(name[0] == 'R' && name[1] == 'e' && name[2] == 'g' && name[3] == 'u' && name[4]
                == 'l' && name[5] == 'a' && name[6] == 'r');
        },
        Variant::Light => {
            assert(name.len() == 5);
            assert(name[0] == 'L' && name[1] == 'i' && name[2] == 'g' && name[3] == 'h' && name[4]
                == 't');
        },
    }
}

/// The contributions of a capital and the lower-case letters behind it, up to position `n`.
pub proof fn lemma_word_prefix(s: Seq<char>, start: nat, n: nat)
    requires
        start < n <= s.len(),
        text::is_upper(s[start as int]),
        forall|i: int| start < i < n ==> text::is_lower(#[trigger] s[i]),
    ensures
        naming::snake_prefix(s, n) == naming::snake_prefix(s, start) + naming::snake_piece(
            s,
            start as int,
        ) + s.subrange(start + 1int, n as int),
    decreases n,
{
    if n == start + 1 {
        assert(s.subrange(start + 1int, n as int) =~= Seq::empty());
        assert(naming::snake_prefix(s, start) + naming::snake_piece(s, start as int)
            + s.subrange(start + 1int, n as int) =~= naming::snake_prefix(s, n));
    } else {
        let m = (n - 1) as nat;
        lemma_word_prefix(s, start, m);
        assert(text::is_lower(s[n - 1]));
        assert(naming::snake_piece(s, n - 1) == seq![s[n - 1]]);
        assert(s.subrange(start + 1int, n as int) =~= s.subrange(start + 1int, m as int) + seq![
            s[n - 1],
        ]);
        assert(naming::snake_prefix(s, n) =~= naming::snake_prefix(s, start) + naming::snake_piece(
            s,
            start as int,
        ) + s.subrange(start + 1int, n as int));
    }
}

/// The function name of an icon ends with an underscore and the name of its variant in lower
/// case, such as `_filled`, for every valid stem that is more than the variant's name alone.
pub proof fn law_function_names_end_with_the_variant(base: Seq<char>, variant: Variant)
    requires
        base.len() > 0,
        naming::valid_stem(base + variant_name(variant)),
    ensures
        ends_with(
            naming::snake_case(base + variant_name(variant)),
            seq!['_'] + text::ascii_lowered(variant_name(variant)),
        ),
{
    let name = variant_name(variant);
    let s = base + name;
    let b = base.len();
    lemma_variant_name_shape(variant);
    assert(s[b as int] == name[0]);
    assert forall|i: int| b < i < s.len() implies text::is_lower(#[trigger] s[i]) by {
        assert(s[i] == name[i - b]);
    }
    lemma_word_prefix(s, b, s.len());
    let front = naming::snake_prefix(s, b);
    let rest = s.subrange(b + 1int, s.len() as int);
    let first = text::lower_char(name[0]);
    let tail = seq!['_'] + text::ascii_lowered(name);
    assert(text::ascii_lowered(name) =~= seq![first] + rest) by {
        assert forall|i: int| 0 < i < name.len() implies text::lower_char(name[i]) == rest[i
            - 1] by {
            assert(text::is_lower(name[i]));
            assert(rest[i - 1] == s[b + i]);
        }
    }
    assert(naming::is_stem_char(s[b - 1]));
    assert(text::is_lower(s[b + 1int]));
    let out = naming::snake_case(s);
    if s[b - 1] == '_' {
        naming::lemma_prefix_last(s, b);
        assert(!naming::begins_word(s, b as int));
        assert(front.last() == '_');
        assert(front =~= front.drop_last() + seq!['_']);
        assert(out =~= front.drop_last() + tail);
    } else {
        assert(naming::begins_word(s, b as int));
        assert(out =~= front + tail);
    }
    assert(out.subrange(out.len() - tail.len(), out.len() as int) =~= tail);
}

/// Of a stem that ends with the name of a variant, the base name and the variant together are
/// the stem.
pub proof fn law_base_name_and_variant_make_the_stem(stem: Seq<char>)
    ensures
        entry_of(stem).base_name + entry_of(stem).variant == stem,
{
    let e = entry_of(stem);
    if variant_of(stem) is Some {
        let name = variant_name(variant_of(stem)->0);
        assert(stem.subrange(stem.len() - name.len(), stem.len() as int) == name);
    }
    assert(e.base_name + e.variant =~= stem);
}

/// A stem has a variant exactly if it ends with that variant's name: whatever stands before
/// the name, the variant is found, and nothing else makes a variant.
pub proof fn law_variants_are_suffixes(base: Seq<char>, stem: Seq<char>)
    ensures
        variant_of(base + "Filled"@) == Some(Variant::Filled),
        variant_of(base + "Color"@) == Some(Variant::Color),
        variant_of(base + "Regular"@) == Some(Variant::Regular),
        variant_of(base + "Light"@) == Some(Variant::Light),
        variant_of(stem) == Some(Variant::Filled) ==> stem == entry_of(stem).base_name
            + "Filled"@,
        variant_of(stem) == Some(Variant::Color) ==> stem == entry_of(stem).base_name + "Color"@,
        variant_of(stem) == Some(Variant::Regular) ==> stem == entry_of(stem).base_name
            + "Regular"@,
        variant_of(stem) == Some(Variant::Light) ==> stem == entry_of(stem).base_name + "Light"@,
{
    law_base_name_and_variant_make_the_stem(stem);
    law_ends_stand_behind_the_rest(base, stem, "Filled"@);
    law_ends_stand_behind_the_rest(base, stem, "Color"@);
    law_ends_stand_behind_the_rest(base, stem, "Regular"@);
    law_ends_stand_behind_the_rest(base, stem, "Light"@);
    reveal_strlit("Filled");
    reveal_strlit("Color");
    reveal_strlit("Regular");
    reveal_strlit("Light");
    let color = base + "Color"@;
    let regular = base + "Regular"@;
    let light = base + "Light"@;
    assert(color.last() == 'r' && color[color.len() - 2] == 'o');
    assert(regular.last() == 'r' && regular[regular.len() - 2] == 'a');
    assert(light.last() == 't');
    lemma_last_two(color, "Filled"@);
    lemma_last_two(regular, "Filled"@);
    lemma_last_two(regular, "Color"@);
    lemma_last_two(light, "Filled"@);
    lemma_last_two(light, "Color"@);
    lemma_last_two(light, "Regular"@);
}

/// A text ends with another exactly if it is something with that other text behind it.
pub proof fn law_ends_stand_behind_the_rest(front: Seq<char>, s: Seq<char>, suffix: Seq<char>)
    ensures
        ends_with(front + suffix, suffix),
        ends_with(s, suffix) ==> s.len() >= suffix.len() && s == s.take(s.len() - suffix.len())
            + suffix,
{
    let t = front + suffix;
    assert(t.subrange(t.len() - suffix.len(), t.len() as int) =~= suffix);
    if ends_with(s, suffix) {
        assert(s =~= s.take(s.len() - suffix.len()) + s.subrange(
            s.len() - suffix.len(),
            s.len() as int,
        ));
    }
}

/// A text that ends with another has its last two characters.
proof fn lemma_last_two(s: Seq<char>, suffix: Seq<char>)
    requires
        suffix.len() >= 2,
    ensures
        ends_with(s, suffix) ==> s.last() == suffix.last() && s[s.len() - 2]
            == suffix[suffix.len() - 2],
{
    if ends_with(s, suffix) {
        let tail = s.subrange(s.len() - suffix.len(), s.len() as int);
        assert(tail.last() == s.last());
        assert(tail[suffix.len() - 2] == s[s.len() - 2]);
    }
}

/// The catalogue's entry for a file: its function is the snake-case form of the whole stem, its
/// variant is the name that the stem ends with, and its base name is what stands before.
pub proof fn law_entries_split_the_stem(base: Seq<char>, stem: Seq<char>)
    ensures
        entry_of(base + "Filled"@) == (EntryView {
            fn_name: naming::snake_case(base + "Filled"@),
            variant: "Filled"@,
            base_name: base,
        }),
        entry_of(base + "Color"@) == (EntryView {
            fn_name: naming::snake_case(base + "Color"@),
            variant: "Color"@,
            base_name: base,
        }),
        entry_of(base + "Regular"@) == (EntryView {
            fn_name: naming::snake_case(base + "Regular"@),
            variant: "Regular"@,
            base_name: base,
        }),
        entry_of(base + "Light"@) == (EntryView {
            fn_name: naming::snake_case(base + "Light"@),
            variant: "Light"@,
            base_name: base,
        }),
        variant_of(stem) is None ==> entry_of(stem) == (EntryView {
            fn_name: naming::snake_case(stem),
            variant: Seq::empty(),
            base_name: stem,
        }),
{
    law_variants_are_suffixes(base, stem);
    assert((base + "Filled"@).take(base.len() as int) =~= base);
    assert((base + "Color"@).take(base.len() as int) =~= base);
    assert((base + "Regular"@).take(base.len() as int) =~= base);
    assert((base + "Light"@).take(base.len() as int) =~= base);
    assert(stem.take(stem.len() as int) =~= stem);
}

}
