//! The icon catalogue: its entries, and how many there are of each variant.

use vstd::prelude::*;

use crate::text;

verus! {

/// One icon of the catalogue.
#[derive(Debug)]
pub struct McpIconEntry {
    /// The name of the icon's function, such as `dismiss_filled`.
    pub fn_name: String,
    /// The icon's variant, such as `Filled`.
    pub variant: String,
    /// The icon's name without its variant, such as `Dismiss`.
    pub base_name: String,
}

/// An icon of the catalogue, as text.
pub struct EntryView {
    pub fn_name: Seq<char>,
    pub variant: Seq<char>,
    pub base_name: Seq<char>,
}

impl View for McpIconEntry {
    type V = EntryView;

    open spec fn view(&self) -> EntryView {
        EntryView {
            fn_name: self.fn_name@,
            variant: self.variant@,
            base_name: self.base_name@,
        }
    }
}

/// The icons of a catalogue, as text.
pub open spec fn catalogue_view(icons: Seq<McpIconEntry>) -> Seq<EntryView> {
    icons.map_values(|icon: McpIconEntry| icon@)
}

/// How many of the icons have the given variant.
pub open spec fn variant_count(icons: Seq<EntryView>, variant: Seq<char>) -> nat
    decreases icons.len(),
{
    if icons.len() == 0 {
        0
    } else {
        variant_count(icons.drop_last(), variant) + if icons.last().variant == variant {
            1nat
        } else {
            0
        }
    }
}

/// The four variant names differ from one another.
proof fn lemma_variants_differ()
    ensures
        "Filled"@ != "Color"@,
        "Filled"@ != "Regular"@,
        "Filled"@ != "Light"@,
        "Color"@ != "Regular"@,
        "Color"@ != "Light"@,
        "Regular"@ != "Light"@,
{
    reveal_strlit("Filled");
    reveal_strlit("Color");
    reveal_strlit("Regular");
    reveal_strlit("Light");
    assert("Filled"@.len() == 6 && "Color"@.len() == 5);
    assert("Regular"@.len() == 7 && "Light"@.len() == 5);
    assert("Color"@[0] != "Light"@[0]);
}

/// The number of filled, colour, regular and light icons of the catalogue.
pub fn variant_counts(icons: &Vec<McpIconEntry>) -> (r: (usize, usize, usize, usize))
    ensures
        r.0 == variant_count(catalogue_view(icons@), "Filled"@),
        r.1 == variant_count(catalogue_view(icons@), "Color"@),
        r.2 == variant_count(catalogue_view(icons@), "Regular"@),
        r.3 == variant_count(catalogue_view(icons@), "Light"@),
{
    let mut filled: usize = 0;
    let mut color: usize = 0;
    let mut regular: usize = 0;
    let mut light: usize = 0;
    let ghost all = catalogue_view(icons@);
    let mut i: usize = 0;
    proof {
        lemma_variants_differ();
    }
    assert(all.take(0) =~= Seq::empty());
    while i < icons.len()
        invariant
            all == catalogue_view(icons@),
            i <= icons.len(),
            filled <= i,
            color <= i,
            regular <= i,
            light <= i,
            filled == variant_count(all.take(i as int), "Filled"@),
            color == variant_count(all.take(i as int), "Color"@),
            regular == variant_count(all.take(i as int), "Regular"@),
            light == variant_count(all.take(i as int), "Light"@),
            "Filled"@ != "Color"@,
            "Filled"@ != "Regular"@,
            "Filled"@ != "Light"@,
            "Color"@ != "Regular"@,
            "Color"@ != "Light"@,
            "Regular"@ != "Light"@,
        decreases icons.len() - i,
    {
        let variant: &str = icons[i].variant.as_str();
        assert(all.take(i + 1).drop_last() =~= all.take(i as int));
        assert(all.take(i + 1).last().variant == variant@);
        if text::same_text(variant, "Filled") {
            filled += 1;
        } else if text::same_text(variant, "Color") {
            color += 1;
        } else if text::same_text(variant, "Regular") {
            regular += 1;
        } else if text::same_text(variant, "Light") {
            light += 1;
        }
        i += 1;
    }
    assert(all.take(icons.len() as int) =~= all);
    (filled, color, regular, light)
}

/// No icon is counted under two variants: the four counts together are at most the number of
/// icons.
pub proof fn law_variant_counts_disjoint(icons: Seq<EntryView>)
    ensures
        variant_count(icons, "Filled"@) + variant_count(icons, "Color"@) + variant_count(
            icons,
            "Regular"@,
        ) + variant_count(icons, "Light"@) <= icons.len(),
    decreases icons.len(),
{
    lemma_variants_differ();
    if icons.len() > 0 {
        law_variant_counts_disjoint(icons.drop_last());
    }
}

/// Counting goes icon by icon: an icon adds one to the count of its own variant and nothing to
/// that of another.
pub proof fn law_each_icon_counts_once(icons: Seq<EntryView>, icon: EntryView, variant: Seq<char>)
    ensures
        variant_count(Seq::empty(), variant) == 0,
        icon.variant == variant ==> variant_count(icons.push(icon), variant) == variant_count(
            icons,
            variant,
        ) + 1,
        icon.variant != variant ==> variant_count(icons.push(icon), variant) == variant_count(
            icons,
            variant,
        ),
{
    assert(icons.push(icon).drop_last() =~= icons);
}

}
