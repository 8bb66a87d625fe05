//! Searching the icon catalogue, and the texts that answer a search.

use vstd::prelude::*;

use crate::catalogue;
use crate::catalogue::{EntryView, McpIconEntry};
use crate::text;

verus! {

/// The lower-case form that `str::to_lowercase` gives a text.
pub uninterp spec fn lowercased(s: Seq<char>) -> Seq<char>;

/// `str::to_lowercase`: the text in lower case, by Unicode's rules. On ASCII text these are
/// the mapping of `A` to `Z` to `a` to `z`.
#[verifier::external_body]
pub(crate) fn to_lowercase(s: &str) -> (r: String)
    ensures
        r@ == lowercased(s@),
        text::all_ascii(s@) ==> r@ == text::ascii_lowered(s@),
{
    s.to_lowercase()
}

/// The lower-case base names of the icons, in order.
pub open spec fn lowered_bases(icons: Seq<EntryView>) -> Seq<Seq<char>> {
    icons.map_values(|icon: EntryView| lowercased(icon.base_name))
}

/// The texts of strings.
pub open spec fn strings_view(strings: Seq<String>) -> Seq<Seq<char>> {
    strings.map_values(|s: String| s@)
}

/// The icons behind references.
pub open spec fn refs_view(icons: Seq<&McpIconEntry>) -> Seq<EntryView> {
    icons.map_values(|icon: &McpIconEntry| icon@)
}

/// Computes the lower-case base names of the icons.
pub fn lower_base_names(icons: &Vec<McpIconEntry>) -> (r: Vec<String>)
    ensures
        strings_view(r@) == lowered_bases(catalogue::catalogue_view(icons@)),
        forall|i: int|
            0 <= i < r@.len() && text::all_ascii(icons@[i].base_name@) ==> #[trigger] r@[i]@
                == text::ascii_lowered(icons@[i].base_name@),
{
    let ghost all = lowered_bases(catalogue::catalogue_view(icons@));
    let mut r: Vec<String> = Vec::new();
    let mut i: usize = 0;
    while i < icons.len()
        invariant
            all == lowered_bases(catalogue::catalogue_view(icons@)),
            i <= icons.len(),
            strings_view(r@) =~= all.take(i as int),
            r.len() == i,
            forall|k: int|
                0 <= k < i && text::all_ascii(icons@[k].base_name@) ==> #[trigger] r@[k]@
                    == text::ascii_lowered(icons@[k].base_name@),
        decreases icons.len() - i,
    {
        let ghost before = strings_view(r@);
        r.push(to_lowercase(icons[i].base_name.as_str()));
        assert(strings_view(r@) =~= before.push(all[i as int]));
        i += 1;
    }
    assert(all.take(icons.len() as int) =~= all);
    r
}

/// An icon is listed: it has the asked variant, whatever the case of its letters, and its
/// function name or its lower-case base name holds the asked text.
pub open spec fn is_listed(
    icon: EntryView,
    base_lower: Seq<char>,
    variant: Option<Seq<char>>,
    query: Option<Seq<char>>,
) -> bool {
    &&& (variant matches Some(v) ==> text::ascii_lowered(icon.variant) == text::ascii_lowered(v))
    &&& (query matches Some(q) ==> text::has_substring(icon.fn_name, q) || text::has_substring(
        base_lower,
        q,
    ))
}

/// The listed icons, in the order of the catalogue.
pub open spec fn listed(
    icons: Seq<EntryView>,
    lowered: Seq<Seq<char>>,
    variant: Option<Seq<char>>,
    query: Option<Seq<char>>,
) -> Seq<EntryView>
    decreases icons.len(),
{
    if icons.len() == 0 {
        Seq::empty()
    } else {
        let rest = listed(icons.drop_last(), lowered, variant, query);
        if is_listed(icons.last(), lowered[icons.len() - 1], variant, query) {
            rest.push(icons.last())
        } else {
            rest
        }
    }
}

/// The text of an optional string.
pub open spec fn optional_view(s: Option<&str>) -> Option<Seq<char>> {
    match s {
        Some(t) => Some(t@),
        None => None,
    }
}

/// Decides [`is_listed`].
fn check_listed(
    icon: &McpIconEntry,
    base_lower: &str,
    variant: Option<&str>,
    query: Option<&str>,
) -> (r: bool)
    ensures
        r == is_listed(icon@, base_lower@, optional_view(variant), optional_view(query)),
{
    if let Some(v) = variant {
        if !text::same_ignoring_ascii_case(icon.variant.as_str(), v) {
            return false;
        }
    }
    if let Some(q) = query {
        if !text::contains_text(icon.fn_name.as_str(), q) && !text::contains_text(base_lower, q) {
            return false;
        }
    }
    true
}

/// Collects the listed icons.
pub fn list_matches<'a>(
    icons: &'a Vec<McpIconEntry>,
    lowered: &Vec<String>,
    variant: Option<&str>,
    query: Option<&str>,
) -> (r: Vec<&'a McpIconEntry>)
    requires
        lowered.len() == icons.len(),
    ensures
        refs_view(r@) == listed(
            catalogue::catalogue_view(icons@),
            strings_view(lowered@),
            optional_view(variant),
            optional_view(query),
        ),
{
    let ghost all = catalogue::catalogue_view(icons@);
    let ghost low = strings_view(lowered@);
    let ghost v = optional_view(variant);
    let ghost q = optional_view(query);
    let mut r: Vec<&'a McpIconEntry> = Vec::new();
    let mut i: usize = 0;
    assert(all.take(0) =~= Seq::empty());
    while i < icons.len()
        invariant
            all == catalogue::catalogue_view(icons@),
            low == strings_view(lowered@),
            v == optional_view(variant),
            q == optional_view(query),
            lowered.len() == icons.len(),
            i <= icons.len(),
            refs_view(r@) =~= listed(all.take(i as int), low, v, q),
        decreases icons.len() - i,
    {
        let ghost before = r@;
        assert(all.take(i + 1).drop_last() =~= all.take(i as int));
        assert(all.take(i + 1).last() == icons@[i as int]@);
        assert(low[i as int] == lowered@[i as int]@);
        if check_listed(&icons[i], lowered[i].as_str(), variant, query) {
            r.push(&icons[i]);
            assert(refs_view(r@) =~= refs_view(before).push(icons@[i as int]@));
        }
        i += 1;
    }
    assert(all.take(icons.len() as int) =~= all);
    r
}

/// The smaller of two numbers.
pub open spec fn smaller(a: nat, b: nat) -> nat {
    if a < b {
        a
    } else {
        b
    }
}

/// The page of at most `limit` icons that begins behind the first `offset` ones.
pub open spec fn page(icons: Seq<EntryView>, offset: nat, limit: nat) -> Seq<EntryView> {
    icons.subrange(
        smaller(offset, icons.len()) as int,
        smaller(offset + limit, icons.len()) as int,
    )
}

/// One line of the table for each icon.
pub open spec fn rows_text(icons: Seq<EntryView>) -> Seq<char>
    decreases icons.len(),
{
    if icons.len() == 0 {
        Seq::empty()
    } else {
        rows_text(icons.drop_last()) + row_text(icons.last())
    }
}

/// The line of the table for one icon.
pub open spec fn row_text(icon: EntryView) -> Seq<char> {
    "`"@ + icon.fn_name + "` | "@ + icon.variant + " | "@ + icon.base_name + "\n"@
}

/// The line above the table: how much of how many is shown.
pub open spec fn list_head(shown: nat, total: nat, offset: nat, limit: nat) -> Seq<char> {
    "Showing "@ + text::decimal(shown) + "/"@ + text::decimal(total) + " icons (offset="@
        + text::decimal(offset) + ", limit="@ + text::decimal(limit) + ")\n\n"@
}

/// The line under the table: how many icons are left, and where the next page begins. There is
/// none where the page reaches the end.
pub open spec fn list_tail(total: nat, next: nat) -> Seq<char> {
    if next < total {
        "\n*"@ + text::decimal((total - next) as nat)
            + " more icons not shown. Fetch next page with `offset="@ + text::decimal(next)
            + "`.*\n"@
    } else {
        Seq::empty()
    }
}

/// The answer that shows one page of the listed icons.
pub open spec fn list_text(icons: Seq<EntryView>, offset: nat, limit: nat) -> Seq<char> {
    let shown = page(icons, offset, limit);
    let head = list_head(shown.len(), icons.len(), offset, limit);
    if icons.len() == 0 {
        head + "No icons matched your query.\n"@
    } else {
        head + "fn_name | variant | base_name\n"@ + "--- | --- | ---\n"@ + rows_text(shown)
            + list_tail(icons.len(), offset + shown.len())
    }
}

/// Writes the answer that shows one page of the listed icons. The lower-case base names of the
/// icons come with them.
pub fn list_page(
    icons: &Vec<McpIconEntry>,
    lowered: &Vec<String>,
    variant: Option<&str>,
    query: Option<&str>,
    offset: usize,
    limit: usize,
) -> (r: String)
    requires
        lowered.len() == icons.len(),
    ensures
        r@ == list_text(
            listed(
                catalogue::catalogue_view(icons@),
                strings_view(lowered@),
                optional_view(variant),
                optional_view(query),
            ),
            offset as nat,
            limit as nat,
        ),
{
    let found: Vec<&McpIconEntry> = list_matches(icons, lowered, variant, query);
    let ghost all = refs_view(found@);
    let total: usize = found.len();
    let start: usize = if offset < total {
        offset
    } else {
        total
    };
    let end: usize = if limit < total - start {
        start + limit
    } else {
        total
    };
    let ghost shown = page(all, offset as nat, limit as nat);
    assert(shown.len() == end - start);
    let mut out: String = String::new();
    out.append("Showing ");
    out.append(text::decimal_text(end - start).as_str());
    out.append("/");
    out.append(text::decimal_text(total).as_str());
    out.append(" icons (offset=");
    out.append(text::decimal_text(offset).as_str());
    out.append(", limit=");
    out.append(text::decimal_text(limit).as_str());
    out.append(")\n\n");
    let ghost head = list_head(shown.len(), all.len(), offset as nat, limit as nat);
    assert(out@ =~= head);
    if total == 0 {
        out.append("No icons matched your query.\n");
        return out;
    }
    out.append("fn_name | variant | base_name\n");
    out.append("--- | --- | ---\n");
    let ghost table = out@;
    let mut i: usize = start;
    assert(shown.take(0) =~= Seq::empty());
    while i < end
        invariant
            all == refs_view(found@),
            start <= i <= end <= found.len(),
            shown == all.subrange(start as int, end as int),
            out@ =~= table + rows_text(shown.take(i - start)),
        decreases end - i,
    {
        let icon: &McpIconEntry = found[i];
        let ghost before = out@;
        assert(shown.take(i + 1 - start).drop_last() =~= shown.take(i - start));
        assert(shown.take(i + 1 - start).last() == icon@);
        out.append("`");
        out.append(icon.fn_name.as_str());
        out.append("` | ");
        out.append(icon.variant.as_str());
        out.append(" | ");
        out.append(icon.base_name.as_str());
        out.append("\n");
        assert(out@ =~= before + row_text(icon@));
        i += 1;
    }
    assert(shown.take(end - start) =~= shown);
    let next: usize = offset + (end - start);
    let ghost before = out@;
    if next < total {
        out.append("\n*");
        out.append(text::decimal_text(total - next).as_str());
        out.append(" more icons not shown. Fetch next page with `offset=");
        out.append(text::decimal_text(next).as_str());
        out.append("`.*\n");
    }
    assert(out@ =~= before + list_tail(total as nat, next as nat));
    out
}

/// `bases` with `base` put in its place, where it is not among them yet.
pub open spec fn with_base(bases: Seq<Seq<char>>, base: Seq<char>) -> Seq<Seq<char>>
    decreases bases.len(),
{
    if bases.len() == 0 {
        seq![base]
    } else if bases.last() == base {
        bases
    } else if text::text_before(base, bases.last()) {
        with_base(bases.drop_last(), base).push(bases.last())
    } else {
        bases.push(base)
    }
}

/// The base names of the icons, each once, in ascending order.
pub open spec fn sorted_bases(icons: Seq<EntryView>) -> Seq<Seq<char>>
    decreases icons.len(),
{
    if icons.len() == 0 {
        Seq::empty()
    } else {
        with_base(sorted_bases(icons.drop_last()), icons.last().base_name)
    }
}

/// Each text comes before every later one.
pub open spec fn ascending(texts: Seq<Seq<char>>) -> bool {
    forall|i: int, k: int|
        0 <= i < k < texts.len() ==> text::text_before(#[trigger] texts[i], #[trigger] texts[k])
}

proof fn lemma_with_base(bases: Seq<Seq<char>>, base: Seq<char>)
    requires
        ascending(bases),
    ensures
        ascending(with_base(bases, base)),
        forall|t: Seq<char>| #[trigger]
            with_base(bases, base).contains(t) <==> bases.contains(t) || t == base,
    decreases bases.len(),
{
    let r = with_base(bases, base);
    if bases.len() == 0 {
        assert(r[0] == base);
    } else if bases.last() == base {
        assert(bases[bases.len() - 1] == base);
    } else if text::text_before(base, bases.last()) {
        let front = bases.drop_last();
        assert(ascending(front)) by {
            assert forall|i: int, k: int| 0 <= i < k < front.len() implies text::text_before(
                #[trigger] front[i],
                #[trigger] front[k],
            ) by {
                assert(text::text_before(bases[i], bases[k]));
            }
        }
        lemma_with_base(front, base);
        let inner = with_base(front, base);
        assert forall|i: int, k: int| 0 <= i < k < r.len() implies text::text_before(
            #[trigger] r[i],
            #[trigger] r[k],
        ) by {
            if k < inner.len() {
                assert(text::text_before(inner[i], inner[k]));
            } else {
                assert(inner.contains(inner[i]));
                if inner[i] != base {
                    let j = choose|j: int| 0 <= j < front.len() && front[j] == inner[i];
                    assert(text::text_before(bases[j], bases[bases.len() - 1]));
                }
            }
        }
        assert forall|t: Seq<char>| #[trigger] r.contains(t) <==> bases.contains(t) || t == base by {
            if r.contains(t) {
                let j = choose|j: int| 0 <= j < r.len() && r[j] == t;
                if j < inner.len() {
                    assert(inner.contains(inner[j]));
                    if t != base {
                        let m = choose|m: int| 0 <= m < front.len() && front[m] == t;
                        assert(bases[m] == t);
                    }
                } else {
                    assert(bases[bases.len() - 1] == t);
                }
            }
            if bases.contains(t) {
                let j = choose|j: int| 0 <= j < bases.len() && bases[j] == t;
                if j < front.len() {
                    assert(front[j] == t);
                    assert(inner.contains(t));
                    let m = choose|m: int| 0 <= m < inner.len() && inner[m] == t;
                    assert(r[m] == t);
                } else {
                    assert(r[inner.len() as int] == t);
                }
            }
            if t == base {
                assert(inner.contains(t));
                let m = choose|m: int| 0 <= m < inner.len() && inner[m] == t;
                assert(r[m] == t);
            }
        }
    } else {
        let last = bases.last();
        text::lemma_before_total(base, last);
        assert forall|i: int, k: int| 0 <= i < k < r.len() implies text::text_before(
            #[trigger] r[i],
            #[trigger] r[k],
        ) by {
            if k < bases.len() {
                assert(text::text_before(bases[i], bases[k]));
            } else if i < bases.len() - 1 {
                assert(text::text_before(bases[i], bases[bases.len() - 1]));
                text::lemma_before_transitive(bases[i], last, base);
            }
        }
        assert forall|t: Seq<char>| #[trigger] r.contains(t) <==> bases.contains(t) || t == base by {
            if bases.contains(t) {
                let j = choose|j: int| 0 <= j < bases.len() && bases[j] == t;
                assert(r[j] == t);
            }
            if t == base {
                assert(r[bases.len() as int] == t);
            }
        }
    }
}

/// The headings of an answer are the base names of the icons found, all of them and no
/// others, in ascending order without repetition.
pub proof fn law_headings_are_the_base_names(icons: Seq<EntryView>)
    ensures
        ascending(sorted_bases(icons)),
        forall|t: Seq<char>| #[trigger]
            sorted_bases(icons).contains(t) <==> exists|i: int|
                0 <= i < icons.len() && #[trigger] icons[i].base_name == t,
    decreases icons.len(),
{
    if icons.len() > 0 {
        let front = icons.drop_last();
        law_headings_are_the_base_names(front);
        lemma_with_base(sorted_bases(front), icons.last().base_name);
        assert forall|t: Seq<char>| #[trigger]
            sorted_bases(icons).contains(t) <==> exists|i: int|
                0 <= i < icons.len() && #[trigger] icons[i].base_name == t by {
            if sorted_bases(front).contains(t) {
                let i = choose|i: int| 0 <= i < front.len() && #[trigger] front[i].base_name == t;
                assert(icons[i].base_name == t);
            }
            if icons.last().base_name == t {
                assert(icons[icons.len() - 1].base_name == t);
            }
            if exists|i: int| 0 <= i < icons.len() && #[trigger] icons[i].base_name == t {
                let i = choose|i: int| 0 <= i < icons.len() && #[trigger] icons[i].base_name == t;
                if i < front.len() {
                    assert(front[i].base_name == t);
                }
            }
        }
    }
}

/// The lines for the icons with the given base name, in order.
pub open spec fn variants_text(icons: Seq<EntryView>, base: Seq<char>) -> Seq<char>
    decreases icons.len(),
{
    if icons.len() == 0 {
        Seq::empty()
    } else if icons.last().base_name == base {
        variants_text(icons.drop_last(), base) + variant_text(icons.last())
    } else {
        variants_text(icons.drop_last(), base)
    }
}

/// The lines for one icon.
pub open spec fn variant_text(icon: EntryView) -> Seq<char> {
    "- **`"@ + icon.fn_name + "`** — "@ + icon.variant + " variant\n  ```rust\n  "@ + icon.fn_name
        + "()\n  ```\n"@
}

/// A heading for each of the base names, with the lines for its icons under it.
pub open spec fn groups_text(bases: Seq<Seq<char>>, icons: Seq<EntryView>) -> Seq<char>
    decreases bases.len(),
{
    if bases.len() == 0 {
        Seq::empty()
    } else {
        groups_text(bases.drop_last(), icons) + group_text(bases.last(), icons)
    }
}

/// The heading for one base name, with the lines for its icons under it.
pub open spec fn group_text(base: Seq<char>, icons: Seq<EntryView>) -> Seq<char> {
    "### "@ + base + "\n\n"@ + variants_text(icons, base) + "\n"@
}

/// The answer that shows the icons found for a name.
pub open spec fn found_text(icons: Seq<EntryView>, name: Seq<char>) -> Seq<char> {
    if icons.len() == 0 {
        "No icons found matching `"@ + name
            + "`.\n\nTip: use `list_icons` with `search` parameter to browse icons."@
    } else {
        "Found "@ + text::decimal(icons.len()) + " icon(s) matching `"@ + name + "`:\n\n"@
            + groups_text(sorted_bases(icons), icons)
    }
}

/// Puts `base` in its place among `bases`, where it is not among them yet.
fn insert_base(bases: &mut Vec<String>, base: &str)
    ensures
        strings_view(final(bases)@) == with_base(strings_view(old(bases)@), base@),
{
    let ghost all = strings_view(bases@);
    let mut i: usize = bases.len();
    assert(all.take(all.len() as int) =~= all);
    assert(all.skip(all.len() as int) =~= Seq::empty());
    assert(with_base(all, base@) =~= with_base(all.take(i as int), base@) + all.skip(i as int));
    while i > 0 && text::comes_before(base, bases[i - 1].as_str())
        invariant
            all == strings_view(bases@),
            *bases == *old(bases),
            i <= bases.len(),
            with_base(all, base@) == with_base(all.take(i as int), base@) + all.skip(i as int),
        decreases i,
    {
        proof {
            text::lemma_before_irreflexive(base@);
            let front = all.take(i as int);
            assert(front.last() == all[i - 1]);
            assert(front.drop_last() =~= all.take(i - 1));
            assert(with_base(front, base@) == with_base(all.take(i - 1), base@).push(all[i - 1]));
            assert(with_base(all.take(i - 1), base@).push(all[i - 1]) + all.skip(i as int)
                =~= with_base(all.take(i - 1), base@) + all.skip(i - 1));
        }
        i -= 1;
    }
    let ghost front = all.take(i as int);
    if i > 0 {
        assert(front.last() == all[i - 1]);
        if text::same_text(bases[i - 1].as_str(), base) {
            assert(front + all.skip(i as int) =~= all);
            return;
        }
    }
    bases.insert(i, base.to_owned());
    assert(with_base(front, base@) =~= front.push(base@));
    assert(strings_view(bases@) =~= front.push(base@) + all.skip(i as int));
}

/// Computes the base names of the icons, each once, in ascending order.
fn sort_bases(icons: &Vec<&McpIconEntry>) -> (r: Vec<String>)
    ensures
        strings_view(r@) == sorted_bases(refs_view(icons@)),
{
    let ghost all = refs_view(icons@);
    let mut r: Vec<String> = Vec::new();
    let mut i: usize = 0;
    assert(all.take(0) =~= Seq::empty());
    assert(strings_view(r@) =~= Seq::empty());
    while i < icons.len()
        invariant
            all == refs_view(icons@),
            i <= icons.len(),
            strings_view(r@) == sorted_bases(all.take(i as int)),
        decreases icons.len() - i,
    {
        assert(all.take(i + 1).drop_last() =~= all.take(i as int));
        assert(all.take(i + 1).last().base_name == icons@[i as int].base_name@);
        insert_base(&mut r, icons[i].base_name.as_str());
        i += 1;
    }
    assert(all.take(icons.len() as int) =~= all);
    r
}

/// Writes the lines for the icons with the given base name.
fn write_variants(icons: &Vec<&McpIconEntry>, base: &str) -> (r: String)
    ensures
        r@ == variants_text(refs_view(icons@), base@),
{
    let ghost all = refs_view(icons@);
    let mut out: String = String::new();
    let mut i: usize = 0;
    assert(all.take(0) =~= Seq::empty());
    while i < icons.len()
        invariant
            all == refs_view(icons@),
            i <= icons.len(),
            out@ == variants_text(all.take(i as int), base@),
        decreases icons.len() - i,
    {
        let icon: &McpIconEntry = icons[i];
        let ghost before = out@;
        assert(all.take(i + 1).drop_last() =~= all.take(i as int));
        assert(all.take(i + 1).last() == icon@);
        if text::same_text(icon.base_name.as_str(), base) {
            out.append("- **`");
            out.append(icon.fn_name.as_str());
            out.append("`** — ");
            out.append(icon.variant.as_str());
            out.append(" variant\n  ```rust\n  ");
            out.append(icon.fn_name.as_str());
            out.append("()\n  ```\n");
            assert(out@ =~= before + variant_text(icon@));
        }
        i += 1;
    }
    assert(all.take(icons.len() as int) =~= all);
    out
}

/// Writes the answer that shows the icons whose function name or lower-case base name holds
/// `name`. The lower-case base names of the icons come with them.
pub fn describe_matches(
    icons: &Vec<McpIconEntry>,
    lowered: &Vec<String>,
    name: &str,
) -> (r: String)
    requires
        lowered.len() == icons.len(),
    ensures
        r@ == found_text(
            listed(
                catalogue::catalogue_view(icons@),
                strings_view(lowered@),
                None,
                Some(name@),
            ),
            name@,
        ),
{
    let found: Vec<&McpIconEntry> = list_matches(icons, lowered, None, Some(name));
    let ghost all = refs_view(found@);
    let mut out: String = String::new();
    if found.len() == 0 {
        out.append("No icons found matching `");
        out.append(name);
        out.append("`.\n\nTip: use `list_icons` with `search` parameter to browse icons.");
        assert(out@ =~= found_text(all, name@));
        return out;
    }
    let bases: Vec<String> = sort_bases(&found);
    let ghost sorted = strings_view(bases@);
    out.append("Found ");
    out.append(text::decimal_text(found.len()).as_str());
    out.append(" icon(s) matching `");
    out.append(name);
    out.append("`:\n\n");
    let ghost head = out@;
    assert(head =~= "Found "@ + text::decimal(all.len()) + " icon(s) matching `"@ + name@
        + "`:\n\n"@);
    let mut i: usize = 0;
    assert(sorted.take(0) =~= Seq::empty());
    while i < bases.len()
        invariant
            all == refs_view(found@),
            sorted == strings_view(bases@),
            i <= bases.len(),
            out@ =~= head + groups_text(sorted.take(i as int), all),
        decreases bases.len() - i,
    {
        let base: &str = bases[i].as_str();
        let ghost before = out@;
        assert(sorted.take(i + 1).drop_last() =~= sorted.take(i as int));
        assert(sorted.take(i + 1).last() == base@);
        out.append("### ");
        out.append(base);
        out.append("\n\n");
        out.append(write_variants(&found, base).as_str());
        out.append("\n");
        assert(out@ =~= before + group_text(base@, all));
        i += 1;
    }
    assert(sorted.take(bases.len() as int) =~= sorted);
    out
}

/// Two pages in a row make up one page: behind the page at an offset comes the page at the
/// offset further on, and nothing is skipped or shown twice.
pub proof fn law_pages_follow_on(icons: Seq<EntryView>, offset: nat, limit: nat, more: nat)
    ensures
        page(icons, offset, limit) + page(icons, offset + limit, more) == page(
            icons,
            offset,
            limit + more,
        ),
{
    assert(page(icons, offset, limit) + page(icons, offset + limit, more) =~= page(
        icons,
        offset,
        limit + more,
    ));
}

/// A page is never longer than its limit, and shorter only where the icons end.
pub proof fn law_page_length(icons: Seq<EntryView>, offset: nat, limit: nat)
    ensures
        page(icons, offset, limit).len() <= limit,
        page(icons, offset, limit).len() < limit ==> offset + page(icons, offset, limit).len()
            >= icons.len(),
{
}

/// An icon stands in the listing exactly if it is in the catalogue and satisfies what was
/// asked.
pub proof fn law_listing_is_exact(
    icons: Seq<EntryView>,
    lowered: Seq<Seq<char>>,
    variant: Option<Seq<char>>,
    query: Option<Seq<char>>,
    icon: EntryView,
)
    ensures
        listed(icons, lowered, variant, query).contains(icon) <==> exists|i: int|
            0 <= i < icons.len() && #[trigger] icons[i] == icon && is_listed(
                icon,
                lowered[i],
                variant,
                query,
            ),
    decreases icons.len(),
{
    if icons.len() > 0 {
        let front = icons.drop_last();
        let r = listed(icons, lowered, variant, query);
        let rest = listed(front, lowered, variant, query);
        let n = icons.len() - 1;
        law_listing_is_exact(front, lowered, variant, query, icon);
        if rest.contains(icon) {
            let i = choose|i: int|
                0 <= i < front.len() && #[trigger] front[i] == icon && is_listed(
                    icon,
                    lowered[i],
                    variant,
                    query,
                );
            assert(icons[i] == icon);
            let j = choose|j: int| 0 <= j < rest.len() && rest[j] == icon;
            assert(r[j] == icon);
        }
        if icons[n] == icon && is_listed(icon, lowered[n], variant, query) {
            assert(r[rest.len() as int] == icon);
        }
        if exists|i: int|
            0 <= i < icons.len() && #[trigger] icons[i] == icon && is_listed(
                icon,
                lowered[i],
                variant,
                query,
            ) {
            let i = choose|i: int|
                0 <= i < icons.len() && #[trigger] icons[i] == icon && is_listed(
                    icon,
                    lowered[i],
                    variant,
                    query,
                );
            if i < n {
                assert(front[i] == icon);
            }
        }
        if r.contains(icon) && !rest.contains(icon) {
            let j = choose|j: int| 0 <= j < r.len() && r[j] == icon;
            if j < rest.len() {
                assert(rest[j] == icon);
            }
            assert(icons[n] == icon);
        }
    }
}

/// Looking up an icon by its base name finds it; so does looking it up by its
/// function name or any part of it.
pub proof fn law_icons_are_found_by_name(icons: Seq<EntryView>, i: int, part: Seq<char>)
    requires
        0 <= i < icons.len(),
    ensures
        listed(
            icons,
            lowered_bases(icons),
            None,
            Some(lowercased(icons[i].base_name)),
        ).contains(icons[i]),
        text::has_substring(icons[i].fn_name, part) ==> listed(
            icons,
            lowered_bases(icons),
            None,
            Some(part),
        ).contains(icons[i]),
        text::has_substring(icons[i].fn_name, icons[i].fn_name),
{
    let low = lowered_bases(icons);
    let base = lowercased(icons[i].base_name);
    assert(low[i] == base);
    text::lemma_substring_of_itself(base);
    law_listing_is_exact(icons, low, None, Some(base), icons[i]);
    law_listing_is_exact(icons, low, None, Some(part), icons[i]);
    text::lemma_substring_of_itself(icons[i].fn_name);
}

proof fn lemma_row_in_table(icons: Seq<EntryView>, i: int)
    requires
        0 <= i < icons.len(),
    ensures
        text::has_substring(rows_text(icons), row_text(icons[i])),
    decreases icons.len(),
{
    let front = icons.drop_last();
    let row = row_text(icons[i]);
    let none = Seq::<char>::empty();
    if i == icons.len() - 1 {
        text::lemma_substring_of_itself(row);
        text::lemma_substring_within(rows_text(front), row, none, row);
        assert(rows_text(front) + row + none =~= rows_text(icons));
    } else {
        assert(front[i] == icons[i]);
        lemma_row_in_table(front, i);
        text::lemma_substring_within(none, rows_text(front), row_text(icons.last()), row);
        assert(none + rows_text(front) + row_text(icons.last()) =~= rows_text(icons));
    }
}

/// Each icon on a page has its line in the answer that shows the page.
pub proof fn law_listed_icons_are_shown(icons: Seq<EntryView>, offset: nat, limit: nat, i: int)
    requires
        0 <= i < page(icons, offset, limit).len(),
    ensures
        text::has_substring(
            list_text(icons, offset, limit),
            row_text(page(icons, offset, limit)[i]),
        ),
{
    let shown = page(icons, offset, limit);
    let before = list_head(shown.len(), icons.len(), offset, limit)
        + "fn_name | variant | base_name\n"@ + "--- | --- | ---\n"@;
    let after = list_tail(icons.len(), offset + shown.len());
    lemma_row_in_table(shown, i);
    text::lemma_substring_within(before, rows_text(shown), after, row_text(shown[i]));
}

proof fn lemma_variant_in_group(icons: Seq<EntryView>, i: int)
    requires
        0 <= i < icons.len(),
    ensures
        text::has_substring(variants_text(icons, icons[i].base_name), variant_text(icons[i])),
    decreases icons.len(),
{
    let front = icons.drop_last();
    let base = icons[i].base_name;
    let lines = variant_text(icons[i]);
    let none = Seq::<char>::empty();
    if i == icons.len() - 1 {
        text::lemma_substring_of_itself(lines);
        text::lemma_substring_within(variants_text(front, base), lines, none, lines);
        assert(variants_text(front, base) + lines + none =~= variants_text(icons, base));
    } else {
        assert(front[i] == icons[i]);
        lemma_variant_in_group(front, i);
        if icons.last().base_name == base {
            let more = variant_text(icons.last());
            text::lemma_substring_within(none, variants_text(front, base), more, lines);
            assert(none + variants_text(front, base) + more =~= variants_text(icons, base));
        }
    }
}

proof fn lemma_group_in_answer(bases: Seq<Seq<char>>, icons: Seq<EntryView>, k: int)
    requires
        0 <= k < bases.len(),
    ensures
        text::has_substring(groups_text(bases, icons), group_text(bases[k], icons)),
    decreases bases.len(),
{
    let front = bases.drop_last();
    let group = group_text(bases[k], icons);
    let none = Seq::<char>::empty();
    if k == bases.len() - 1 {
        text::lemma_substring_of_itself(group);
        text::lemma_substring_within(groups_text(front, icons), group, none, group);
        assert(groups_text(front, icons) + group + none =~= groups_text(bases, icons));
    } else {
        assert(front[k] == bases[k]);
        lemma_group_in_answer(front, icons, k);
        let more = group_text(bases.last(), icons);
        text::lemma_substring_within(none, groups_text(front, icons), more, group);
        assert(none + groups_text(front, icons) + more =~= groups_text(bases, icons));
    }
}

/// Each icon found for a name has its lines in the answer, under the heading of its base name.
pub proof fn law_found_icons_are_shown(icons: Seq<EntryView>, name: Seq<char>, i: int)
    requires
        0 <= i < icons.len(),
    ensures
        text::has_substring(found_text(icons, name), group_text(icons[i].base_name, icons)),
        text::has_substring(group_text(icons[i].base_name, icons), variant_text(icons[i])),
{
    let base = icons[i].base_name;
    let bases = sorted_bases(icons);
    let none = Seq::<char>::empty();
    law_headings_are_the_base_names(icons);
    assert(bases.contains(base));
    let k = choose|k: int| 0 <= k < bases.len() && bases[k] == base;
    lemma_group_in_answer(bases, icons, k);
    let head = "Found "@ + text::decimal(icons.len()) + " icon(s) matching `"@ + name
        + "`:\n\n"@;
    text::lemma_substring_within(head, groups_text(bases, icons), none, group_text(base, icons));
    assert(head + groups_text(bases, icons) + none =~= found_text(icons, name));
    lemma_variant_in_group(icons, i);
    text::lemma_substring_within(
        "### "@ + base + "\n\n"@,
        variants_text(icons, base),
        "\n"@,
        variant_text(icons[i]),
    );
}

/// The listing goes through the catalogue icon by icon: an icon at the end of the catalogue adds
/// itself to the end of the listing, or nothing. It is added exactly if its variant is the one
/// asked for up to ASCII case, where one is asked for, and the text asked for stands in its
/// function name or in its lower-case base name, where one is asked for. An icon that satisfies
/// one of the two and not the other is not listed.
pub proof fn law_listing_goes_icon_by_icon(
    icons: Seq<EntryView>,
    lowered: Seq<Seq<char>>,
    icon: EntryView,
    base_lower: Seq<char>,
    v: Seq<char>,
    q: Seq<char>,
)
    requires
        lowered.len() == icons.len(),
    ensures
        ({
            let more = icons.push(icon);
            let low = lowered.push(base_lower);
            let right_variant = text::ascii_lowered(icon.variant) == text::ascii_lowered(v);
            let right_text = text::has_substring(icon.fn_name, q) || text::has_substring(
                base_lower,
                q,
            );
            &&& listed(more, low, None, None) == listed(icons, lowered, None, None).push(icon)
            &&& listed(more, low, Some(v), None) == listed(icons, lowered, Some(v), None) + (
            if right_variant {
                seq![icon]
            } else {
                seq![]
            })
            &&& listed(more, low, None, Some(q)) == listed(icons, lowered, None, Some(q)) + (
            if right_text {
                seq![icon]
            } else {
                seq![]
            })
            &&& listed(more, low, Some(v), Some(q)) == listed(icons, lowered, Some(v), Some(q)) + (
            if right_variant && right_text {
                seq![icon]
            } else {
                seq![]
            })
        }),
        listed(Seq::empty(), lowered, Some(v), Some(q)) == Seq::<EntryView>::empty(),
{
    lemma_listed_push(icons, lowered, icon, base_lower, None, None);
    lemma_listed_push(icons, lowered, icon, base_lower, Some(v), None);
    lemma_listed_push(icons, lowered, icon, base_lower, None, Some(q));
    lemma_listed_push(icons, lowered, icon, base_lower, Some(v), Some(q));
}

/// The listing of the first icons does not look at the lower-case names of later ones.
proof fn lemma_listed_prefix(
    icons: Seq<EntryView>,
    lowered: Seq<Seq<char>>,
    more: Seq<Seq<char>>,
    variant: Option<Seq<char>>,
    query: Option<Seq<char>>,
)
    requires
        icons.len() <= lowered.len(),
        icons.len() <= more.len(),
        forall|i: int| 0 <= i < icons.len() ==> lowered[i] == more[i],
    ensures
        listed(icons, lowered, variant, query) == listed(icons, more, variant, query),
    decreases icons.len(),
{
    if icons.len() > 0 {
        lemma_listed_prefix(icons.drop_last(), lowered, more, variant, query);
    }
}

proof fn lemma_listed_push(
    icons: Seq<EntryView>,
    lowered: Seq<Seq<char>>,
    icon: EntryView,
    base_lower: Seq<char>,
    variant: Option<Seq<char>>,
    query: Option<Seq<char>>,
)
    requires
        lowered.len() == icons.len(),
    ensures
        listed(icons.push(icon), lowered.push(base_lower), variant, query) == listed(
            icons,
            lowered,
            variant,
            query,
        ) + (if is_listed(icon, base_lower, variant, query) {
            seq![icon]
        } else {
            seq![]
        }),
{
    let low = lowered.push(base_lower);
    assert(icons.push(icon).drop_last() =~= icons);
    lemma_listed_prefix(icons, lowered, low, variant, query);
    let rest = listed(icons, lowered, variant, query);
    assert(rest.push(icon) =~= rest + seq![icon]);
    assert(rest + seq![] =~= rest);
}

/// Without anything asked for, the whole catalogue is listed, in its order.
pub proof fn law_everything_is_listed_by_default(icons: Seq<EntryView>, lowered: Seq<Seq<char>>)
    ensures
        listed(icons, lowered, None, None) == icons,
    decreases icons.len(),
{
    if icons.len() > 0 {
        law_everything_is_listed_by_default(icons.drop_last(), lowered);
        assert(icons.drop_last().push(icons.last()) =~= icons);
    } else {
        assert(icons =~= Seq::empty());
    }
}

/// Where a variant is asked for, every icon of the listing has that variant up to ASCII case,
/// whether or not a search text is given: the two names have one length, and at each place
/// they hold the same character or the capital and the small form of one ASCII letter.
pub proof fn law_listed_icons_have_the_variant(
    icons: Seq<EntryView>,
    lowered: Seq<Seq<char>>,
    v: Seq<char>,
    query: Option<Seq<char>>,
    icon: EntryView,
)
    requires
        listed(icons, lowered, Some(v), query).contains(icon),
    ensures
        icons.contains(icon),
        text::ascii_lowered(icon.variant) == text::ascii_lowered(v),
        icon.variant.len() == v.len(),
        forall|j: int|
            0 <= j < v.len() ==> {
                ||| #[trigger] icon.variant[j] == v[j]
                ||| 'A' <= v[j] <= 'Z' && icon.variant[j] as int == v[j] as int + 32
                ||| 'a' <= v[j] <= 'z' && icon.variant[j] as int == v[j] as int - 32
            },
{
    law_listing_is_exact(icons, lowered, Some(v), query, icon);
    text::law_lower_case_by_position(icon.variant);
    text::law_lower_case_by_position(v);
    let low = text::ascii_lowered(v);
    assert forall|j: int| 0 <= j < v.len() implies {
        ||| #[trigger] icon.variant[j] == v[j]
        ||| 'A' <= v[j] <= 'Z' && icon.variant[j] as int == v[j] as int + 32
        ||| 'a' <= v[j] <= 'z' && icon.variant[j] as int == v[j] as int - 32
    } by {
        assert(low[j] == text::ascii_lowered(icon.variant)[j]);
    }
}

/// Where a variant is asked for and no search text is given, an icon of the catalogue is listed
/// exactly if its variant is the one asked for up to ASCII case.
pub proof fn law_a_variant_alone_lists_its_icons(
    icons: Seq<EntryView>,
    lowered: Seq<Seq<char>>,
    v: Seq<char>,
    icon: EntryView,
)
    requires
        icons.contains(icon),
    ensures
        listed(icons, lowered, Some(v), None).contains(icon) <==> text::ascii_lowered(icon.variant)
            == text::ascii_lowered(v),
{
    law_listing_is_exact(icons, lowered, Some(v), None, icon);
    let i = choose|i: int| 0 <= i < icons.len() && icons[i] == icon;
    assert(icons[i] == icon);
}

/// Every part of an icon's lower-case base name finds the icon, and so does every part of its
/// function name: whatever stands before and behind the part.
pub proof fn law_every_part_of_a_name_finds_the_icon(
    icons: Seq<EntryView>,
    lowered: Seq<Seq<char>>,
    i: int,
    before: Seq<char>,
    part: Seq<char>,
    after: Seq<char>,
)
    requires
        0 <= i < icons.len(),
        lowered[i] == before + part + after || icons[i].fn_name == before + part + after,
    ensures
        listed(icons, lowered, None, Some(part)).contains(icons[i]),
{
    text::law_parts_are_substrings(before, part, after);
    law_listing_is_exact(icons, lowered, None, Some(part), icons[i]);
}

/// Where a text is asked for, every icon of the listing has it in its function name or in its
/// lower-case base name, whether or not a variant is asked for. With a variant asked for, an
/// icon that has both the variant and the text is listed.
pub proof fn law_listed_icons_hold_the_text(
    icons: Seq<EntryView>,
    variant: Option<Seq<char>>,
    q: Seq<char>,
    icon: EntryView,
)
    ensures
        listed(icons, lowered_bases(icons), variant, Some(q)).contains(icon) ==> icons.contains(
            icon,
        ) && (text::has_substring(icon.fn_name, q) || text::has_substring(
            lowercased(icon.base_name),
            q,
        )),
        icons.contains(icon) && (variant matches Some(v) ==> text::ascii_lowered(icon.variant)
            == text::ascii_lowered(v)) && (text::has_substring(icon.fn_name, q)
            || text::has_substring(lowercased(icon.base_name), q)) ==> listed(
            icons,
            lowered_bases(icons),
            variant,
            Some(q),
        ).contains(icon),
{
    let low = lowered_bases(icons);
    law_listing_is_exact(icons, low, variant, Some(q), icon);
    if listed(icons, low, variant, Some(q)).contains(icon) {
        let i = choose|i: int|
            0 <= i < icons.len() && #[trigger] icons[i] == icon && is_listed(
                icon,
                low[i],
                variant,
                Some(q),
            );
        assert(low[i] == lowercased(icon.base_name));
    }
    if icons.contains(icon) {
        let i = choose|i: int| 0 <= i < icons.len() && icons[i] == icon;
        assert(low[i] == lowercased(icon.base_name));
        assert(icons[i] == icon);
    }
}

/// The icon at a place of a page stands in the listing the offset further on, and the page goes
/// on until the limit or the end of the listing. A page behind the end is empty.
pub proof fn law_pages_by_position(icons: Seq<EntryView>, offset: nat, limit: nat)
    ensures
        forall|i: int|
            0 <= i < page(icons, offset, limit).len() ==> #[trigger] page(icons, offset, limit)[i]
                == icons[offset + i],
        offset >= icons.len() ==> page(icons, offset, limit).len() == 0,
        offset + limit <= icons.len() ==> page(icons, offset, limit).len() == limit,
        offset <= icons.len() < offset + limit ==> page(icons, offset, limit).len() == icons.len()
            - offset,
{
}

/// The answer that shows a page says how many icons it shows, how many were found, and which
/// offset and limit were asked for. Where nothing was found it says so; otherwise there is one
/// line for each icon of the page, and where icons are left, a line that counts them and names
/// the offset at which they begin.
pub proof fn law_pages_are_laid_out(icons: Seq<EntryView>, offset: nat, limit: nat)
    ensures
        ({
            let shown = page(icons, offset, limit);
            let head = "Showing "@ + text::decimal(shown.len()) + "/"@ + text::decimal(icons.len())
                + " icons (offset="@ + text::decimal(offset) + ", limit="@ + text::decimal(limit)
                + ")\n\n"@;
            let table = head + "fn_name | variant | base_name\n"@ + "--- | --- | ---\n"@
                + rows_text(shown);
            let next = offset + shown.len();
            &&& icons.len() == 0 ==> list_text(icons, offset, limit) == head
                + "No icons matched your query.\n"@
            &&& 0 < icons.len() <= next ==> list_text(icons, offset, limit) == table
            &&& next < icons.len() ==> list_text(icons, offset, limit) == table + ("\n*"@
                + text::decimal((icons.len() - next) as nat)
                + " more icons not shown. Fetch next page with `offset="@ + text::decimal(next)
                + "`.*\n"@)
        }),
{
    let shown = page(icons, offset, limit);
    let table = list_head(shown.len(), icons.len(), offset, limit)
        + "fn_name | variant | base_name\n"@ + "--- | --- | ---\n"@ + rows_text(shown);
    assert(table + Seq::empty() =~= table);
}

/// The table has one line for each icon, in order: its function name between backquotes, its
/// variant and its base name, with bars between them.
pub proof fn law_one_row_for_each_icon(icons: Seq<EntryView>, icon: EntryView)
    ensures
        rows_text(Seq::empty()) == Seq::<char>::empty(),
        rows_text(icons.push(icon)) == rows_text(icons) + ("`"@ + icon.fn_name + "` | "@
            + icon.variant + " | "@ + icon.base_name + "\n"@),
{
    assert(icons.push(icon).drop_last() =~= icons);
}

/// Under a base name stand the lines of the icons that have it, in order, and of no others:
/// the function name, the variant, and a call of the function.
pub proof fn law_groups_hold_their_icons(icons: Seq<EntryView>, icon: EntryView, base: Seq<char>)
    ensures
        variants_text(Seq::empty(), base) == Seq::<char>::empty(),
        icon.base_name != base ==> variants_text(icons.push(icon), base) == variants_text(
            icons,
            base,
        ),
        icon.base_name == base ==> variants_text(icons.push(icon), base) == variants_text(
            icons,
            base,
        ) + ("- **`"@ + icon.fn_name + "`** — "@ + icon.variant + " variant\n  ```rust\n  "@
            + icon.fn_name + "()\n  ```\n"@),
{
    assert(icons.push(icon).drop_last() =~= icons);
}

/// The answer for a name says how many icons were found for it, and has one heading for each
/// base name among them, in order, with the icons' lines under it. Where none was found it says
/// so and names what was asked for.
pub proof fn law_found_icons_are_laid_out(
    icons: Seq<EntryView>,
    name: Seq<char>,
    bases: Seq<Seq<char>>,
    base: Seq<char>,
)
    ensures
        groups_text(Seq::empty(), icons) == Seq::<char>::empty(),
        groups_text(bases.push(base), icons) == groups_text(bases, icons) + ("### "@ + base
            + "\n\n"@ + variants_text(icons, base) + "\n"@),
        icons.len() == 0 ==> found_text(icons, name) == "No icons found matching `"@ + name
            + "`.\n\nTip: use `list_icons` with `search` parameter to browse icons."@,
        icons.len() > 0 ==> found_text(icons, name) == "Found "@ + text::decimal(icons.len())
            + " icon(s) matching `"@ + name + "`:\n\n"@ + groups_text(sorted_bases(icons), icons),
{
    assert(bases.push(base).drop_last() =~= bases);
}

}
