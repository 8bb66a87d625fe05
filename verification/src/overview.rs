//! The two overview texts of the catalogue. Each is a sequence of fixed pieces with the icon
//! counts between them.

use vstd::prelude::*;

use crate::catalogue;
use crate::catalogue::McpIconEntry;
use crate::naming;
use crate::text;
use crate::variant;

verus! {

/// What stands before the number of filled icons in a table of counts.
pub const FILLED_LABEL: &'static str = "| Filled   | ";

/// What stands before the number of color icons in a table of counts.
pub const COLOR_LABEL: &'static str = "| Color    | ";

/// What stands before the number of regular icons in a table of counts.
pub const REGULAR_LABEL: &'static str = "| Regular  | ";

/// What stands before the number of light icons in a table of counts.
pub const LIGHT_LABEL: &'static str = "| Light    | ";

/// What stands before the total in a table of counts.
pub const TOTAL_LABEL: &'static str = "| **Total**| **";

/// Piece 0 of the feature overview.
pub const FEATURES_0: &'static str = r#"# iced-fluent-icons — Cargo Feature Flags

## Icon counts by variant
| Variant  | Count |
|----------|-------|
"#;

/// Piece 1 of the feature overview.
pub const FEATURES_1: &'static str = r#" |
"#;

/// Piece 2 of the feature overview.
pub const FEATURES_2: &'static str = r#"  |
"#;

/// Piece 3 of the feature overview.
pub const FEATURES_3: &'static str = r#"|
"#;

/// Piece 4 of the feature overview.
pub const FEATURES_4: &'static str = r#"  |
"#;

/// Piece 5 of the feature overview.
pub const FEATURES_5: &'static str = r#"

---

## Exclusion features  *(default: all variants included)*

These features **remove** an entire variant family, shrinking compile time and binary size.

| Feature      | Removes                | Icons removed |
|--------------|------------------------|---------------|
| `no-filled`  | `*Filled.svg` icons    | "#;

/// Piece 6 of the feature overview.
pub const FEATURES_6: &'static str = r#"       |
| `no-color`   | `*Color.svg` icons     | "#;

/// Piece 7 of the feature overview.
pub const FEATURES_7: &'static str = r#"        |
| `no-regular` | `*Regular.svg` icons   | "#;

/// Piece 8 of the feature overview.
pub const FEATURES_8: &'static str = r#"      |
| `no-light`   | `*Light.svg` icons     | "#;

/// Piece 9 of the feature overview.
pub const FEATURES_9: &'static str = r#"        |

**Example** — drop Light and Color variants:
```toml
[dependencies]
iced-fluent-icons = { version = "1.0", features = ["no-light", "no-color"] }
```

---

## Inclusion features  *(keep ONLY the named families)*

Multiple `only-*` features may be combined freely.

| Feature        | Keeps only             | Icons kept |
|----------------|------------------------|------------|
| `only-filled`  | `*Filled.svg` icons    | "#;

/// Piece 10 of the feature overview.
pub const FEATURES_10: &'static str = r#"    |
| `only-color`   | `*Color.svg` icons     | "#;

/// Piece 11 of the feature overview.
pub const FEATURES_11: &'static str = r#"     |
| `only-regular` | `*Regular.svg` icons   | "#;

/// Piece 12 of the feature overview.
pub const FEATURES_12: &'static str = r#"   |
| `only-light`   | `*Light.svg` icons     | "#;

/// Piece 13 of the feature overview.
pub const FEATURES_13: &'static str = r#"     |

**Example** — keep only Regular + Filled:
```toml
[dependencies]
iced-fluent-icons = { version = "1.0", features = ["only-regular", "only-filled"] }
```

---

## Notes
- `declare!()` and `#[inventory]` both honour the same feature flags.
- Excluded icons are **never** embedded in the binary.
- Exclusion and inclusion flags operate independently; if both apply, *inclusion* wins over exclusion when they agree.
"#;

/// Piece 0 of the crate overview.
pub const CRATE_INFO_0: &'static str = r#"# iced-fluent-icons

Proc-macro crate that embeds Microsoft Fluent UI SVG icons into [iced](https://iced.rs) applications
with **minimal LSP overhead**.

## Icon catalogue
| Variant  | Count  |
|----------|--------|
"#;

/// Piece 1 of the crate overview.
pub const CRATE_INFO_1: &'static str = r#"  |
"#;

/// Piece 2 of the crate overview.
pub const CRATE_INFO_2: &'static str = r#"   |
"#;

/// Piece 3 of the crate overview.
pub const CRATE_INFO_3: &'static str = r#" |
"#;

/// Piece 4 of the crate overview.
pub const CRATE_INFO_4: &'static str = r#"   |
"#;

/// Piece 5 of the crate overview.
pub const CRATE_INFO_5: &'static str = r#"

---

## How to use

### 1 — Add the dependency
```toml
[dependencies]
iced-fluent-icons = "1.0"
```

### 2 — Declare stubs once in your icons module
```rust
// src/icons/fluent.rs
iced_fluent_icons::declare!();
```

Each SVG file becomes one `pub fn`. The function:
- Has the correct return type `::iced::widget::Svg<'static>` (IDE completion works)
- Shows a rustdoc image preview on hover in VS Code / JetBrains
- Has a `panic!` body — it is **never executed** at runtime

### 3 — Annotate call sites with `#[inventory]`
```rust
#[iced_fluent_icons::inventory]
fn toolbar() -> iced::Element<'_, Message> {
    let close = icons::fluent::dismiss_circle_color();
    let home  = icons::fluent::home_filled();
    // ...
}
```

`#[inventory]` rewrites every zero-argument icon call to inline `include_bytes!` at
**compile time**, never at LSP time.

#### Supported call forms (all equivalent)
```rust
dismiss_circle_color()                      // after `use icons::fluent::*`
fluent::dismiss_circle_color()
icons::fluent::dismiss_circle_color()
crate::icons::fluent::dismiss_circle_color()
```

#### Works inside widget macros
```rust
#[iced_fluent_icons::inventory]
fn sidebar() -> iced::Element<'_, Message> {
    iced::widget::column![
        icons::fluent::home_filled(),
        icons::fluent::settings_regular(),
    ].into()
}
```

### Custom size (default 24 × 24 px)
```rust
#[iced_fluent_icons::inventory(size = 32)]              // 32 × 32
#[iced_fluent_icons::inventory(width = 20, height = 48)] // 20 × 48
#[iced_fluent_icons::inventory(width = 20)]              // 20 × 24
```

---

## Naming convention

SVG filename (UpperCamelCase) → Rust function name (snake_case):

| SVG file                              | Function                            |
|---------------------------------------|-------------------------------------|
"#;

/// Piece 6 of the crate overview.
pub const CRATE_INFO_6: &'static str = r#"
---

## Variant guide

| Variant  | fn suffix    | Description                   |
|----------|--------------|-------------------------------|
| Filled   | `_filled()`  | Solid/filled style            |
| Color    | `_color()`   | Multicolour style             |
| Regular  | `_regular()` | Outline/regular style         |
| Light    | `_light()`   | Thinner stroke, lighter style |

---

## Feature flags (short version)
- `no-filled` / `no-color` / `no-regular` / `no-light` — exclude a variant family
- `only-filled` / `only-color` / `only-regular` / `only-light` — keep only a family

Call the **`describe_features`** tool for full details and examples.
"#;

/// The file stem in row 0 of the naming table.
pub const STEM_0: &'static str = "AddRegular";

/// What stands between the file and the function in row 0 of the naming table.
pub const GAP_0: &'static str = "                      ";

/// The function name in row 0 of the naming table.
pub const FUNCTION_0: &'static str = "add_regular";

/// What ends row 0 of the naming table.
pub const END_0: &'static str = "                     |\n";

/// The file stem in row 1 of the naming table.
pub const STEM_1: &'static str = "DismissCircleColor";

/// What stands between the file and the function in row 1 of the naming table.
pub const GAP_1: &'static str = "              ";

/// The function name in row 1 of the naming table.
pub const FUNCTION_1: &'static str = "dismiss_circle_color";

/// What ends row 1 of the naming table.
pub const END_1: &'static str = "            |\n";

/// The file stem in row 2 of the naming table.
pub const STEM_2: &'static str = "AccessibilityCheckmarkFilled";

/// What stands between the file and the function in row 2 of the naming table.
pub const GAP_2: &'static str = "    ";

/// The function name in row 2 of the naming table.
pub const FUNCTION_2: &'static str = "accessibility_checkmark_filled";

/// What ends row 2 of the naming table.
pub const END_2: &'static str = "  |\n";

/// The file stem in row 3 of the naming table.
pub const STEM_3: &'static str = "ArrowTrendingCheckmarkRegular";

/// What stands between the file and the function in row 3 of the naming table.
pub const GAP_3: &'static str = "   ";

/// The function name in row 3 of the naming table.
pub const FUNCTION_3: &'static str = "arrow_trending_checkmark_regular";

/// What ends row 3 of the naming table.
pub const END_3: &'static str = "|\n";

/// A labelled count in a table.
pub open spec fn count_cell(label: Seq<char>, n: nat) -> Seq<char> {
    label + text::decimal(n) + " "@
}

/// The total in a table of counts.
pub open spec fn total_cell(n: nat) -> Seq<char> {
    TOTAL_LABEL@ + text::decimal(n) + "** |"@
}

/// The icon counts of a catalogue.
pub struct Counts {
    pub filled: nat,
    pub color: nat,
    pub regular: nat,
    pub light: nat,
    pub total: nat,
}

/// The icon counts of the given icons.
pub open spec fn counts_of(icons: Seq<catalogue::EntryView>) -> Counts {
    Counts {
        filled: catalogue::variant_count(icons, "Filled"@),
        color: catalogue::variant_count(icons, "Color"@),
        regular: catalogue::variant_count(icons, "Regular"@),
        light: catalogue::variant_count(icons, "Light"@),
        total: icons.len(),
    }
}

/// A table of counts, with the given text before each of them.
pub open spec fn count_table(
    n: Counts,
    before_filled: Seq<char>,
    before_color: Seq<char>,
    before_regular: Seq<char>,
    before_light: Seq<char>,
    before_total: Seq<char>,
) -> Seq<char> {
    before_filled + count_cell(FILLED_LABEL@, n.filled) + before_color + count_cell(
        COLOR_LABEL@,
        n.color,
    ) + before_regular + count_cell(REGULAR_LABEL@, n.regular) + before_light + count_cell(
        LIGHT_LABEL@,
        n.light,
    ) + before_total + total_cell(n.total)
}

/// A row of the naming table: a file and its function.
pub open spec fn naming_row(
    stem: Seq<char>,
    gap: Seq<char>,
    function: Seq<char>,
    end: Seq<char>,
) -> Seq<char> {
    "| `"@ + stem + ".svg`"@ + gap + "| `"@ + function + "()`"@ + end
}

/// The feature overview behind its table of counts.
pub open spec fn features_rest(n: Counts) -> Seq<char> {
    FEATURES_5@ + text::decimal(n.filled) + FEATURES_6@ + text::decimal(n.color) + FEATURES_7@ + text::decimal(n.regular) + FEATURES_8@ + text::decimal(n.light) + FEATURES_9@ + text::decimal(n.filled) + FEATURES_10@ + text::decimal(n.color) + FEATURES_11@ + text::decimal(n.regular) + FEATURES_12@ + text::decimal(n.light) + FEATURES_13@
}

/// The naming table of the crate overview.
pub open spec fn naming_table() -> Seq<char> {
    naming_row(STEM_0@, GAP_0@, FUNCTION_0@, END_0@)
        + naming_row(STEM_1@, GAP_1@, FUNCTION_1@, END_1@)
        + naming_row(STEM_2@, GAP_2@, FUNCTION_2@, END_2@)
        + naming_row(STEM_3@, GAP_3@, FUNCTION_3@, END_3@)
}

/// The crate overview behind its table of counts.
pub open spec fn crate_info_rest() -> Seq<char> {
    CRATE_INFO_5@ + naming_table() + CRATE_INFO_6@
}

/// The overview of the Cargo features, for the given icon counts.
pub open spec fn features_text(n: Counts) -> Seq<char> {
    count_table(n, FEATURES_0@, FEATURES_1@, FEATURES_2@, FEATURES_3@, FEATURES_4@) + features_rest(n)
}

/// The overview of the crate, for the given icon counts.
pub open spec fn crate_info_text(n: Counts) -> Seq<char> {
    count_table(n, CRATE_INFO_0@, CRATE_INFO_1@, CRATE_INFO_2@, CRATE_INFO_3@, CRATE_INFO_4@) + crate_info_rest()
}

/// Writes [`count_cell`].
fn write_cell(label: &str, n: usize) -> (r: String)
    ensures
        r@ == count_cell(label@, n as nat),
{
    let mut r: String = label.to_owned();
    r.append(text::decimal_text(n).as_str());
    r.append(" ");
    r
}

/// Writes [`naming_row`].
fn write_row(stem: &str, gap: &str, function: &str, end: &str) -> (r: String)
    ensures
        r@ == naming_row(stem@, gap@, function@, end@),
{
    let mut r: String = "| `".to_owned();
    r.append(stem);
    r.append(".svg`");
    r.append(gap);
    r.append("| `");
    r.append(function);
    r.append("()`");
    r.append(end);
    r
}

/// Writes [`count_table`] for the icons of the catalogue.
fn write_table(
    icons: &Vec<McpIconEntry>,
    before_filled: &str,
    before_color: &str,
    before_regular: &str,
    before_light: &str,
    before_total: &str,
) -> (r: String)
    ensures
        r@ == count_table(
            counts_of(catalogue::catalogue_view(icons@)),
            before_filled@,
            before_color@,
            before_regular@,
            before_light@,
            before_total@,
        ),
{
    let counts: (usize, usize, usize, usize) = catalogue::variant_counts(icons);
    let mut total: String = TOTAL_LABEL.to_owned();
    total.append(text::decimal_text(icons.len()).as_str());
    total.append("** |");
    let mut out: String = before_filled.to_owned();
    out.append(write_cell(FILLED_LABEL, counts.0).as_str());
    out.append(before_color);
    out.append(write_cell(COLOR_LABEL, counts.1).as_str());
    out.append(before_regular);
    out.append(write_cell(REGULAR_LABEL, counts.2).as_str());
    out.append(before_light);
    out.append(write_cell(LIGHT_LABEL, counts.3).as_str());
    out.append(before_total);
    out.append(total.as_str());
    out
}

/// The overview of the Cargo features, with the icon counts of the catalogue.
pub fn tool_describe_features(icons: &Vec<McpIconEntry>) -> (r: String)
    ensures
        r@ == features_text(counts_of(catalogue::catalogue_view(icons@))),
{
    let counts: (usize, usize, usize, usize) = catalogue::variant_counts(icons);
    let filled: String = text::decimal_text(counts.0);
    let color: String = text::decimal_text(counts.1);
    let regular: String = text::decimal_text(counts.2);
    let light: String = text::decimal_text(counts.3);
    let mut rest: String = FEATURES_5.to_owned();
    rest.append(filled.as_str());
    rest.append(FEATURES_6);
    rest.append(color.as_str());
    rest.append(FEATURES_7);
    rest.append(regular.as_str());
    rest.append(FEATURES_8);
    rest.append(light.as_str());
    rest.append(FEATURES_9);
    rest.append(filled.as_str());
    rest.append(FEATURES_10);
    rest.append(color.as_str());
    rest.append(FEATURES_11);
    rest.append(regular.as_str());
    rest.append(FEATURES_12);
    rest.append(light.as_str());
    rest.append(FEATURES_13);
    let mut out: String = write_table(icons, FEATURES_0, FEATURES_1, FEATURES_2, FEATURES_3, FEATURES_4);
    out.append(rest.as_str());
    out
}

/// Writes [`naming_table`].
fn write_naming_table() -> (r: String)
    ensures
        r@ == naming_table(),
{
    let mut r: String = write_row(STEM_0, GAP_0, FUNCTION_0, END_0);
    r.append(write_row(STEM_1, GAP_1, FUNCTION_1, END_1).as_str());
    r.append(write_row(STEM_2, GAP_2, FUNCTION_2, END_2).as_str());
    r.append(write_row(STEM_3, GAP_3, FUNCTION_3, END_3).as_str());
    r
}

/// The overview of the crate, with the icon counts of the catalogue.
pub fn tool_get_crate_info(icons: &Vec<McpIconEntry>) -> (r: String)
    ensures
        r@ == crate_info_text(counts_of(catalogue::catalogue_view(icons@))),
{
    let mut rest: String = CRATE_INFO_5.to_owned();
    rest.append(write_naming_table().as_str());
    rest.append(CRATE_INFO_6);
    let mut out: String = write_table(icons, CRATE_INFO_0, CRATE_INFO_1, CRATE_INFO_2, CRATE_INFO_3, CRATE_INFO_4);
    out.append(rest.as_str());
    out
}

/// What stands in a text still stands there when more is written behind it.
proof fn lemma_shown_before(shown: Seq<char>, more: Seq<char>, needle: Seq<char>)
    requires
        text::has_substring(shown, needle),
    ensures
        text::has_substring(shown + more, needle),
{
    let none = Seq::<char>::empty();
    text::lemma_substring_within(none, shown, more, needle);
    assert(none + shown + more =~= shown + more);
}

/// What is written at the end of a text stands in it.
proof fn lemma_shown_last(before: Seq<char>, needle: Seq<char>)
    ensures
        text::has_substring(before + needle, needle),
{
    let none = Seq::<char>::empty();
    text::lemma_substring_of_itself(needle);
    text::lemma_substring_within(before, needle, none, needle);
    assert(before + needle + none =~= before + needle);
}

/// A text shows the icon counts: each of the four variants with its count, and the total.
pub open spec fn shows_counts(shown: Seq<char>, n: Counts) -> bool {
    &&& text::has_substring(shown, count_cell(FILLED_LABEL@, n.filled))
    &&& text::has_substring(shown, count_cell(COLOR_LABEL@, n.color))
    &&& text::has_substring(shown, count_cell(REGULAR_LABEL@, n.regular))
    &&& text::has_substring(shown, count_cell(LIGHT_LABEL@, n.light))
    &&& text::has_substring(shown, total_cell(n.total))
}

proof fn lemma_table_shows_counts(
    n: Counts,
    p0: Seq<char>,
    p1: Seq<char>,
    p2: Seq<char>,
    p3: Seq<char>,
    p4: Seq<char>,
)
    ensures
        shows_counts(count_table(n, p0, p1, p2, p3, p4), n),
{
    let filled = count_cell(FILLED_LABEL@, n.filled);
    let color = count_cell(COLOR_LABEL@, n.color);
    let regular = count_cell(REGULAR_LABEL@, n.regular);
    let light = count_cell(LIGHT_LABEL@, n.light);
    let total = total_cell(n.total);
    let s1 = p0 + filled;
    let s2 = s1 + p1 + color;
    let s3 = s2 + p2 + regular;
    let s4 = s3 + p3 + light;
    lemma_shown_last(p0, filled);
    lemma_shown_before(s1, p1, filled);
    lemma_shown_before(s1 + p1, color, filled);
    lemma_shown_last(s1 + p1, color);
    lemma_shown_before(s2, p2, filled);
    lemma_shown_before(s2 + p2, regular, filled);
    lemma_shown_before(s2, p2, color);
    lemma_shown_before(s2 + p2, regular, color);
    lemma_shown_last(s2 + p2, regular);
    lemma_shown_before(s3, p3, filled);
    lemma_shown_before(s3 + p3, light, filled);
    lemma_shown_before(s3, p3, color);
    lemma_shown_before(s3 + p3, light, color);
    lemma_shown_before(s3, p3, regular);
    lemma_shown_before(s3 + p3, light, regular);
    lemma_shown_last(s3 + p3, light);
    lemma_shown_before(s4, p4, filled);
    lemma_shown_before(s4 + p4, total, filled);
    lemma_shown_before(s4, p4, color);
    lemma_shown_before(s4 + p4, total, color);
    lemma_shown_before(s4, p4, regular);
    lemma_shown_before(s4 + p4, total, regular);
    lemma_shown_before(s4, p4, light);
    lemma_shown_before(s4 + p4, total, light);
    lemma_shown_last(s4 + p4, total);
}

proof fn lemma_counts_shown_before(shown: Seq<char>, more: Seq<char>, n: Counts)
    requires
        shows_counts(shown, n),
    ensures
        shows_counts(shown + more, n),
{
    lemma_shown_before(shown, more, count_cell(FILLED_LABEL@, n.filled));
    lemma_shown_before(shown, more, count_cell(COLOR_LABEL@, n.color));
    lemma_shown_before(shown, more, count_cell(REGULAR_LABEL@, n.regular));
    lemma_shown_before(shown, more, count_cell(LIGHT_LABEL@, n.light));
    lemma_shown_before(shown, more, total_cell(n.total));
}

/// Both overviews of a catalogue show the same counts: the number of icons of each variant,
/// and of all icons.
pub proof fn law_overviews_show_the_same_counts(icons: Seq<catalogue::EntryView>)
    ensures
        shows_counts(features_text(counts_of(icons)), counts_of(icons)),
        shows_counts(crate_info_text(counts_of(icons)), counts_of(icons)),
{
    let n = counts_of(icons);
    lemma_table_shows_counts(n, FEATURES_0@, FEATURES_1@, FEATURES_2@, FEATURES_3@, FEATURES_4@);
    lemma_counts_shown_before(count_table(n, FEATURES_0@, FEATURES_1@, FEATURES_2@, FEATURES_3@, FEATURES_4@), features_rest(n), n);
    lemma_table_shows_counts(n, CRATE_INFO_0@, CRATE_INFO_1@, CRATE_INFO_2@, CRATE_INFO_3@, CRATE_INFO_4@);
    lemma_counts_shown_before(count_table(n, CRATE_INFO_0@, CRATE_INFO_1@, CRATE_INFO_2@, CRATE_INFO_3@, CRATE_INFO_4@), crate_info_rest(), n);
}

/// In each row of the naming table of the crate overview, the function is the snake-case form
/// of the file's stem.
pub proof fn law_naming_table_follows_the_rule(n: Counts)
    ensures
        FUNCTION_0@ == naming::snake_case(STEM_0@),
        FUNCTION_1@ == naming::snake_case(STEM_1@),
        FUNCTION_2@ == naming::snake_case(STEM_2@),
        FUNCTION_3@ == naming::snake_case(STEM_3@),
        text::has_substring(
            crate_info_text(n),
            naming_row(STEM_0@, GAP_0@, naming::snake_case(STEM_0@), END_0@),
        ),
        text::has_substring(
            crate_info_text(n),
            naming_row(STEM_1@, GAP_1@, naming::snake_case(STEM_1@), END_1@),
        ),
        text::has_substring(
            crate_info_text(n),
            naming_row(STEM_2@, GAP_2@, naming::snake_case(STEM_2@), END_2@),
        ),
        text::has_substring(
            crate_info_text(n),
            naming_row(STEM_3@, GAP_3@, naming::snake_case(STEM_3@), END_3@),
        ),
{
    lemma_row_0();
    lemma_row_1();
    lemma_row_2();
    lemma_row_3();
    let r0 = naming_row(STEM_0@, GAP_0@, FUNCTION_0@, END_0@);
    let r1 = naming_row(STEM_1@, GAP_1@, FUNCTION_1@, END_1@);
    let r2 = naming_row(STEM_2@, GAP_2@, FUNCTION_2@, END_2@);
    let r3 = naming_row(STEM_3@, GAP_3@, FUNCTION_3@, END_3@);
    let none = Seq::<char>::empty();
    lemma_shown_last(none, r0);
    assert(none + r0 =~= r0);
    let t1 = r0 + r1;
    let t2 = t1 + r2;
    lemma_shown_before(r0, r1, r0);
    lemma_shown_last(r0, r1);
    lemma_shown_before(t1, r2, r0);
    lemma_shown_before(t1, r2, r1);
    lemma_shown_last(t1, r2);
    lemma_shown_before(t2, r3, r0);
    lemma_shown_before(t2, r3, r1);
    lemma_shown_before(t2, r3, r2);
    lemma_shown_last(t2, r3);
    lemma_row_in_overview(n, r0);
    lemma_row_in_overview(n, r1);
    lemma_row_in_overview(n, r2);
    lemma_row_in_overview(n, r3);
}

proof fn lemma_row_in_overview(n: Counts, row: Seq<char>)
    requires
        text::has_substring(naming_table(), row),
    ensures
        text::has_substring(crate_info_text(n), row),
{
    let table = count_table(
        n,
        CRATE_INFO_0@,
        CRATE_INFO_1@,
        CRATE_INFO_2@,
        CRATE_INFO_3@,
        CRATE_INFO_4@,
    );
    let none = Seq::<char>::empty();
    text::lemma_substring_within(CRATE_INFO_5@, naming_table(), CRATE_INFO_6@, row);
    text::lemma_substring_within(table, crate_info_rest(), none, row);
    assert(table + crate_info_rest() + none =~= crate_info_text(n));
}

/// Row 0 of the naming table follows the rule.
proof fn lemma_row_0()
    ensures
        FUNCTION_0@ == naming::snake_case(STEM_0@),
{
    reveal_strlit("AddRegular");
    reveal_strlit("add_regular");
    let s = STEM_0@;
    assert(s =~= seq!['A', 'd', 'd', 'R', 'e', 'g', 'u', 'l', 'a', 'r']);
    assert(FUNCTION_0@ =~= seq!['a', 'd', 'd', '_', 'r', 'e', 'g', 'u', 'l', 'a', 'r']);
    variant::lemma_word_prefix(s, 0, 3);
    variant::lemma_word_prefix(s, 3, 10);
    assert(FUNCTION_0@ =~= naming::snake_prefix(s, 10));
}

/// Row 1 of the naming table follows the rule.
proof fn lemma_row_1()
    ensures
        FUNCTION_1@ == naming::snake_case(STEM_1@),
{
    reveal_strlit("DismissCircleColor");
    reveal_strlit("dismiss_circle_color");
    let s = STEM_1@;
    assert(s =~= seq!['D', 'i', 's', 'm', 'i', 's', 's', 'C', 'i', 'r', 'c', 'l', 'e', 'C', 'o', 'l', 'o', 'r']);
    assert(FUNCTION_1@ =~= seq!['d', 'i', 's', 'm', 'i', 's', 's', '_', 'c', 'i', 'r', 'c', 'l', 'e', '_', 'c', 'o', 'l', 'o', 'r']);
    variant::lemma_word_prefix(s, 0, 7);
    variant::lemma_word_prefix(s, 7, 13);
    variant::lemma_word_prefix(s, 13, 18);
    assert(FUNCTION_1@ =~= naming::snake_prefix(s, 18));
}

/// Row 2 of the naming table follows the rule.
proof fn lemma_row_2()
    ensures
        FUNCTION_2@ == naming::snake_case(STEM_2@),
{
    reveal_strlit("AccessibilityCheckmarkFilled");
    reveal_strlit("accessibility_checkmark_filled");
    let s = STEM_2@;
    assert(s =~= seq!['A', 'c', 'c', 'e', 's', 's', 'i', 'b', 'i', 'l', 'i', 't', 'y', 'C', 'h', 'e', 'c', 'k', 'm', 'a', 'r', 'k', 'F', 'i', 'l', 'l', 'e', 'd']);
    assert(FUNCTION_2@ =~= seq!['a', 'c', 'c', 'e', 's', 's', 'i', 'b', 'i', 'l', 'i', 't', 'y', '_', 'c', 'h', 'e', 'c', 'k', 'm', 'a', 'r', 'k', '_', 'f', 'i', 'l', 'l', 'e', 'd']);
    variant::lemma_word_prefix(s, 0, 13);
    variant::lemma_word_prefix(s, 13, 22);
    variant::lemma_word_prefix(s, 22, 28);
    assert(FUNCTION_2@ =~= naming::snake_prefix(s, 28));
}

/// Row 3 of the naming table follows the rule.
proof fn lemma_row_3()
    ensures
        FUNCTION_3@ == naming::snake_case(STEM_3@),
{
    reveal_strlit("ArrowTrendingCheckmarkRegular");
    reveal_strlit("arrow_trending_checkmark_regular");
    let s = STEM_3@;
    assert(s =~= seq!['A', 'r', 'r', 'o', 'w', 'T', 'r', 'e', 'n', 'd', 'i', 'n', 'g', 'C', 'h', 'e', 'c', 'k', 'm', 'a', 'r', 'k', 'R', 'e', 'g', 'u', 'l', 'a', 'r']);
    assert(FUNCTION_3@ =~= seq!['a', 'r', 'r', 'o', 'w', '_', 't', 'r', 'e', 'n', 'd', 'i', 'n', 'g', '_', 'c', 'h', 'e', 'c', 'k', 'm', 'a', 'r', 'k', '_', 'r', 'e', 'g', 'u', 'l', 'a', 'r']);
    variant::lemma_word_prefix(s, 0, 5);
    variant::lemma_word_prefix(s, 5, 13);
    variant::lemma_word_prefix(s, 13, 22);
    variant::lemma_word_prefix(s, 22, 29);
    assert(FUNCTION_3@ =~= naming::snake_prefix(s, 29));
}

/// Both overviews show, behind each variant's label, the number of the catalogue's icons that
/// have this variant, and the number of all icons behind the total's.
pub proof fn law_each_label_has_its_count(icons: Seq<catalogue::EntryView>)
    ensures
        text::has_substring(
            features_text(counts_of(icons)),
            "| Filled   | "@ + text::decimal(catalogue::variant_count(icons, "Filled"@)) + " "@,
        ),
        text::has_substring(
            features_text(counts_of(icons)),
            "| Color    | "@ + text::decimal(catalogue::variant_count(icons, "Color"@)) + " "@,
        ),
        text::has_substring(
            features_text(counts_of(icons)),
            "| Regular  | "@ + text::decimal(catalogue::variant_count(icons, "Regular"@)) + " "@,
        ),
        text::has_substring(
            features_text(counts_of(icons)),
            "| Light    | "@ + text::decimal(catalogue::variant_count(icons, "Light"@)) + " "@,
        ),
        text::has_substring(
            features_text(counts_of(icons)),
            "| **Total**| **"@ + text::decimal(icons.len()) + "** |"@,
        ),
        text::has_substring(
            crate_info_text(counts_of(icons)),
            "| Filled   | "@ + text::decimal(catalogue::variant_count(icons, "Filled"@)) + " "@,
        ),
        text::has_substring(
            crate_info_text(counts_of(icons)),
            "| Color    | "@ + text::decimal(catalogue::variant_count(icons, "Color"@)) + " "@,
        ),
        text::has_substring(
            crate_info_text(counts_of(icons)),
            "| Regular  | "@ + text::decimal(catalogue::variant_count(icons, "Regular"@)) + " "@,
        ),
        text::has_substring(
            crate_info_text(counts_of(icons)),
            "| Light    | "@ + text::decimal(catalogue::variant_count(icons, "Light"@)) + " "@,
        ),
        text::has_substring(
            crate_info_text(counts_of(icons)),
            "| **Total**| **"@ + text::decimal(icons.len()) + "** |"@,
        ),
{
    law_overviews_show_the_same_counts(icons);
}

/// The feature overview shows in each row, of what a feature removes and of what it keeps, the
/// number of the catalogue's icons that have the row's variant.
pub proof fn law_each_feature_has_its_count(icons: Seq<catalogue::EntryView>)
    ensures
        text::has_substring(
            features_text(counts_of(icons)),
            FEATURES_5@ + text::decimal(catalogue::variant_count(icons, "Filled"@)),
        ),
        text::has_substring(
            features_text(counts_of(icons)),
            FEATURES_6@ + text::decimal(catalogue::variant_count(icons, "Color"@)),
        ),
        text::has_substring(
            features_text(counts_of(icons)),
            FEATURES_7@ + text::decimal(catalogue::variant_count(icons, "Regular"@)),
        ),
        text::has_substring(
            features_text(counts_of(icons)),
            FEATURES_8@ + text::decimal(catalogue::variant_count(icons, "Light"@)),
        ),
        text::has_substring(
            features_text(counts_of(icons)),
            FEATURES_9@ + text::decimal(catalogue::variant_count(icons, "Filled"@)),
        ),
        text::has_substring(
            features_text(counts_of(icons)),
            FEATURES_10@ + text::decimal(catalogue::variant_count(icons, "Color"@)),
        ),
        text::has_substring(
            features_text(counts_of(icons)),
            FEATURES_11@ + text::decimal(catalogue::variant_count(icons, "Regular"@)),
        ),
        text::has_substring(
            features_text(counts_of(icons)),
            FEATURES_12@ + text::decimal(catalogue::variant_count(icons, "Light"@)),
        ),
{
    let n = counts_of(icons);
    let d0 = text::decimal(n.filled);
    let d1 = text::decimal(n.color);
    let d2 = text::decimal(n.regular);
    let d3 = text::decimal(n.light);
    let d4 = text::decimal(n.filled);
    let d5 = text::decimal(n.color);
    let d6 = text::decimal(n.regular);
    let d7 = text::decimal(n.light);
    let none = Seq::<char>::empty();
    let s0 = FEATURES_5@ + d0;
    lemma_shown_last(none, s0);
    assert(none + s0 =~= s0);
    let s1 = s0 + FEATURES_6@ + d1;
    assert(s1 =~= s0 + (FEATURES_6@ + d1));
    lemma_shown_last(s0, FEATURES_6@ + d1);
    lemma_shown_before(s0, FEATURES_6@ + d1, FEATURES_5@ + d0);
    let s2 = s1 + FEATURES_7@ + d2;
    assert(s2 =~= s1 + (FEATURES_7@ + d2));
    lemma_shown_last(s1, FEATURES_7@ + d2);
    lemma_shown_before(s1, FEATURES_7@ + d2, FEATURES_5@ + d0);
    lemma_shown_before(s1, FEATURES_7@ + d2, FEATURES_6@ + d1);
    let s3 = s2 + FEATURES_8@ + d3;
    assert(s3 =~= s2 + (FEATURES_8@ + d3));
    lemma_shown_last(s2, FEATURES_8@ + d3);
    lemma_shown_before(s2, FEATURES_8@ + d3, FEATURES_5@ + d0);
    lemma_shown_before(s2, FEATURES_8@ + d3, FEATURES_6@ + d1);
    lemma_shown_before(s2, FEATURES_8@ + d3, FEATURES_7@ + d2);
    let s4 = s3 + FEATURES_9@ + d4;
    assert(s4 =~= s3 + (FEATURES_9@ + d4));
    lemma_shown_last(s3, FEATURES_9@ + d4);
    lemma_shown_before(s3, FEATURES_9@ + d4, FEATURES_5@ + d0);
    lemma_shown_before(s3, FEATURES_9@ + d4, FEATURES_6@ + d1);
    lemma_shown_before(s3, FEATURES_9@ + d4, FEATURES_7@ + d2);
    lemma_shown_before(s3, FEATURES_9@ + d4, FEATURES_8@ + d3);
    let s5 = s4 + FEATURES_10@ + d5;
    assert(s5 =~= s4 + (FEATURES_10@ + d5));
    lemma_shown_last(s4, FEATURES_10@ + d5);
    lemma_shown_before(s4, FEATURES_10@ + d5, FEATURES_5@ + d0);
    lemma_shown_before(s4, FEATURES_10@ + d5, FEATURES_6@ + d1);
    lemma_shown_before(s4, FEATURES_10@ + d5, FEATURES_7@ + d2);
    lemma_shown_before(s4, FEATURES_10@ + d5, FEATURES_8@ + d3);
    lemma_shown_before(s4, FEATURES_10@ + d5, FEATURES_9@ + d4);
    let s6 = s5 + FEATURES_11@ + d6;
    assert(s6 =~= s5 + (FEATURES_11@ + d6));
    lemma_shown_last(s5, FEATURES_11@ + d6);
    lemma_shown_before(s5, FEATURES_11@ + d6, FEATURES_5@ + d0);
    lemma_shown_before(s5, FEATURES_11@ + d6, FEATURES_6@ + d1);
    lemma_shown_before(s5, FEATURES_11@ + d6, FEATURES_7@ + d2);
    lemma_shown_before(s5, FEATURES_11@ + d6, FEATURES_8@ + d3);
    lemma_shown_before(s5, FEATURES_11@ + d6, FEATURES_9@ + d4);
    lemma_shown_before(s5, FEATURES_11@ + d6, FEATURES_10@ + d5);
    let s7 = s6 + FEATURES_12@ + d7;
    assert(s7 =~= s6 + (FEATURES_12@ + d7));
    lemma_shown_last(s6, FEATURES_12@ + d7);
    lemma_shown_before(s6, FEATURES_12@ + d7, FEATURES_5@ + d0);
    lemma_shown_before(s6, FEATURES_12@ + d7, FEATURES_6@ + d1);
    lemma_shown_before(s6, FEATURES_12@ + d7, FEATURES_7@ + d2);
    lemma_shown_before(s6, FEATURES_12@ + d7, FEATURES_8@ + d3);
    lemma_shown_before(s6, FEATURES_12@ + d7, FEATURES_9@ + d4);
    lemma_shown_before(s6, FEATURES_12@ + d7, FEATURES_10@ + d5);
    lemma_shown_before(s6, FEATURES_12@ + d7, FEATURES_11@ + d6);
    lemma_shown_before(s7, FEATURES_13@, FEATURES_5@ + d0);
    lemma_shown_behind_table(n, FEATURES_5@ + d0);
    lemma_shown_before(s7, FEATURES_13@, FEATURES_6@ + d1);
    lemma_shown_behind_table(n, FEATURES_6@ + d1);
    lemma_shown_before(s7, FEATURES_13@, FEATURES_7@ + d2);
    lemma_shown_behind_table(n, FEATURES_7@ + d2);
    lemma_shown_before(s7, FEATURES_13@, FEATURES_8@ + d3);
    lemma_shown_behind_table(n, FEATURES_8@ + d3);
    lemma_shown_before(s7, FEATURES_13@, FEATURES_9@ + d4);
    lemma_shown_behind_table(n, FEATURES_9@ + d4);
    lemma_shown_before(s7, FEATURES_13@, FEATURES_10@ + d5);
    lemma_shown_behind_table(n, FEATURES_10@ + d5);
    lemma_shown_before(s7, FEATURES_13@, FEATURES_11@ + d6);
    lemma_shown_behind_table(n, FEATURES_11@ + d6);
    lemma_shown_before(s7, FEATURES_13@, FEATURES_12@ + d7);
    lemma_shown_behind_table(n, FEATURES_12@ + d7);
}

/// What the feature overview shows behind its table of counts, it shows.
proof fn lemma_shown_behind_table(n: Counts, needle: Seq<char>)
    requires
        text::has_substring(features_rest(n), needle),
    ensures
        text::has_substring(features_text(n), needle),
{
    let table = count_table(n, FEATURES_0@, FEATURES_1@, FEATURES_2@, FEATURES_3@, FEATURES_4@);
    let none = Seq::<char>::empty();
    text::lemma_substring_within(table, features_rest(n), none, needle);
    assert(table + features_rest(n) + none =~= features_text(n));
}

}
