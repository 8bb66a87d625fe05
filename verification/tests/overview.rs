use fluentui_icons::catalogue::McpIconEntry;
use fluentui_icons::naming::to_snake_case;
use fluentui_icons::overview::{tool_describe_features, tool_get_crate_info};

fn icons() -> Vec<McpIconEntry> {
    let mut all = Vec::new();
    for (variant, count) in [("Filled", 12), ("Color", 3), ("Regular", 1), ("Other", 1)] {
        for i in 0..count {
            all.push(McpIconEntry {
                fn_name: format!("icon{i}"),
                variant: variant.to_owned(),
                base_name: format!("Icon{i}"),
            });
        }
    }
    all
}

#[test]
fn feature_overview_in_full() {
    assert_eq!(tool_describe_features(&icons()), FEATURES);
}

#[test]
fn crate_overview_in_full() {
    assert_eq!(tool_get_crate_info(&icons()), CRATE_INFO);
}

#[test]
fn naming_table_follows_the_rule() {
    let mut rows = 0;
    for line in tool_get_crate_info(&icons()).lines() {
        if let Some((stem, rest)) = line.strip_prefix("| `").and_then(|l| l.split_once(".svg`")) {
            let (_, rest) = rest.split_once('`').unwrap();
            let (function, _) = rest.split_once("()`").unwrap();
            assert_eq!(function, to_snake_case(stem));
            rows += 1;
        }
    }
    assert_eq!(rows, 4);
}

const FEATURES: &str = r#"# iced-fluent-icons — Cargo Feature Flags

## Icon counts by variant
| Variant  | Count |
|----------|-------|
| Filled   | 12  |
| Color    | 3   |
| Regular  | 1 |
| Light    | 0   |
| **Total**| **17** |

---

## Exclusion features  *(default: all variants included)*

These features **remove** an entire variant family, shrinking compile time and binary size.

| Feature      | Removes                | Icons removed |
|--------------|------------------------|---------------|
| `no-filled`  | `*Filled.svg` icons    | 12       |
| `no-color`   | `*Color.svg` icons     | 3        |
| `no-regular` | `*Regular.svg` icons   | 1      |
| `no-light`   | `*Light.svg` icons     | 0        |

**Example** — drop Light and Color variants:
```toml
[dependencies]
iced-fluent-icons = { version = "1.0", features = ["no-light", "no-color"] }
```

---

## Inclusion features  *(keep ONLY the named families)*

Multiple `only-*` features may be combined freely.

| Feature        | Keeps only             | Icons kept |
|----------------|------------------------|------------|
| `only-filled`  | `*Filled.svg` icons    | 12    |
| `only-color`   | `*Color.svg` icons     | 3     |
| `only-regular` | `*Regular.svg` icons   | 1   |
| `only-light`   | `*Light.svg` icons     | 0     |

**Example** — keep only Regular + Filled:
```toml
[dependencies]
iced-fluent-icons = { version = "1.0", features = ["only-regular", "only-filled"] }
```

---

## Notes
- `declare!()` and `#[inventory]` both honour the same feature flags.
- Excluded icons are **never** embedded in the binary.
- Exclusion and inclusion flags operate independently; if both apply, *inclusion* wins over exclusion when they agree.
"#;

const CRATE_INFO: &str = r#"# iced-fluent-icons

Proc-macro crate that embeds Microsoft Fluent UI SVG icons into [iced](https://iced.rs) applications
with **minimal LSP overhead**.

## Icon catalogue
| Variant  | Count  |
|----------|--------|
| Filled   | 12   |
| Color    | 3    |
| Regular  | 1  |
| Light    | 0    |
| **Total**| **17** |

---

## How to use

### 1 — Add the dependency
```toml
[dependencies]
iced-fluent-icons = "1.0"
```

### 2 — Declare stubs once in your icons module
```rust
// src/icons/fluent.rs
iced_fluent_icons::declare!();
```

Each SVG file becomes one `pub fn`. The function:
- Has the correct return type `::iced::widget::Svg<'static>` (IDE completion works)
- Shows a rustdoc image preview on hover in VS Code / JetBrains
- Has a `panic!` body — it is **never executed** at runtime

### 3 — Annotate call sites with `#[inventory]`
```rust
#[iced_fluent_icons::inventory]
fn toolbar() -> iced::Element<'_, Message> {
    let close = icons::fluent::dismiss_circle_color();
    let home  = icons::fluent::home_filled();
    // ...
}
```

`#[inventory]` rewrites every zero-argument icon call to inline `include_bytes!` at
**compile time**, never at LSP time.

#### Supported call forms (all equivalent)
```rust
dismiss_circle_color()                      // after `use icons::fluent::*`
fluent::dismiss_circle_color()
icons::fluent::dismiss_circle_color()
crate::icons::fluent::dismiss_circle_color()
```

#### Works inside widget macros
```rust
#[iced_fluent_icons::inventory]
fn sidebar() -> iced::Element<'_, Message> {
    iced::widget::column![
        icons::fluent::home_filled(),
        icons::fluent::settings_regular(),
    ].into()
}
```

### Custom size (default 24 × 24 px)
```rust
#[iced_fluent_icons::inventory(size = 32)]              // 32 × 32
#[iced_fluent_icons::inventory(width = 20, height = 48)] // 20 × 48
#[iced_fluent_icons::inventory(width = 20)]              // 20 × 24
```

---

## Naming convention

SVG filename (UpperCamelCase) → Rust function name (snake_case):

| SVG file                              | Function                            |
|---------------------------------------|-------------------------------------|
| `AddRegular.svg`                      | `add_regular()`                     |
| `DismissCircleColor.svg`              | `dismiss_circle_color()`            |
| `AccessibilityCheckmarkFilled.svg`    | `accessibility_checkmark_filled()`  |
| `ArrowTrendingCheckmarkRegular.svg`   | `arrow_trending_checkmark_regular()`|

---

## Variant guide

| Variant  | fn suffix    | Description                   |
|----------|--------------|-------------------------------|
| Filled   | `_filled()`  | Solid/filled style            |
| Color    | `_color()`   | Multicolour style             |
| Regular  | `_regular()` | Outline/regular style         |
| Light    | `_light()`   | Thinner stroke, lighter style |

---

## Feature flags (short version)
- `no-filled` / `no-color` / `no-regular` / `no-light` — exclude a variant family
- `only-filled` / `only-color` / `only-regular` / `only-light` — keep only a family

Call the **`describe_features`** tool for full details and examples.
"#;
