use fluentui_icons::naming::{to_snake_case, validate_stem, StemFault};
use fluentui_icons::variant::{catalogue_entry, find_variant, Variant};

#[test]
fn basic_camel_case() {
    assert_eq!(to_snake_case("AddRegular"), "add_regular");
    assert_eq!(to_snake_case("DocumentAddColor"), "document_add_color");
    assert_eq!(to_snake_case("DismissCircleColor"), "dismiss_circle_color");
    assert_eq!(to_snake_case("AccessTime"), "access_time");
    assert_eq!(to_snake_case("Filled"), "filled");
}

#[test]
fn long_names() {
    assert_eq!(to_snake_case("AccessibilityCheckmarkFilled"), "accessibility_checkmark_filled");
    assert_eq!(to_snake_case("AddSubtractCircleFilled"), "add_subtract_circle_filled");
    assert_eq!(to_snake_case("AccessTimeFilled"), "access_time_filled");
}

#[test]
fn acronym_boundaries() {
    assert_eq!(to_snake_case("HTMLParser"), "html_parser");
    assert_eq!(to_snake_case("SVGColor"), "svg_color");
    assert_eq!(to_snake_case("AddSVGFilled"), "add_svg_filled");
}

#[test]
fn digits_in_name() {
    // digit counts as a lowercase boundary trigger
    assert_eq!(to_snake_case("Add24Filled"), "add24_filled");
    assert_eq!(to_snake_case("Alert20Regular"), "alert20_regular");
}

#[test]
fn leading_underscore_preserved() {
    assert_eq!(to_snake_case("_Private"), "_private");
}

#[test]
fn consecutive_underscores_collapsed() {
    // underscores in input should not produce runs of underscores
    assert_eq!(to_snake_case("Some_Name"), "some_name");
}

#[test]
fn documented_file_names() {
    assert_eq!(to_snake_case("AlertUrgentRegular"), "alert_urgent_regular");
    assert_eq!(to_snake_case("ArrowTrendingCheckmarkRegular"), "arrow_trending_checkmark_regular");
}

#[test]
fn unusual_names() {
    assert_eq!(to_snake_case(""), "_");
    assert_eq!(to_snake_case("_"), "_");
    assert_eq!(to_snake_case("___"), "_");
    assert_eq!(to_snake_case("Some__Name"), "some_name");
    assert_eq!(to_snake_case("A"), "a");
    assert_eq!(to_snake_case("ABC"), "abc");
    assert_eq!(to_snake_case("aB"), "a_b");
    assert_eq!(to_snake_case("\u{e9}Tape"), "\u{e9}tape");
}

#[test]
fn snake_case_is_idempotent() {
    for stem in ["HTMLParser", "Some__Name", "_Private", "", "Add24Filled", "A_B__C"] {
        let once = to_snake_case(stem);
        assert_eq!(to_snake_case(&once), once);
        assert!(!once.contains("__"));
        let kept: String = once.chars().filter(|c| *c != '_').collect();
        let lowered: String = stem.to_lowercase().chars().filter(|c| *c != '_').collect();
        assert_eq!(kept, lowered);
    }
}

#[test]
fn stems_are_validated() {
    assert_eq!(validate_stem("AddRegular"), Ok(()));
    assert_eq!(validate_stem("_x9"), Ok(()));
    assert_eq!(validate_stem(""), Err(StemFault::Empty));
    assert_eq!(validate_stem("9Lives"), Err(StemFault::Start));
    assert_eq!(validate_stem("-dash"), Err(StemFault::Start));
    assert_eq!(validate_stem("Add-Regular"), Err(StemFault::Character));
    assert_eq!(validate_stem("Caf\u{e9}"), Err(StemFault::Character));
}

#[test]
fn variants_are_found_by_suffix() {
    assert_eq!(find_variant("HomeFilled"), Some(Variant::Filled));
    assert_eq!(find_variant("HomeColor"), Some(Variant::Color));
    assert_eq!(find_variant("HomeRegular"), Some(Variant::Regular));
    assert_eq!(find_variant("HomeLight"), Some(Variant::Light));
    assert_eq!(find_variant("Home"), None);
    assert_eq!(find_variant("Homefilled"), None);
    assert_eq!(find_variant("ed"), None);
}

#[test]
fn catalogue_entries_follow_the_stem() {
    let e = catalogue_entry("AccessTimeFilled");
    assert_eq!(e.fn_name, "access_time_filled");
    assert_eq!(e.variant, "Filled");
    assert_eq!(e.base_name, "AccessTime");
    let e = catalogue_entry("Plain");
    assert_eq!((e.fn_name.as_str(), e.variant.as_str(), e.base_name.as_str()), ("plain", "", "Plain"));
    for stem in ["Add24Filled", "SVGColor", "Some_Regular", "xLight"] {
        let e = catalogue_entry(stem);
        assert!(e.fn_name.ends_with(&format!("_{}", e.variant.to_lowercase())));
        assert_eq!(format!("{}{}", e.base_name, e.variant), stem);
    }
}
