use fluentui_icons::files::{collect_svg_files, is_kept, Features, IconPath};
use fluentui_icons::inventory::{build_icon_map, icon_size, map_for, Expression, IconSize};
use fluentui_icons::stubs::{expand_declare, generate_stub, stubs_for, with_forward_slashes};
use fluentui_icons::variant::Variant;

const NONE: Features = Features {
    no_filled: false,
    no_color: false,
    no_regular: false,
    no_light: false,
    only_filled: false,
    only_color: false,
    only_regular: false,
    only_light: false,
};

fn file(name: &str) -> IconPath {
    let (stem, extension) = match name.rfind('.') {
        Some(i) if i > 0 => (name[..i].to_owned(), Some(name[i + 1..].to_owned())),
        _ => (name.to_owned(), None),
    };
    IconPath {
        path: format!("/icons/{name}"),
        file_name: Some(name.to_owned()),
        file_stem: Some(stem),
        extension,
        is_file: true,
    }
}

fn names(files: &Vec<IconPath>) -> Vec<String> {
    files.iter().map(|f| f.file_name.clone().unwrap_or_default()).collect()
}

fn call(path: &[&str], args: usize) -> Expression {
    Expression::PathCall { segments: path.iter().map(|s| s.to_string()).collect(), args }
}

#[test]
fn only_svg_files_are_collected_in_order() {
    let mut folder = file("Folder.svg");
    folder.is_file = false;
    let listing = vec![
        file("HomeFilled.svg"),
        file("readme.md"),
        file("AddRegular.SVG"),
        folder,
        file("svg"),
        file("addRegular.svg"),
        file("Add.svg"),
    ];
    let found = collect_svg_files(listing, &NONE);
    assert_eq!(names(&found), ["Add.svg", "AddRegular.SVG", "HomeFilled.svg", "addRegular.svg"]);
}

#[test]
fn listing_order_does_not_matter() {
    let forward = vec![file("A.svg"), file("B.svg"), file("C.svg"), file("D.svg"), file("E.svg")];
    let shuffled = vec![file("D.svg"), file("A.svg"), file("E.svg"), file("C.svg"), file("B.svg")];
    assert_eq!(
        names(&collect_svg_files(forward, &NONE)),
        names(&collect_svg_files(shuffled, &NONE))
    );
}

#[test]
fn unreadable_names_come_first() {
    let mut odd = file("x.svg");
    odd.file_name = None;
    odd.file_stem = None;
    let found = collect_svg_files(vec![file("A.svg"), odd], &NONE);
    assert_eq!(names(&found), ["", "A.svg"]);
    assert_eq!(
        generate_stub(&found[0]).unwrap_err().message(),
        "icon path has a non-UTF-8 filename"
    );
}

#[test]
fn variants_can_be_left_out() {
    let listing = || {
        vec![
            file("HomeFilled.svg"),
            file("HomeColor.svg"),
            file("HomeRegular.svg"),
            file("HomeLight.svg"),
            file("Home.svg"),
        ]
    };
    let no_light_no_color = Features { no_light: true, no_color: true, ..NONE };
    assert_eq!(
        names(&collect_svg_files(listing(), &no_light_no_color)),
        ["Home.svg", "HomeFilled.svg", "HomeRegular.svg"]
    );
    let no_filled_no_regular = Features { no_filled: true, no_regular: true, ..NONE };
    assert_eq!(
        names(&collect_svg_files(listing(), &no_filled_no_regular)),
        ["Home.svg", "HomeColor.svg", "HomeLight.svg"]
    );
    assert_eq!(collect_svg_files(listing(), &NONE).len(), 5);
}

#[test]
fn only_named_variants_can_be_kept() {
    let listing = || {
        vec![
            file("HomeFilled.svg"),
            file("HomeColor.svg"),
            file("HomeRegular.svg"),
            file("HomeLight.svg"),
            file("Home.svg"),
        ]
    };
    let kept = |features: Features| names(&collect_svg_files(listing(), &features));
    assert_eq!(kept(Features { only_filled: true, ..NONE }), ["HomeFilled.svg"]);
    assert_eq!(kept(Features { only_color: true, ..NONE }), ["HomeColor.svg"]);
    assert_eq!(kept(Features { only_regular: true, ..NONE }), ["HomeRegular.svg"]);
    assert_eq!(kept(Features { only_light: true, ..NONE }), ["HomeLight.svg"]);
    assert_eq!(
        kept(Features { only_regular: true, only_filled: true, ..NONE }),
        ["HomeFilled.svg", "HomeRegular.svg"]
    );
    // what is kept by name is kept, whatever is left out by name
    assert_eq!(
        kept(Features { only_light: true, no_light: true, no_color: true, ..NONE }),
        ["HomeLight.svg"]
    );
    assert!(is_kept(&NONE, None));
    assert!(is_kept(&NONE, Some(Variant::Color)));
    assert!(!is_kept(&Features { only_color: true, ..NONE }, None));
}

#[test]
fn icons_that_are_left_out_are_neither_declared_nor_embedded() {
    let listing = || vec![file("AddRegular.svg"), file("AddFilled.svg"), file("notes.txt")];
    let only_regular = Features { only_regular: true, ..NONE };
    let stubs = expand_declare(listing(), &only_regular).unwrap();
    let found: Vec<&str> = stubs.iter().map(|s| s.fn_name.as_str()).collect();
    assert_eq!(found, ["add_regular"]);
    let icons = build_icon_map(listing(), &only_regular);
    let regular = icons.replacement(&call(&["add_regular"], 0)).unwrap();
    assert_eq!(regular.svg_path, "/icons/AddRegular.svg");
    assert!(icons.replacement(&call(&["add_filled"], 0)).is_none());
    let all = build_icon_map(listing(), &NONE);
    assert!(all.replacement(&call(&["add_filled"], 0)).is_some());
    let stubs = expand_declare(listing(), &NONE).unwrap();
    let found: Vec<&str> = stubs.iter().map(|s| s.fn_name.as_str()).collect();
    assert_eq!(found, ["add_filled", "add_regular"]);
}

#[test]
fn sizes_are_as_asked() {
    let size = |args: &[(&str, u16)]| -> IconSize {
        icon_size(&args.iter().map(|(n, v)| (n.to_string(), *v)).collect())
    };
    assert_eq!(size(&[]), IconSize { width: 24, height: 24 });
    assert_eq!(size(&[("size", 32)]), IconSize { width: 32, height: 32 });
    assert_eq!(size(&[("width", 20), ("height", 48)]), IconSize { width: 20, height: 48 });
    assert_eq!(size(&[("width", 20)]), IconSize { width: 20, height: 24 });
    assert_eq!(size(&[("size", 32), ("height", 16)]), IconSize { width: 32, height: 16 });
    assert_eq!(size(&[("depth", 7)]), IconSize { width: 24, height: 24 });

    let icons = map_for(&vec![file("AddRegular.svg")]);
    let add = call(&["add_regular"], 0);
    let found = icons.replacement_at(&add, size(&[("width", 20), ("height", 48)])).unwrap();
    assert_eq!((found.width, found.height), (20, 48));
    assert_eq!(found.svg_path, "/icons/AddRegular.svg");
    let found = icons.replacement(&add).unwrap();
    assert_eq!((found.width, found.height), (24, 24));
    assert!(icons.replacement_at(&call(&["other"], 0), size(&[])).is_none());
}

#[test]
fn stubs_show_and_name_the_icon() {
    let mut f = file("DismissCircleColor.svg");
    f.path = "C:\\icons\\DismissCircleColor.svg".to_owned();
    let stub = generate_stub(&f).unwrap();
    assert_eq!(stub.fn_name, "dismiss_circle_color");
    assert_eq!(stub.image_doc, "![DismissCircleColor](file://C:/icons/DismissCircleColor.svg)");
    assert_eq!(
        stub.detail_doc,
        "`DismissCircleColor.svg` \u{2014} annotate the caller with `#[fluentui_icons::inventory]`."
    );
    assert_eq!(
        stub.panic_msg,
        "icon stub `DismissCircleColor` \u{2014} the calling function must be annotated with `#[fluentui_icons::inventory]`"
    );
}

#[test]
fn stub_errors_say_what_is_wrong() {
    let message = |f: &IconPath| generate_stub(f).unwrap_err().message();
    let mut f = file("Add.svg");
    f.file_stem = None;
    assert_eq!(message(&f), "icon path has a non-UTF-8 file stem");
    f.extension = None;
    assert_eq!(message(&f), "icon path has a non-UTF-8 filename");
    let mut f = file("Add.svg");
    f.file_stem = Some(String::new());
    assert_eq!(message(&f), "icon filename stem is empty");
    assert_eq!(message(&file("1st.svg")), "`1st`: stem must begin with an ASCII letter or `_`");
    assert_eq!(
        message(&file("a b.svg")),
        "`a b`: stem must contain only ASCII letters, digits, and `_`; rename the file to UpperCamelCase"
    );
}

#[test]
fn declaring_gives_a_stub_for_each_icon_or_the_first_error() {
    let stubs = stubs_for(&vec![file("AddRegular.svg"), file("HomeFilled.svg")]).unwrap();
    let found: Vec<&str> = stubs.iter().map(|s| s.fn_name.as_str()).collect();
    assert_eq!(found, ["add_regular", "home_filled"]);
    let failed = stubs_for(&vec![file("Add.svg"), file("1st.svg"), file("a b.svg")]);
    assert_eq!(
        failed.unwrap_err().message(),
        "`1st`: stem must begin with an ASCII letter or `_`"
    );
    assert!(stubs_for(&vec![]).unwrap().is_empty());
}

#[test]
fn all_call_forms_are_replaced_alike() {
    let mut icon = file("DismissCircleColor.svg");
    icon.path = "C:\\icons\\DismissCircleColor.svg".to_owned();
    let icons = map_for(&vec![icon, file("Other.svg")]);
    for path in [
        &["dismiss_circle_color"][..],
        &["fluent", "dismiss_circle_color"],
        &["icons", "fluent", "dismiss_circle_color"],
        &["crate", "icons", "fluent", "dismiss_circle_color"],
    ] {
        let found = icons.replacement(&call(path, 0)).unwrap();
        assert_eq!(found.svg_path, "C:/icons/DismissCircleColor.svg");
        assert_eq!((found.width, found.height), (24, 24));
    }
}

#[test]
fn other_expressions_are_left_alone() {
    let icons = map_for(&vec![file("HomeFilled.svg")]);
    assert!(icons.replacement(&call(&["home_filled"], 1)).is_none());
    assert!(icons.replacement(&call(&["home_regular"], 0)).is_none());
    assert!(icons.replacement(&call(&["home_filled", "new"], 0)).is_none());
    assert!(icons.replacement(&call(&[], 0)).is_none());
    assert!(icons.replacement(&Expression::Other).is_none());
}

#[test]
fn later_files_win_and_unreadable_stems_are_passed_over() {
    let mut odd = file("x.svg");
    odd.file_stem = None;
    let icons = map_for(&vec![file("Some_Name.svg"), odd, file("SomeName.svg")]);
    let found = icons.replacement(&call(&["some_name"], 0)).unwrap();
    assert_eq!(found.svg_path, "/icons/SomeName.svg");
    assert!(icons.replacement(&call(&["x"], 0)).is_none());
}

#[test]
fn slashes_are_turned_forward() {
    assert_eq!(with_forward_slashes("a\\b/c\\"), "a/b/c/");
}
