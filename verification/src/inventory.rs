//! Which calls are calls of icon stubs, and what takes their place.

use vstd::hash_map::StringHashMap;
use vstd::prelude::*;

use crate::files;
use crate::files::{Features, IconPath, IconPathView};
use crate::naming;
use crate::stubs;
use crate::text;

verus! {

/// The icons by the names of their functions.
pub struct IconMap {
    table: StringHashMap<String>,
}

impl View for IconMap {
    type V = Map<Seq<char>, Seq<char>>;

    closed spec fn view(&self) -> Map<Seq<char>, Seq<char>> {
        self.table@.map_values(|path: String| path@)
    }
}

/// The paths of the icons by the names of their functions. Files without a readable stem are
/// passed over; of two files with one function name the later one counts.
pub open spec fn icon_table(files: Seq<IconPathView>) -> Map<Seq<char>, Seq<char>>
    decreases files.len(),
{
    if files.len() == 0 {
        Map::empty()
    } else {
        match files.last().file_stem {
            Some(stem) => icon_table(files.drop_last()).insert(
                naming::snake_case(stem),
                files.last().path,
            ),
            None => icon_table(files.drop_last()),
        }
    }
}

/// Builds the table of icon files.
pub fn map_for(icons: &Vec<IconPath>) -> (r: IconMap)
    ensures
        r@ == icon_table(files::paths_view(icons@)),
{
    let ghost all = files::paths_view(icons@);
    let mut map: IconMap = IconMap { table: StringHashMap::new() };
    let mut i: usize = 0;
    assert(all.take(0) =~= Seq::empty());
    assert(map@ =~= Map::empty());
    while i < icons.len()
        invariant
            all == files::paths_view(icons@),
            i <= icons.len(),
            map@ == icon_table(all.take(i as int)),
        decreases icons.len() - i,
    {
        let ghost before = map@;
        assert(all.take(i + 1).drop_last() =~= all.take(i as int));
        assert(all.take(i + 1).last() == icons@[i as int]@);
        if let Some(stem) = &icons[i].file_stem {
            let name: String = naming::to_snake_case(stem.as_str());
            let path: String = icons[i].path.clone();
            map.table.insert(name, path);
            assert(map@ =~= before.insert(name@, path@));
        }
        i += 1;
    }
    assert(all.take(icons.len() as int) =~= all);
    map
}

/// Builds the table of all icons of the icon directory. Where no two files have one name, the
/// order of the files, and with it the table, is fixed.
pub fn build_icon_map(entries: Vec<IconPath>, features: &Features) -> (r: IconMap)
    ensures
        exists|icons: Seq<IconPathView>| #[trigger]
            files::collects(files::paths_view(entries@), *features, icons) && r@ == icon_table(
                icons,
            ),
        files::names_differ(files::paths_view(entries@)) ==> forall|icons: Seq<IconPathView>|
            #[trigger] files::collects(files::paths_view(entries@), *features, icons) ==> r@
                == icon_table(icons),
{
    let ghost listing = files::paths_view(entries@);
    let icons: Vec<IconPath> = files::collect_svg_files(entries, features);
    let ghost found = files::paths_view(icons@);
    proof {
        if files::names_differ(listing) {
            assert forall|other: Seq<IconPathView>| #[trigger]
                files::collects(listing, *features, other) implies other == found by {
                files::law_listing_order_does_not_matter(
                    listing,
                    listing,
                    *features,
                    other,
                    found,
                );
            }
        }
    }
    map_for(&icons)
}

/// What matters of an expression: whether it calls a function by its path, with what path,
/// and with how many arguments.
#[derive(Debug)]
pub enum Expression {
    /// A call of the function that the path names.
    PathCall {
        /// The names along the path.
        segments: Vec<String>,
        /// The number of arguments.
        args: usize,
    },
    /// Anything else.
    Other,
}

/// What matters of an expression, as text.
pub enum ExpressionView {
    PathCall { segments: Seq<Seq<char>>, args: nat },
    Other,
}

impl View for Expression {
    type V = ExpressionView;

    open spec fn view(&self) -> ExpressionView {
        match *self {
            Expression::PathCall { segments, args } => ExpressionView::PathCall {
                segments: segments@.map_values(|s: String| s@),
                args: args as nat,
            },
            Expression::Other => ExpressionView::Other,
        }
    }
}

/// The width and the height, in pixels, at which an icon is drawn unless it is asked otherwise.
pub const ICON_SIZE: u16 = 24;

/// A width and a height in pixels.
#[derive(Clone, Copy, Debug, PartialEq, Eq, Structural)]
pub struct IconSize {
    pub width: u16,
    pub height: u16,
}

/// The value of the last argument with the given name, if any.
pub open spec fn argument(arguments: Seq<(Seq<char>, u16)>, name: Seq<char>) -> Option<u16>
    decreases arguments.len(),
{
    if arguments.len() == 0 {
        None
    } else if arguments.last().0 == name {
        Some(arguments.last().1)
    } else {
        argument(arguments.drop_last(), name)
    }
}

/// The length that is asked for under its own name, or else by `size`, or else the usual one.
pub open spec fn asked_length(arguments: Seq<(Seq<char>, u16)>, name: Seq<char>) -> u16 {
    match argument(arguments, name) {
        Some(n) => n,
        None => match argument(arguments, "size"@) {
            Some(n) => n,
            None => ICON_SIZE,
        },
    }
}

/// The size that arguments ask for. Arguments other than `size`, `width` and `height` do not
/// matter.
pub open spec fn asked_size(arguments: Seq<(Seq<char>, u16)>) -> IconSize {
    IconSize {
        width: asked_length(arguments, "width"@),
        height: asked_length(arguments, "height"@),
    }
}

/// Named arguments, as text.
pub open spec fn arguments_view(arguments: Seq<(String, u16)>) -> Seq<(Seq<char>, u16)> {
    arguments.map_values(|a: (String, u16)| (a.0@, a.1))
}

/// Finds [`argument`].
fn find_argument(arguments: &Vec<(String, u16)>, name: &str) -> (r: Option<u16>)
    ensures
        r == argument(arguments_view(arguments@), name@),
{
    let ghost all = arguments_view(arguments@);
    let mut i: usize = arguments.len();
    assert(all.take(all.len() as int) =~= all);
    while i > 0
        invariant
            all == arguments_view(arguments@),
            i <= arguments.len(),
            argument(all, name@) == argument(all.take(i as int), name@),
        decreases i,
    {
        i -= 1;
        assert(all.take(i + 1).last() == (arguments@[i as int].0@, arguments@[i as int].1));
        assert(all.take(i + 1).drop_last() =~= all.take(i as int));
        if text::same_text(arguments[i].0.as_str(), name) {
            return Some(arguments[i].1);
        }
    }
    None
}

/// Finds the length that is asked for under its own name, or else by `size`, or else the usual
/// one.
fn find_length(arguments: &Vec<(String, u16)>, name: &str) -> (r: u16)
    ensures
        r == asked_length(arguments_view(arguments@), name@),
{
    match find_argument(arguments, name) {
        Some(n) => n,
        None => match find_argument(arguments, "size") {
            Some(n) => n,
            None => ICON_SIZE,
        },
    }
}

/// The size that the arguments of `#[inventory]` ask for: `size` for both sides, `width` and
/// `height` for one, and the usual size for a side that none of them speaks of.
pub fn icon_size(arguments: &Vec<(String, u16)>) -> (r: IconSize)
    ensures
        r == asked_size(arguments_view(arguments@)),
{
    IconSize { width: find_length(arguments, "width"), height: find_length(arguments, "height") }
}

/// `size` gives both sides, `width` and `height` give one each whatever stands beside them,
/// and a side that nothing is said of has the usual length.
pub proof fn law_sizes_are_as_asked(n: u16, w: u16, h: u16)
    ensures
        asked_size(Seq::empty()) == (IconSize { width: ICON_SIZE, height: ICON_SIZE }),
        asked_size(seq![("size"@, n)]) == (IconSize { width: n, height: n }),
        asked_size(seq![("width"@, w)]) == (IconSize { width: w, height: ICON_SIZE }),
        asked_size(seq![("height"@, h)]) == (IconSize { width: ICON_SIZE, height: h }),
        asked_size(seq![("width"@, w), ("height"@, h)]) == (IconSize { width: w, height: h }),
        asked_size(seq![("size"@, n), ("width"@, w)]) == (IconSize { width: w, height: n }),
        asked_size(seq![("size"@, n), ("height"@, h)]) == (IconSize { width: n, height: h }),
{
    reveal_strlit("size");
    reveal_strlit("width");
    reveal_strlit("height");
    assert("size"@.len() == 4 && "width"@.len() == 5 && "height"@.len() == 6);
    reveal_with_fuel(argument, 3);
    let two = seq![("width"@, w), ("height"@, h)];
    assert(two.drop_last() =~= seq![("width"@, w)]);
    let sized = seq![("size"@, n), ("width"@, w)];
    assert(sized.drop_last() =~= seq![("size"@, n)]);
    let tall = seq![("size"@, n), ("height"@, h)];
    assert(tall.drop_last() =~= seq![("size"@, n)]);
}

/// What takes the place of an icon call: the icon that is loaded, at its size.
#[derive(Debug)]
pub struct Replacement {
    /// The path of the SVG file, with forward slashes.
    pub svg_path: String,
    /// The width in pixels.
    pub width: u16,
    /// The height in pixels.
    pub height: u16,
}

/// The path of the icon that takes the place of an expression. Only calls without arguments
/// are replaced, and only where the last name along the path is that of an icon.
pub open spec fn replacement_path(
    table: Map<Seq<char>, Seq<char>>,
    expression: ExpressionView,
) -> Option<Seq<char>> {
    match expression {
        ExpressionView::PathCall { segments, args } => if args == 0 && segments.len() > 0
            && table.contains_key(segments.last()) {
            Some(stubs::forward_slashes(table[segments.last()]))
        } else {
            None
        },
        ExpressionView::Other => None,
    }
}

impl IconMap {
    /// Decides whether an expression calls an icon stub, and with what it is replaced if so,
    /// at the given size.
    pub fn replacement_at(&self, expression: &Expression, size: IconSize) -> (r: Option<
        Replacement,
    >)
        ensures
            match r {
                Some(found) => {
                    &&& replacement_path(self@, expression@) == Some(found.svg_path@)
                    &&& found.width == size.width
                    &&& found.height == size.height
                },
                None => replacement_path(self@, expression@) is None,
            },
    {
        match expression {
            Expression::PathCall { segments, args } => {
                if *args != 0 || segments.len() == 0 {
                    return None;
                }
                let name: &String = &segments[segments.len() - 1];
                assert(segments@.map_values(|s: String| s@).last() == name@);
                match self.table.get(name.as_str()) {
                    Some(path) => Some(
                        Replacement {
                            svg_path: stubs::with_forward_slashes(path.as_str()),
                            width: size.width,
                            height: size.height,
                        },
                    ),
                    None => None,
                }
            },
            Expression::Other => None,
        }
    }

    /// Decides whether an expression calls an icon stub, and with what it is replaced if so,
    /// at the usual size.
    pub fn replacement(&self, expression: &Expression) -> (r: Option<Replacement>)
        ensures
            match r {
                Some(found) => {
                    &&& replacement_path(self@, expression@) == Some(found.svg_path@)
                    &&& found.width == ICON_SIZE
                    &&& found.height == ICON_SIZE
                },
                None => replacement_path(self@, expression@) is None,
            },
    {
        self.replacement_at(expression, IconSize { width: ICON_SIZE, height: ICON_SIZE })
    }
}

/// Only the last name of a path counts: a call is replaced alike however much of the path to
/// the icon is written out in front.
pub proof fn law_qualification_does_not_matter(
    table: Map<Seq<char>, Seq<char>>,
    front: Seq<Seq<char>>,
    name: Seq<char>,
    args: nat,
)
    ensures
        replacement_path(
            table,
            ExpressionView::PathCall { segments: front.push(name), args },
        ) == replacement_path(table, ExpressionView::PathCall { segments: seq![name], args }),
{
    assert(front.push(name).last() == name);
    assert(seq![name].last() == name);
}

/// A call with arguments, or of a name that is no icon's, is left as it is.
pub proof fn law_other_calls_are_left_alone(
    table: Map<Seq<char>, Seq<char>>,
    segments: Seq<Seq<char>>,
    args: nat,
)
    requires
        args > 0 || segments.len() == 0 || !table.contains_key(segments.last()),
    ensures
        replacement_path(table, ExpressionView::PathCall { segments, args }) is None,
{
}

/// The names in the table are the function names of the files' stems, and each leads to a
/// file with that function name.
pub proof fn law_table_is_exact(files: Seq<IconPathView>, name: Seq<char>)
    ensures
        icon_table(files).contains_key(name) <==> exists|i: int|
            0 <= i < files.len() && #[trigger] files[i].file_stem is Some && naming::snake_case(
                files[i].file_stem->0,
            ) == name,
        icon_table(files).contains_key(name) ==> exists|i: int|
            0 <= i < files.len() && #[trigger] files[i].file_stem is Some && naming::snake_case(
                files[i].file_stem->0,
            ) == name && files[i].path == icon_table(files)[name],
    decreases files.len(),
{
    if files.len() > 0 {
        let front = files.drop_last();
        let n = files.len() - 1;
        law_table_is_exact(front, name);
        let here = files[n].file_stem is Some && naming::snake_case(files[n].file_stem->0) == name;
        assert(files.last() == files[n]);
        if here {
            assert(files[n].path == icon_table(files)[name]);
        } else {
            if icon_table(front).contains_key(name) {
                let i = choose|i: int|
                    0 <= i < front.len() && #[trigger] front[i].file_stem is Some
                        && naming::snake_case(front[i].file_stem->0) == name && front[i].path
                        == icon_table(front)[name];
                assert(files[i].file_stem is Some);
                assert(files[i] == front[i]);
            }
            if exists|i: int|
                0 <= i < files.len() && #[trigger] files[i].file_stem is Some
                    && naming::snake_case(files[i].file_stem->0) == name {
                let i = choose|i: int|
                    0 <= i < files.len() && #[trigger] files[i].file_stem is Some
                        && naming::snake_case(files[i].file_stem->0) == name;
                assert(i < n);
                assert(front[i].file_stem is Some);
            }
        }
    }
}

/// The table of a directory holds the icons that the features keep, and no others: a name is
/// in it exactly if some listed icon has that function name, and it leads to such an icon. So
/// an icon that is left out is never embedded.
pub proof fn law_only_kept_icons_are_embedded(
    listing: Seq<IconPathView>,
    features: Features,
    icons: Seq<IconPathView>,
    name: Seq<char>,
)
    requires
        files::collects(listing, features, icons),
    ensures
        icon_table(icons).contains_key(name) <==> exists|i: int|
            0 <= i < listing.len() && files::is_icon(#[trigger] listing[i], features)
                && listing[i].file_stem is Some && naming::snake_case(listing[i].file_stem->0)
                == name,
        icon_table(icons).contains_key(name) ==> exists|i: int|
            0 <= i < listing.len() && files::is_icon(#[trigger] listing[i], features)
                && listing[i].file_stem is Some && naming::snake_case(listing[i].file_stem->0)
                == name && listing[i].path == icon_table(icons)[name],
{
    law_table_is_exact(icons, name);
    if icon_table(icons).contains_key(name) {
        let k = choose|k: int|
            0 <= k < icons.len() && #[trigger] icons[k].file_stem is Some && naming::snake_case(
                icons[k].file_stem->0,
            ) == name && icons[k].path == icon_table(icons)[name];
        assert(icons.contains(icons[k]));
        files::law_collected_files_are_the_icons(listing, features, icons, icons[k]);
        let i = choose|i: int| 0 <= i < listing.len() && listing[i] == icons[k];
        assert(files::is_icon(listing[i], features));
    }
    if exists|i: int|
        0 <= i < listing.len() && files::is_icon(#[trigger] listing[i], features)
            && listing[i].file_stem is Some && naming::snake_case(listing[i].file_stem->0)
            == name {
        let i = choose|i: int|
            0 <= i < listing.len() && files::is_icon(#[trigger] listing[i], features)
                && listing[i].file_stem is Some && naming::snake_case(listing[i].file_stem->0)
                == name;
        assert(listing.contains(listing[i]));
        files::law_collected_files_are_the_icons(listing, features, icons, listing[i]);
        let k = choose|k: int| 0 <= k < icons.len() && icons[k] == listing[i];
        assert(icons[k].file_stem is Some);
    }
}

/// Every declared icon is rewritten: where a file gets a stub, a call of that stub without
/// arguments is replaced, under any path. Where no other file has the same function name, what
/// is loaded in its place is that very file.
pub proof fn law_every_stub_call_is_replaced(
    files: Seq<IconPathView>,
    i: int,
    front: Seq<Seq<char>>,
)
    requires
        0 <= i < files.len(),
        stubs::stub_of(files[i]) is Ok,
    ensures
        ({
            let name = stubs::stub_of(files[i])->Ok_0.fn_name;
            let call = ExpressionView::PathCall { segments: front.push(name), args: 0 };
            let found = replacement_path(icon_table(files), call);
            &&& found is Some
            &&& (forall|k: int|
                0 <= k < files.len() && k != i && #[trigger] files[k].file_stem is Some
                    ==> naming::snake_case(files[k].file_stem->0) != name) ==> found == Some(
                stubs::forward_slashes(files[i].path),
            )
        }),
{
    let name = stubs::stub_of(files[i])->Ok_0.fn_name;
    assert(files[i].file_stem is Some);
    law_table_is_exact(files, name);
    assert(front.push(name).last() == name);
}

/// The path in a replacement is the path of the icon's file, position by position: a slash
/// where that path holds a backslash, and the same character everywhere else. So a path without
/// backslashes is handed on unchanged.
pub proof fn law_replacements_keep_the_path(
    table: Map<Seq<char>, Seq<char>>,
    expression: ExpressionView,
)
    requires
        replacement_path(table, expression) is Some,
    ensures
        expression is PathCall,
        ({
            let path = table[expression->segments.last()];
            let found = replacement_path(table, expression)->0;
            &&& found.len() == path.len()
            &&& forall|i: int|
                0 <= i < path.len() && path[i] == '\\' ==> #[trigger] found[i] == '/'
            &&& forall|i: int|
                0 <= i < path.len() && path[i] != '\\' ==> #[trigger] found[i] == path[i]
            &&& (forall|i: int| 0 <= i < path.len() ==> #[trigger] path[i] != '\\') ==> found == path
        }),
{
    stubs::law_only_backslashes_change(table[expression->segments.last()]);
}

/// A call is replaced exactly if it has no argument and the last name of its path is in the
/// table. Nothing but a call by path is replaced.
pub proof fn law_calls_that_are_replaced(
    table: Map<Seq<char>, Seq<char>>,
    front: Seq<Seq<char>>,
    name: Seq<char>,
    args: nat,
)
    ensures
        replacement_path(
            table,
            ExpressionView::PathCall { segments: front.push(name), args },
        ) is Some <==> args == 0 && table.contains_key(name),
        replacement_path(table, ExpressionView::PathCall { segments: Seq::empty(), args }) is None,
        replacement_path(table, ExpressionView::Other) is None,
{
    assert(front.push(name).last() == name);
}

/// Each file with a readable stem enters the table under the snake-case form of the stem, with
/// its own path, in place of an earlier file of that name; the other names keep what they
/// lead to. A file without a readable stem changes nothing.
pub proof fn law_later_files_take_the_name(
    files: Seq<IconPathView>,
    file: IconPathView,
    other: Seq<char>,
)
    ensures
        !icon_table(Seq::empty()).contains_key(other),
        file.file_stem is None ==> icon_table(files.push(file)) == icon_table(files),
        file.file_stem matches Some(stem) ==> {
            let table = icon_table(files.push(file));
            &&& table.contains_key(naming::snake_case(stem))
            &&& table[naming::snake_case(stem)] == file.path
            &&& other != naming::snake_case(stem) ==> (table.contains_key(other) <==> icon_table(
                files,
            ).contains_key(other)) && (table.contains_key(other) ==> table[other] == icon_table(
                files,
            )[other])
        },
{
    assert(files.push(file).drop_last() =~= files);
}

/// Each argument sets its own side and leaves the other alone; a later one counts before an
/// earlier one of the same name. `size` sets the sides that no `width` or `height` sets, and
/// an argument of another name sets nothing. Without arguments both sides are 24 pixels.
pub proof fn law_arguments_set_their_sides(
    arguments: Seq<(Seq<char>, u16)>,
    n: u16,
    other: Seq<char>,
)
    ensures
        asked_size(Seq::empty()) == (IconSize { width: 24, height: 24 }),
        asked_size(arguments.push(("width"@, n))) == (IconSize {
            width: n,
            height: asked_size(arguments).height,
        }),
        asked_size(arguments.push(("height"@, n))) == (IconSize {
            width: asked_size(arguments).width,
            height: n,
        }),
        (forall|i: int| 0 <= i < arguments.len() ==> #[trigger] arguments[i].0 != "width"@)
            ==> asked_size(arguments.push(("size"@, n))).width == n,
        (forall|i: int| 0 <= i < arguments.len() ==> #[trigger] arguments[i].0 != "height"@)
            ==> asked_size(arguments.push(("size"@, n))).height == n,
        (exists|i: int| 0 <= i < arguments.len() && #[trigger] arguments[i].0 == "width"@)
            ==> asked_size(arguments.push(("size"@, n))).width == asked_size(arguments).width,
        (exists|i: int| 0 <= i < arguments.len() && #[trigger] arguments[i].0 == "height"@)
            ==> asked_size(arguments.push(("size"@, n))).height == asked_size(arguments).height,
        other != "size"@ && other != "width"@ && other != "height"@ ==> asked_size(
            arguments.push((other, n)),
        ) == asked_size(arguments),
{
    reveal_strlit("size");
    reveal_strlit("width");
    reveal_strlit("height");
    assert("size"@.len() == 4 && "width"@.len() == 5 && "height"@.len() == 6);
    assert(arguments.push(("width"@, n)).drop_last() =~= arguments);
    assert(arguments.push(("height"@, n)).drop_last() =~= arguments);
    assert(arguments.push(("size"@, n)).drop_last() =~= arguments);
    assert(arguments.push((other, n)).drop_last() =~= arguments);
    lemma_argument_is_given(arguments, "width"@);
    lemma_argument_is_given(arguments, "height"@);
}

proof fn lemma_argument_is_given(arguments: Seq<(Seq<char>, u16)>, name: Seq<char>)
    ensures
        argument(arguments, name) is Some <==> exists|i: int|
            0 <= i < arguments.len() && #[trigger] arguments[i].0 == name,
    decreases arguments.len(),
{
    if arguments.len() > 0 {
        let front = arguments.drop_last();
        lemma_argument_is_given(front, name);
        assert(arguments.last() == arguments[arguments.len() - 1]);
        if argument(front, name) is Some {
            let i = choose|i: int| 0 <= i < front.len() && #[trigger] front[i].0 == name;
            assert(arguments[i].0 == name);
        }
        if exists|i: int| 0 <= i < arguments.len() && #[trigger] arguments[i].0 == name {
            let i = choose|i: int| 0 <= i < arguments.len() && #[trigger] arguments[i].0 == name;
            if i < front.len() {
                assert(front[i].0 == name);
            }
        }
    }
}

}
