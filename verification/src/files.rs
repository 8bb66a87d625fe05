//! Which files of the icon directory are icons, and in which order.

use vstd::multiset::Multiset;
use vstd::prelude::*;

use crate::text;
use crate::variant;
use crate::variant::Variant;

verus! {

/// A file of the icon directory. A part of its name is `None` where it does not exist or is
/// not valid Unicode.
#[derive(Debug)]
pub struct IconPath {
    /// The whole path, with a replacement character for what is not valid Unicode.
    pub path: String,
    /// The last component of the path.
    pub file_name: Option<String>,
    /// The file name without its extension.
    pub file_stem: Option<String>,
    /// What follows the last dot of the file name.
    pub extension: Option<String>,
    /// Whether the path leads to a regular file.
    pub is_file: bool,
}

/// A file of the icon directory, as text.
pub struct IconPathView {
    pub path: Seq<char>,
    pub file_name: Option<Seq<char>>,
    pub file_stem: Option<Seq<char>>,
    pub extension: Option<Seq<char>>,
    pub is_file: bool,
}

/// The text of an optional string.
pub open spec fn optional_text(s: Option<String>) -> Option<Seq<char>> {
    match s {
        Some(t) => Some(t@),
        None => None,
    }
}

impl View for IconPath {
    type V = IconPathView;

    open spec fn view(&self) -> IconPathView {
        IconPathView {
            path: self.path@,
            file_name: optional_text(self.file_name),
            file_stem: optional_text(self.file_stem),
            extension: optional_text(self.extension),
            is_file: self.is_file,
        }
    }
}

/// Files, as text.
pub open spec fn paths_view(files: Seq<IconPath>) -> Seq<IconPathView> {
    files.map_values(|f: IconPath| f@)
}

/// The features that decide which variants there are.
#[derive(Clone, Copy, Debug)]
pub struct Features {
    /// Leave out the `*Filled.svg` icons.
    pub no_filled: bool,
    /// Leave out the `*Color.svg` icons.
    pub no_color: bool,
    /// Leave out the `*Regular.svg` icons.
    pub no_regular: bool,
    /// Leave out the `*Light.svg` icons.
    pub no_light: bool,
    /// Keep the `*Filled.svg` icons, and else only what another such feature keeps.
    pub only_filled: bool,
    /// Keep the `*Color.svg` icons, and else only what another such feature keeps.
    pub only_color: bool,
    /// Keep the `*Regular.svg` icons, and else only what another such feature keeps.
    pub only_regular: bool,
    /// Keep the `*Light.svg` icons, and else only what another such feature keeps.
    pub only_light: bool,
}

/// The variant is left out by name.
pub open spec fn leaves_out(features: Features, variant: Variant) -> bool {
    match variant {
        Variant::Filled => features.no_filled,
        Variant::Color => features.no_color,
        Variant::Regular => features.no_regular,
        Variant::Light => features.no_light,
    }
}

/// The variant is kept by name.
pub open spec fn names(features: Features, variant: Variant) -> bool {
    match variant {
        Variant::Filled => features.only_filled,
        Variant::Color => features.only_color,
        Variant::Regular => features.only_regular,
        Variant::Light => features.only_light,
    }
}

/// Some variant is kept by name.
pub open spec fn names_some(features: Features) -> bool {
    exists|variant: Variant| names(features, variant)
}

/// The variant of a file with the given stem, if any.
pub open spec fn stem_variant(stem: Option<Seq<char>>) -> Option<Variant> {
    match stem {
        Some(s) => variant::variant_of(s),
        None => None,
    }
}

/// The icons of a variant, or without one, are kept. Where some variant is kept by name, those
/// that are kept by name are kept and no others; else all are kept that are not left out by
/// name.
pub open spec fn keeps(features: Features, variant: Option<Variant>) -> bool {
    if names_some(features) {
        variant is Some && names(features, variant->0)
    } else {
        variant is Some ==> !leaves_out(features, variant->0)
    }
}

/// A file is an icon: it is a regular file with the extension `svg`, in upper or lower case,
/// and the features keep its variant.
pub open spec fn is_icon(file: IconPathView, features: Features) -> bool {
    &&& file.is_file
    &&& file.extension is Some
    &&& text::ascii_lowered(file.extension->0) == text::ascii_lowered("svg"@)
    &&& keeps(features, stem_variant(file.file_stem))
}

/// The icons among the files, in order.
pub open spec fn icons_among(files: Seq<IconPathView>, features: Features) -> Seq<IconPathView>
    decreases files.len(),
{
    if files.len() == 0 {
        Seq::empty()
    } else {
        let rest = icons_among(files.drop_last(), features);
        if is_icon(files.last(), features) {
            rest.push(files.last())
        } else {
            rest
        }
    }
}

/// One file name comes no later than another. A name that is not valid Unicode comes first.
pub open spec fn name_not_after(a: Option<Seq<char>>, b: Option<Seq<char>>) -> bool {
    match (a, b) {
        (None, _) => true,
        (Some(_), None) => false,
        (Some(x), Some(y)) => !text::text_before(y, x),
    }
}

/// The files stand in the order of their names.
pub open spec fn in_name_order(files: Seq<IconPathView>) -> bool {
    forall|i: int, k: int|
        0 <= i < k < files.len() ==> name_not_after(
            (#[trigger] files[i]).file_name,
            (#[trigger] files[k]).file_name,
        )
}

proof fn lemma_not_after_transitive(
    a: Option<Seq<char>>,
    b: Option<Seq<char>>,
    c: Option<Seq<char>>,
)
    requires
        name_not_after(a, b),
        name_not_after(b, c),
    ensures
        name_not_after(a, c),
{
    if a is Some {
        let (x, y, z) = (a->0, b->0, c->0);
        text::lemma_before_total(x, y);
        text::lemma_before_total(y, z);
        if text::text_before(z, x) {
            text::lemma_before_irreflexive(x);
            if x != y {
                text::lemma_before_transitive(z, x, y);
            }
        }
    }
}

proof fn lemma_not_after_total(a: Option<Seq<char>>, b: Option<Seq<char>>)
    ensures
        name_not_after(a, b) || name_not_after(b, a),
        name_not_after(a, b) && name_not_after(b, a) ==> a == b,
{
    if a is Some && b is Some {
        text::lemma_before_total(a->0, b->0);
        if text::text_before(a->0, b->0) && text::text_before(b->0, a->0) {
            text::lemma_before_transitive(a->0, b->0, a->0);
            text::lemma_before_irreflexive(a->0);
        }
    }
}

/// Decides [`name_not_after`] for two files.
fn not_after(a: &IconPath, b: &IconPath) -> (r: bool)
    ensures
        r == name_not_after(a@.file_name, b@.file_name),
{
    match (&a.file_name, &b.file_name) {
        (None, _) => true,
        (Some(_), None) => false,
        (Some(x), Some(y)) => !text::comes_before(y.as_str(), x.as_str()),
    }
}

/// Decides [`keeps`].
pub fn is_kept(features: &Features, variant: Option<Variant>) -> (r: bool)
    ensures
        r == keeps(*features, variant),
{
    let some: bool = features.only_filled || features.only_color || features.only_regular
        || features.only_light;
    proof {
        if features.only_filled {
            assert(names(*features, Variant::Filled));
        }
        if features.only_color {
            assert(names(*features, Variant::Color));
        }
        if features.only_regular {
            assert(names(*features, Variant::Regular));
        }
        if features.only_light {
            assert(names(*features, Variant::Light));
        }
        assert(some == names_some(*features));
    }
    match variant {
        Some(Variant::Filled) => if some {
            features.only_filled
        } else {
            !features.no_filled
        },
        Some(Variant::Color) => if some {
            features.only_color
        } else {
            !features.no_color
        },
        Some(Variant::Regular) => if some {
            features.only_regular
        } else {
            !features.no_regular
        },
        Some(Variant::Light) => if some {
            features.only_light
        } else {
            !features.no_light
        },
        None => !some,
    }
}

/// Decides [`is_icon`].
fn check_icon(file: &IconPath, features: &Features) -> (r: bool)
    ensures
        r == is_icon(file@, *features),
{
    if !file.is_file {
        return false;
    }
    match &file.extension {
        Some(e) => if !text::same_ignoring_ascii_case(e.as_str(), "svg") {
            return false;
        },
        None => return false,
    }
    let found: Option<Variant> = match &file.file_stem {
        Some(s) => variant::find_variant(s.as_str()),
        None => None,
    };
    is_kept(features, found)
}

/// The files, whatever their order.
pub open spec fn contents(files: Seq<IconPathView>) -> Multiset<IconPathView> {
    files.to_multiset()
}

proof fn lemma_contents_push(files: Seq<IconPathView>, file: IconPathView)
    ensures
        contents(files.push(file)) == contents(files).insert(file),
{
    files.to_multiset_ensures();
}

proof fn lemma_contents_last(files: Seq<IconPathView>)
    requires
        files.len() > 0,
    ensures
        contents(files) == contents(files.drop_last()).insert(files.last()),
{
    lemma_contents_push(files.drop_last(), files.last());
    assert(files.drop_last().push(files.last()) =~= files);
}

/// The files stand in the reverse order of their names.
spec fn in_reverse_order(files: Seq<IconPathView>) -> bool {
    forall|i: int, k: int|
        0 <= i < k < files.len() ==> name_not_after(
            (#[trigger] files[k]).file_name,
            (#[trigger] files[i]).file_name,
        )
}

/// The last file of `a`, if any, comes no later than the last of `b`, if any.
spec fn tops_not_after(a: Seq<IconPathView>, b: Seq<IconPathView>) -> bool {
    a.len() > 0 && b.len() > 0 ==> name_not_after(a.last().file_name, b.last().file_name)
}

/// Takes the last file off `from` and puts it on `to`.
fn shift(from: &mut Vec<IconPath>, to: &mut Vec<IconPath>)
    requires
        old(from).len() > 0,
    ensures
        paths_view(final(from)@) == paths_view(old(from)@).drop_last(),
        paths_view(final(to)@) == paths_view(old(to)@).push(paths_view(old(from)@).last()),
        contents(paths_view(final(from)@)).add(contents(paths_view(final(to)@))) == contents(
            paths_view(old(from)@),
        ).add(contents(paths_view(old(to)@))),
{
    let ghost a = paths_view(from@);
    let ghost b = paths_view(to@);
    if let Some(file) = from.pop() {
        to.push(file);
    }
    proof {
        assert(paths_view(from@) =~= a.drop_last());
        assert(paths_view(to@) =~= b.push(a.last()));
        lemma_contents_last(a);
        lemma_contents_push(b, a.last());
        assert(contents(paths_view(from@)).add(contents(paths_view(to@))) =~= contents(a).add(
            contents(b),
        ));
    }
}

proof fn lemma_order_push(files: Seq<IconPathView>, file: IconPathView)
    requires
        in_name_order(files),
        files.len() > 0 ==> name_not_after(files.last().file_name, file.file_name),
    ensures
        in_name_order(files.push(file)),
{
    let r = files.push(file);
    assert forall|i: int, k: int| 0 <= i < k < r.len() implies name_not_after(
        (#[trigger] r[i]).file_name,
        (#[trigger] r[k]).file_name,
    ) by {
        assert(r[i] == files[i]);
        if k < files.len() {
            assert(r[k] == files[k]);
        } else if i < files.len() - 1 {
            lemma_not_after_transitive(
                files[i].file_name,
                files[files.len() - 1].file_name,
                file.file_name,
            );
        }
    }
}

proof fn lemma_reverse_push(files: Seq<IconPathView>, file: IconPathView)
    requires
        in_reverse_order(files),
        files.len() > 0 ==> name_not_after(file.file_name, files.last().file_name),
    ensures
        in_reverse_order(files.push(file)),
{
    let r = files.push(file);
    assert forall|i: int, k: int| 0 <= i < k < r.len() implies name_not_after(
        (#[trigger] r[k]).file_name,
        (#[trigger] r[i]).file_name,
    ) by {
        assert(r[i] == files[i]);
        if k < files.len() {
            assert(r[k] == files[k]);
        } else if i < files.len() - 1 {
            lemma_not_after_transitive(
                file.file_name,
                files[files.len() - 1].file_name,
                files[i].file_name,
            );
        }
    }
}

proof fn lemma_order_drop_last(files: Seq<IconPathView>)
    requires
        files.len() > 0,
    ensures
        in_name_order(files) ==> in_name_order(files.drop_last()),
        in_name_order(files) && files.len() > 1 ==> name_not_after(
            files.drop_last().last().file_name,
            files.last().file_name,
        ),
        in_reverse_order(files) ==> in_reverse_order(files.drop_last()),
        in_reverse_order(files) && files.len() > 1 ==> name_not_after(
            files.last().file_name,
            files.drop_last().last().file_name,
        ),
{
    let front = files.drop_last();
    assert(forall|i: int| 0 <= i < front.len() ==> #[trigger] front[i] == files[i]);
    if files.len() > 1 {
        assert(front.last() == files[files.len() - 2]);
        assert(files.last() == files[files.len() - 1]);
    }
}

/// Turns files in reverse order into files in order.
fn reversed(files: Vec<IconPath>) -> (r: Vec<IconPath>)
    requires
        in_reverse_order(paths_view(files@)),
    ensures
        in_name_order(paths_view(r@)),
        contents(paths_view(r@)) == contents(paths_view(files@)),
{
    let ghost all = contents(paths_view(files@));
    let mut files: Vec<IconPath> = files;
    let mut r: Vec<IconPath> = Vec::new();
    assert(paths_view(r@) =~= Seq::empty());
    assert(contents(paths_view(files@)).add(contents(paths_view(r@))) =~= all) by {
        Seq::<IconPathView>::empty().to_multiset_ensures();
    }
    while files.len() > 0
        invariant
            in_reverse_order(paths_view(files@)),
            in_name_order(paths_view(r@)),
            tops_not_after(paths_view(r@), paths_view(files@)),
            contents(paths_view(files@)).add(contents(paths_view(r@))) == all,
        decreases files.len(),
    {
        proof {
            lemma_order_drop_last(paths_view(files@));
            lemma_order_push(paths_view(r@), paths_view(files@).last());
        }
        shift(&mut files, &mut r);
    }
    proof {
        paths_view(files@).to_multiset_ensures();
        assert(contents(paths_view(files@)).add(contents(paths_view(r@))) =~= contents(
            paths_view(r@),
        ));
    }
    r
}

/// Merges two lists of files that are in order.
fn merge(a: Vec<IconPath>, b: Vec<IconPath>) -> (r: Vec<IconPath>)
    requires
        in_name_order(paths_view(a@)),
        in_name_order(paths_view(b@)),
    ensures
        in_name_order(paths_view(r@)),
        contents(paths_view(r@)) == contents(paths_view(a@)).add(contents(paths_view(b@))),
{
    let ghost all = contents(paths_view(a@)).add(contents(paths_view(b@)));
    let mut a: Vec<IconPath> = a;
    let mut b: Vec<IconPath> = b;
    let mut out: Vec<IconPath> = Vec::new();
    proof {
        assert(paths_view(out@) =~= Seq::empty());
        paths_view(out@).to_multiset_ensures();
        assert(contents(paths_view(a@)).add(contents(paths_view(b@))).add(
            contents(paths_view(out@)),
        ) =~= all);
    }
    while a.len() > 0 || b.len() > 0
        invariant
            in_name_order(paths_view(a@)),
            in_name_order(paths_view(b@)),
            in_reverse_order(paths_view(out@)),
            tops_not_after(paths_view(a@), paths_view(out@)),
            tops_not_after(paths_view(b@), paths_view(out@)),
            contents(paths_view(a@)).add(contents(paths_view(b@))).add(contents(paths_view(out@)))
                == all,
        decreases a.len() + b.len(),
    {
        let ghost pa = paths_view(a@);
        let ghost pb = paths_view(b@);
        let ghost po = paths_view(out@);
        let from_a: bool = b.len() == 0 || (a.len() > 0 && not_after(
            &b[b.len() - 1],
            &a[a.len() - 1],
        ));
        if from_a {
            proof {
                lemma_order_drop_last(pa);
                lemma_reverse_push(po, pa.last());
            }
            shift(&mut a, &mut out);
            proof {
                assert(contents(pa).add(contents(pb)).add(contents(po)) =~= contents(pb).add(
                    contents(pa).add(contents(po)),
                ));
                assert(contents(paths_view(a@)).add(contents(pb)).add(contents(paths_view(out@)))
                    =~= contents(pb).add(contents(pa).add(contents(po)))) by {
                    assert(contents(paths_view(a@)).add(contents(pb)).add(
                        contents(paths_view(out@)),
                    ) =~= contents(pb).add(
                        contents(paths_view(a@)).add(contents(paths_view(out@))),
                    ));
                }
            }
        } else {
            proof {
                lemma_order_drop_last(pb);
                lemma_reverse_push(po, pb.last());
                if pa.len() > 0 {
                    lemma_not_after_total(pa.last().file_name, pb.last().file_name);
                }
            }
            shift(&mut b, &mut out);
            proof {
                assert(contents(pa).add(contents(pb)).add(contents(po)) =~= contents(pa).add(
                    contents(pb).add(contents(po)),
                ));
                assert(contents(pa).add(contents(paths_view(b@))).add(contents(paths_view(out@)))
                    =~= contents(pa).add(contents(pb).add(contents(po)))) by {
                    assert(contents(pa).add(contents(paths_view(b@))).add(
                        contents(paths_view(out@)),
                    ) =~= contents(pa).add(
                        contents(paths_view(b@)).add(contents(paths_view(out@))),
                    ));
                }
            }
        }
    }
    proof {
        paths_view(a@).to_multiset_ensures();
        paths_view(b@).to_multiset_ensures();
        assert(contents(paths_view(a@)).add(contents(paths_view(b@))).add(
            contents(paths_view(out@)),
        ) =~= contents(paths_view(out@)));
    }
    reversed(out)
}

proof fn lemma_contents_concat(a: Seq<IconPathView>, b: Seq<IconPathView>)
    ensures
        contents(a + b) == contents(a).add(contents(b)),
    decreases b.len(),
{
    if b.len() == 0 {
        assert(a + b =~= a);
        b.to_multiset_ensures();
        assert(contents(a).add(contents(b)) =~= contents(a));
    } else {
        lemma_contents_concat(a, b.drop_last());
        lemma_contents_last(b);
        lemma_contents_last(a + b);
        assert((a + b).drop_last() =~= a + b.drop_last());
        assert(contents(a + b) =~= contents(a).add(contents(b)));
    }
}

/// Puts files in the order of their names.
fn sort_by_name(files: Vec<IconPath>) -> (r: Vec<IconPath>)
    ensures
        in_name_order(paths_view(r@)),
        contents(paths_view(r@)) == contents(paths_view(files@)),
    decreases files.len(),
{
    if files.len() < 2 {
        return files;
    }
    let ghost all = paths_view(files@);
    let mut left: Vec<IconPath> = files;
    let half: usize = left.len() / 2;
    let right: Vec<IconPath> = left.split_off(half);
    proof {
        assert(paths_view(left@) + paths_view(right@) =~= all);
        lemma_contents_concat(paths_view(left@), paths_view(right@));
    }
    merge(sort_by_name(left), sort_by_name(right))
}

/// `icons` are the icons among the listed files, in the order of their names.
pub open spec fn collects(
    listing: Seq<IconPathView>,
    features: Features,
    icons: Seq<IconPathView>,
) -> bool {
    &&& in_name_order(icons)
    &&& contents(icons) == contents(icons_among(listing, features))
}

/// Picks the icons among the files of the icon directory, in the order of their names.
pub fn collect_svg_files(entries: Vec<IconPath>, features: &Features) -> (r: Vec<IconPath>)
    ensures
        collects(paths_view(entries@), *features, paths_view(r@)),
{
    let ghost all = paths_view(entries@);
    let mut icons: Vec<IconPath> = Vec::new();
    assert(all.take(0) =~= Seq::empty());
    for file in it: entries
        invariant
            paths_view(it.seq()) == all,
            paths_view(icons@) =~= icons_among(all.take(it.index()), *features),
    {
        let ghost before = paths_view(icons@);
        assert(file@ == all[it.index()]);
        assert(all.take(it.index() + 1).drop_last() =~= all.take(it.index()));
        if check_icon(&file, features) {
            icons.push(file);
            assert(paths_view(icons@) =~= before.push(file@));
        }
    }
    assert(all.take(all.len() as int) =~= all);
    sort_by_name(icons)
}

proof fn lemma_icons_count(
    files: Seq<IconPathView>,
    features: Features,
    file: IconPathView,
)
    ensures
        contents(icons_among(files, features)).count(file) == if is_icon(file, features) {
            contents(files).count(file)
        } else {
            0
        },
    decreases files.len(),
{
    if files.len() == 0 {
        files.to_multiset_ensures();
        icons_among(files, features).to_multiset_ensures();
    } else {
        lemma_icons_count(files.drop_last(), features, file);
        lemma_contents_last(files);
        lemma_contents_push(icons_among(files.drop_last(), features), files.last());
    }
}

/// No two files have the same name.
pub open spec fn names_differ(files: Seq<IconPathView>) -> bool {
    forall|i: int, k: int|
        0 <= i < k < files.len() ==> (#[trigger] files[i]).file_name != (
        #[trigger] files[k]).file_name
}

proof fn lemma_order_is_unique(a: Seq<IconPathView>, b: Seq<IconPathView>)
    requires
        in_name_order(a),
        in_name_order(b),
        contents(a) == contents(b),
        names_differ(a),
    ensures
        a == b,
    decreases a.len(),
{
    a.to_multiset_ensures();
    b.to_multiset_ensures();
    assert(a.len() == b.len());
    if a.len() == 0 {
        assert(a =~= b);
    } else {
        let x = a.last();
        let y = b.last();
        let n = a.len() - 1;
        assert(a.contains(x)) by {
            assert(a[n] == x);
        }
        assert(b.contains(y)) by {
            assert(b[n] == y);
        }
        assert(contents(b).count(x) > 0);
        assert(contents(a).count(y) > 0);
        assert(b.contains(x));
        assert(a.contains(y));
        let j = choose|j: int| 0 <= j < b.len() && b[j] == x;
        let i = choose|i: int| 0 <= i < a.len() && a[i] == y;
        if i < n {
            assert(name_not_after(a[i].file_name, a[n].file_name));
            if j < n {
                assert(name_not_after(b[j].file_name, b[n].file_name));
            }
            lemma_not_after_total(x.file_name, y.file_name);
            assert(x.file_name == y.file_name);
            assert(a[i].file_name != a[n].file_name);
        }
        assert(x == y);
        lemma_contents_last(a);
        lemma_contents_last(b);
        assert(contents(a.drop_last()) =~= contents(a).remove(x));
        assert(contents(b.drop_last()) =~= contents(b).remove(x));
        lemma_order_drop_last(a);
        lemma_order_drop_last(b);
        assert(names_differ(a.drop_last())) by {
            let front = a.drop_last();
            assert forall|p: int, q: int| 0 <= p < q < front.len() implies (
            #[trigger] front[p]).file_name != (#[trigger] front[q]).file_name by {
                assert(a[p].file_name != a[q].file_name);
            }
        }
        lemma_order_is_unique(a.drop_last(), b.drop_last());
        assert(a =~= a.drop_last().push(x));
        assert(b =~= b.drop_last().push(x));
    }
}

proof fn lemma_icons_names_differ(files: Seq<IconPathView>, features: Features)
    requires
        names_differ(files),
    ensures
        names_differ(icons_among(files, features)),
        forall|k: int|
            0 <= k < icons_among(files, features).len() ==> files.contains(
                #[trigger] icons_among(files, features)[k],
            ),
    decreases files.len(),
{
    if files.len() > 0 {
        let front = files.drop_last();
        let rest = icons_among(front, features);
        let r = icons_among(files, features);
        let n = files.len() - 1;
        assert(names_differ(front)) by {
            assert forall|p: int, q: int| 0 <= p < q < front.len() implies (
            #[trigger] front[p]).file_name != (#[trigger] front[q]).file_name by {
                assert(files[p].file_name != files[q].file_name);
            }
        }
        lemma_icons_names_differ(front, features);
        assert forall|k: int| 0 <= k < r.len() implies files.contains(#[trigger] r[k]) by {
            if k < rest.len() {
                assert(r[k] == rest[k]);
                let m = choose|m: int| 0 <= m < front.len() && front[m] == rest[k];
                assert(files[m] == r[k]);
            } else {
                assert(files[n] == r[k]);
            }
        }
        assert forall|p: int, q: int| 0 <= p < q < r.len() implies (#[trigger] r[p]).file_name != (
        #[trigger] r[q]).file_name by {
            assert(r[p] == rest[p]);
            if q < rest.len() {
                assert(r[q] == rest[q]);
            } else {
                let m = choose|m: int| 0 <= m < front.len() && front[m] == rest[p];
                assert(files[m].file_name != files[n].file_name);
            }
        }
    }
}

proof fn lemma_names_differ_permuted(a: Seq<IconPathView>, b: Seq<IconPathView>)
    requires
        names_differ(a),
        contents(a) == contents(b),
    ensures
        names_differ(b),
    decreases b.len(),
{
    a.to_multiset_ensures();
    b.to_multiset_ensures();
    if b.len() > 0 {
        let y = b.last();
        let n = b.len() - 1;
        assert(b[n] == y);
        assert(b.contains(y));
        assert(contents(a).count(y) > 0);
        assert(a.contains(y));
        let i = choose|i: int| 0 <= i < a.len() && a[i] == y;
        let fewer = a.remove(i);
        lemma_contents_last(b);
        assert(contents(b.drop_last()) =~= contents(b).remove(y));
        assert(contents(fewer) =~= contents(a).remove(y));
        assert forall|p: int, q: int| 0 <= p < q < fewer.len() implies (
        #[trigger] fewer[p]).file_name != (#[trigger] fewer[q]).file_name by {
            let p2 = if p < i { p } else { p + 1 };
            let q2 = if q < i { q } else { q + 1 };
            assert(fewer[p] == a[p2] && fewer[q] == a[q2]);
            assert(a[p2].file_name != a[q2].file_name);
        }
        lemma_names_differ_permuted(fewer, b.drop_last());
        let front = b.drop_last();
        assert forall|p: int, q: int| 0 <= p < q < b.len() implies (#[trigger] b[p]).file_name != (
        #[trigger] b[q]).file_name by {
            assert(b[p] == front[p]);
            if q < n {
                assert(b[q] == front[q]);
            } else {
                assert(front.contains(front[p]));
                front.to_multiset_ensures();
                assert(contents(front).count(front[p]) > 0);
                fewer.to_multiset_ensures();
                assert(fewer.contains(front[p]));
                let m = choose|m: int| 0 <= m < fewer.len() && fewer[m] == front[p];
                let m2 = if m < i { m } else { m + 1 };
                assert(fewer[m] == a[m2]);
                if m2 < i {
                    assert(a[m2].file_name != a[i].file_name);
                } else {
                    assert(a[i].file_name != a[m2].file_name);
                }
            }
        }
    }
}

/// The icons come in the same order, whichever order the directory lists its files in: two
/// listings of the same files, under names that differ, give the same result.
pub proof fn law_listing_order_does_not_matter(
    listing: Seq<IconPathView>,
    other: Seq<IconPathView>,
    features: Features,
    a: Seq<IconPathView>,
    b: Seq<IconPathView>,
)
    requires
        contents(listing) == contents(other),
        names_differ(listing),
        collects(listing, features, a),
        collects(other, features, b),
    ensures
        a == b,
{
    assert forall|f: IconPathView| contents(a).count(f) == contents(b).count(f) by {
        lemma_icons_count(listing, features, f);
        lemma_icons_count(other, features, f);
    }
    assert(contents(a) =~= contents(b));
    lemma_icons_names_differ(listing, features);
    lemma_names_differ_permuted(icons_among(listing, features), a);
    lemma_order_is_unique(a, b);
}

/// A file is among the icons exactly if it is among the files and is an icon.
pub proof fn law_collected_files_are_the_icons(
    files: Seq<IconPathView>,
    features: Features,
    collected: Seq<IconPathView>,
    file: IconPathView,
)
    requires
        collects(files, features, collected),
    ensures
        collected.contains(file) <==> files.contains(file) && is_icon(file, features),
{
    lemma_icons_count(files, features, file);
    files.to_multiset_ensures();
    collected.to_multiset_ensures();
    assert(files.contains(file) <==> contents(files).count(file) > 0);
    assert(collected.contains(file) <==> contents(collected).count(file) > 0);
}

/// Where some variant is kept by name, an icon is kept exactly if its variant is kept by name,
/// whatever is left out by name. Where none is, an icon is kept exactly if its variant is not
/// left out by name; without any feature all icons are kept.
pub proof fn law_features_select_variants(features: Features, variant: Variant)
    ensures
        names_some(features) <==> features.only_filled || features.only_color
            || features.only_regular || features.only_light,
        names_some(features) ==> (keeps(features, Some(variant)) <==> names(features, variant)),
        !names_some(features) ==> (keeps(features, Some(variant)) <==> !leaves_out(
            features,
            variant,
        )),
        keeps(features, None) <==> !names_some(features),
{
    assert(features.only_filled ==> names(features, Variant::Filled));
    assert(features.only_color ==> names(features, Variant::Color));
    assert(features.only_regular ==> names(features, Variant::Regular));
    assert(features.only_light ==> names(features, Variant::Light));
}

/// Each feature speaks of its own variant. Without an `only-` feature each variant is kept
/// exactly if its own `no-` feature is off, and icons without a variant are kept. With one,
/// each variant is kept exactly if its own `only-` feature is on, and no others are.
pub proof fn law_each_feature_has_its_variant(features: Features)
    ensures
        !features.only_filled && !features.only_color && !features.only_regular
            && !features.only_light ==> {
            &&& keeps(features, Some(Variant::Filled)) <==> !features.no_filled
            &&& keeps(features, Some(Variant::Color)) <==> !features.no_color
            &&& keeps(features, Some(Variant::Regular)) <==> !features.no_regular
            &&& keeps(features, Some(Variant::Light)) <==> !features.no_light
            &&& keeps(features, None)
        },
        features.only_filled || features.only_color || features.only_regular
            || features.only_light ==> {
            &&& keeps(features, Some(Variant::Filled)) <==> features.only_filled
            &&& keeps(features, Some(Variant::Color)) <==> features.only_color
            &&& keeps(features, Some(Variant::Regular)) <==> features.only_regular
            &&& keeps(features, Some(Variant::Light)) <==> features.only_light
            &&& !keeps(features, None)
        },
{
    law_features_select_variants(features, Variant::Filled);
    law_features_select_variants(features, Variant::Color);
    law_features_select_variants(features, Variant::Regular);
    law_features_select_variants(features, Variant::Light);
}

/// A file is an icon exactly if it is a regular file, its extension is `svg` in any mixture of
/// upper and lower case, and the features keep the variant that its stem ends with.
pub proof fn law_icons_are_svg_files(file: IconPathView, features: Features)
    ensures
        is_icon(file, features) <==> {
            &&& file.is_file
            &&& file.extension matches Some(e) && e.len() == 3 && (e[0] == 's' || e[0] == 'S') && (
            e[1] == 'v' || e[1] == 'V') && (e[2] == 'g' || e[2] == 'G')
            &&& match file.file_stem {
                Some(stem) => keeps(features, variant::variant_of(stem)),
                None => keeps(features, None),
            }
        },
{
    reveal_strlit("svg");
    let svg = "svg"@;
    assert(svg.len() == 3 && svg[0] == 's' && svg[1] == 'v' && svg[2] == 'g');
    if file.extension is Some {
        let e = file.extension->0;
        let low = text::ascii_lowered(e);
        text::law_lower_case_by_position(e);
        text::law_lower_case_by_position(svg);
        let asked = text::ascii_lowered(svg);
        assert(asked[0] == 's' && asked[1] == 'v' && asked[2] == 'g');
        if low == asked {
            assert(low[0] == 's' && low[1] == 'v' && low[2] == 'g');
        }
        if e.len() == 3 && (e[0] == 's' || e[0] == 'S') && (e[1] == 'v' || e[1] == 'V') && (e[2]
            == 'g' || e[2] == 'G') {
            assert(low[0] == 's' && low[1] == 'v' && low[2] == 'g');
            assert(low =~= asked);
        }
    }
}

/// Collecting keeps each icon as often as it is listed, and nothing else.
pub proof fn law_icons_are_collected_once_each(
    listing: Seq<IconPathView>,
    features: Features,
    icons: Seq<IconPathView>,
    file: IconPathView,
)
    requires
        collects(listing, features, icons),
    ensures
        is_icon(file, features) ==> icons.to_multiset().count(file) == listing.to_multiset().count(
            file,
        ),
        !is_icon(file, features) ==> icons.to_multiset().count(file) == 0,
{
    lemma_icons_count(listing, features, file);
}

/// Collected icons stand in the order of their names: no name comes before that of an earlier
/// file, and files whose names are not valid Unicode stand in front.
pub proof fn law_icons_are_in_name_order(
    listing: Seq<IconPathView>,
    features: Features,
    icons: Seq<IconPathView>,
    i: int,
    k: int,
)
    requires
        collects(listing, features, icons),
        0 <= i < k < icons.len(),
    ensures
        icons[i].file_name is Some && icons[k].file_name is Some ==> icons[i].file_name
            == icons[k].file_name || text::text_before(
            icons[i].file_name->0,
            icons[k].file_name->0,
        ),
        icons[k].file_name is None ==> icons[i].file_name is None,
{
    assert(name_not_after(icons[i].file_name, icons[k].file_name));
    if icons[i].file_name is Some && icons[k].file_name is Some {
        text::lemma_before_total(icons[i].file_name->0, icons[k].file_name->0);
    }
}

}
