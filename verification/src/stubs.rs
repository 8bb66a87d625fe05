//! The stub functions that make the icons known to an editor.

use vstd::prelude::*;

use crate::files;
use crate::files::{Features, IconPath, IconPathView};
use crate::naming;
use crate::naming::StemFault;
use crate::text;
use crate::variant;

verus! {

/// What is written out for one icon: a public function without arguments, whose body panics.
#[derive(Debug)]
pub struct Stub {
    /// The name of the function.
    pub fn_name: String,
    /// The first line of its documentation, which shows the icon.
    pub image_doc: String,
    /// The last line of its documentation, which says how to use it.
    pub detail_doc: String,
    /// What the function panics with.
    pub panic_msg: String,
}

/// A stub, as text.
pub struct StubView {
    pub fn_name: Seq<char>,
    pub image_doc: Seq<char>,
    pub detail_doc: Seq<char>,
    pub panic_msg: Seq<char>,
}

impl View for Stub {
    type V = StubView;

    open spec fn view(&self) -> StubView {
        StubView {
            fn_name: self.fn_name@,
            image_doc: self.image_doc@,
            detail_doc: self.detail_doc@,
            panic_msg: self.panic_msg@,
        }
    }
}

/// Why no stub can be made for a file.
#[derive(Debug)]
pub enum StubError {
    /// The file name is not valid Unicode, or does not end with the file's extension.
    FileName,
    /// The file stem is not valid Unicode.
    FileStem,
    /// The file stem does not make an identifier.
    Stem(String, StemFault),
}

/// Why no stub can be made for a file, as text.
pub enum StubErrorView {
    FileName,
    FileStem,
    Stem(Seq<char>, StemFault),
}

impl View for StubError {
    type V = StubErrorView;

    open spec fn view(&self) -> StubErrorView {
        match *self {
            StubError::FileName => StubErrorView::FileName,
            StubError::FileStem => StubErrorView::FileStem,
            StubError::Stem(stem, fault) => StubErrorView::Stem(stem@, fault),
        }
    }
}

/// What is said of a file for which no stub can be made.
pub open spec fn error_message(error: StubErrorView) -> Seq<char> {
    match error {
        StubErrorView::FileName => "icon path has a non-UTF-8 filename"@,
        StubErrorView::FileStem => "icon path has a non-UTF-8 file stem"@,
        StubErrorView::Stem(_, StemFault::Empty) => "icon filename stem is empty"@,
        StubErrorView::Stem(stem, StemFault::Start) => "`"@ + stem
            + "`: stem must begin with an ASCII letter or `_`"@,
        StubErrorView::Stem(stem, StemFault::Character) => "`"@ + stem
            + "`: stem must contain only ASCII letters, digits, and `_`; rename the file to UpperCamelCase"@,
    }
}

impl StubError {
    /// Says what is wrong.
    pub fn message(&self) -> (r: String)
        ensures
            r@ == error_message(self@),
    {
        match self {
            StubError::FileName => "icon path has a non-UTF-8 filename".to_owned(),
            StubError::FileStem => "icon path has a non-UTF-8 file stem".to_owned(),
            StubError::Stem(stem, fault) => match *fault {
                StemFault::Empty => "icon filename stem is empty".to_owned(),
                StemFault::Start => {
                    let mut r: String = "`".to_owned();
                    r.append(stem.as_str());
                    r.append("`: stem must begin with an ASCII letter or `_`");
                    r
                },
                StemFault::Character => {
                    let mut r: String = "`".to_owned();
                    r.append(stem.as_str());
                    r.append(
                        "`: stem must contain only ASCII letters, digits, and `_`; rename the file to UpperCamelCase",
                    );
                    r
                },
            },
        }
    }
}

/// `path` with forward slashes in place of backslashes, as links and source text take it on
/// every platform.
pub open spec fn forward_slashes(path: Seq<char>) -> Seq<char> {
    path.map_values(
        |c: char|
            if c == '\\' {
                '/'
            } else {
                c
            },
    )
}

/// Computes [`forward_slashes`].
pub fn with_forward_slashes(path: &str) -> (r: String)
    ensures
        r@ == forward_slashes(path@),
{
    let chars: Vec<char> = text::chars_of(path);
    let mut r: String = String::new();
    let mut i: usize = 0;
    while i < chars.len()
        invariant
            chars@ == path@,
            i <= chars.len(),
            r@ =~= forward_slashes(path@).take(i as int),
        decreases chars.len() - i,
    {
        if chars[i] == '\\' {
            r.push('/');
        } else {
            r.push(chars[i]);
        }
        i += 1;
    }
    assert(forward_slashes(path@).take(chars.len() as int) =~= forward_slashes(path@));
    r
}

/// The file name consists of something, a dot and the extension.
pub open spec fn has_extension(file_name: Seq<char>, extension: Seq<char>) -> bool {
    variant::ends_with(file_name, seq!['.'] + extension)
}

/// The stub for a file with a valid stem.
pub open spec fn stub_view(file_name: Seq<char>, stem: Seq<char>, path: Seq<char>) -> StubView {
    StubView {
        fn_name: naming::snake_case(stem),
        image_doc: "!["@ + stem + "](file://"@ + forward_slashes(path) + ")"@,
        detail_doc: "`"@ + file_name
            + "` — annotate the caller with `#[fluentui_icons::inventory]`."@,
        panic_msg: "icon stub `"@ + stem
            + "` — the calling function must be annotated with `#[fluentui_icons::inventory]`"@,
    }
}

/// The stub for a file, or the reason why there is none.
pub open spec fn stub_of(file: IconPathView) -> Result<StubView, StubErrorView> {
    if !(file.file_name is Some && file.extension is Some && has_extension(
        file.file_name->0,
        file.extension->0,
    )) {
        Err(StubErrorView::FileName)
    } else {
        match file.file_stem {
            None => Err(StubErrorView::FileStem),
            Some(stem) => match naming::stem_fault(stem) {
                Some(fault) => Err(StubErrorView::Stem(stem, fault)),
                None => Ok(stub_view(file.file_name->0, stem, file.path)),
            },
        }
    }
}

/// A stub, or the reason why there is none, as text.
pub open spec fn stub_result_view(r: Result<Stub, StubError>) -> Result<StubView, StubErrorView> {
    match r {
        Ok(stub) => Ok(stub@),
        Err(e) => Err(e@),
    }
}

/// Makes the stub for one SVG file.
pub fn generate_stub(file: &IconPath) -> (r: Result<Stub, StubError>)
    ensures
        stub_result_view(r) == stub_of(file@),
{
    let file_name: &String = match &file.file_name {
        Some(n) => n,
        None => return Err(StubError::FileName),
    };
    let extension: &String = match &file.extension {
        Some(e) => e,
        None => return Err(StubError::FileName),
    };
    let mut dotted: String = String::new();
    dotted.push('.');
    dotted.append(extension.as_str());
    assert(dotted@ =~= seq!['.'] + extension@);
    if !variant::has_suffix(file_name.as_str(), dotted.as_str()) {
        return Err(StubError::FileName);
    }
    let stem: &String = match &file.file_stem {
        Some(s) => s,
        None => return Err(StubError::FileStem),
    };
    match naming::validate_stem(stem.as_str()) {
        Err(fault) => return Err(StubError::Stem(stem.clone(), fault)),
        Ok(()) => {},
    }
    let svg_path: String = with_forward_slashes(file.path.as_str());

    let mut image_doc: String = "![".to_owned();
    image_doc.append(stem.as_str());
    image_doc.append("](file://");
    image_doc.append(svg_path.as_str());
    image_doc.append(")");

    let mut detail_doc: String = "`".to_owned();
    detail_doc.append(file_name.as_str());
    detail_doc.append("` — annotate the caller with `#[fluentui_icons::inventory]`.");

    let mut panic_msg: String = "icon stub `".to_owned();
    panic_msg.append(stem.as_str());
    panic_msg.append(
        "` — the calling function must be annotated with `#[fluentui_icons::inventory]`",
    );

    Ok(
        Stub {
            fn_name: naming::to_snake_case(stem.as_str()),
            image_doc,
            detail_doc,
            panic_msg,
        },
    )
}

/// The stubs of the first `n` files, in order, or what is wrong with the first of them that
/// gets none.
pub open spec fn stubs_of(files: Seq<IconPathView>, n: nat) -> Result<Seq<StubView>, StubErrorView>
    decreases n,
{
    if n == 0 {
        Ok(Seq::empty())
    } else {
        match stubs_of(files, (n - 1) as nat) {
            Err(e) => Err(e),
            Ok(stubs) => match stub_of(files[n - 1]) {
                Err(e) => Err(e),
                Ok(stub) => Ok(stubs.push(stub)),
            },
        }
    }
}

/// An error among the first files is the error of them all.
proof fn lemma_first_error_counts(files: Seq<IconPathView>, n: nat, m: nat)
    requires
        n <= m,
        stubs_of(files, n) is Err,
    ensures
        stubs_of(files, m) == stubs_of(files, n),
    decreases m,
{
    if n < m {
        lemma_first_error_counts(files, n, (m - 1) as nat);
    }
}

/// Stubs, as text.
pub open spec fn stub_views(stubs: Seq<Stub>) -> Seq<StubView> {
    stubs.map_values(|s: Stub| s@)
}

/// Makes the stubs for icon files, or says what is wrong with the first file that gets none.
pub fn stubs_for(icons: &Vec<IconPath>) -> (r: Result<Vec<Stub>, StubError>)
    ensures
        stubs_result_view(r) == stubs_of(files::paths_view(icons@), icons@.len()),
{
    let ghost all = files::paths_view(icons@);
    let mut stubs: Vec<Stub> = Vec::new();
    let mut i: usize = 0;
    assert(stub_views(stubs@) =~= Seq::empty());
    while i < icons.len()
        invariant
            all == files::paths_view(icons@),
            i <= icons.len(),
            stubs_of(all, i as nat) == Ok::<Seq<StubView>, StubErrorView>(stub_views(stubs@)),
        decreases icons.len() - i,
    {
        let ghost before = stub_views(stubs@);
        match generate_stub(&icons[i]) {
            Ok(stub) => {
                stubs.push(stub);
                assert(stub_views(stubs@) =~= before.push(stub@));
            },
            Err(e) => {
                assert(stubs_of(all, (i + 1) as nat) == Err::<Seq<StubView>, StubErrorView>(e@));
                proof {
                    lemma_first_error_counts(all, (i + 1) as nat, icons@.len());
                }
                return Err(e);
            },
        }
        i += 1;
    }
    Ok(stubs)
}

/// Stubs, or the reason why there are none, as text.
pub open spec fn stubs_result_view(r: Result<Vec<Stub>, StubError>) -> Result<
    Seq<StubView>,
    StubErrorView,
> {
    match r {
        Ok(stubs) => Ok(stub_views(stubs@)),
        Err(e) => Err(e@),
    }
}

/// Makes the stubs for all icons of the icon directory, in the order of their names, or says
/// what is wrong with the first of them that gets none. Where no two files have one name, that
/// order is the only one, and fixes the result.
pub fn expand_declare(entries: Vec<IconPath>, features: &Features) -> (r: Result<
    Vec<Stub>,
    StubError,
>)
    ensures
        exists|icons: Seq<IconPathView>| #[trigger]
            files::collects(files::paths_view(entries@), *features, icons) && stubs_result_view(r)
                == stubs_of(icons, icons.len()),
        files::names_differ(files::paths_view(entries@)) ==> forall|icons: Seq<IconPathView>|
            #[trigger] files::collects(files::paths_view(entries@), *features, icons)
                ==> stubs_result_view(r) == stubs_of(icons, icons.len()),
{
    let ghost listing = files::paths_view(entries@);
    let icons: Vec<IconPath> = files::collect_svg_files(entries, features);
    let ghost found = files::paths_view(icons@);
    proof {
        if files::names_differ(listing) {
            assert forall|other: Seq<IconPathView>| #[trigger]
                files::collects(listing, *features, other) implies other == found by {
                files::law_listing_order_does_not_matter(
                    listing,
                    listing,
                    *features,
                    other,
                    found,
                );
            }
        }
    }
    stubs_for(&icons)
}

/// Where all files get a stub, there is one for each file, in the order of the files.
pub proof fn law_one_stub_for_each_icon(files: Seq<IconPathView>, n: nat)
    requires
        stubs_of(files, n) is Ok,
    ensures
        stubs_of(files, n)->Ok_0.len() == n,
        forall|i: int|
            0 <= i < n ==> stub_of(files[i]) == Ok::<StubView, StubErrorView>(
                #[trigger] stubs_of(files, n)->Ok_0[i],
            ),
    decreases n,
{
    if n > 0 {
        let m = (n - 1) as nat;
        law_one_stub_for_each_icon(files, m);
        let stubs = stubs_of(files, n)->Ok_0;
        assert forall|i: int| 0 <= i < n implies stub_of(files[i]) == Ok::<StubView, StubErrorView>(
            #[trigger] stubs[i],
        ) by {
            if i < m {
                assert(stubs[i] == stubs_of(files, m)->Ok_0[i]);
            }
        }
    }
}

/// The function name of every stub has the shape of an identifier in snake case.
pub proof fn law_stub_names_are_identifiers(file: IconPathView)
    requires
        stub_of(file) is Ok,
    ensures
        naming::is_snake_identifier(stub_of(file)->Ok_0.fn_name),
{
    let stem = file.file_stem->0;
    assert(naming::valid_stem(stem)) by {
        assert(naming::is_stem_char(stem[0]));
    }
    naming::law_valid_stem_becomes_identifier(stem);
}

/// Paths are turned position by position: a backslash becomes a slash, and every other
/// character stays. A path without backslashes stays as it is.
pub proof fn law_only_backslashes_change(path: Seq<char>)
    ensures
        forward_slashes(path).len() == path.len(),
        forall|i: int|
            0 <= i < path.len() && path[i] == '\\' ==> #[trigger] forward_slashes(path)[i] == '/',
        forall|i: int|
            0 <= i < path.len() && path[i] != '\\' ==> #[trigger] forward_slashes(path)[i]
                == path[i],
        (forall|i: int| 0 <= i < path.len() ==> #[trigger] path[i] != '\\') ==> forward_slashes(
            path,
        ) == path,
{
    if forall|i: int| 0 <= i < path.len() ==> #[trigger] path[i] != '\\' {
        assert(forward_slashes(path) =~= path);
    }
}

/// A file gets a stub exactly if its name ends with a dot and its extension, and its stem is
/// readable and valid. What is wrong otherwise is said of the name first, then of the stem.
pub proof fn law_stubs_are_made_for_valid_files(file: IconPathView)
    ensures
        stub_of(file) is Ok <==> {
            &&& file.file_name is Some
            &&& file.extension is Some
            &&& variant::ends_with(file.file_name->0, seq!['.'] + file.extension->0)
            &&& file.file_stem is Some
            &&& naming::valid_stem(file.file_stem->0)
        },
        stub_of(file) == Err::<StubView, StubErrorView>(StubErrorView::FileName) <==> {
            ||| file.file_name is None
            ||| file.extension is None
            ||| !variant::ends_with(file.file_name->0, seq!['.'] + file.extension->0)
        },
        stub_of(file) == Err::<StubView, StubErrorView>(StubErrorView::FileStem) <==> {
            &&& file.file_name is Some
            &&& file.extension is Some
            &&& variant::ends_with(file.file_name->0, seq!['.'] + file.extension->0)
            &&& file.file_stem is None
        },
        stub_of(file) matches Err(StubErrorView::Stem(stem, fault)) ==> file.file_stem == Some(stem)
            && naming::stem_fault(stem) == Some(fault),
{
    if file.file_stem is Some {
        naming::law_stem_faults_by_character(file.file_stem->0);
    }
}

/// What a stub says: its function is the snake-case form of the stem, its first line shows the
/// file under the stem's name, its last line names the file, and its panic names the stem. Each
/// of them holds the name whole, between fixed words.
pub proof fn law_stubs_name_their_icon(file: IconPathView)
    requires
        stub_of(file) is Ok,
    ensures
        ({
            let stub = stub_of(file)->Ok_0;
            let stem = file.file_stem->0;
            &&& stub.fn_name == naming::snake_case(stem)
            &&& stub.image_doc == "!["@ + stem + "](file://"@ + forward_slashes(file.path) + ")"@
            &&& stub.detail_doc == "`"@ + file.file_name->0
                + "` — annotate the caller with `#[fluentui_icons::inventory]`."@
            &&& stub.panic_msg == "icon stub `"@ + stem
                + "` — the calling function must be annotated with `#[fluentui_icons::inventory]`"@
        }),
{
}

/// What is said of a bad stem names the stem and the fault.
pub proof fn law_messages_name_the_fault(stem: Seq<char>)
    ensures
        error_message(StubErrorView::FileName) == "icon path has a non-UTF-8 filename"@,
        error_message(StubErrorView::FileStem) == "icon path has a non-UTF-8 file stem"@,
        error_message(StubErrorView::Stem(stem, StemFault::Empty))
            == "icon filename stem is empty"@,
        error_message(StubErrorView::Stem(stem, StemFault::Start)) == "`"@ + stem
            + "`: stem must begin with an ASCII letter or `_`"@,
        error_message(StubErrorView::Stem(stem, StemFault::Character)) == "`"@ + stem
            + "`: stem must contain only ASCII letters, digits, and `_`; rename the file to UpperCamelCase"@,
{
}

/// Where some file gets no stub, nothing is declared, and what is said is the fault of the
/// first such file: all before it get their stubs.
pub proof fn law_the_first_fault_is_told(files: Seq<IconPathView>, n: nat) -> (first: int)
    requires
        stubs_of(files, n) is Err,
    ensures
        0 <= first < n,
        stub_of(files[first]) == Err::<StubView, StubErrorView>(stubs_of(files, n)->Err_0),
        forall|i: int| 0 <= i < first ==> (#[trigger] stub_of(files[i])) is Ok,
    decreases n,
{
    let m = (n - 1) as nat;
    if stubs_of(files, m) is Err {
        law_the_first_fault_is_told(files, m)
    } else {
        law_one_stub_for_each_icon(files, m);
        assert forall|i: int| 0 <= i < m implies (#[trigger] stub_of(files[i])) is Ok by {
            let stub = stubs_of(files, m)->Ok_0[i];
            assert(stub_of(files[i]) == Ok::<StubView, StubErrorView>(stub));
        }
        n - 1
    }
}

}
