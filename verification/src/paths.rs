//! Where images are kept: the data directory, the names of output files,
//! and which files count as images. Paths are strings with `/` between
//! their components.

use vstd::prelude::*;
use vstd::string::StrSliceExecFns;
use vstd::string::StringExecFns;

verus! {

/// Whether `part` occurs in `text` as a run of consecutive characters.
pub open spec fn has_infix(text: Seq<char>, part: Seq<char>) -> bool {
    exists|i: int|
        0 <= i && i + part.len() <= text.len() && #[trigger] text.subrange(i, i + part.len())
            == part
}

/// The endings by which an image file is known.
pub open spec fn image_extensions() -> Seq<Seq<char>> {
    seq![
        ".bmp"@,
        ".gif"@,
        ".jpg"@,
        ".jpeg"@,
        ".png"@,
        ".pnm"@,
        ".tga"@,
        ".tiff"@,
        ".webp"@,
    ]
}

/// Whether a file name names an image: one of the image endings occurs in
/// it, at its end or elsewhere.
pub open spec fn names_image(input: Seq<char>) -> bool {
    exists|k: int|
        0 <= k < image_extensions().len() && has_infix(input, #[trigger] image_extensions()[k])
}

/// The data directory.
pub open spec fn data_dir() -> Seq<char> {
    "data"@
}

/// Whether a path starts at the root.
pub open spec fn is_absolute(path: Seq<char>) -> bool {
    path.len() > 0 && path[0] == '/'
}

/// The path of the output file with the given prefix and name: the file
/// `prefix + name` in the directory `output` of the data directory. A file
/// name that starts at the root stands for itself, as it does when a path is
/// joined to a directory.
pub open spec fn output_path(prefix: Seq<char>, name: Seq<char>) -> Seq<char> {
    if is_absolute(prefix) {
        prefix + name
    } else {
        data_dir() + "/output/"@ + prefix + name
    }
}

/// Whether `name` can be the final component of `path`: it is not empty, it
/// occurs in the path, and it holds no separator.
pub open spec fn is_component_of(name: Seq<char>, path: Seq<char>) -> bool {
    name.len() > 0 && has_infix(path, name) && !name.contains('/')
}

/// The text with every occurrence of `from` replaced by `to`. Occurrences
/// are sought from left to right and do not overlap. An empty `from` is not
/// sought.
pub open spec fn replaced(text: Seq<char>, from: Seq<char>, to: Seq<char>) -> Seq<char>
    decreases text.len(),
{
    if from.len() == 0 || text.len() < from.len() {
        text
    } else if text.subrange(0, from.len() as int) == from {
        to + replaced(text.skip(from.len() as int), from, to)
    } else {
        seq![text[0]] + replaced(text.skip(1), from, to)
    }
}

/// The path of the captured image that belongs to a reference image, as far
/// as the path that is shown for the captured image does not give it: once a
/// diff is shown in its place, the path is that of the reference image with
/// `_capt` for every `_ref`.
pub open spec fn captured_path_of(reference: Seq<char>, shown: Seq<char>) -> Seq<char> {
    if has_infix(shown, "diff"@) {
        replaced(reference, "_ref"@, "_capt"@)
    } else {
        shown
    }
}

/// Calls `str::replace` with strings as the pattern and the replacement.
/// Trusted: every occurrence of the pattern, sought from left to right
/// without overlap, is replaced. The pattern must not be empty.
#[verifier::external_body]
fn replace_all(text: &str, from: &str, to: &str) -> (r: String)
    requires
        from@.len() > 0,
    ensures
        r@ == replaced(text@, from@, to@),
{
    text.replace(from, to)
}

/// Calls `str::contains` with a string as the pattern.
/// Trusted: the result tells whether the pattern occurs in the text as a
/// run of consecutive characters.
#[verifier::external_body]
fn contains_str(text: &str, part: &str) -> (b: bool)
    ensures
        b == has_infix(text@, part@),
{
    text.contains(part)
}

/// Calls `std::path::Path::file_name` on the path, and hands the name on as
/// a string.
/// Trusted: where there is a final component, it is a non-empty part of the
/// path without a separator in it. When there is none is left open.
#[verifier::external_body]
fn final_component(path: &str) -> (name: Option<String>)
    ensures
        name matches Some(n) ==> is_component_of(n@, path@),
{
    std::path::Path::new(path).file_name().and_then(|n| n.to_str()).map(|n| n.to_string())
}

/// The data directory.
pub fn get_path() -> (path: String)
    ensures
        path@ == data_dir(),
{
    String::from_str("data")
}

/// The path that a string holds.
pub fn to_path(input: &String) -> (path: &str)
    ensures
        path@ == input@,
{
    input.as_str()
}

/// The name of the file that a path leads to: its final component, where it
/// has one.
pub fn get_filename(file_path: &String) -> (name: Option<String>)
    ensures
        name matches Some(n) ==> is_component_of(n@, file_path@),
{
    final_component(to_path(file_path))
}

/// The path of the output file with the given prefix and file name.
pub fn output_file(prefix: &str, name: &str) -> (path: String)
    ensures
        path@ == output_path(prefix@, name@),
{
    let mut path = if !prefix.is_empty() && prefix.get_char(0) == '/' {
        String::new()
    } else {
        let mut dir = get_path();
        dir.append("/output/");
        dir
    };
    path.append(prefix);
    path.append(name);
    path
}

/// The path of the output file for what was found as the name of a file:
/// the output file with the given prefix and that name, and none where no
/// name was found.
pub fn output_for(prefix: &str, name: Option<String>) -> (path: Option<String>)
    ensures
        name is None ==> path is None,
        name matches Some(n) ==> path is Some && path->0@ == output_path(prefix@, n@),
{
    match name {
        Some(name) => Some(output_file(prefix, name.as_str())),
        None => None,
    }
}

/// The path of the output file that belongs to the file at `dst`: in the
/// output directory, under the name of that file with `prefix` before it.
/// There is none where `dst` has no final component.
pub fn set_path(prefix: &str, dst: &str) -> (path: Option<String>)
    ensures
        path matches Some(p) ==> exists|name: Seq<char>|
            is_component_of(name, dst@) && p@ == #[trigger] output_path(prefix@, name),
{
    let name = final_component(dst);
    let path = output_for(prefix, name);
    assert(path matches Some(p) ==> p@ == output_path(prefix@, name->0@));
    path
}

/// The path of the captured image that belongs to the reference image at
/// `reference`, where `shown` is the path that the view of the captured
/// image shows.
pub fn captured_path(reference: &str, shown: &str) -> (path: String)
    ensures
        path@ == captured_path_of(reference@, shown@),
{
    if contains_str(shown, "diff") {
        proof {
            reveal_strlit("_ref");
        }
        replace_all(reference, "_ref", "_capt")
    } else {
        String::from_str(shown)
    }
}

/// Whether a file name names an image.
pub fn is_image_file(input: &str) -> (b: bool)
    ensures
        b == names_image(input@),
{
    let extensions: [&str; 9] = [
        ".bmp",
        ".gif",
        ".jpg",
        ".jpeg",
        ".png",
        ".pnm",
        ".tga",
        ".tiff",
        ".webp",
    ];
    let mut k: usize = 0;
    while k < 9
        invariant
            k <= 9,
            image_extensions().len() == 9,
            forall|j: int| 0 <= j < 9 ==> (#[trigger] extensions@[j])@ == image_extensions()[j],
            forall|j: int| 0 <= j < k ==> !has_infix(input@, #[trigger] image_extensions()[j]),
        decreases 9 - k,
    {
        if contains_str(input, extensions[k]) {
            assert(has_infix(input@, image_extensions()[k as int]));
            return true;
        }
        k += 1;
    }
    false
}

} // verus!
