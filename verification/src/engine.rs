//! Conversion requests and the two-stage planner: inputs are collected and deduplicated,
//! then every output name is reserved before any image is converted.
use crate::color::RgbColor;
use crate::options::{duplicate_name, extension_text, DuplicateStyle, OutputFormat, ResizeMode};
use crate::paths::{
    extension_of, joined_path, parent_of, path_eq, path_extension, path_file_stem,
    path_join, path_parent, same_path, stem_of,
};
use crate::text::{chars_eq_ignore_case, chars_of, lower_seq, push_str, string_from_chars};
use vstd::prelude::*;

verus! {

/// Everything a batch conversion needs to know.
#[derive(Debug)]
pub struct ConversionRequest {
    /// Files and folders as the user supplied them; after planning, the expanded files.
    pub inputs: Vec<String>,
    /// One folder for every output; `None` puts each in a `converted` folder beside its source.
    pub output_dir: Option<String>,
    pub format: OutputFormat,
    pub resize: ResizeMode,
    pub jpeg_quality: u8,
    pub jpeg_background: RgbColor,
    pub overwrite: bool,
    pub duplicate_style: DuplicateStyle,
}

impl Default for ConversionRequest {
    fn default() -> (r: ConversionRequest)
        ensures
            r.inputs@.len() == 0,
            r.output_dir is None,
            r.format == OutputFormat::Png,
            r.resize == ResizeMode::Original,
            r.jpeg_quality == 90,
            r.jpeg_background == crate::color::white(),
            !r.overwrite,
            r.duplicate_style == DuplicateStyle::Dash,
    {
        ConversionRequest {
            inputs: Vec::new(),
            output_dir: None,
            format: OutputFormat::Png,
            resize: ResizeMode::Original,
            jpeg_quality: 90,
            jpeg_background: RgbColor::white(),
            overwrite: false,
            duplicate_style: DuplicateStyle::Dash,
        }
    }
}

/// The stable identity of one planned conversion: its position in the plan.
#[derive(Clone, Copy, Debug, PartialEq, Eq, Structural, Hash, PartialOrd, Ord)]
pub struct ItemId(pub usize);

/// One source file with its reserved destination.
#[derive(Debug)]
pub struct PlannedItem {
    pub id: ItemId,
    pub input: String,
    pub byte_size: u64,
    pub output: String,
}

/// An input that could not be planned, with the reason.
#[derive(Debug)]
pub struct PlanningFailure {
    pub path: String,
    pub error: String,
}

/// The expanded request, its items, and the inputs that were skipped.
#[derive(Debug)]
pub struct ConversionPlan {
    pub request: ConversionRequest,
    pub items: Vec<PlannedItem>,
    pub failures: Vec<PlanningFailure>,
}

/// Planning found nothing to convert.
#[derive(Debug)]
pub struct PlanError {
    pub message: String,
    pub failures: Vec<PlanningFailure>,
}

/// What scanning the supplied inputs found, in the order it was found.
#[derive(Debug)]
pub enum Discovered {
    /// A file, by canonical path, with its byte size or the text of the metadata error.
    File { path: String, size: Result<u64, String> },
    /// An input that could not be read or is neither a file nor a folder.
    Failure(PlanningFailure),
}

/// A planning failure as plain text: path and reason.
pub open spec fn failure_view(f: PlanningFailure) -> (Seq<char>, Seq<char>) {
    (f.path@, f.error@)
}

/// The failures of a list, as plain text.
pub open spec fn failures_view(fs: Seq<PlanningFailure>) -> Seq<(Seq<char>, Seq<char>)> {
    Seq::new(fs.len(), |i: int| failure_view(fs[i]))
}

/// The collected inputs, as plain text and sizes.
pub open spec fn inputs_view(inputs: Seq<(String, u64)>) -> Seq<(Seq<char>, u64)> {
    Seq::new(inputs.len(), |i: int| (inputs[i].0@, inputs[i].1))
}

/// The lower-case extensions that the converter reads.
pub open spec fn is_image_extension(lower: Seq<char>) -> bool {
    ||| lower == "png"@
    ||| lower == "jpg"@
    ||| lower == "jpeg"@
    ||| lower == "webp"@
    ||| lower == "bmp"@
    ||| lower == "tif"@
    ||| lower == "tiff"@
    ||| lower == "gif"@
}

/// Whether a path names a readable image format by its extension, in any ASCII case.
pub open spec fn supported_input(path: Seq<char>) -> bool {
    match extension_of(path) {
        Some(e) => is_image_extension(lower_seq(e)),
        None => false,
    }
}

/// Inputs and failures gathered so far, with every path already considered.
pub struct Collected {
    pub inputs: Seq<(Seq<char>, u64)>,
    pub failures: Seq<(Seq<char>, Seq<char>)>,
    pub seen: Seq<Seq<char>>,
}

/// Whether a path equal to `path` was already considered.
pub open spec fn seen_before(seen: Seq<Seq<char>>, path: Seq<char>) -> bool {
    exists|k: int| 0 <= k < seen.len() && same_path(#[trigger] seen[k], path)
}

/// One scanning result folded into the collection.
pub open spec fn collect_step(c: Collected, d: Discovered) -> Collected {
    match d {
        Discovered::Failure(f) => Collected { failures: c.failures.push(failure_view(f)), ..c },
        Discovered::File { path, size } => if !supported_input(path@) || seen_before(
            c.seen,
            path@,
        ) {
            c
        } else {
            match size {
                Ok(n) => Collected {
                    inputs: c.inputs.push((path@, n)),
                    failures: c.failures,
                    seen: c.seen.push(path@),
                },
                Err(e) => Collected {
                    inputs: c.inputs,
                    failures: c.failures.push((path@, "could not read file metadata: "@ + e@)),
                    seen: c.seen.push(path@),
                },
            }
        },
    }
}

/// All scanning results folded in order: unsupported files are skipped, each path is kept
/// once, and metadata errors become failures.
pub open spec fn collected(entries: Seq<Discovered>) -> Collected
    decreases entries.len(),
{
    if entries.len() == 0 {
        Collected { inputs: Seq::empty(), failures: Seq::empty(), seen: Seq::empty() }
    } else {
        collect_step(collected(entries.drop_last()), entries.last())
    }
}

/// The folder an input's output goes to.
pub open spec fn output_dir_for(input: Seq<char>, requested: Option<Seq<char>>) -> Seq<char> {
    match requested {
        Some(dir) => dir,
        None => joined_path(
            match parent_of(input) {
                Some(p) => p,
                None => "."@,
            },
            "converted"@,
        ),
    }
}

/// The base name of an input's output: its file stem, or `image` when it has none.
pub open spec fn stem_for(input: Seq<char>) -> Seq<char> {
    match stem_of(input) {
        Some(s) => if s.len() > 0 {
            s
        } else {
            "image"@
        },
        None => "image"@,
    }
}

/// The `n`-th candidate destination of an input, counting from 1.
///
/// The first is `stem.ext`, or `stem-converted.ext` when that would be the input itself;
/// later ones carry the collision style's number.
pub open spec fn nth_output(
    input: Seq<char>,
    dir: Seq<char>,
    stem: Seq<char>,
    ext: Seq<char>,
    style: DuplicateStyle,
    n: nat,
) -> Seq<char> {
    if n <= 1 {
        let plain = joined_path(dir, stem + "."@ + ext);
        if same_path(plain, input) {
            joined_path(dir, stem + "-converted."@ + ext)
        } else {
            plain
        }
    } else {
        joined_path(dir, duplicate_name(style, stem, n) + "."@ + ext)
    }
}

/// The `n`-th candidate destination of an input under a request's options.
pub open spec fn candidate(
    input: Seq<char>,
    requested: Option<Seq<char>>,
    format: OutputFormat,
    style: DuplicateStyle,
    n: nat,
) -> Seq<char> {
    nth_output(
        input,
        output_dir_for(input, requested),
        stem_for(input),
        extension_text(format),
        style,
        n,
    )
}

/// The requested output folder as plain text.
pub open spec fn dir_view(dir: Option<String>) -> Option<Seq<char>> {
    match dir {
        Some(d) => Some(d@),
        None => None,
    }
}

/// Some reserved destination is the same path as `path`.
pub open spec fn reserved_taken(reserved: Seq<String>, path: Seq<char>) -> bool {
    exists|k: int| 0 <= k < reserved.len() && same_path(#[trigger] reserved[k]@, path)
}

/// One of the first `count` items of a plan has the same destination as `path`.
pub open spec fn item_taken(items: Seq<PlannedItem>, count: int, path: Seq<char>) -> bool {
    exists|k: int| 0 <= k < count && same_path(#[trigger] items[k].output@, path)
}

/// The `n`-th candidate of input `i` under the request's options.
pub open spec fn candidate_of(
    inputs: Seq<(Seq<char>, u64)>,
    request: ConversionRequest,
    i: int,
    n: nat,
) -> Seq<char> {
    candidate(inputs[i].0, dir_view(request.output_dir), request.format, request.duplicate_style, n)
}

/// The disk check, asked about `path`, answered `answer`.
pub open spec fn disk_said<F: Fn(String) -> bool>(probe: F, path: Seq<char>, answer: bool) -> bool {
    exists|s: String| s@ == path && #[trigger] call_ensures(probe, (s,), answer)
}

/// A candidate of item `count` cannot be used: an earlier item took the same path or,
/// unless overwriting, the disk check found something there.
pub open spec fn blocked_by<F: Fn(String) -> bool>(
    items: Seq<PlannedItem>,
    count: int,
    path: Seq<char>,
    overwrite: bool,
    probe: F,
) -> bool {
    item_taken(items, count, path) || (!overwrite && disk_said(probe, path, true))
}

/// Item `i` took the `n`-th candidate, the first one free: every earlier candidate was
/// blocked, and (unless overwriting) the disk check found nothing at the one taken.
pub open spec fn chosen_at<F: Fn(String) -> bool>(
    inputs: Seq<(Seq<char>, u64)>,
    request: ConversionRequest,
    items: Seq<PlannedItem>,
    i: int,
    n: nat,
    probe: F,
) -> bool {
    &&& n >= 1
    &&& items[i].output@ == candidate_of(inputs, request, i, n)
    &&& !request.overwrite ==> disk_said(probe, items[i].output@, false)
    &&& forall|m: nat|
        1 <= m < n ==> blocked_by(
            items,
            i,
            #[trigger] candidate_of(inputs, request, i, m),
            request.overwrite,
            probe,
        )
}

/// Item `i` of a plan is input `i` with the first free candidate as its destination.
pub open spec fn item_chosen<F: Fn(String) -> bool>(
    inputs: Seq<(Seq<char>, u64)>,
    request: ConversionRequest,
    items: Seq<PlannedItem>,
    i: int,
    probe: F,
) -> bool {
    &&& items[i].id == ItemId(i as usize)
    &&& items[i].input@ == inputs[i].0
    &&& items[i].byte_size == inputs[i].1
    &&& exists|n: nat| #[trigger] chosen_at(inputs, request, items, i, n, probe)
}

/// A complete reservation: one item per input, in order, each with its first free
/// candidate, no two with the same destination.
pub open spec fn outputs_reserved<F: Fn(String) -> bool>(
    inputs: Seq<(Seq<char>, u64)>,
    request: ConversionRequest,
    items: Seq<PlannedItem>,
    probe: F,
) -> bool {
    &&& items.len() == inputs.len()
    &&& forall|i: int| 0 <= i < items.len() ==> item_chosen(inputs, request, items, i, probe)
    &&& forall|i: int, j: int|
        0 <= i < j < items.len() ==> !same_path(items[i].output@, items[j].output@)
}

/// A copy of a failure.
fn copy_failure(f: &PlanningFailure) -> (g: PlanningFailure)
    ensures
        failure_view(g) == failure_view(*f),
{
    PlanningFailure { path: f.path.clone(), error: f.error.clone() }
}

/// The known extensions are already lower case.
proof fn lemma_known_extensions_are_lower()
    ensures
        lower_seq("png"@) == "png"@,
        lower_seq("jpg"@) == "jpg"@,
        lower_seq("jpeg"@) == "jpeg"@,
        lower_seq("webp"@) == "webp"@,
        lower_seq("bmp"@) == "bmp"@,
        lower_seq("tif"@) == "tif"@,
        lower_seq("tiff"@) == "tiff"@,
        lower_seq("gif"@) == "gif"@,
{
    reveal_strlit("png");
    reveal_strlit("jpg");
    reveal_strlit("jpeg");
    reveal_strlit("webp");
    reveal_strlit("bmp");
    reveal_strlit("tif");
    reveal_strlit("tiff");
    reveal_strlit("gif");
    assert(lower_seq("png"@) =~= "png"@);
    assert(lower_seq("jpg"@) =~= "jpg"@);
    assert(lower_seq("jpeg"@) =~= "jpeg"@);
    assert(lower_seq("webp"@) =~= "webp"@);
    assert(lower_seq("bmp"@) =~= "bmp"@);
    assert(lower_seq("tif"@) =~= "tif"@);
    assert(lower_seq("tiff"@) =~= "tiff"@);
    assert(lower_seq("gif"@) =~= "gif"@);
}

/// Whether `path` names an image format the converter reads.
pub fn is_supported_input(path: &str) -> (r: bool)
    ensures
        r == supported_input(path@),
{
    match path_extension(path) {
        None => false,
        Some(extension) => {
            let e = chars_of(extension.as_str());
            let known = [
                chars_of("png"),
                chars_of("jpg"),
                chars_of("jpeg"),
                chars_of("webp"),
                chars_of("bmp"),
                chars_of("tif"),
                chars_of("tiff"),
                chars_of("gif"),
            ];
            let mut found = false;
            let mut i: usize = 0;
            while i < 8
                invariant
                    0 <= i <= 8,
                    known@.len() == 8,
                    known@[0]@ == "png"@,
                    known@[1]@ == "jpg"@,
                    known@[2]@ == "jpeg"@,
                    known@[3]@ == "webp"@,
                    known@[4]@ == "bmp"@,
                    known@[5]@ == "tif"@,
                    known@[6]@ == "tiff"@,
                    known@[7]@ == "gif"@,
                    found == exists|k: int|
                        0 <= k < i && lower_seq(e@) =~= lower_seq(#[trigger] known@[k]@),
                decreases 8 - i,
            {
                if chars_eq_ignore_case(e.as_slice(), known[i].as_slice()) {
                    found = true;
                }
                i = i + 1;
            }
            proof {
                lemma_known_extensions_are_lower();
                if found {
                    let k = choose|k: int| 0 <= k < 8 && lower_seq(e@) =~= lower_seq(known@[k]@);
                    assert(lower_seq(e@) == known@[k]@);
                } else {
                    if is_image_extension(lower_seq(e@)) {
                        if lower_seq(e@) == "png"@ {
                            assert(lower_seq(e@) =~= lower_seq(known@[0]@));
                        } else if lower_seq(e@) == "jpg"@ {
                            assert(lower_seq(e@) =~= lower_seq(known@[1]@));
                        } else if lower_seq(e@) == "jpeg"@ {
                            assert(lower_seq(e@) =~= lower_seq(known@[2]@));
                        } else if lower_seq(e@) == "webp"@ {
                            assert(lower_seq(e@) =~= lower_seq(known@[3]@));
                        } else if lower_seq(e@) == "bmp"@ {
                            assert(lower_seq(e@) =~= lower_seq(known@[4]@));
                        } else if lower_seq(e@) == "tif"@ {
                            assert(lower_seq(e@) =~= lower_seq(known@[5]@));
                        } else if lower_seq(e@) == "tiff"@ {
                            assert(lower_seq(e@) =~= lower_seq(known@[6]@));
                        } else {
                            assert(lower_seq(e@) =~= lower_seq(known@[7]@));
                        }
                    }
                }
            }
            found
        },
    }
}


/// Whether a path equal to `path` is among `reserved`.
fn reserved_contains(reserved: &Vec<String>, path: &String) -> (r: bool)
    ensures
        r == reserved_taken(reserved@, path@),
{
    let mut i: usize = 0;
    while i < reserved.len()
        invariant
            0 <= i <= reserved@.len(),
            forall|k: int| 0 <= k < i ==> !same_path(#[trigger] reserved@[k]@, path@),
        decreases reserved.len() - i,
    {
        if path_eq(reserved[i].as_str(), path.as_str()) {
            return true;
        }
        i = i + 1;
    }
    false
}

/// Whether a path equal to `path` is among the seen paths.
fn seen_contains(seen: &Vec<String>, path: &String) -> (r: bool)
    ensures
        r == seen_before(seen@.map_values(|s: String| s@), path@),
{
    let r = reserved_contains(seen, path);
    proof {
        let v = seen@.map_values(|s: String| s@);
        if r {
            let k = choose|k: int| 0 <= k < seen@.len() && same_path(seen@[k]@, path@);
            assert(v[k] == seen@[k]@);
        }
        if seen_before(v, path@) {
            let k = choose|k: int| 0 <= k < v.len() && same_path(v[k], path@);
            assert(v[k] == seen@[k]@);
        }
    }
    r
}

/// Folds the scanning results in order: unsupported files are skipped, each path is kept
/// once, and a file whose size could not be read is reported as a failure.
pub fn collect_inputs(entries: &[Discovered]) -> (r: (Vec<(String, u64)>, Vec<PlanningFailure>))
    ensures
        inputs_view(r.0@) == collected(entries@).inputs,
        failures_view(r.1@) == collected(entries@).failures,
{
    let mut inputs: Vec<(String, u64)> = Vec::new();
    let mut failures: Vec<PlanningFailure> = Vec::new();
    let mut seen: Vec<String> = Vec::new();
    let mut i: usize = 0;
    while i < entries.len()
        invariant
            0 <= i <= entries@.len(),
            inputs_view(inputs@) == collected(entries@.subrange(0, i as int)).inputs,
            failures_view(failures@) == collected(entries@.subrange(0, i as int)).failures,
            seen@.map_values(|s: String| s@) == collected(entries@.subrange(0, i as int)).seen,
        decreases entries.len() - i,
    {
        let ghost before = collected(entries@.subrange(0, i as int));
        assert(entries@.subrange(0, i + 1).drop_last() =~= entries@.subrange(0, i as int));
        assert(entries@.subrange(0, i + 1).last() == entries@[i as int]);
        match &entries[i] {
            Discovered::Failure(f) => {
                failures.push(copy_failure(f));
                assert(failures_view(failures@) =~= before.failures.push(failure_view(*f)));
            },
            Discovered::File { path, size } => {
                if is_supported_input(path.as_str()) && !seen_contains(&seen, path) {
                    let ghost seen_before_push = seen@;
                    seen.push(path.clone());
                    assert(seen@.map_values(|s: String| s@) =~= seen_before_push.map_values(
                        |s: String| s@,
                    ).push(path@));
                    match size {
                        Ok(n) => {
                            inputs.push((path.clone(), *n));
                            assert(inputs_view(inputs@) =~= before.inputs.push((path@, *n)));
                        },
                        Err(e) => {
                            let mut text: Vec<char> = Vec::new();
                            push_str(&mut text, "could not read file metadata: ");
                            push_str(&mut text, e.as_str());
                            let error = string_from_chars(text.as_slice());
                            failures.push(PlanningFailure { path: path.clone(), error });
                            assert(failures_view(failures@) =~= before.failures.push(
                                (path@, "could not read file metadata: "@ + e@),
                            ));
                        },
                    }
                }
            },
        }
        i = i + 1;
    }
    assert(entries@.subrange(0, entries@.len() as int) =~= entries@);
    (inputs, failures)
}

/// A string of the characters `a`, `b` and `c` in turn.
fn concat3(a: &str, b: &str, c: &str) -> (s: String)
    ensures
        s@ == a@ + b@ + c@,
{
    let mut out: Vec<char> = Vec::new();
    push_str(&mut out, a);
    push_str(&mut out, b);
    push_str(&mut out, c);
    string_from_chars(out.as_slice())
}

/// The `n`-th candidate destination, computed.
fn make_candidate(
    input: &String,
    dir: &String,
    stem: &String,
    ext: &str,
    style: DuplicateStyle,
    n: usize,
) -> (out: String)
    requires
        n >= 1,
    ensures
        out@ == nth_output(input@, dir@, stem@, ext@, style, n as nat),
{
    if n <= 1 {
        let plain = path_join(dir.as_str(), concat3(stem.as_str(), ".", ext).as_str());
        if path_eq(plain.as_str(), input.as_str()) {
            path_join(dir.as_str(), concat3(stem.as_str(), "-converted.", ext).as_str())
        } else {
            plain
        }
    } else {
        let name = style.name(stem.as_str(), n);
        path_join(dir.as_str(), concat3(name.as_str(), ".", ext).as_str())
    }
}

/// A candidate cannot be used while reserving: a destination already reserved is the same
/// path or, unless overwriting, the disk check found something there.
pub open spec fn reserved_blocked<F: Fn(String) -> bool>(
    reserved: Seq<String>,
    path: Seq<char>,
    overwrite: bool,
    probe: F,
) -> bool {
    reserved_taken(reserved, path) || (!overwrite && disk_said(probe, path, true))
}

/// Every numbered candidate of an input that the planner tries, from the first up to the
/// largest number it counts to, is blocked.
pub open spec fn all_candidates_blocked<F: Fn(String) -> bool>(
    input: Seq<char>,
    request: ConversionRequest,
    reserved: Seq<String>,
    probe: F,
) -> bool {
    forall|m: nat|
        1 <= m < usize::MAX ==> reserved_blocked(
            reserved,
            #[trigger] candidate(
                input,
                dir_view(request.output_dir),
                request.format,
                request.duplicate_style,
                m,
            ),
            request.overwrite,
            probe,
        )
}

/// Planning had to give up on some input: the outputs reserved for the inputs before it
/// (each one of its own candidates), together with what the disk check found, block every
/// candidate of that input.
pub open spec fn names_exhausted<F: Fn(String) -> bool>(
    inputs: Seq<(Seq<char>, u64)>,
    request: ConversionRequest,
    probe: F,
) -> bool {
    exists|i: int, reserved: Seq<String>| #[trigger] exhausted_at(inputs, request, i, reserved, probe)
}

/// The outputs `reserved` for the inputs before `i`, each one of its own candidates, and
/// the disk check block every candidate of input `i`.
pub open spec fn exhausted_at<F: Fn(String) -> bool>(
    inputs: Seq<(Seq<char>, u64)>,
    request: ConversionRequest,
    i: int,
    reserved: Seq<String>,
    probe: F,
) -> bool {
    &&& 0 <= i < inputs.len()
    &&& reserved.len() == i
    &&& forall|k: int| 0 <= k < i ==> #[trigger] is_candidate(inputs, request, k, reserved[k]@)
    &&& all_candidates_blocked(inputs[i].0, request, reserved, probe)
}

/// `path` is one of the numbered candidates of input `k`.
pub open spec fn is_candidate(
    inputs: Seq<(Seq<char>, u64)>,
    request: ConversionRequest,
    k: int,
    path: Seq<char>,
) -> bool {
    exists|n: nat| n >= 1 && path == #[trigger] candidate_of(inputs, request, k, n)
}

/// Asks the disk check about `path`.
fn ask_disk<F: Fn(String) -> bool>(probe: &F, path: &String) -> (found: bool)
    requires
        forall|s: String| call_requires(*probe, (s,)),
    ensures
        disk_said(*probe, path@, found),
{
    let s = path.clone();
    let found = probe(s);
    assert(call_ensures(*probe, (s,), found));
    found
}

/// Whether a candidate cannot be used, given whether an earlier item reserved it and what
/// the disk check answered: reserved candidates are blocked, and otherwise, unless
/// overwriting, the disk's answer decides.
fn is_blocked(taken: bool, overwrite: bool, on_disk: bool) -> (b: bool)
    ensures
        b == (taken || (!overwrite && on_disk)),
        !overwrite && !taken ==> b == on_disk,
{
    taken || (!overwrite && on_disk)
}

/// The first candidate destination of one input that is not blocked, with its number; the
/// disk is asked only about candidates that are not reserved, and never when overwriting.
fn reserve_output<F: Fn(String) -> bool>(
    input: &String,
    dir: &String,
    stem: &String,
    ext: &str,
    request: &ConversionRequest,
    reserved: &Vec<String>,
    probe: &F,
) -> (r: Option<(String, Ghost<nat>)>)
    requires
        dir@ == output_dir_for(input@, dir_view(request.output_dir)),
        stem@ == stem_for(input@),
        ext@ == extension_text(request.format),
        forall|s: String| call_requires(*probe, (s,)),
    ensures
        r matches Some((out, n)) ==> {
            &&& n@ >= 1
            &&& out@ == candidate(
                input@,
                dir_view(request.output_dir),
                request.format,
                request.duplicate_style,
                n@,
            )
            &&& !reserved_taken(reserved@, out@)
            &&& !request.overwrite ==> disk_said(*probe, out@, false)
            &&& forall|m: nat|
                1 <= m < n@ ==> reserved_blocked(
                    reserved@,
                    #[trigger] candidate(
                        input@,
                        dir_view(request.output_dir),
                        request.format,
                        request.duplicate_style,
                        m,
                    ),
                    request.overwrite,
                    *probe,
                )
        },
        r is None ==> all_candidates_blocked(input@, *request, reserved@, *probe),
{
    let mut n: usize = 1;
    let mut output = make_candidate(input, dir, stem, ext, request.duplicate_style, n);
    let mut taken = reserved_contains(reserved, &output);
    let mut on_disk = if taken || request.overwrite {
        false
    } else {
        ask_disk(probe, &output)
    };
    let mut blocked = is_blocked(taken, request.overwrite, on_disk);
    while blocked
        invariant
            1 <= n < usize::MAX,
            dir@ == output_dir_for(input@, dir_view(request.output_dir)),
            stem@ == stem_for(input@),
            ext@ == extension_text(request.format),
            forall|s: String| call_requires(*probe, (s,)),
            output@ == candidate(
                input@,
                dir_view(request.output_dir),
                request.format,
                request.duplicate_style,
                n as nat,
            ),
            taken == reserved_taken(reserved@, output@),
            !taken && !request.overwrite ==> disk_said(*probe, output@, on_disk),
            blocked == (taken || (!request.overwrite && on_disk)),
            forall|m: nat|
                1 <= m < n ==> reserved_blocked(
                    reserved@,
                    #[trigger] candidate(
                        input@,
                        dir_view(request.output_dir),
                        request.format,
                        request.duplicate_style,
                        m,
                    ),
                    request.overwrite,
                    *probe,
                ),
        decreases usize::MAX - n,
    {
        assert(reserved_blocked(reserved@, output@, request.overwrite, *probe));
        if n + 1 == usize::MAX {
            proof {
                assert forall|m: nat| 1 <= m < usize::MAX implies reserved_blocked(
                    reserved@,
                    #[trigger] candidate(
                        input@,
                        dir_view(request.output_dir),
                        request.format,
                        request.duplicate_style,
                        m,
                    ),
                    request.overwrite,
                    *probe,
                ) by {
                    if m == n {
                        assert(output@ == candidate(
                            input@,
                            dir_view(request.output_dir),
                            request.format,
                            request.duplicate_style,
                            m,
                        ));
                    }
                }
            }
            return None;
        }
        let ghost previous_output = output@;
        n = n + 1;
        output = make_candidate(input, dir, stem, ext, request.duplicate_style, n);
        taken = reserved_contains(reserved, &output);
        on_disk = if taken || request.overwrite {
            false
        } else {
            ask_disk(probe, &output)
        };
        blocked = is_blocked(taken, request.overwrite, on_disk);
        assert forall|m: nat| 1 <= m < n implies reserved_blocked(
            reserved@,
            #[trigger] candidate(
                input@,
                dir_view(request.output_dir),
                request.format,
                request.duplicate_style,
                m,
            ),
            request.overwrite,
            *probe,
        ) by {
            if m == n - 1 {
                assert(previous_output == candidate(
                    input@,
                    dir_view(request.output_dir),
                    request.format,
                    request.duplicate_style,
                    m,
                ));
            }
        }
    }
    Some((output, Ghost(n as nat)))
}

/// Reserves one destination per input, in order: the first candidate that no earlier item
/// reserved and (unless overwriting) that the disk check does not find. `None` when an
/// input ran out of numbered names.
fn plan_jobs<F: Fn(String) -> bool>(
    inputs: &Vec<(String, u64)>,
    request: &ConversionRequest,
    probe: &F,
) -> (r: Option<Vec<PlannedItem>>)
    requires
        forall|s: String| call_requires(*probe, (s,)),
    ensures
        r matches Some(items) ==> outputs_reserved(inputs_view(inputs@), *request, items@, *probe),
        r is None ==> names_exhausted(inputs_view(inputs@), *request, *probe),
{
    let mut items: Vec<PlannedItem> = Vec::new();
    let mut reserved: Vec<String> = Vec::new();
    let ext = request.format.extension();
    let mut index: usize = 0;
    while index < inputs.len()
        invariant
            0 <= index <= inputs@.len(),
            ext@ == extension_text(request.format),
            forall|s: String| call_requires(*probe, (s,)),
            items@.len() == index,
            reserved@.len() == index,
            forall|k: int| 0 <= k < index ==> #[trigger] reserved@[k]@ == items@[k].output@,
            forall|i: int|
                0 <= i < index ==> item_chosen(inputs_view(inputs@), *request, items@, i, *probe),
            forall|i: int, j: int|
                0 <= i < j < index ==> !same_path(items@[i].output@, items@[j].output@),
        decreases inputs.len() - index,
    {
        let ghost iv = inputs_view(inputs@);
        let input: &String = &inputs[index].0;
        let byte_size: u64 = inputs[index].1;
        let dir: String = match &request.output_dir {
            Some(d) => d.clone(),
            None => {
                let parent = match path_parent(input.as_str()) {
                    Some(p) => p,
                    None => String::from_str("."),
                };
                path_join(parent.as_str(), "converted")
            },
        };
        let stem: String = match path_file_stem(input.as_str()) {
            Some(s) => if s.as_str().is_empty() {
                String::from_str("image")
            } else {
                s
            },
            None => String::from_str("image"),
        };
        let (output, chosen) = match reserve_output(
            input,
            &dir,
            &stem,
            ext,
            request,
            &reserved,
            probe,
        ) {
            Some(found) => found,
            None => {
                proof {
                    assert(iv[index as int].0 == input@);
                    assert forall|k: int| 0 <= k < index implies #[trigger] is_candidate(
                        iv,
                        *request,
                        k,
                        reserved@[k]@,
                    ) by {
                        assert(item_chosen(iv, *request, items@, k, *probe));
                        let n_k = choose|n_k: nat| #[trigger] chosen_at(
                            iv,
                            *request,
                            items@,
                            k,
                            n_k,
                            *probe,
                        );
                        assert(reserved@[k]@ == items@[k].output@);
                        assert(n_k >= 1 && reserved@[k]@ == candidate_of(iv, *request, k, n_k));
                    }
                    assert(0 <= index < iv.len());
                    assert(exhausted_at(iv, *request, index as int, reserved@, *probe));
                }
                return None;
            },
        };
        let ghost n = chosen@;
        let ghost old_reserved = reserved@;
        let ghost old_items = items@;
        reserved.push(output.clone());
        items.push(PlannedItem { id: ItemId(index), input: input.clone(), byte_size, output });
        assert(iv[index as int].0 == input@);
        assert forall|k: int| 0 <= k < index implies #[trigger] items@[k] == old_items[k] by {}
        assert forall|path: Seq<char>| reserved_taken(old_reserved, path) implies item_taken(
            items@,
            index as int,
            path,
        ) by {
            let k = choose|k: int| 0 <= k < old_reserved.len() && same_path(old_reserved[k]@, path);
            assert(items@[k] == old_items[k]);
        }
        assert forall|i: int, path: Seq<char>|
            0 <= i < index && #[trigger] item_taken(old_items, i, path) implies item_taken(
            items@,
            i,
            path,
        ) by {
            let k = choose|k: int| 0 <= k < i && same_path(old_items[k].output@, path);
            assert(items@[k] == old_items[k]);
        }
        assert forall|m: nat| 1 <= m < n implies blocked_by(
            items@,
            index as int,
            #[trigger] candidate_of(iv, *request, index as int, m),
            request.overwrite,
            *probe,
        ) by {
            assert(candidate_of(iv, *request, index as int, m) == candidate(
                input@,
                dir_view(request.output_dir),
                request.format,
                request.duplicate_style,
                m,
            ));
        }
        assert(chosen_at(iv, *request, items@, index as int, n, *probe));
        assert forall|i: int| 0 <= i < index + 1 implies item_chosen(
            iv,
            *request,
            items@,
            i,
            *probe,
        ) by {
            if i < index {
                assert(item_chosen(iv, *request, old_items, i, *probe));
                let n_i = choose|n_i: nat| #[trigger] chosen_at(iv, *request, old_items, i, n_i, *probe);
                assert(items@[i] == old_items[i]);
                assert forall|m: nat| 1 <= m < n_i implies blocked_by(
                    items@,
                    i,
                    #[trigger] candidate_of(iv, *request, i, m),
                    request.overwrite,
                    *probe,
                ) by {
                    assert(blocked_by(
                        old_items,
                        i,
                        candidate_of(iv, *request, i, m),
                        request.overwrite,
                        *probe,
                    ));
                }
                assert(chosen_at(iv, *request, items@, i, n_i, *probe));
            }
        }
        assert forall|i: int, j: int|
            0 <= i < j < index + 1 implies !same_path(items@[i].output@, items@[j].output@) by {
            if j == index as int {
                assert(old_reserved[i]@ == old_items[i].output@);
                assert(items@[i] == old_items[i]);
            } else {
                assert(items@[i] == old_items[i]);
                assert(items@[j] == old_items[j]);
            }
        }
        index = index + 1;
    }
    Some(items)
}


/// Plans batches: expands the scanned inputs and reserves every output name before any
/// image is converted.
#[derive(Clone, Copy, Debug, Default)]
pub struct Converter;

/// The paths of the collected inputs, in order.
pub open spec fn input_paths(inputs: Seq<(Seq<char>, u64)>) -> Seq<Seq<char>> {
    Seq::new(inputs.len(), |i: int| inputs[i].0)
}

/// The paths of a request's inputs as plain text.
pub open spec fn strings_view(v: Seq<String>) -> Seq<Seq<char>> {
    Seq::new(v.len(), |i: int| v[i]@)
}

/// The request with the expanded inputs in place of the supplied ones.
pub open spec fn same_options(a: ConversionRequest, b: ConversionRequest) -> bool {
    &&& dir_view(a.output_dir) == dir_view(b.output_dir)
    &&& a.format == b.format
    &&& a.resize == b.resize
    &&& a.jpeg_quality == b.jpeg_quality
    &&& a.jpeg_background == b.jpeg_background
    &&& a.overwrite == b.overwrite
    &&& a.duplicate_style == b.duplicate_style
}

impl Converter {
    /// Expands and deduplicates the scanned inputs and reserves every output.
    ///
    /// Fails when no supported image was found, or when an input ran out of numbered names.
    pub fn plan<F: Fn(String) -> bool>(
        &self,
        request: ConversionRequest,
        discovered: &[Discovered],
        probe: F,
    ) -> (r: Result<ConversionPlan, PlanError>)
        requires
            forall|s: String| call_requires(probe, (s,)),
        ensures
            collected(discovered@).inputs.len() == 0 ==> r is Err,
            collected(discovered@).inputs.len() > 0 && !names_exhausted(
                collected(discovered@).inputs,
                request,
                probe,
            ) ==> r is Ok,
            match r {
                Ok(plan) => {
                    &&& strings_view(plan.request.inputs@) == input_paths(
                        collected(discovered@).inputs,
                    )
                    &&& same_options(plan.request, request)
                    &&& outputs_reserved(
                        collected(discovered@).inputs,
                        plan.request,
                        plan.items@,
                        probe,
                    )
                    &&& failures_view(plan.failures@) == collected(discovered@).failures
                },
                Err(e) => {
                    &&& failures_view(e.failures@) == collected(discovered@).failures
                    &&& collected(discovered@).inputs.len() == 0 ==> e.message@
                        == "no supported images were found"@
                    &&& collected(discovered@).inputs.len() > 0 ==> e.message@
                        == "no free output name was found"@
                },
            },
    {
        let (inputs, failures) = collect_inputs(discovered);
        if inputs.len() == 0 {
            return Err(
                PlanError { message: String::from_str("no supported images were found"), failures },
            );
        }
        let mut paths: Vec<String> = Vec::new();
        let mut i: usize = 0;
        while i < inputs.len()
            invariant
                0 <= i <= inputs@.len(),
                paths@.len() == i,
                forall|k: int| 0 <= k < i ==> #[trigger] paths@[k]@ == inputs@[k].0@,
            decreases inputs.len() - i,
        {
            paths.push(inputs[i].0.clone());
            i = i + 1;
        }
        let ghost supplied = request;
        let mut request = request;
        request.inputs = paths;
        assert(strings_view(request.inputs@) =~= input_paths(inputs_view(inputs@)));
        match plan_jobs(&inputs, &request, &probe) {
            Some(items) => Ok(ConversionPlan { request, items, failures }),
            None => {
                proof {
                    let iv = inputs_view(inputs@);
                    let (i, res) = choose|i: int, res: Seq<String>| #[trigger] exhausted_at(
                        iv,
                        request,
                        i,
                        res,
                        probe,
                    );
                    assert forall|k: int, path: Seq<char>|
                        #[trigger] is_candidate(iv, request, k, path) implies is_candidate(
                        iv,
                        supplied,
                        k,
                        path,
                    ) by {
                        let n = choose|n: nat| n >= 1 && path == #[trigger] candidate_of(
                            iv,
                            request,
                            k,
                            n,
                        );
                        assert(candidate_of(iv, request, k, n) == candidate_of(iv, supplied, k, n));
                    }
                    assert(all_candidates_blocked(iv[i].0, supplied, res, probe));
                    assert forall|k: int| 0 <= k < i implies #[trigger] is_candidate(
                        iv,
                        supplied,
                        k,
                        res[k]@,
                    ) by {
                        assert(is_candidate(iv, request, k, res[k]@));
                    }
                    assert(exhausted_at(iv, supplied, i, res, probe));
                }
                Err(
                    PlanError {
                        message: String::from_str("no free output name was found"),
                        failures,
                    },
                )
            },
        }
    }
}


/// Scanning keeps each file once: no collected input is the same path as an earlier one,
/// and every collected input is among the paths considered.
pub proof fn lemma_collected_distinct(entries: Seq<Discovered>)
    ensures
        forall|i: int, j: int|
            0 <= i < j < collected(entries).inputs.len() ==> !same_path(
                #[trigger] collected(entries).inputs[i].0,
                #[trigger] collected(entries).inputs[j].0,
            ),
        forall|i: int|
            0 <= i < collected(entries).inputs.len() ==> collected(entries).seen.contains(
                #[trigger] collected(entries).inputs[i].0,
            ),
    decreases entries.len(),
{
    if entries.len() > 0 {
        let c = collected(entries.drop_last());
        lemma_collected_distinct(entries.drop_last());
        let n = collected(entries);
        assert forall|i: int| 0 <= i < n.inputs.len() implies n.seen.contains(
            #[trigger] n.inputs[i].0,
        ) by {
            if i < c.inputs.len() {
                assert(n.inputs[i] == c.inputs[i]);
                assert(c.seen.contains(c.inputs[i].0));
                let k = choose|k: int| 0 <= k < c.seen.len() && c.seen[k] == c.inputs[i].0;
                assert(n.seen[k] == c.seen[k]);
            } else {
                assert(n.seen[n.seen.len() - 1] == n.inputs[i].0);
            }
        }
        assert forall|i: int, j: int| 0 <= i < j < n.inputs.len() implies !same_path(
            #[trigger] n.inputs[i].0,
            #[trigger] n.inputs[j].0,
        ) by {
            if j >= c.inputs.len() {
                assert(n.inputs[i] == c.inputs[i]);
                assert(c.seen.contains(c.inputs[i].0));
                let k = choose|k: int| 0 <= k < c.seen.len() && c.seen[k] == c.inputs[i].0;
                assert(!same_path(c.seen[k], n.inputs[j].0));
            } else {
                assert(n.inputs[i] == c.inputs[i] && n.inputs[j] == c.inputs[j]);
            }
        }
    }
}


/// Only files in a readable image format are collected, and every failure either came
/// from the scan or is a file whose size could not be read.
pub proof fn lemma_collected_supported(entries: Seq<Discovered>)
    ensures
        forall|i: int|
            0 <= i < collected(entries).inputs.len() ==> supported_input(
                #[trigger] collected(entries).inputs[i].0,
            ),
        collected(entries).inputs.len() + collected(entries).failures.len() <= entries.len(),
    decreases entries.len(),
{
    if entries.len() > 0 {
        lemma_collected_supported(entries.drop_last());
        let c = collected(entries.drop_last());
        let n = collected(entries);
        assert forall|i: int| 0 <= i < n.inputs.len() implies supported_input(
            #[trigger] n.inputs[i].0,
        ) by {
            if i < c.inputs.len() {
                assert(n.inputs[i] == c.inputs[i]);
            }
        }
    }
}


/// A path is a supported input exactly when it has an extension that, read in any ASCII
/// case, is one of png, jpg, jpeg, webp, bmp, tif, tiff or gif.
pub proof fn lemma_supported_extensions(path: Seq<char>)
    ensures
        supported_input(path) <==> (extension_of(path) matches Some(e) && {
            let l = lower_seq(e);
            ||| l == seq!['p', 'n', 'g']
            ||| l == seq!['j', 'p', 'g']
            ||| l == seq!['j', 'p', 'e', 'g']
            ||| l == seq!['w', 'e', 'b', 'p']
            ||| l == seq!['b', 'm', 'p']
            ||| l == seq!['t', 'i', 'f']
            ||| l == seq!['t', 'i', 'f', 'f']
            ||| l == seq!['g', 'i', 'f']
        }),
{
    reveal_strlit("png");
    reveal_strlit("jpg");
    reveal_strlit("jpeg");
    reveal_strlit("webp");
    reveal_strlit("bmp");
    reveal_strlit("tif");
    reveal_strlit("tiff");
    reveal_strlit("gif");
    assert("png"@ =~= seq!['p', 'n', 'g']);
    assert("jpg"@ =~= seq!['j', 'p', 'g']);
    assert("jpeg"@ =~= seq!['j', 'p', 'e', 'g']);
    assert("webp"@ =~= seq!['w', 'e', 'b', 'p']);
    assert("bmp"@ =~= seq!['b', 'm', 'p']);
    assert("tif"@ =~= seq!['t', 'i', 'f']);
    assert("tiff"@ =~= seq!['t', 'i', 'f', 'f']);
    assert("gif"@ =~= seq!['g', 'i', 'f']);
}

}
