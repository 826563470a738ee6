//! Organisation of shader files: classification by extension, tags from
//! file names, recently seen files, search, filtering and sorting, and the
//! import of ISF shaders as WGSL.
//!
//! Times are whole seconds since the Unix epoch; what the file system says
//! of a file (its size and modification time) is handed in by the caller.
use vstd::prelude::*;
use crate::text::{
    chars_of, contains, contains_str, eq_chars, eq_str, find, find_exec, find_last, find_last_exec,
    lemma_find, lemma_find_last, occurs_at, push_chars, push_str, replace_all, replace_str,
    seq_less, seq_less_exec, lemma_seq_less_irreflexive, lemma_seq_less_transitive, string_of, sub_vec,
};

verus! {

#[allow(non_camel_case_types)]
#[derive(Clone, Copy, Debug, PartialEq, Eq, Structural)]
pub enum ShaderCategory {
    WGSL,
    ISF,
    GLSL,
    HLSL,
    Custom,
    Unknown,
}

#[derive(Clone, Copy, Debug, PartialEq, Eq, Structural)]
pub enum SortBy {
    Name,
    Date,
    Size,
    Category,
}

/// A shader file and what is known of it.
#[derive(Clone, Debug)]
pub struct ShaderFile {
    pub path: String,
    pub name: String,
    pub extension: String,
    pub size: u64,
    pub modified: u64,
    pub category: ShaderCategory,
    pub tags: Vec<String>,
}

/// A project: a named set of shaders.
#[derive(Clone, Debug)]
pub struct Project {
    pub name: String,
    pub path: String,
    pub shaders: Vec<ShaderFile>,
    pub created: u64,
    pub modified: u64,
    pub description: String,
}

/// A file found on disk: its path, size in bytes and modification time.
#[derive(Clone, Debug)]
pub struct ScannedFile {
    pub path: String,
    pub size: u64,
    pub modified: u64,
}

/// The most recent files a browser remembers.
pub const MAX_RECENT: usize = 20;

/// A shader file as the contracts see it.
pub struct FileView {
    pub path: Seq<char>,
    pub name: Seq<char>,
    pub extension: Seq<char>,
    pub size: u64,
    pub modified: u64,
    pub category: ShaderCategory,
    pub tags: Seq<Seq<char>>,
}

pub open spec fn strings_view(v: Seq<String>) -> Seq<Seq<char>> {
    v.map_values(|s: String| s@)
}

pub open spec fn file_view(f: ShaderFile) -> FileView {
    FileView {
        path: f.path@,
        name: f.name@,
        extension: f.extension@,
        size: f.size,
        modified: f.modified,
        category: f.category,
        tags: strings_view(f.tags@),
    }
}

pub open spec fn files_view(v: Seq<ShaderFile>) -> Seq<FileView> {
    v.map_values(|f: ShaderFile| file_view(f))
}

// ---------------------------------------------------------------------------
// Outside functions: path parts and lower case
// ---------------------------------------------------------------------------

/// What `Path::extension` gives for a path, as text.
pub uninterp spec fn path_extension_of(path: Seq<char>) -> Option<Seq<char>>;

/// What `Path::file_stem` gives for a path, as text.
pub uninterp spec fn path_stem_of(path: Seq<char>) -> Option<Seq<char>>;

/// What `str::to_lowercase` gives for a text.
pub uninterp spec fn lowercase_of(s: Seq<char>) -> Seq<char>;

/// The extension of a path with `std::path::Path::extension`; the contract
/// claims only that the result depends on the path alone.
#[verifier::external_body]
fn path_extension(path: &str) -> (r: Option<String>)
    ensures
        match r {
            Some(e) => path_extension_of(path@) == Some(e@),
            None => path_extension_of(path@) is None,
        },
{
    std::path::Path::new(path).extension().and_then(|e| e.to_str()).map(|e| e.to_string())
}

/// The file name without extension, with `std::path::Path::file_stem`; the
/// contract claims only that the result depends on the path alone.
#[verifier::external_body]
fn path_stem(path: &str) -> (r: Option<String>)
    ensures
        match r {
            Some(e) => path_stem_of(path@) == Some(e@),
            None => path_stem_of(path@) is None,
        },
{
    std::path::Path::new(path).file_stem().and_then(|e| e.to_str()).map(|e| e.to_string())
}

/// A text in lower case with `str::to_lowercase`; the contract claims only
/// that the result depends on the text alone.
#[verifier::external_body]
fn lowercase(s: &str) -> (r: String)
    ensures
        r@ == lowercase_of(s@),
{
    s.to_lowercase()
}

// ---------------------------------------------------------------------------
// Classification
// ---------------------------------------------------------------------------

/// The category of a lower-case extension, for the four shader languages.
pub open spec fn category_of(ext: Seq<char>) -> Option<ShaderCategory> {
    if ext == "wgsl"@ {
        Some(ShaderCategory::WGSL)
    } else if ext == "isf"@ {
        Some(ShaderCategory::ISF)
    } else if ext == "glsl"@ {
        Some(ShaderCategory::GLSL)
    } else if ext == "hlsl"@ {
        Some(ShaderCategory::HLSL)
    } else {
        None
    }
}

/// A file's category follows its extension and is named by it: an
/// extension with a category is that category's name, and the name of each
/// shading language is an extension of that language.
pub proof fn lemma_category_follows_extension(ext: Seq<char>, c: ShaderCategory)
    ensures
        category_of(ext) matches Some(k) ==> category_name(k) == ext,
        c is WGSL || c is ISF || c is GLSL || c is HLSL ==> category_of(category_name(c)) == Some(c),
{
    reveal_strlit("wgsl");
    reveal_strlit("isf");
    reveal_strlit("glsl");
    reveal_strlit("hlsl");
    assert("isf"@.len() != "wgsl"@.len());
    assert("glsl"@[0] != "wgsl"@[0]);
    assert("glsl"@.len() != "isf"@.len());
    assert("hlsl"@[0] != "wgsl"@[0]);
    assert("hlsl"@.len() != "isf"@.len());
    assert("hlsl"@[0] != "glsl"@[0]);
}

/// The tags a file name earns: `gradient`, `noise`, `fractal`, for each it mentions.
pub open spec fn name_tags(name: Seq<char>) -> Seq<Seq<char>> {
    (if contains(name, "gradient"@) {
        seq!["gradient"@]
    } else {
        seq![]
    }) + (if contains(name, "noise"@) {
        seq!["noise"@]
    } else {
        seq![]
    }) + (if contains(name, "fractal"@) {
        seq!["fractal"@]
    } else {
        seq![]
    })
}

/// What is known of a file at `path`: its lower-case extension must name a
/// shader language and its name must be readable.
pub open spec fn analysis(path: Seq<char>, size: u64, modified: u64) -> Option<FileView> {
    match path_extension_of(path) {
        Some(e) => match category_of(lowercase_of(e)) {
            Some(c) => match path_stem_of(path) {
                Some(n) => Some(
                    FileView {
                        path,
                        name: n,
                        extension: lowercase_of(e),
                        size,
                        modified,
                        category: c,
                        tags: name_tags(n),
                    },
                ),
                None => None,
            },
            None => None,
        },
        None => None,
    }
}

/// The lower-case name of a category.
pub open spec fn category_name(c: ShaderCategory) -> Seq<char> {
    match c {
        ShaderCategory::WGSL => "wgsl"@,
        ShaderCategory::ISF => "isf"@,
        ShaderCategory::GLSL => "glsl"@,
        ShaderCategory::HLSL => "hlsl"@,
        ShaderCategory::Custom => "custom"@,
        ShaderCategory::Unknown => "unknown"@,
    }
}

/// The place of a category in the alphabetical order of category names.
pub open spec fn category_rank(c: ShaderCategory) -> nat {
    match c {
        ShaderCategory::Custom => 0,
        ShaderCategory::GLSL => 1,
        ShaderCategory::HLSL => 2,
        ShaderCategory::ISF => 3,
        ShaderCategory::Unknown => 4,
        ShaderCategory::WGSL => 5,
    }
}

/// Categories are ranked in the alphabetical order of their names.
pub proof fn lemma_category_rank_is_name_order(a: ShaderCategory, b: ShaderCategory)
    ensures
        category_rank(a) < category_rank(b) <==> seq_less(category_name(a), category_name(b)),
{
    reveal_strlit("wgsl");
    reveal_strlit("isf");
    reveal_strlit("glsl");
    reveal_strlit("hlsl");
    reveal_strlit("custom");
    reveal_strlit("unknown");
    if a == b {
        lemma_seq_less_irreflexive(category_name(a));
    } else {
        assert(category_name(a)[0] != category_name(b)[0]);
    }
}

/// Whether a shader matches a lower-case query: its name, one of its tags
/// (both in lower case) or its category name contains the query.
pub open spec fn matches_query(f: FileView, query: Seq<char>) -> bool {
    ||| contains(lowercase_of(f.name), query)
    ||| exists|i: int| 0 <= i < f.tags.len() && contains(lowercase_of(#[trigger] f.tags[i]), query)
    ||| contains(category_name(f.category), query)
}

/// The files that match a lower-case query, in order.
pub open spec fn matching(files: Seq<FileView>, query: Seq<char>) -> Seq<FileView>
    decreases files.len(),
{
    if files.len() == 0 {
        seq![]
    } else {
        matching(files.drop_last(), query) + if matches_query(files.last(), query) {
            seq![files.last()]
        } else {
            seq![]
        }
    }
}

/// The files of a category, in order.
pub open spec fn of_category(files: Seq<FileView>, c: ShaderCategory) -> Seq<FileView>
    decreases files.len(),
{
    if files.len() == 0 {
        seq![]
    } else {
        of_category(files.drop_last(), c) + if files.last().category == c {
            seq![files.last()]
        } else {
            seq![]
        }
    }
}

/// Whether `a` goes strictly before `b`: by name, by newest modification,
/// by largest size, or by category name.
pub open spec fn goes_before(a: FileView, b: FileView, by: SortBy) -> bool {
    match by {
        SortBy::Name => seq_less(a.name, b.name),
        SortBy::Date => a.modified > b.modified,
        SortBy::Size => a.size > b.size,
        SortBy::Category => category_rank(a.category) < category_rank(b.category),
    }
}

/// Where `x` goes in a sorted list: before the first element it goes before.
pub open spec fn insert_position(list: Seq<FileView>, x: FileView, by: SortBy) -> int
    decreases list.len(),
{
    if list.len() == 0 {
        0
    } else if goes_before(x, list[0], by) {
        0
    } else {
        1 + insert_position(list.drop_first(), x, by)
    }
}

/// A stable sort: each file, in turn, goes before the first of those already
/// placed that it goes before, so files that compare equal keep their order.
pub open spec fn sorted_files(files: Seq<FileView>, by: SortBy) -> Seq<FileView>
    decreases files.len(),
{
    if files.len() == 0 {
        seq![]
    } else {
        let s = sorted_files(files.drop_last(), by);
        s.insert(insert_position(s, files.last(), by), files.last())
    }
}

proof fn lemma_insert_position_bound(list: Seq<FileView>, x: FileView, by: SortBy)
    ensures
        0 <= insert_position(list, x, by) <= list.len(),
    decreases list.len(),
{
    if list.len() > 0 && !goes_before(x, list[0], by) {
        lemma_insert_position_bound(list.drop_first(), x, by);
    }
}


proof fn lemma_goes_before_strict(a: FileView, b: FileView, c: FileView, by: SortBy)
    ensures
        !goes_before(a, a, by),
        goes_before(a, b, by) && goes_before(b, c, by) ==> goes_before(a, c, by),
{
    if by == SortBy::Name {
        lemma_seq_less_irreflexive(a.name);
        if goes_before(a, b, by) && goes_before(b, c, by) {
            lemma_seq_less_transitive(a.name, b.name, c.name);
        }
    }
}

/// Whether no file of a list goes before one placed ahead of it.
pub open spec fn is_sorted(list: Seq<FileView>, by: SortBy) -> bool {
    forall|i: int, j: int| 0 <= i < j < list.len() ==> !goes_before(#[trigger] list[j], #[trigger] list[i], by)
}

proof fn lemma_insert_position_facts(list: Seq<FileView>, x: FileView, by: SortBy)
    ensures
        0 <= insert_position(list, x, by) <= list.len(),
        forall|k: int| 0 <= k < insert_position(list, x, by) ==> !goes_before(x, #[trigger] list[k], by),
        insert_position(list, x, by) < list.len() ==> goes_before(x, list[insert_position(list, x, by)], by),
    decreases list.len(),
{
    if list.len() > 0 && !goes_before(x, list[0], by) {
        let rest = list.drop_first();
        lemma_insert_position_facts(rest, x, by);
        assert forall|k: int| 0 <= k < insert_position(list, x, by) implies !goes_before(x, #[trigger] list[k], by) by {
            if k > 0 {
                assert(list[k] == rest[k - 1]);
            }
        }
    }
}

proof fn lemma_insert_keeps_sorted(list: Seq<FileView>, x: FileView, by: SortBy)
    requires
        is_sorted(list, by),
    ensures
        is_sorted(list.insert(insert_position(list, x, by), x), by),
{
    lemma_insert_position_facts(list, x, by);
    let p = insert_position(list, x, by);
    let t = list.insert(p, x);
    assert forall|i: int, j: int| 0 <= i < j < t.len() implies !goes_before(#[trigger] t[j], #[trigger] t[i], by) by {
        if i < p && j < p {
            assert(t[i] == list[i] && t[j] == list[j]);
        } else if i < p && j == p {
            assert(t[i] == list[i] && t[j] == x);
        } else if i < p {
            assert(t[i] == list[i] && t[j] == list[j - 1]);
        } else if i == p {
            assert(t[i] == x && t[j] == list[j - 1]);
            lemma_goes_before_strict(list[j - 1], x, list[p], by);
            if j - 1 > p {
                assert(!goes_before(list[j - 1], list[p], by));
            }
        } else {
            assert(t[i] == list[i - 1] && t[j] == list[j - 1]);
        }
    }
}

/// Sorting orders the files by the key: no file goes before one placed
/// ahead of it. It keeps every file, each as often as it came.
pub proof fn lemma_sorted_files_sorted(files: Seq<FileView>, by: SortBy)
    ensures
        is_sorted(sorted_files(files, by), by),
        sorted_files(files, by).to_multiset() == files.to_multiset(),
    decreases files.len(),
{
    broadcast use vstd::seq_lib::to_multiset_insert, vstd::seq_lib::to_multiset_build;
    if files.len() > 0 {
        let rest = files.drop_last();
        lemma_sorted_files_sorted(rest, by);
        let s = sorted_files(rest, by);
        lemma_insert_keeps_sorted(s, files.last(), by);
        lemma_insert_position_facts(s, files.last(), by);
        assert(files == rest.push(files.last()));
    } else {
        assert(sorted_files(files, by) =~= files);
    }
}


fn copy_string(s: &String) -> (r: String)
    ensures
        r@ == s@,
{
    s.clone()
}

fn copy_strings(v: &Vec<String>) -> (r: Vec<String>)
    ensures
        strings_view(r@) == strings_view(v@),
{
    let mut r: Vec<String> = Vec::new();
    let mut i: usize = 0;
    while i < v.len()
        invariant
            i <= v@.len(),
            r@.len() == i,
            forall|k: int| 0 <= k < i ==> (#[trigger] r@[k])@ == v@[k]@,
        decreases v@.len() - i,
    {
        r.push(v[i].clone());
        i = i + 1;
    }
    assert(strings_view(r@) =~= strings_view(v@));
    r
}

/// A copy of a shader file.
pub fn copy_file(f: &ShaderFile) -> (r: ShaderFile)
    ensures
        file_view(r) == file_view(*f),
{
    ShaderFile {
        path: copy_string(&f.path),
        name: copy_string(&f.name),
        extension: copy_string(&f.extension),
        size: f.size,
        modified: f.modified,
        category: f.category,
        tags: copy_strings(&f.tags),
    }
}

fn category_of_exec(ext: &[char]) -> (r: Option<ShaderCategory>)
    ensures
        r == category_of(ext@),
{
    if eq_str(ext, "wgsl") {
        Some(ShaderCategory::WGSL)
    } else if eq_str(ext, "isf") {
        Some(ShaderCategory::ISF)
    } else if eq_str(ext, "glsl") {
        Some(ShaderCategory::GLSL)
    } else if eq_str(ext, "hlsl") {
        Some(ShaderCategory::HLSL)
    } else {
        None
    }
}

fn name_tags_exec(name: &[char]) -> (r: Vec<String>)
    ensures
        strings_view(r@) == name_tags(name@),
{
    let mut tags: Vec<String> = Vec::new();
    if contains_str(name, "gradient") {
        tags.push(string_of(chars_of("gradient").as_slice()));
    }
    if contains_str(name, "noise") {
        tags.push(string_of(chars_of("noise").as_slice()));
    }
    if contains_str(name, "fractal") {
        tags.push(string_of(chars_of("fractal").as_slice()));
    }
    assert(strings_view(tags@) =~= name_tags(name@));
    tags
}

fn category_name_exec(c: ShaderCategory) -> (r: Vec<char>)
    ensures
        r@ == category_name(c),
{
    let s = match c {
        ShaderCategory::WGSL => "wgsl",
        ShaderCategory::ISF => "isf",
        ShaderCategory::GLSL => "glsl",
        ShaderCategory::HLSL => "hlsl",
        ShaderCategory::Custom => "custom",
        ShaderCategory::Unknown => "unknown",
    };
    chars_of(s)
}

fn category_rank_exec(c: ShaderCategory) -> (r: u8)
    ensures
        r == category_rank(c),
{
    match c {
        ShaderCategory::Custom => 0,
        ShaderCategory::GLSL => 1,
        ShaderCategory::HLSL => 2,
        ShaderCategory::ISF => 3,
        ShaderCategory::Unknown => 4,
        ShaderCategory::WGSL => 5,
    }
}

fn goes_before_exec(a: &ShaderFile, b: &ShaderFile, by: SortBy) -> (r: bool)
    ensures
        r == goes_before(file_view(*a), file_view(*b), by),
{
    match by {
        SortBy::Name => {
            let x = chars_of(a.name.as_str());
            let y = chars_of(b.name.as_str());
            seq_less_exec(x.as_slice(), y.as_slice())
        },
        SortBy::Date => a.modified > b.modified,
        SortBy::Size => a.size > b.size,
        SortBy::Category => category_rank_exec(a.category) < category_rank_exec(b.category),
    }
}

/// The shader files sorted stably.
pub fn sort_files(files: Vec<ShaderFile>, by: SortBy) -> (r: Vec<ShaderFile>)
    ensures
        files_view(r@) == sorted_files(files_view(files@), by),
{
    let ghost fv = files_view(files@);
    let mut out: Vec<ShaderFile> = Vec::new();
    let mut i: usize = 0;
    assert(fv.subrange(0, 0) =~= Seq::<FileView>::empty());
    assert(files_view(out@) =~= Seq::<FileView>::empty());
    while i < files.len()
        invariant
            i <= files@.len(),
            fv == files_view(files@),
            files_view(out@) == sorted_files(fv.subrange(0, i as int), by),
        decreases files@.len() - i,
    {
        let x = &files[i];
        let ghost ov = files_view(out@);
        let mut j: usize = 0;
        assert(ov.subrange(0, ov.len() as int) =~= ov);
        while j < out.len() && !goes_before_exec(x, &out[j], by)
            invariant
                j <= out@.len(),
                ov == files_view(out@),
                insert_position(ov, file_view(*x), by) == j + insert_position(
                    ov.subrange(j as int, ov.len() as int),
                    file_view(*x),
                    by,
                ),
            decreases out@.len() - j,
        {
            let ghost rest = ov.subrange(j as int, ov.len() as int);
            assert(rest.drop_first() =~= ov.subrange(j + 1, ov.len() as int));
            assert(rest[0] == ov[j as int]);
            j = j + 1;
        }
        proof {
            let rest = ov.subrange(j as int, ov.len() as int);
            if j < ov.len() {
                assert(rest[0] == ov[j as int]);
            }
            assert(insert_position(ov, file_view(*x), by) == j);
        }
        out.insert(j, copy_file(x));
        assert(files_view(out@) =~= ov.insert(j as int, file_view(*x)));
        assert(fv.subrange(0, i + 1).drop_last() =~= fv.subrange(0, i as int));
        assert(fv.subrange(0, i + 1).last() == file_view(*x));
        i = i + 1;
    }
    assert(fv.subrange(0, i as int) =~= fv);
    out
}

/// Keeps the files of one category.
pub fn keep_category(files: &Vec<ShaderFile>, c: ShaderCategory) -> (r: Vec<ShaderFile>)
    ensures
        files_view(r@) == of_category(files_view(files@), c),
{
    let ghost fv = files_view(files@);
    let mut out: Vec<ShaderFile> = Vec::new();
    let mut i: usize = 0;
    assert(fv.subrange(0, 0) =~= Seq::<FileView>::empty());
    assert(files_view(out@) =~= Seq::<FileView>::empty());
    while i < files.len()
        invariant
            i <= files@.len(),
            fv == files_view(files@),
            files_view(out@) == of_category(fv.subrange(0, i as int), c),
        decreases files@.len() - i,
    {
        assert(fv.subrange(0, i + 1).drop_last() =~= fv.subrange(0, i as int));
        assert(fv.subrange(0, i + 1).last() == file_view(files@[i as int]));
        if files[i].category == c {
            let ghost before = files_view(out@);
            out.push(copy_file(&files[i]));
            assert(files_view(out@) =~= before.push(file_view(files@[i as int])));
        }
        i = i + 1;
    }
    assert(fv.subrange(0, i as int) =~= fv);
    out
}

pub open spec fn scan_paths_default() -> Seq<Seq<char>> {
    seq!["./shaders"@, "./examples"@, "./projects"@]
}

/// The remembered files after seeing `path`: a path not yet remembered is
/// added, and beyond `MAX_RECENT` the oldest is forgotten.
pub open spec fn recent_after(recent: Seq<Seq<char>>, path: Seq<char>) -> Seq<Seq<char>> {
    if recent.contains(path) {
        recent
    } else if recent.len() + 1 > MAX_RECENT {
        recent.push(path).drop_first()
    } else {
        recent.push(path)
    }
}

/// The remembered files after a scan: each shader file, in order.
pub open spec fn recent_after_scan(recent: Seq<Seq<char>>, files: Seq<(Seq<char>, u64, u64)>) -> Seq<Seq<char>>
    decreases files.len(),
{
    if files.len() == 0 {
        recent
    } else {
        let r = recent_after_scan(recent, files.drop_last());
        let f = files.last();
        if analysis(f.0, f.1, f.2) is Some {
            recent_after(r, f.0)
        } else {
            r
        }
    }
}

/// The remembered files stay distinct and at most `MAX_RECENT`; the file
/// just seen is among them, and so is every remembered file but the oldest
/// when one had to be forgotten.
pub proof fn lemma_recent_files_bounded(recent: Seq<Seq<char>>, path: Seq<char>)
    requires
        recent.no_duplicates(),
        recent.len() <= MAX_RECENT,
    ensures
        recent_after(recent, path).no_duplicates(),
        recent_after(recent, path).len() <= MAX_RECENT,
        recent_after(recent, path).contains(path),
        forall|k: int| 0 < k < recent.len() ==> recent_after(recent, path).contains(#[trigger] recent[k]),
        recent.len() < MAX_RECENT && recent.len() > 0 ==> recent_after(recent, path).contains(recent[0]),
{
    let r = recent_after(recent, path);
    if !recent.contains(path) {
        let p = recent.push(path);
        assert(p.last() == path);
        assert forall|i: int, j: int| 0 <= i < j < p.len() implies p[i] != p[j] by {
            if j == recent.len() {
                assert(p[i] == recent[i]);
            }
        }
        if recent.len() + 1 > MAX_RECENT {
            assert(r == p.drop_first());
            assert(r[r.len() - 1] == path);
            assert forall|k: int| 0 < k < recent.len() implies r.contains(#[trigger] recent[k]) by {
                assert(r[k - 1] == recent[k]);
            }
        } else {
            assert(r[r.len() - 1] == path);
            assert forall|k: int| 0 <= k < recent.len() implies r.contains(#[trigger] recent[k]) by {
                assert(r[k] == recent[k]);
            }
        }
    }
}

/// The shader files of a scan that were not remembered when they were
/// seen, in the order of the scan.
pub open spec fn newly_seen(recent: Seq<Seq<char>>, files: Seq<(Seq<char>, u64, u64)>) -> Seq<Seq<char>>
    decreases files.len(),
{
    if files.len() == 0 {
        seq![]
    } else {
        let f = files.last();
        let before = newly_seen(recent, files.drop_last());
        if analysis(f.0, f.1, f.2) is Some && !recent_after_scan(recent, files.drop_last()).contains(f.0) {
            before.push(f.0)
        } else {
            before
        }
    }
}

/// The last `n` items of `s`, or all of them when there are fewer.
pub open spec fn last_items(s: Seq<Seq<char>>, n: nat) -> Seq<Seq<char>> {
    if s.len() <= n {
        s
    } else {
        s.subrange(s.len() - n, s.len() as int)
    }
}

/// After a scan the remembered files are the last `MAX_RECENT` of those
/// remembered before followed by the files first seen in the scan; they
/// stay distinct and at most `MAX_RECENT`.
pub proof fn lemma_scan_keeps_last_recent(recent: Seq<Seq<char>>, files: Seq<(Seq<char>, u64, u64)>)
    requires
        recent.no_duplicates(),
        recent.len() <= MAX_RECENT,
    ensures
        recent_after_scan(recent, files) == last_items(recent + newly_seen(recent, files), MAX_RECENT as nat),
        recent_after_scan(recent, files).no_duplicates(),
        recent_after_scan(recent, files).len() <= MAX_RECENT,
    decreases files.len(),
{
    if files.len() == 0 {
        assert(recent + newly_seen(recent, files) =~= recent);
    } else {
        let rest = files.drop_last();
        lemma_scan_keeps_last_recent(recent, rest);
        let r0 = recent_after_scan(recent, rest);
        let s0 = recent + newly_seen(recent, rest);
        let f = files.last();
        lemma_recent_files_bounded(r0, f.0);
        if analysis(f.0, f.1, f.2) is Some && !r0.contains(f.0) {
            let s1 = recent + newly_seen(recent, files);
            assert(s1 =~= s0.push(f.0));
            if r0.len() + 1 > MAX_RECENT {
                assert(s0.len() >= MAX_RECENT);
                assert(last_items(s1, MAX_RECENT as nat) =~= r0.push(f.0).drop_first());
            } else {
                assert(s0.len() < MAX_RECENT);
                assert(last_items(s1, MAX_RECENT as nat) =~= r0.push(f.0));
            }
        } else {
            assert(recent + newly_seen(recent, files) == s0);
        }
    }
}

pub open spec fn scanned_view(v: Seq<ScannedFile>) -> Seq<(Seq<char>, u64, u64)> {
    v.map_values(|f: ScannedFile| (f.path@, f.size, f.modified))
}

/// Keeps projects and shader files, and lists them filtered and sorted.
pub struct ShaderBrowser {
    pub projects: Vec<Project>,
    pub current_project: Option<String>,
    pub scan_paths: Vec<String>,
    pub recent_files: Vec<String>,
    pub favorites: Vec<String>,
    pub search_query: String,
    pub filter_category: Option<ShaderCategory>,
    pub sort_by: SortBy,
}

impl ShaderBrowser {
    /// A browser that looks in `./shaders`, `./examples` and `./projects`,
    /// has seen no file yet and sorts by name.
    pub fn new() -> (b: Self)
        ensures
            b.projects@.len() == 0,
            b.current_project is None,
            strings_view(b.scan_paths@) == scan_paths_default(),
            b.recent_files@.len() == 0,
            b.favorites@.len() == 0,
            b.search_query@.len() == 0,
            b.filter_category is None,
            b.sort_by == SortBy::Name,
    {
        let mut scan_paths: Vec<String> = Vec::new();
        scan_paths.push(string_of(chars_of("./shaders").as_slice()));
        scan_paths.push(string_of(chars_of("./examples").as_slice()));
        scan_paths.push(string_of(chars_of("./projects").as_slice()));
        assert(strings_view(scan_paths@) =~= scan_paths_default());
        ShaderBrowser {
            projects: Vec::new(),
            current_project: None,
            scan_paths,
            recent_files: Vec::new(),
            favorites: Vec::new(),
            search_query: String::new(),
            filter_category: None,
            sort_by: SortBy::Name,
        }
    }

    /// Whether a project with this name is known.
    pub fn has_project(&self, name: &str) -> (b: bool)
        ensures
            b == exists|k: int| 0 <= k < self.projects@.len() && (#[trigger] self.projects@[k]).name@ == name@,
    {
        let key = chars_of(name);
        let mut i: usize = 0;
        while i < self.projects.len()
            invariant
                i <= self.projects@.len(),
                key@ == name@,
                forall|k: int| 0 <= k < i ==> (#[trigger] self.projects@[k]).name@ != name@,
            decreases self.projects@.len() - i,
        {
            let n = chars_of(self.projects[i].name.as_str());
            if eq_chars(n.as_slice(), key.as_slice()) {
                assert(self.projects@[i as int].name@ == name@);
                return true;
            }
            i = i + 1;
        }
        false
    }

    /// Registers a new project stored at `path`, created at `now`, and makes
    /// it the current one; a name already taken is refused.
    pub fn add_project(&mut self, name: String, path: String, description: String, now: u64) -> (r: Result<(), String>)
        ensures
            (exists|k: int| 0 <= k < old(self).projects@.len() && (#[trigger] old(self).projects@[k]).name@ == name@)
                ==> (r matches Err(e) && e@ == "Project name already exists"@ && final(self).projects@ == old(
                self,
            ).projects@ && final(self).current_project == old(self).current_project),
            !(exists|k: int| 0 <= k < old(self).projects@.len() && (#[trigger] old(self).projects@[k]).name@ == name@)
                ==> {
                &&& r is Ok
                &&& final(self).projects@.len() == old(self).projects@.len() + 1
                &&& final(self).projects@.drop_last() == old(self).projects@
                &&& final(self).projects@.last().name@ == name@
                &&& final(self).projects@.last().path@ == path@
                &&& final(self).projects@.last().shaders@.len() == 0
                &&& final(self).projects@.last().created == now
                &&& final(self).projects@.last().modified == now
                &&& final(self).projects@.last().description@ == description@
                &&& final(self).current_project matches Some(c) && c@ == name@
            },
            final(self).scan_paths@ == old(self).scan_paths@,
            final(self).recent_files@ == old(self).recent_files@,
            final(self).favorites@ == old(self).favorites@,
            final(self).search_query@ == old(self).search_query@,
            final(self).filter_category == old(self).filter_category,
            final(self).sort_by == old(self).sort_by,
    {
        if self.has_project(name.as_str()) {
            return Err(string_of(chars_of("Project name already exists").as_slice()));
        }
        let current = string_of(chars_of(name.as_str()).as_slice());
        let ghost before = self.projects@;
        self.projects.push(Project { name, path, shaders: Vec::new(), created: now, modified: now, description });
        assert(self.projects@.drop_last() =~= before);
        self.current_project = Some(current);
        Ok(())
    }

    /// What is known of a file, given its size and modification time: none
    /// unless its extension names a shader language.
    pub fn analyze_shader_file(&self, path: &str, size: u64, modified: u64) -> (r: Option<ShaderFile>)
        ensures
            match r {
                Some(f) => analysis(path@, size, modified) == Some(file_view(f)),
                None => analysis(path@, size, modified) is None,
            },
    {
        let ext = match path_extension(path) {
            Some(e) => e,
            None => {
                return None;
            },
        };
        let lower = lowercase(ext.as_str());
        let lc = chars_of(lower.as_str());
        let category = match category_of_exec(lc.as_slice()) {
            Some(c) => c,
            None => {
                return None;
            },
        };
        let name = match path_stem(path) {
            Some(n) => n,
            None => {
                return None;
            },
        };
        let nc = chars_of(name.as_str());
        let tags = name_tags_exec(nc.as_slice());
        let f = ShaderFile {
            path: string_of(chars_of(path).as_slice()),
            name,
            extension: lower,
            size,
            modified,
            category,
            tags,
        };
        Some(f)
    }

    /// Remembers a file as recently seen.
    pub fn note_recent_file(&mut self, path: &str)
        ensures
            strings_view(final(self).recent_files@) == recent_after(strings_view(old(self).recent_files@), path@),
            final(self).projects@ == old(self).projects@,
            final(self).scan_paths@ == old(self).scan_paths@,
            final(self).favorites@ == old(self).favorites@,
            final(self).search_query@ == old(self).search_query@,
            final(self).filter_category == old(self).filter_category,
            final(self).sort_by == old(self).sort_by,
            final(self).current_project == old(self).current_project,
    {
        let ghost rv = strings_view(self.recent_files@);
        let key = chars_of(path);
        let mut i: usize = 0;
        let mut seen = false;
        while i < self.recent_files.len() && !seen
            invariant
                i <= self.recent_files@.len(),
                rv == strings_view(self.recent_files@),
                key@ == path@,
                seen ==> rv.contains(path@),
                !seen ==> forall|k: int| 0 <= k < i ==> rv[k] != path@,
            decreases self.recent_files@.len() - i + if seen { 0int } else { 1int },
        {
            let k = chars_of(self.recent_files[i].as_str());
            if eq_chars(k.as_slice(), key.as_slice()) {
                seen = true;
                assert(rv[i as int] == path@);
            } else {
                i = i + 1;
            }
        }
        if !seen {
            self.recent_files.push(string_of(key.as_slice()));
            assert(strings_view(self.recent_files@) =~= rv.push(path@));
            if self.recent_files.len() > MAX_RECENT {
                self.recent_files.remove(0);
                assert(strings_view(self.recent_files@) =~= rv.push(path@).drop_first());
            }
        }
    }

    /// Records the files found by a scan of the directories, in the order
    /// found: the shader files among them are remembered as recently seen.
    pub fn scan_directories(&mut self, files: &Vec<ScannedFile>)
        ensures
            strings_view(final(self).recent_files@) == recent_after_scan(
                strings_view(old(self).recent_files@),
                scanned_view(files@),
            ),
            final(self).projects@ == old(self).projects@,
            final(self).scan_paths@ == old(self).scan_paths@,
            final(self).favorites@ == old(self).favorites@,
            final(self).search_query@ == old(self).search_query@,
            final(self).filter_category == old(self).filter_category,
            final(self).sort_by == old(self).sort_by,
            final(self).current_project == old(self).current_project,
    {
        let ghost sv = scanned_view(files@);
        let mut i: usize = 0;
        assert(sv.subrange(0, 0) =~= Seq::<(Seq<char>, u64, u64)>::empty());
        while i < files.len()
            invariant
                i <= files@.len(),
                sv == scanned_view(files@),
                strings_view(self.recent_files@) == recent_after_scan(
                    strings_view(old(self).recent_files@),
                    sv.subrange(0, i as int),
                ),
                self.projects@ == old(self).projects@,
                self.scan_paths@ == old(self).scan_paths@,
                self.favorites@ == old(self).favorites@,
                self.search_query@ == old(self).search_query@,
                self.filter_category == old(self).filter_category,
                self.sort_by == old(self).sort_by,
                self.current_project == old(self).current_project,
            decreases files@.len() - i,
        {
            assert(sv.subrange(0, i + 1).drop_last() =~= sv.subrange(0, i as int));
            let f = &files[i];
            if self.analyze_shader_file(f.path.as_str(), f.size, f.modified).is_some() {
                self.note_recent_file(f.path.as_str());
            }
            i = i + 1;
        }
        assert(sv.subrange(0, i as int) =~= sv);
    }

    /// Whether a shader matches a lower-case query.
    pub fn matches_search(&self, shader: &ShaderFile, query: &str) -> (b: bool)
        ensures
            b == matches_query(file_view(*shader), query@),
    {
        let q = chars_of(query);
        let n = lowercase(shader.name.as_str());
        let nc = chars_of(n.as_str());
        if crate::text::contains_exec(nc.as_slice(), q.as_slice()) {
            return true;
        }
        let ghost fv = file_view(*shader);
        let mut i: usize = 0;
        while i < shader.tags.len()
            invariant
                i <= shader.tags@.len(),
                fv == file_view(*shader),
                q@ == query@,
                forall|k: int| 0 <= k < i ==> !contains(lowercase_of(#[trigger] fv.tags[k]), query@),
            decreases shader.tags@.len() - i,
        {
            let t = lowercase(shader.tags[i].as_str());
            let tc = chars_of(t.as_str());
            if crate::text::contains_exec(tc.as_slice(), q.as_slice()) {
                assert(contains(lowercase_of(fv.tags[i as int]), query@));
                return true;
            }
            i = i + 1;
        }
        let cn = category_name_exec(shader.category);
        crate::text::contains_exec(cn.as_slice(), q.as_slice())
    }

    /// The given shader files (the analyses of the recently seen files) that
    /// match the query, in lower case.
    pub fn search_shaders(&self, query: &str, files: &Vec<ShaderFile>) -> (r: Vec<ShaderFile>)
        ensures
            files_view(r@) == matching(files_view(files@), lowercase_of(query@)),
    {
        let q = lowercase(query);
        let ghost fv = files_view(files@);
        let mut out: Vec<ShaderFile> = Vec::new();
        let mut i: usize = 0;
        assert(fv.subrange(0, 0) =~= Seq::<FileView>::empty());
        assert(files_view(out@) =~= Seq::<FileView>::empty());
        while i < files.len()
            invariant
                i <= files@.len(),
                fv == files_view(files@),
                q@ == lowercase_of(query@),
                files_view(out@) == matching(fv.subrange(0, i as int), q@),
            decreases files@.len() - i,
        {
            assert(fv.subrange(0, i + 1).drop_last() =~= fv.subrange(0, i as int));
            assert(fv.subrange(0, i + 1).last() == file_view(files@[i as int]));
            if self.matches_search(&files[i], q.as_str()) {
                let ghost before = files_view(out@);
                out.push(copy_file(&files[i]));
                assert(files_view(out@) =~= before.push(file_view(files@[i as int])));
            }
            i = i + 1;
        }
        assert(fv.subrange(0, i as int) =~= fv);
        out
    }

    /// The given shader files (the analyses of the recently seen files),
    /// searched when there is a query, kept to the chosen category if any,
    /// and sorted.
    pub fn get_filtered_shaders(&self, files: &Vec<ShaderFile>) -> (r: Vec<ShaderFile>)
        ensures
            files_view(r@) == sorted_files(
                {
                    let found = if self.search_query@.len() == 0 {
                        files_view(files@)
                    } else {
                        matching(files_view(files@), lowercase_of(self.search_query@))
                    };
                    match self.filter_category {
                        Some(c) => of_category(found, c),
                        None => found,
                    }
                },
                self.sort_by,
            ),
    {
        let found = if self.search_query.as_str().is_empty() {
            let mut all: Vec<ShaderFile> = Vec::new();
            let mut i: usize = 0;
            while i < files.len()
                invariant
                    i <= files@.len(),
                    files_view(all@) == files_view(files@).subrange(0, i as int),
                decreases files@.len() - i,
            {
                let ghost before = files_view(all@);
                all.push(copy_file(&files[i]));
                assert(files_view(all@) =~= before.push(file_view(files@[i as int])));
                i = i + 1;
                assert(files_view(files@).subrange(0, i as int) =~= files_view(files@).subrange(0, i - 1).push(file_view(files@[i - 1])));
            }
            assert(files_view(files@).subrange(0, i as int) =~= files_view(files@));
            all
        } else {
            self.search_shaders(self.search_query.as_str(), files)
        };
        let kept = match self.filter_category {
            Some(c) => keep_category(&found, c),
            None => found,
        };
        sort_files(kept, self.sort_by)
    }
}


/// The fixed start of the fragment shader made from an ISF shader.
pub const ISF_FRAGMENT_HEADER: &'static str = "struct Uniforms {\n    time: f32,\n    resolution: vec2<f32>,\n    mouse: vec2<f32>,\n};\n\n@group(0) @binding(0)\nvar<uniform> uniforms: Uniforms;\n\n@fragment\nfn fs_main(@builtin(position) position: vec4<f32>) -> @location(0) vec4<f32> {\n    let uv = position.xy / uniforms.resolution;\n    let time = uniforms.time;\n\n";

/// The colour computed when the ISF shader does not write `gl_FragColor`.
pub const ISF_DEFAULT_COLOR: &'static str = "    let color = vec4<f32>(uv.x, uv.y, 0.5, 1.0);\n";

/// The fixed end of the fragment shader made from an ISF shader.
pub const ISF_FRAGMENT_FOOTER: &'static str = "\n    return color;\n}\n";

/// The body of an ISF shader's `void main`, from after the first `{` to the
/// last `}` of the text, with the ISF built-ins renamed; empty when there is
/// no such body.
pub open spec fn isf_main_body(c: Seq<char>) -> Seq<char> {
    match find(c, "void main"@) {
        Some(s) => {
            let a = c.subrange(s, c.len() as int);
            match find(a, "{"@) {
                Some(b) => {
                    let t = a.subrange(b, a.len() as int);
                    match find_last(t, '}') {
                        Some(e) => replace_all(
                            replace_all(
                                replace_all(t.subrange(1, e), "gl_FragColor"@, "color"@),
                                "gl_FragCoord"@,
                                "position"@,
                            ),
                            "isf_FragNormCoord"@,
                            "uv"@,
                        ),
                        None => seq![],
                    }
                },
                None => seq![],
            }
        },
        None => seq![],
    }
}

/// The fragment shader made from an ISF shader: its main body when it writes
/// `gl_FragColor`, else a default colour.
pub open spec fn isf_fragment(c: Seq<char>) -> Seq<char> {
    ISF_FRAGMENT_HEADER@ + (if contains(c, "gl_FragColor"@) {
        isf_main_body(c)
    } else {
        ISF_DEFAULT_COLOR@
    }) + ISF_FRAGMENT_FOOTER@
}

fn isf_main_body_exec(c: &[char]) -> (r: Vec<char>)
    ensures
        r@ == isf_main_body(c@),
{
    let pat = chars_of("void main");
    let open = chars_of("{");
    proof {
        reveal_strlit("void main");
        reveal_strlit("{");
        lemma_find(c@, pat@);
    }
    if let Some(s) = find_exec(c, pat.as_slice()) {
        assert(occurs_at(c@, pat@, s as int));
        let a = sub_vec(c, s, c.len());
        proof {
            lemma_find(a@, open@);
        }
        if let Some(b) = find_exec(a.as_slice(), open.as_slice()) {
            assert(occurs_at(a@, open@, b as int));
            let t = sub_vec(a.as_slice(), b, a.len());
            proof {
                lemma_find_last(t@, '}');
                assert(t@[0] == '{') by {
                    assert(a@.subrange(b as int, b + 1)[0] == '{');
                }
            }
            if let Some(e) = find_last_exec(t.as_slice(), '}') {
                assert(e >= 1);
                let body = sub_vec(t.as_slice(), 1, e);
                let r1 = replace_str(body.as_slice(), "gl_FragColor", "color");
                let r2 = replace_str(r1.as_slice(), "gl_FragCoord", "position");
                return replace_str(r2.as_slice(), "isf_FragNormCoord", "uv");
            }
        }
    }
    Vec::new()
}

impl ShaderBrowser {
    /// Turns an ISF shader into a WGSL fragment shader.
    pub fn convert_isf_to_wgsl(&self, isf_content: &str) -> (r: Result<String, String>)
        ensures
            r matches Ok(w) && w@ == isf_fragment(isf_content@),
    {
        let c = chars_of(isf_content);
        let mut out: Vec<char> = Vec::new();
        push_str(&mut out, ISF_FRAGMENT_HEADER);
        if contains_str(c.as_slice(), "gl_FragColor") {
            let body = isf_main_body_exec(c.as_slice());
            push_chars(&mut out, body.as_slice());
        } else {
            push_str(&mut out, ISF_DEFAULT_COLOR);
        }
        push_str(&mut out, ISF_FRAGMENT_FOOTER);
        assert(out@ =~= isf_fragment(isf_content@));
        Ok(string_of(out.as_slice()))
    }
}

} // verus!
