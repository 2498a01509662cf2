//! Folders attached to agents, and the tools that list, open and search
//! their files. Reading directories and files is left to the caller, which
//! hands over names and contents.
use vstd::prelude::*;
use crate::error::Error;
use crate::json::{json_str, json_views, member_views, push_member, str_member, uint_member, Json, JsonView};
use crate::memory_tools::{succeeded_with, tool_error};
use crate::text::{
    contains, decimal, lines, lines_of, owned, push_decimal, push_str, seqs_of, str_contains,
    str_eq, string_from_chars, to_chars, trim, trim_chars,
};
use crate::tools::ToolOutput;
use crate::types::{fresh_uuid, is_v4_uuid, uuid_string, uuid_text, AgentId};

verus! {

/// Identifier of an attached folder.
#[derive(Debug, Clone, Copy, PartialEq, Eq, Hash, Structural)]
pub struct FolderId(pub u128);

impl FolderId {
    /// A fresh random folder identifier.
    pub fn new() -> (id: FolderId)
        ensures
            is_v4_uuid(id.0),
    {
        FolderId(fresh_uuid())
    }

    /// Text of this identifier.
    pub fn to_text(&self) -> (s: String)
        ensures
            s@ == uuid_text(self.0),
    {
        uuid_string(self.0)
    }
}

/// A folder whose files an agent may read.
#[derive(Debug)]
pub struct AttachedFolder {
    /// Identifier.
    pub id: FolderId,
    /// Name.
    pub name: String,
    /// Absolute path.
    pub path: String,
    /// What the folder holds.
    pub description: String,
    /// Patterns of files to include.
    pub include_patterns: Vec<String>,
    /// Patterns of files to exclude.
    pub exclude_patterns: Vec<String>,
    /// Whether subdirectories are scanned.
    pub recursive: bool,
    /// Paths of the files found, relative to the folder.
    pub files: Vec<String>,
}

impl AttachedFolder {
    /// A folder with a fresh id that includes every file, scans
    /// subdirectories, and has no files listed yet.
    pub fn new(name: String, path: String) -> (f: AttachedFolder)
        ensures
            f.name@ == name@,
            f.path@ == path@,
            f.description@ == Seq::<char>::empty(),
            f.include_patterns@.len() == 1 && f.include_patterns@[0]@ == "*"@,
            f.exclude_patterns@.len() == 0,
            f.recursive,
            f.files@.len() == 0,
    {
        let mut wanted: Vec<String> = Vec::new();
        wanted.push(owned("*"));
        AttachedFolder {
            id: FolderId::new(),
            name,
            path,
            description: String::new(),
            include_patterns: wanted,
            exclude_patterns: Vec::new(),
            recursive: true,
            files: Vec::new(),
        }
    }

    /// The message of the error for a folder path that does not exist.
    pub fn missing_path_error(path: &str) -> (e: Error)
        ensures
            e matches Error::Config(m) && m@ == "Folder path does not exist: "@ + path@,
    {
        let mut m = owned("Folder path does not exist: ");
        push_str(&mut m, path);
        Error::Config(m)
    }
}

/// One search hit: the file, the line number (from one), the trimmed line.
pub type Hit = (Seq<char>, nat, Seq<char>);

/// The hits after scanning lines `i..` of a file, starting from `res`: no
/// more lines are read once `max` hits are reached.
pub open spec fn scan_lines(res: Seq<Hit>, file: Seq<char>, ls: Seq<Seq<char>>, q: Seq<char>, max: nat, i: int) -> Seq<Hit>
    decreases ls.len() - i,
{
    if i < 0 || i >= ls.len() || res.len() >= max {
        res
    } else if contains(ls[i], q) {
        scan_lines(res.push((file, (i + 1) as nat, trim(ls[i]))), file, ls, q, max, i + 1)
    } else {
        scan_lines(res, file, ls, q, max, i + 1)
    }
}

/// The hits after scanning files `k..` of a folder: no more files are read
/// once `max` hits are reached.
pub open spec fn scan_files(res: Seq<Hit>, files: Seq<(Seq<char>, Option<Seq<char>>)>, q: Seq<char>, max: nat, k: int) -> Seq<Hit>
    decreases files.len() - k,
{
    if k < 0 || k >= files.len() || res.len() >= max {
        res
    } else {
        let r = match files[k].1 {
            Some(c) => if contains(c, q) {
                scan_lines(res, files[k].0, lines(c), q, max, 0)
            } else {
                res
            },
            None => res,
        };
        scan_files(r, files, q, max, k + 1)
    }
}

/// The hits of a search over folders `f..`: no more folders are read once
/// `max` hits are reached.
pub open spec fn scan_folders(res: Seq<Hit>, folders: Seq<Seq<(Seq<char>, Option<Seq<char>>)>>, q: Seq<char>, max: nat, f: int) -> Seq<Hit>
    decreases folders.len() - f,
{
    if f < 0 || f >= folders.len() || res.len() >= max {
        res
    } else {
        scan_folders(scan_files(res, folders[f], q, max, 0), folders, q, max, f + 1)
    }
}

/// A search never gives more than `max` hits beyond those it started from.
pub proof fn lemma_scan_folders_bounded(
    res: Seq<Hit>,
    folders: Seq<Seq<(Seq<char>, Option<Seq<char>>)>>,
    q: Seq<char>,
    max: nat,
    f: int,
)
    requires
        res.len() <= max,
    ensures
        scan_folders(res, folders, q, max, f).len() <= max,
    decreases folders.len() - f,
{
    if 0 <= f < folders.len() && res.len() < max {
        lemma_scan_files_bounded(res, folders[f], q, max, 0);
        lemma_scan_folders_bounded(scan_files(res, folders[f], q, max, 0), folders, q, max, f + 1);
    }
}

proof fn lemma_scan_files_bounded(
    res: Seq<Hit>,
    files: Seq<(Seq<char>, Option<Seq<char>>)>,
    q: Seq<char>,
    max: nat,
    k: int,
)
    requires
        res.len() <= max,
    ensures
        scan_files(res, files, q, max, k).len() <= max,
    decreases files.len() - k,
{
    if 0 <= k < files.len() && res.len() < max {
        let r = match files[k].1 {
            Some(c) => if contains(c, q) {
                scan_lines(res, files[k].0, lines(c), q, max, 0)
            } else {
                res
            },
            None => res,
        };
        match files[k].1 {
            Some(c) => if contains(c, q) {
                lemma_scan_lines_bounded(res, files[k].0, lines(c), q, max, 0);
            },
            None => {},
        }
        lemma_scan_files_bounded(r, files, q, max, k + 1);
    }
}

proof fn lemma_scan_lines_bounded(res: Seq<Hit>, file: Seq<char>, ls: Seq<Seq<char>>, q: Seq<char>, max: nat, i: int)
    requires
        res.len() <= max,
    ensures
        scan_lines(res, file, ls, q, max, i).len() <= max,
    decreases ls.len() - i,
{
    if 0 <= i < ls.len() && res.len() < max {
        if contains(ls[i], q) {
            lemma_scan_lines_bounded(res.push((file, (i + 1) as nat, trim(ls[i]))), file, ls, q, max, i + 1);
        } else {
            lemma_scan_lines_bounded(res, file, ls, q, max, i + 1);
        }
    }
}

/// `h` is a hit in the file `fl`: it names the file, a line of it (numbered
/// from one) that contains `q`, and that line trimmed.
pub open spec fn hit_in_file(fl: (Seq<char>, Option<Seq<char>>), q: Seq<char>, h: Hit) -> bool {
    &&& fl.0 == h.0
    &&& fl.1 matches Some(c)
    &&& 1 <= h.1 <= lines(c).len()
    &&& contains(lines(c)[h.1 - 1], q)
    &&& h.2 == trim(lines(c)[h.1 - 1])
}

/// `h` is a hit in one of the files.
pub open spec fn hit_in_files(files: Seq<(Seq<char>, Option<Seq<char>>)>, q: Seq<char>, h: Hit) -> bool {
    exists|x: int| 0 <= x < files.len() && #[trigger] hit_in_file(files[x], q, h)
}

/// `h` is a hit in some file of some of the folders.
pub open spec fn hit_in_folders(folders: Seq<Seq<(Seq<char>, Option<Seq<char>>)>>, q: Seq<char>, h: Hit) -> bool {
    exists|f: int, k: int|
        0 <= f < folders.len() && 0 <= k < folders[f].len() && #[trigger] hit_in_file(folders[f][k], q, h)
}

/// Every hit a search gives names a file of one of the folders, a line of
/// that file (numbered from one) that contains the query, and that line
/// trimmed.
pub proof fn lemma_search_hits(folders: Seq<Seq<(Seq<char>, Option<Seq<char>>)>>, q: Seq<char>, max: nat)
    ensures
        forall|j: int|
            0 <= j < scan_folders(seq![], folders, q, max, 0).len() ==> hit_in_folders(
                folders,
                q,
                #[trigger] scan_folders(seq![], folders, q, max, 0)[j],
            ),
{
    lemma_scan_folders_hits(seq![], folders, q, max, 0);
}

proof fn lemma_scan_folders_hits(
    res: Seq<Hit>,
    folders: Seq<Seq<(Seq<char>, Option<Seq<char>>)>>,
    q: Seq<char>,
    max: nat,
    f: int,
)
    ensures
        ({
            let r = scan_folders(res, folders, q, max, f);
            &&& res.len() <= r.len()
            &&& forall|j: int| 0 <= j < res.len() ==> #[trigger] r[j] == res[j]
            &&& forall|j: int| res.len() <= j < r.len() ==> hit_in_folders(folders, q, #[trigger] r[j])
        }),
    decreases folders.len() - f,
{
    if 0 <= f < folders.len() && res.len() < max {
        let mid = scan_files(res, folders[f], q, max, 0);
        lemma_scan_files_hits(res, folders[f], q, max, 0);
        lemma_scan_folders_hits(mid, folders, q, max, f + 1);
        let r = scan_folders(mid, folders, q, max, f + 1);
        assert forall|j: int| res.len() <= j < r.len() implies hit_in_folders(folders, q, #[trigger] r[j]) by {
            if j < mid.len() {
                assert(hit_in_files(folders[f], q, mid[j]));
                let k = choose|k: int| 0 <= k < folders[f].len() && #[trigger] hit_in_file(folders[f][k], q, mid[j]);
                assert(hit_in_file(folders[f][k], q, r[j]));
            }
        }
    }
}

proof fn lemma_scan_files_hits(
    res: Seq<Hit>,
    files: Seq<(Seq<char>, Option<Seq<char>>)>,
    q: Seq<char>,
    max: nat,
    k: int,
)
    ensures
        ({
            let r = scan_files(res, files, q, max, k);
            &&& res.len() <= r.len()
            &&& forall|j: int| 0 <= j < res.len() ==> #[trigger] r[j] == res[j]
            &&& forall|j: int| res.len() <= j < r.len() ==> hit_in_files(files, q, #[trigger] r[j])
        }),
    decreases files.len() - k,
{
    if 0 <= k < files.len() && res.len() < max {
        let mid = match files[k].1 {
            Some(c) => if contains(c, q) {
                scan_lines(res, files[k].0, lines(c), q, max, 0)
            } else {
                res
            },
            None => res,
        };
        match files[k].1 {
            Some(c) => if contains(c, q) {
                lemma_scan_lines_hits(res, files[k], c, q, max, 0);
            },
            None => {},
        }
        lemma_scan_files_hits(mid, files, q, max, k + 1);
        let r = scan_files(mid, files, q, max, k + 1);
        assert forall|j: int| res.len() <= j < r.len() implies hit_in_files(files, q, #[trigger] r[j]) by {
            if j < mid.len() {
                assert(hit_in_file(files[k], q, mid[j]));
                assert(hit_in_file(files[k], q, r[j]));
            }
        }
    }
}

proof fn lemma_scan_lines_hits(
    res: Seq<Hit>,
    fl: (Seq<char>, Option<Seq<char>>),
    c: Seq<char>,
    q: Seq<char>,
    max: nat,
    i: int,
)
    requires
        fl.1 == Some(c),
    ensures
        ({
            let r = scan_lines(res, fl.0, lines(c), q, max, i);
            &&& res.len() <= r.len()
            &&& forall|j: int| 0 <= j < res.len() ==> #[trigger] r[j] == res[j]
            &&& forall|j: int| res.len() <= j < r.len() ==> hit_in_file(fl, q, #[trigger] r[j])
        }),
    decreases lines(c).len() - i,
{
    let ls = lines(c);
    if 0 <= i < ls.len() && res.len() < max {
        if contains(ls[i], q) {
            let h: Hit = (fl.0, (i + 1) as nat, trim(ls[i]));
            let next = res.push(h);
            lemma_scan_lines_hits(next, fl, c, q, max, i + 1);
            let r = scan_lines(next, fl.0, ls, q, max, i + 1);
            assert(hit_in_file(fl, q, h));
            assert forall|j: int| res.len() <= j < r.len() implies hit_in_file(fl, q, #[trigger] r[j]) by {
                if j == res.len() {
                    assert(r[j] == next[j]);
                }
            }
            assert forall|j: int| 0 <= j < res.len() implies #[trigger] r[j] == res[j] by {
                assert(r[j] == next[j]);
            }
        } else {
            lemma_scan_lines_hits(res, fl, c, q, max, i + 1);
        }
    }
}

/// The JSON of a hit.
pub open spec fn hit_json(h: Hit) -> JsonView {
    JsonView::Object(
        seq![
            ("content"@, JsonView::Str(h.2)),
            ("file"@, JsonView::Str(h.0)),
            ("line"@, JsonView::UInt(h.1 as u64)),
        ],
    )
}

/// Views of the files handed over for a search: path and content, if read.
pub open spec fn file_views(v: Seq<(String, Option<String>)>) -> Seq<(Seq<char>, Option<Seq<char>>)> {
    v.map_values(|e: (String, Option<String>)| (e.0@, match e.1 {
        Some(c) => Some(c@),
        None => None,
    }))
}

/// Views of several folders' files.
pub open spec fn folder_views(v: Seq<Vec<(String, Option<String>)>>) -> Seq<Seq<(Seq<char>, Option<Seq<char>>)>> {
    v.map_values(|f: Vec<(String, Option<String>)>| file_views(f@))
}

/// The lines of a read file can be numbered in a `usize`.
pub open spec fn countable_lines(e: (String, Option<String>)) -> bool {
    match e.1 {
        Some(c) => lines(c@).len() < usize::MAX,
        None => true,
    }
}

/// Views of search hits held as values.
pub open spec fn hit_views(v: Seq<(String, usize, Vec<char>)>) -> Seq<Hit> {
    v.map_values(|h: (String, usize, Vec<char>)| (h.0@, h.1 as nat, h.2@))
}

fn scan_lines_exec(res: &mut Vec<(String, usize, Vec<char>)>, file: &str, ls: &Vec<Vec<char>>, q: &str, max: usize)
    requires
        ls@.len() < usize::MAX,
    ensures
        hit_views(final(res)@) == scan_lines(hit_views(old(res)@), file@, seqs_of(ls@), q@, max as nat, 0),
{
    let ghost lv = seqs_of(ls@);
    let ghost target = scan_lines(hit_views(res@), file@, lv, q@, max as nat, 0);
    let mut i: usize = 0;
    while i < ls.len() && res.len() < max
        invariant
            i <= ls@.len(),
            ls@.len() < usize::MAX,
            lv == seqs_of(ls@),
            target == scan_lines(hit_views(res@), file@, lv, q@, max as nat, i as int),
            target == scan_lines(hit_views(old(res)@), file@, lv, q@, max as nat, 0),
        decreases ls@.len() - i,
    {
        assert(lv[i as int] == ls@[i as int]@);
        assert(hit_views(res@).len() == res@.len());
        if str_contains(ls[i].as_slice(), q) {
            let ghost before = hit_views(res@);
            res.push((owned(file), i + 1, trim_chars(ls[i].as_slice())));
            assert(hit_views(res@) =~= before.push((file@, (i + 1) as nat, trim(lv[i as int]))));
        }
        i = i + 1;
    }
    assert(hit_views(res@).len() == res@.len());
}

fn scan_files_exec(res: &mut Vec<(String, usize, Vec<char>)>, files: &Vec<(String, Option<String>)>, q: &str, max: usize)
    requires
        forall|k: int| 0 <= k < files@.len() ==> countable_lines(#[trigger] files@[k]),
    ensures
        hit_views(final(res)@) == scan_files(hit_views(old(res)@), file_views(files@), q@, max as nat, 0),
{
    let ghost fv = file_views(files@);
    let ghost target = scan_files(hit_views(res@), fv, q@, max as nat, 0);
    let mut k: usize = 0;
    while k < files.len() && res.len() < max
        invariant
            k <= files@.len(),
            fv == file_views(files@),
            forall|k: int| 0 <= k < files@.len() ==> countable_lines(#[trigger] files@[k]),
            target == scan_files(hit_views(res@), fv, q@, max as nat, k as int),
            target == scan_files(hit_views(old(res)@), fv, q@, max as nat, 0),
        decreases files@.len() - k,
    {
        assert(hit_views(res@).len() == res@.len());
        assert(fv[k as int] == (files@[k as int].0@, match files@[k as int].1 {
            Some(c) => Some(c@),
            None => None,
        }));
        assert(countable_lines(files@[k as int]));
        match &files[k].1 {
            Some(content) => {
                let cs = to_chars(content.as_str());
                if str_contains(cs.as_slice(), q) {
                    let ls = lines_of(cs.as_slice());
                    proof {
                        assert(seqs_of(ls@).len() == ls@.len());
                    }
                    scan_lines_exec(res, files[k].0.as_str(), &ls, q, max);
                }
            },
            None => {},
        }
        k = k + 1;
    }
    assert(hit_views(res@).len() == res@.len());
}

fn make_hit(h: &(String, usize, Vec<char>)) -> (j: Json)
    ensures
        j@ == hit_json((h.0@, h.1 as nat, h.2@)),
{
    let mut m: Vec<(String, Json)> = Vec::new();
    assert(member_views(m@) =~= Seq::<(Seq<char>, JsonView)>::empty());
    push_member(&mut m, "content", Json::Str(string_from_chars(h.2.as_slice())));
    push_member(&mut m, "file", json_str(h.0.as_str()));
    push_member(&mut m, "line", Json::UInt(h.1 as u64));
    assert(member_views(m@) =~= seq![
        ("content"@, JsonView::Str(h.2@)),
        ("file"@, JsonView::Str(h.0@)),
        ("line"@, JsonView::UInt(h.1 as u64)),
    ]);
    Json::Object(m)
}

/// The `search_files` tool over the files of the agent's folders, as read
/// by the caller (`None` where a file could not be read): the lines that
/// contain the `query` parameter, up to `max_results` (10 by default).
pub fn search_files(params: &Json, folders: &Vec<Vec<(String, Option<String>)>>) -> (r: Result<ToolOutput, Error>)
    requires
        forall|f: int, k: int|
            0 <= f < folders@.len() && 0 <= k < folders@[f]@.len() ==> countable_lines(
                #[trigger] folders@[f]@[k],
            ),
    ensures
        match str_member(params@, "query"@) {
            None => tool_error(r, "search_files"@, "Missing query"@),
            Some(q) => {
                let max = match uint_member(params@, "max_results"@) {
                    Some(n) => (n as usize) as nat,
                    None => 10,
                };
                let hits = scan_folders(seq![], folder_views(folders@), q, max, 0);
                succeeded_with(
                    r,
                    "Found "@ + decimal(hits.len()) + " matches for '"@ + q + "'"@,
                    JsonView::Object(
                        seq![
                            ("count"@, JsonView::UInt(hits.len() as u64)),
                            ("query"@, JsonView::Str(q)),
                            ("results"@, JsonView::Array(hits.map_values(|h: Hit| hit_json(h)))),
                        ],
                    ),
                )
            },
        },
{
    let query = match params.get_str("query") {
        Some(q) => q,
        None => {
            return Err(
                Error::ToolExecution { tool: owned("search_files"), message: owned("Missing query") },
            );
        },
    };
    let max: usize = match params.get_u64("max_results") {
        Some(n) => n as usize,
        None => 10,
    };
    let ghost fv = folder_views(folders@);
    let ghost target = scan_folders(seq![], fv, query@, max as nat, 0);
    let mut res: Vec<(String, usize, Vec<char>)> = Vec::new();
    assert(hit_views(res@) =~= Seq::<Hit>::empty());
    let mut f: usize = 0;
    while f < folders.len() && res.len() < max
        invariant
            f <= folders@.len(),
            fv == folder_views(folders@),
            forall|f: int, k: int|
                0 <= f < folders@.len() && 0 <= k < folders@[f]@.len() ==> countable_lines(
                    #[trigger] folders@[f]@[k],
                ),
            target == scan_folders(hit_views(res@), fv, query@, max as nat, f as int),
        decreases folders@.len() - f,
    {
        assert(fv[f as int] == file_views(folders@[f as int]@));
        assert(hit_views(res@).len() == res@.len());
        scan_files_exec(&mut res, &folders[f], query.as_str(), max);
        f = f + 1;
    }
    assert(hit_views(res@).len() == res@.len());
    let ghost hv = hit_views(res@);
    let mut items: Vec<Json> = Vec::new();
    let mut i: usize = 0;
    while i < res.len()
        invariant
            i <= res@.len(),
            hv == hit_views(res@),
            json_views(items@) == hv.map_values(|h: Hit| hit_json(h)).take(i as int),
        decreases res@.len() - i,
    {
        let j = make_hit(&res[i]);
        let ghost before = items@;
        items.push(j);
        assert(items@.subrange(0, items@.len() - 1) =~= before);
        assert(hv.map_values(|h: Hit| hit_json(h)).take(i + 1) =~= hv.map_values(|h: Hit| hit_json(h)).take(
            i as int,
        ).push(hit_json(hv[i as int])));
        i = i + 1;
    }
    assert(hv.map_values(|h: Hit| hit_json(h)).take(hv.len() as int) =~= hv.map_values(
        |h: Hit| hit_json(h),
    ));
    let n = res.len();
    let mut msg = owned("Found ");
    push_decimal(&mut msg, n);
    push_str(&mut msg, " matches for '");
    push_str(&mut msg, query.as_str());
    push_str(&mut msg, "'");
    let mut data: Vec<(String, Json)> = Vec::new();
    assert(member_views(data@) =~= Seq::<(Seq<char>, JsonView)>::empty());
    push_member(&mut data, "count", Json::UInt(n as u64));
    push_member(&mut data, "query", json_str(query.as_str()));
    push_member(&mut data, "results", Json::Array(items));
    assert(member_views(data@) =~= seq![
        ("count"@, JsonView::UInt(n as u64)),
        ("query"@, JsonView::Str(query@)),
        ("results"@, JsonView::Array(hv.map_values(|h: Hit| hit_json(h)))),
    ]);
    Ok(ToolOutput::success_with_data(msg, Json::Object(data)))
}

/// Views of strings.
pub open spec fn strs(v: Seq<String>) -> Seq<Seq<char>> {
    v.map_values(|x: String| x@)
}

/// Mathematical view of an attached folder.
pub struct FolderView {
    pub id: FolderId,
    pub name: Seq<char>,
    pub path: Seq<char>,
    pub description: Seq<char>,
    pub include_patterns: Seq<Seq<char>>,
    pub exclude_patterns: Seq<Seq<char>>,
    pub recursive: bool,
    pub files: Seq<Seq<char>>,
}

impl View for AttachedFolder {
    type V = FolderView;

    open spec fn view(&self) -> FolderView {
        FolderView {
            id: self.id,
            name: self.name@,
            path: self.path@,
            description: self.description@,
            include_patterns: strs(self.include_patterns@),
            exclude_patterns: strs(self.exclude_patterns@),
            recursive: self.recursive,
            files: strs(self.files@),
        }
    }
}

fn copy_strings(v: &Vec<String>) -> (r: Vec<String>)
    ensures
        strs(r@) == strs(v@),
{
    let mut r: Vec<String> = Vec::new();
    let mut i: usize = 0;
    while i < v.len()
        invariant
            i <= v@.len(),
            strs(r@) == strs(v@).take(i as int),
        decreases v@.len() - i,
    {
        let ghost before = strs(r@);
        r.push(v[i].clone());
        assert(strs(r@) =~= before.push(v@[i as int]@));
        assert(strs(v@).take(i + 1) =~= strs(v@).take(i as int).push(v@[i as int]@));
        i = i + 1;
    }
    assert(strs(v@).take(v@.len() as int) =~= strs(v@));
    r
}

impl Clone for AttachedFolder {
    fn clone(&self) -> (r: Self)
        ensures
            r@ == self@,
    {
        AttachedFolder {
            id: self.id,
            name: self.name.clone(),
            path: self.path.clone(),
            description: self.description.clone(),
            include_patterns: copy_strings(&self.include_patterns),
            exclude_patterns: copy_strings(&self.exclude_patterns),
            recursive: self.recursive,
            files: copy_strings(&self.files),
        }
    }
}

/// The folders and which agents they are attached to.
#[derive(Debug)]
pub struct FilesystemManager {
    folders: Vec<AttachedFolder>,
    agent_folders: Vec<(AgentId, Vec<FolderId>)>,
}

/// Mathematical view of the manager: the folders, and each agent's attached
/// folder ids in attachment order.
pub struct FilesystemView {
    pub folders: Seq<FolderView>,
    pub attached: Seq<(AgentId, Seq<FolderId>)>,
}

impl View for FilesystemManager {
    type V = FilesystemView;

    closed spec fn view(&self) -> FilesystemView {
        FilesystemView {
            folders: self.folders@.map_values(|f: AttachedFolder| f@),
            attached: self.agent_folders@.map_values(|e: (AgentId, Vec<FolderId>)| (e.0, e.1@)),
        }
    }
}

/// The first folder with this id.
pub open spec fn folder_named(fs: Seq<FolderView>, id: FolderId) -> Option<FolderView>
    decreases fs.len(),
{
    if fs.len() == 0 {
        None
    } else if fs[0].id == id {
        Some(fs[0])
    } else {
        folder_named(fs.drop_first(), id)
    }
}

/// The folder ids attached to an agent, in attachment order.
pub open spec fn attached_ids(att: Seq<(AgentId, Seq<FolderId>)>, agent: AgentId) -> Seq<FolderId>
    decreases att.len(),
{
    if att.len() == 0 {
        seq![]
    } else if att[0].0 == agent {
        att[0].1
    } else {
        attached_ids(att.drop_first(), agent)
    }
}

/// The folders among `ids` that exist, in the order of `ids`.
pub open spec fn existing(fs: Seq<FolderView>, ids: Seq<FolderId>) -> Seq<FolderView>
    decreases ids.len(),
{
    if ids.len() == 0 {
        seq![]
    } else {
        match folder_named(fs, ids.last()) {
            Some(f) => existing(fs, ids.drop_last()).push(f),
            None => existing(fs, ids.drop_last()),
        }
    }
}

/// The attachments after attaching folder `id` to `agent`.
pub open spec fn attach(att: Seq<(AgentId, Seq<FolderId>)>, agent: AgentId, id: FolderId) -> Seq<(AgentId, Seq<FolderId>)>
    decreases att.len(),
{
    if att.len() == 0 {
        seq![(agent, seq![id])]
    } else if att[0].0 == agent {
        att.update(0, (agent, att[0].1.push(id)))
    } else {
        seq![att[0]] + attach(att.drop_first(), agent, id)
    }
}

fn find_folder(folders: &Vec<AttachedFolder>, id: FolderId) -> (r: Option<usize>)
    ensures
        match r {
            Some(i) => i < folders@.len() && folder_named(
                folders@.map_values(|f: AttachedFolder| f@),
                id,
            ) == Some(folders@[i as int]@),
            None => folder_named(folders@.map_values(|f: AttachedFolder| f@), id) is None,
        },
{
    let ghost fv = folders@.map_values(|f: AttachedFolder| f@);
    let mut i: usize = 0;
    assert(fv.skip(0) =~= fv);
    while i < folders.len()
        invariant
            i <= fv.len(),
            fv == folders@.map_values(|f: AttachedFolder| f@),
            folder_named(fv, id) == folder_named(fv.skip(i as int), id),
        decreases fv.len() - i,
    {
        assert(fv.skip(i as int)[0] == folders@[i as int]@);
        if folders[i].id == id {
            return Some(i);
        }
        assert(fv.skip(i as int).drop_first() =~= fv.skip(i + 1));
        i = i + 1;
    }
    None
}

impl FilesystemManager {
    /// A manager with no folders.
    pub fn new() -> (m: FilesystemManager)
        ensures
            m@.folders.len() == 0,
            m@.attached.len() == 0,
    {
        FilesystemManager { folders: Vec::new(), agent_folders: Vec::new() }
    }

    /// Adds a scanned folder and returns its id; a folder with the same id
    /// stays, and is found first.
    pub fn add_folder(&mut self, folder: AttachedFolder) -> (id: FolderId)
        ensures
            id == folder.id,
            final(self)@.folders == old(self)@.folders.push(folder@),
            final(self)@.attached == old(self)@.attached,
    {
        let id = folder.id;
        let ghost fv = folder@;
        let ghost before = self@.folders;
        self.folders.push(folder);
        assert(self@.folders =~= before.push(fv));
        id
    }

    /// Attaches a folder to an agent.
    pub fn attach_folder(&mut self, agent_id: AgentId, folder_id: FolderId)
        ensures
            final(self)@.folders == old(self)@.folders,
            final(self)@.attached == attach(old(self)@.attached, agent_id, folder_id),
    {
        let ghost att = self@.attached;
        let mut i: usize = 0;
        assert(att.skip(0) =~= att);
        while i < self.agent_folders.len()
            invariant
                i <= att.len(),
                att == self@.attached,
                self@.folders == old(self)@.folders,
                att == old(self)@.attached,
                forall|j: int| 0 <= j < i ==> att[j].0 != agent_id,
            decreases att.len() - i,
        {
            if self.agent_folders[i].0 == agent_id {
                let mut entry = self.agent_folders.remove(i);
                entry.1.push(folder_id);
                let ghost ev = (entry.0, entry.1@);
                self.agent_folders.insert(i, entry);
                proof {
                    assert(self@.attached =~= att.update(i as int, ev));
                    lemma_attach_at(att, agent_id, folder_id, i as int);
                }
                return;
            }
            i = i + 1;
        }
        let mut ids: Vec<FolderId> = Vec::new();
        ids.push(folder_id);
        self.agent_folders.push((agent_id, ids));
        proof {
            assert(self@.attached =~= att.push((agent_id, seq![folder_id])));
            lemma_attach_absent(att, agent_id, folder_id);
        }
    }

    /// Copies of the folders attached to an agent that exist, in attachment
    /// order.
    pub fn get_agent_folders(&self, agent_id: AgentId) -> (r: Vec<AttachedFolder>)
        ensures
            r@.map_values(|f: AttachedFolder| f@) == existing(
                self@.folders,
                attached_ids(self@.attached, agent_id),
            ),
    {
        let ghost att = self@.attached;
        let ghost fv = self@.folders;
        let mut k: usize = 0;
        assert(att.skip(0) =~= att);
        while k < self.agent_folders.len()
            invariant
                k <= att.len(),
                att == self@.attached,
                fv == self@.folders,
                attached_ids(att, agent_id) == attached_ids(att.skip(k as int), agent_id),
            decreases att.len() - k,
        {
            if self.agent_folders[k].0 == agent_id {
                assert(att.skip(k as int)[0] == att[k as int]);
                let ids = &self.agent_folders[k].1;
                let ghost iv = ids@;
                let mut out: Vec<AttachedFolder> = Vec::new();
                let mut i: usize = 0;
                while i < ids.len()
                    invariant
                        i <= iv.len(),
                        iv == ids@,
                        fv == self.folders@.map_values(|f: AttachedFolder| f@),
                        out@.map_values(|f: AttachedFolder| f@) == existing(fv, iv.take(i as int)),
                    decreases iv.len() - i,
                {
                    assert(iv.take(i + 1).drop_last() =~= iv.take(i as int));
                    let ghost before = out@.map_values(|f: AttachedFolder| f@);
                    match find_folder(&self.folders, ids[i]) {
                        Some(j) => {
                            out.push(self.folders[j].clone());
                            assert(out@.map_values(|f: AttachedFolder| f@) =~= before.push(
                                self.folders@[j as int]@,
                            ));
                        },
                        None => {},
                    }
                    i = i + 1;
                }
                assert(iv.take(iv.len() as int) =~= iv);
                return out;
            }
            assert(att.skip(k as int).drop_first() =~= att.skip(k + 1));
            k = k + 1;
        }
        let out: Vec<AttachedFolder> = Vec::new();
        assert(out@.map_values(|f: AttachedFolder| f@) =~= Seq::<FolderView>::empty());
        out
    }

    /// A copy of the folder with this id.
    pub fn get_folder(&self, folder_id: FolderId) -> (r: Option<AttachedFolder>)
        ensures
            match r {
                Some(f) => folder_named(self@.folders, folder_id) == Some(f@),
                None => folder_named(self@.folders, folder_id) is None,
            },
    {
        match find_folder(&self.folders, folder_id) {
            Some(i) => Some(self.folders[i].clone()),
            None => None,
        }
    }
}

proof fn lemma_attach_at(att: Seq<(AgentId, Seq<FolderId>)>, agent: AgentId, id: FolderId, i: int)
    requires
        0 <= i < att.len(),
        att[i].0 == agent,
        forall|j: int| 0 <= j < i ==> att[j].0 != agent,
    ensures
        attach(att, agent, id) == att.update(i, (agent, att[i].1.push(id))),
    decreases att.len(),
{
    if i > 0 {
        let d = att.drop_first();
        assert forall|j: int| 0 <= j < i - 1 implies d[j].0 != agent by {
            assert(d[j] == att[j + 1]);
        }
        lemma_attach_at(d, agent, id, i - 1);
        assert(seq![att[0]] + d.update(i - 1, (agent, att[i].1.push(id))) =~= att.update(
            i,
            (agent, att[i].1.push(id)),
        ));
    }
}

proof fn lemma_attach_absent(att: Seq<(AgentId, Seq<FolderId>)>, agent: AgentId, id: FolderId)
    requires
        forall|j: int| 0 <= j < att.len() ==> att[j].0 != agent,
    ensures
        attach(att, agent, id) == att.push((agent, seq![id])),
    decreases att.len(),
{
    if att.len() > 0 {
        let d = att.drop_first();
        assert forall|j: int| 0 <= j < d.len() implies d[j].0 != agent by {
            assert(d[j] == att[j + 1]);
        }
        lemma_attach_absent(d, agent, id);
        assert(seq![att[0]] + d.push((agent, seq![id])) =~= att.push((agent, seq![id])));
    }
}

/// Index of the first folder listing `path`, or the number of folders.
pub open spec fn holder_of(fs: Seq<FolderView>, path: Seq<char>) -> int
    decreases fs.len(),
{
    if fs.len() == 0 {
        0
    } else if fs[0].files.contains(path) {
        0
    } else {
        1 + holder_of(fs.drop_first(), path)
    }
}

fn lists_file(f: &AttachedFolder, path: &str) -> (b: bool)
    ensures
        b == f@.files.contains(path@),
{
    let mut i: usize = 0;
    while i < f.files.len()
        invariant
            i <= f.files@.len(),
            forall|j: int| 0 <= j < i ==> f@.files[j] != path@,
        decreases f.files@.len() - i,
    {
        assert(f@.files[i as int] == f.files@[i as int]@);
        if str_eq(f.files[i].as_str(), path) {
            return true;
        }
        i = i + 1;
    }
    false
}

/// The `open_file` tool, first step: the `file_path` parameter and the
/// position of the first of the agent's folders that lists it.
pub fn open_file_target(params: &Json, folders: &Vec<AttachedFolder>) -> (r: Result<(String, usize), Error>)
    ensures
        match str_member(params@, "file_path"@) {
            None => r matches Err(Error::ToolExecution { tool, message }) && tool@ == "open_file"@
                && message@ == "Missing file_path"@,
            Some(p) => {
                let k = holder_of(folders@.map_values(|f: AttachedFolder| f@), p);
                if k < folders@.len() {
                    r matches Ok(t) && t.0@ == p && t.1 == k
                } else {
                    r matches Err(Error::ToolExecution { tool, message }) && tool@ == "open_file"@
                        && message@ == "File '"@ + p + "' not found in any attached folder"@
                }
            },
        },
{
    let path = match params.get_str("file_path") {
        Some(p) => p,
        None => {
            return Err(
                Error::ToolExecution { tool: owned("open_file"), message: owned("Missing file_path") },
            );
        },
    };
    let ghost fv = folders@.map_values(|f: AttachedFolder| f@);
    let mut k: usize = 0;
    assert(fv.skip(0) =~= fv);
    while k < folders.len()
        invariant
            k <= fv.len(),
            fv == folders@.map_values(|f: AttachedFolder| f@),
            str_member(params@, "file_path"@) == Some(path@),
            holder_of(fv, path@) == k + holder_of(fv.skip(k as int), path@),
        decreases fv.len() - k,
    {
        assert(fv.skip(k as int)[0] == folders@[k as int]@);
        if lists_file(&folders[k], path.as_str()) {
            assert(holder_of(fv.skip(k as int), path@) == 0);
            assert(holder_of(fv, path@) == k);
            return Ok((path, k));
        }
        assert(fv.skip(k as int).drop_first() =~= fv.skip(k + 1));
        k = k + 1;
    }
    let mut m = owned("File '");
    push_str(&mut m, path.as_str());
    push_str(&mut m, "' not found in any attached folder");
    Err(Error::ToolExecution { tool: owned("open_file"), message: m })
}

/// The data of an opened file.
pub open spec fn opened_data(path: Seq<char>, content: Seq<char>) -> JsonView {
    JsonView::Object(
        seq![
            ("content"@, JsonView::Str(content)),
            ("file_path"@, JsonView::Str(path)),
            ("size"@, JsonView::UInt(crate::text::byte_len(content) as u64)),
        ],
    )
}

/// The `open_file` tool, second step: the output for the file at `path`,
/// given what reading it gave (its content, or the read error's text).
pub fn open_file_result(path: &str, read: Result<String, String>) -> (r: Result<ToolOutput, Error>)
    ensures
        match read {
            Ok(c) => succeeded_with(r, "File: "@ + path@ + "\n\n"@ + c@, opened_data(path@, c@)),
            Err(e) => r matches Err(Error::ToolExecution { tool, message }) && tool@ == "open_file"@
                && message@ == "Failed to read file: "@ + e@,
        },
{
    match read {
        Ok(content) => {
            let mut msg = owned("File: ");
            push_str(&mut msg, path);
            push_str(&mut msg, "\n\n");
            push_str(&mut msg, content.as_str());
            let size = content.as_str().as_bytes().len();
            let mut data: Vec<(String, Json)> = Vec::new();
            assert(member_views(data@) =~= Seq::<(Seq<char>, JsonView)>::empty());
            push_member(&mut data, "content", json_str(content.as_str()));
            push_member(&mut data, "file_path", json_str(path));
            push_member(&mut data, "size", Json::UInt(size as u64));
            assert(member_views(data@) =~= seq![
                ("content"@, JsonView::Str(content@)),
                ("file_path"@, JsonView::Str(path@)),
                ("size"@, JsonView::UInt(crate::text::byte_len(content@) as u64)),
            ]);
            Ok(ToolOutput::success_with_data(msg, Json::Object(data)))
        },
        Err(e) => {
            let mut m = owned("Failed to read file: ");
            push_str(&mut m, e.as_str());
            Err(Error::ToolExecution { tool: owned("open_file"), message: m })
        },
    }
}

/// Every file of the folders, as (folder name, path), in order.
pub open spec fn all_files(fs: Seq<FolderView>) -> Seq<(Seq<char>, Seq<char>)>
    decreases fs.len(),
{
    if fs.len() == 0 {
        seq![]
    } else {
        all_files(fs.drop_last()) + fs.last().files.map_values(|p: Seq<char>| (fs.last().name, p))
    }
}

/// The JSON of a listed file.
pub open spec fn file_json(e: (Seq<char>, Seq<char>)) -> JsonView {
    JsonView::Object(seq![("folder"@, JsonView::Str(e.0)), ("path"@, JsonView::Str(e.1))])
}

/// The `list_files` tool: every file of the agent's folders.
pub fn list_files(folders: &Vec<AttachedFolder>) -> (o: ToolOutput)
    ensures
        ({
            let es = all_files(folders@.map_values(|f: AttachedFolder| f@));
            &&& o.success
            &&& o.error is None
            &&& o.content@ == "Found "@ + decimal(es.len()) + " files across attached folders"@
            &&& o.data matches Some(d) && d@ == JsonView::Object(
                seq![
                    ("count"@, JsonView::UInt(es.len() as u64)),
                    ("files"@, JsonView::Array(es.map_values(|e: (Seq<char>, Seq<char>)| file_json(e)))),
                ],
            )
        }),
{
    let ghost fv = folders@.map_values(|f: AttachedFolder| f@);
    let mut items: Vec<Json> = Vec::new();
    let mut k: usize = 0;
    while k < folders.len()
        invariant
            k <= fv.len(),
            fv == folders@.map_values(|f: AttachedFolder| f@),
            json_views(items@) == all_files(fv.take(k as int)).map_values(
                |e: (Seq<char>, Seq<char>)| file_json(e),
            ),
        decreases fv.len() - k,
    {
        assert(fv.take(k + 1).drop_last() =~= fv.take(k as int));
        assert(fv.take(k + 1).last() == folders@[k as int]@);
        let f = &folders[k];
        let ghost fview = f@;
        let ghost start = json_views(items@);
        let mut i: usize = 0;
        while i < f.files.len()
            invariant
                i <= f.files@.len(),
                fview == f@,
                json_views(items@) == start + fview.files.map_values(|p: Seq<char>| (fview.name, p)).take(
                    i as int,
                ).map_values(|e: (Seq<char>, Seq<char>)| file_json(e)),
            decreases f.files@.len() - i,
        {
            assert(fview.files[i as int] == f.files@[i as int]@);
            let mut m: Vec<(String, Json)> = Vec::new();
            assert(member_views(m@) =~= Seq::<(Seq<char>, JsonView)>::empty());
            push_member(&mut m, "folder", json_str(f.name.as_str()));
            push_member(&mut m, "path", json_str(f.files[i].as_str()));
            assert(member_views(m@) =~= seq![
                ("folder"@, JsonView::Str(fview.name)),
                ("path"@, JsonView::Str(fview.files[i as int])),
            ]);
            let ghost before = items@;
            let ghost jv = Json::Object(m)@;
            assert(jv == file_json((fview.name, fview.files[i as int])));
            items.push(Json::Object(m));
            assert(items@.subrange(0, items@.len() - 1) =~= before);
            assert(json_views(items@) == json_views(before).push(jv));
            assert(fview.files.map_values(|p: Seq<char>| (fview.name, p)).take(i + 1).map_values(
                |e: (Seq<char>, Seq<char>)| file_json(e),
            ) =~= fview.files.map_values(|p: Seq<char>| (fview.name, p)).take(i as int).map_values(
                |e: (Seq<char>, Seq<char>)| file_json(e),
            ).push(file_json((fview.name, fview.files[i as int]))));
            assert(json_views(items@) =~= start + fview.files.map_values(|p: Seq<char>| (fview.name, p)).take(
                i + 1,
            ).map_values(|e: (Seq<char>, Seq<char>)| file_json(e)));
            i = i + 1;
        }
        assert(fview.files.map_values(|p: Seq<char>| (fview.name, p)).take(fview.files.len() as int)
            =~= fview.files.map_values(|p: Seq<char>| (fview.name, p)));
        assert(all_files(fv.take(k + 1)).map_values(|e: (Seq<char>, Seq<char>)| file_json(e)) =~= all_files(
            fv.take(k as int),
        ).map_values(|e: (Seq<char>, Seq<char>)| file_json(e)) + fview.files.map_values(
            |p: Seq<char>| (fview.name, p),
        ).map_values(|e: (Seq<char>, Seq<char>)| file_json(e)));
        k = k + 1;
    }
    assert(fv.take(fv.len() as int) =~= fv);
    let ghost es = all_files(fv);
    proof {
        crate::json::lemma_json_views_len(items@);
    }
    let n = items.len();
    let mut msg = owned("Found ");
    push_decimal(&mut msg, n);
    push_str(&mut msg, " files across attached folders");
    let mut data: Vec<(String, Json)> = Vec::new();
    assert(member_views(data@) =~= Seq::<(Seq<char>, JsonView)>::empty());
    push_member(&mut data, "count", Json::UInt(n as u64));
    push_member(&mut data, "files", Json::Array(items));
    assert(member_views(data@) =~= seq![
        ("count"@, JsonView::UInt(es.len() as u64)),
        ("files"@, JsonView::Array(es.map_values(|e: (Seq<char>, Seq<char>)| file_json(e)))),
    ]);
    ToolOutput::success_with_data(msg, Json::Object(data))
}

} // verus!
