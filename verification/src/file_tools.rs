//! Sandboxed file access for tools: paths resolve inside a base directory
//! or are refused. Reading the disk is the caller's.
use vstd::prelude::*;
use vstd::string::StringExecFns;
use crate::error::MojenticError;
use crate::lexical_path::{lexical_normal, lexically_normalize};
use crate::text::{chars_of, occurs_at, matches_at, string_from_chars};

verus! {

/// The parent `std::path::Path::parent` gives for a path, as text.
pub uninterp spec fn path_parent(path: Seq<char>) -> Option<Seq<char>>;

/// The last component `std::path::Path::file_name` gives for a path, as text.
pub uninterp spec fn path_file_name(path: Seq<char>) -> Option<Seq<char>>;

/// The path `std::path::Path::join` makes of a base and a path, as text.
pub uninterp spec fn path_join(base: Seq<char>, path: Seq<char>) -> Seq<char>;

/// Whether `std::path::Path::starts_with` finds `base`'s components at the
/// start of `path`'s.
pub uninterp spec fn path_starts_with(path: Seq<char>, base: Seq<char>) -> bool;

/// The path `std::path::Path::strip_prefix` leaves of `path` once `base` is
/// taken off its start, as text; nothing when `base` is not a prefix.
pub uninterp spec fn path_strip_prefix(path: Seq<char>, base: Seq<char>) -> Option<Seq<char>>;

/// The text `format!("{:?}", Path::new(s))` gives.
pub uninterp spec fn path_debug(s: Seq<char>) -> Seq<char>;

/// Calls `Path::parent` and reads the parent as text (always possible for a
/// path made from a `str`); the result is named `path_parent`.
#[verifier::external_body]
fn parent_of(path: &str) -> (r: Option<String>)
    ensures
        opt_text(r) == path_parent(path@),
{
    std::path::Path::new(path).parent().map(|p| p.to_string_lossy().into_owned())
}

/// Calls `Path::file_name` and reads it as text; the result is named
/// `path_file_name`.
#[verifier::external_body]
fn file_name_of(path: &str) -> (r: Option<String>)
    ensures
        opt_text(r) == path_file_name(path@),
{
    std::path::Path::new(path).file_name().map(|p| p.to_string_lossy().into_owned())
}

/// Calls `Path::join` and reads the result as text; named `path_join`.
#[verifier::external_body]
fn join_paths(base: &str, path: &str) -> (r: String)
    ensures
        r@ == path_join(base@, path@),
{
    std::path::Path::new(base).join(path).to_string_lossy().into_owned()
}

/// Calls `Path::starts_with`; named `path_starts_with`.
#[verifier::external_body]
fn starts_with_path(path: &str, base: &str) -> (b: bool)
    ensures
        b == path_starts_with(path@, base@),
{
    std::path::Path::new(path).starts_with(base)
}

/// Calls `Path::strip_prefix` and reads the rest as text; named
/// `path_strip_prefix`. As its documentation says, it fails exactly when
/// `Path::starts_with` does not find the base.
#[verifier::external_body]
fn strip_base(path: &str, base: &str) -> (r: Option<String>)
    ensures
        opt_text(r) == path_strip_prefix(path@, base@),
        r is Some <==> path_starts_with(path@, base@),
{
    std::path::Path::new(path).strip_prefix(base).ok().map(|p| p.to_string_lossy().into_owned())
}

/// Formats a path with `{:?}`; named `path_debug`.
#[verifier::external_body]
fn debug_path(s: &str) -> (r: String)
    ensures
        r@ == path_debug(s@),
{
    format!("{:?}", std::path::Path::new(s))
}

/// The text of an optional string.
pub open spec fn opt_text(s: Option<String>) -> Option<Seq<char>> {
    match s {
        Some(x) => Some(x@),
        None => None,
    }
}

/// The directory of a path, `.` when it has none.
pub open spec fn directory_of(path: Seq<char>) -> Seq<char> {
    match path_parent(path) {
        Some(p) => p,
        None => "."@,
    }
}

/// The file name of a path, empty when it has none.
pub open spec fn file_of(path: Seq<char>) -> Seq<char> {
    match path_file_name(path) {
        Some(f) => f,
        None => Seq::empty(),
    }
}

/// A path split into its directory and its file name.
pub fn split_path(path: &str) -> (r: (String, String))
    ensures
        r.0@ == directory_of(path@),
        r.1@ == file_of(path@),
{
    let dir = match parent_of(path) {
        Some(p) => p,
        None => String::from_str("."),
    };
    let file = match file_name_of(path) {
        Some(f) => f,
        None => String::new(),
    };
    (dir, file)
}

/// File access confined to a base directory.
#[derive(Debug, Clone)]
pub struct FilesystemGateway {
    base_path: String,
}

impl FilesystemGateway {
    /// The base directory.
    pub closed spec fn base(&self) -> Seq<char> {
        self.base_path@
    }

    /// A gateway for `base_path`, which must be a directory (`is_dir`, as the
    /// caller found); `canonical` is its canonical form, which becomes the base.
    pub fn new(base_path: &str, is_dir: bool, canonical: String) -> (r: Result<Self, MojenticError>)
        ensures
            is_dir ==> (r matches Ok(g) && g.base() == canonical@),
            !is_dir ==> (r matches Err(MojenticError::ToolError(m)) && m@ == "Base path "@ + path_debug(
                base_path@,
            ) + " is not a directory"@),
    {
        if !is_dir {
            let mut m = String::from_str("Base path ");
            m.append(debug_path(base_path).as_str());
            m.append(" is not a directory");
            return Err(MojenticError::ToolError(m));
        }
        Ok(FilesystemGateway { base_path: canonical })
    }

    /// The base directory.
    pub fn base_path(&self) -> (s: &str)
        ensures
            s@ == self.base(),
    {
        self.base_path.as_str()
    }

    /// The base joined with a relative path.
    pub fn joined(&self, path: &str) -> (s: String)
        ensures
            s@ == path_join(self.base(), path@),
    {
        join_paths(self.base_path.as_str(), path)
    }

    /// Where `path` leads: its canonical form when the caller could find one
    /// (`canonical`, for the joined path), else the plain join, with `.` and
    /// `..` resolved lexically (see `lexical_normal`). A result outside the
    /// base is refused.
    pub fn resolve_path(&self, path: &str, canonical: Option<String>) -> (r: Result<String, MojenticError>)
        ensures
            ({
                let resolved = lexical_normal(
                    match canonical {
                        Some(c) => c@,
                        None => path_join(self.base(), path@),
                    },
                );
                if path_starts_with(resolved, self.base()) {
                    r matches Ok(p) && p@ == resolved
                } else {
                    r matches Err(MojenticError::ToolError(m)) && m@ == "Path "@ + path_debug(path@)
                        + " attempts to escape the sandbox"@
                }
            }),
    {
        let found = match canonical {
            Some(c) => c,
            None => join_paths(self.base_path.as_str(), path),
        };
        let resolved = lexically_normalize(found.as_str());
        if starts_with_path(resolved.as_str(), self.base_path.as_str()) {
            Ok(resolved)
        } else {
            let mut m = String::from_str("Path ");
            m.append(debug_path(path).as_str());
            m.append(" attempts to escape the sandbox");
            Err(MojenticError::ToolError(m))
        }
    }
}

/// Paths as texts.
pub open spec fn texts_of(v: Seq<String>) -> Seq<Seq<char>> {
    v.map_values(|t: String| t@)
}

/// Every path lies under the base.
pub open spec fn all_under(paths: Seq<String>, base: Seq<char>) -> bool {
    forall|i: int| 0 <= i < paths.len() ==> path_starts_with(#[trigger] paths[i]@, base)
}

/// The paths relative to the base, in order.
pub open spec fn relative_to(paths: Seq<String>, base: Seq<char>) -> Seq<Seq<char>> {
    paths.map_values(|t: String| path_strip_prefix(t@, base).unwrap())
}

/// The paths under the base made relative to it, in order; the others left out.
pub open spec fn relative_within(paths: Seq<String>, base: Seq<char>) -> Seq<Seq<char>>
    decreases paths.len(),
{
    if paths.len() == 0 {
        Seq::empty()
    } else {
        let before = relative_within(paths.drop_last(), base);
        match path_strip_prefix(paths.last()@, base) {
            Some(r) => before.push(r),
            None => before,
        }
    }
}

impl FilesystemGateway {
    /// The files the caller found under the base (walking the directory
    /// tree, or listing one directory), each as a path relative to the base,
    /// in order; nothing when one of them lies outside the base.
    pub fn list_all_files(&self, found: &Vec<String>) -> (r: Option<Vec<String>>)
        ensures
            match r {
                Some(v) => all_under(found@, self.base()) && texts_of(v@) == relative_to(found@, self.base()),
                None => !all_under(found@, self.base()),
            },
    {
        let mut out: Vec<String> = Vec::new();
        let mut i: usize = 0;
        while i < found.len()
            invariant
                i <= found@.len(),
                all_under(found@.take(i as int), self.base()),
                texts_of(out@) == relative_to(found@.take(i as int), self.base()),
            decreases found@.len() - i,
        {
            match strip_base(found[i].as_str(), self.base_path.as_str()) {
                Some(rel) => {
                    let ghost before = out@;
                    out.push(rel);
                    assert(found@.take(i as int + 1) =~= found@.take(i as int).push(found@[i as int]));
                    assert(texts_of(out@) =~= texts_of(before).push(rel@));
                    assert(relative_to(found@.take(i as int + 1), self.base()) =~= relative_to(
                        found@.take(i as int),
                        self.base(),
                    ).push(rel@));
                    assert(all_under(found@.take(i as int + 1), self.base())) by {
                        assert forall|k: int| 0 <= k < i + 1 implies path_starts_with(
                            #[trigger] found@.take(i as int + 1)[k]@,
                            self.base(),
                        ) by {
                            if k < i {
                                assert(found@.take(i as int + 1)[k] == found@.take(i as int)[k]);
                            }
                        }
                    }
                },
                None => {
                    assert(found@.take(i as int + 1)[i as int] == found@[i as int]);
                    return None;
                },
            }
            i = i + 1;
        }
        assert(found@.take(found@.len() as int) =~= found@);
        Some(out)
    }

    /// The paths a glob matched, each relative to the base, in order; those
    /// outside the base are left out.
    pub fn glob_results(&self, matched: &Vec<String>) -> (r: Vec<String>)
        ensures
            texts_of(r@) == relative_within(matched@, self.base()),
    {
        let mut out: Vec<String> = Vec::new();
        let mut i: usize = 0;
        while i < matched.len()
            invariant
                i <= matched@.len(),
                texts_of(out@) == relative_within(matched@.take(i as int), self.base()),
            decreases matched@.len() - i,
        {
            let ghost before = out@;
            assert(matched@.take(i as int + 1).drop_last() =~= matched@.take(i as int));
            match strip_base(matched[i].as_str(), self.base_path.as_str()) {
                Some(rel) => {
                    out.push(rel);
                    assert(texts_of(out@) =~= texts_of(before).push(rel@));
                },
                None => {},
            }
            i = i + 1;
        }
        assert(matched@.take(matched@.len() as int) =~= matched@);
        out
    }
}

/// The message `regex::Regex::new` gives for a pattern it refuses; nothing
/// for a pattern it compiles.
pub uninterp spec fn regex_error(pattern: Seq<char>) -> Option<Seq<char>>;

/// Whether the compiled pattern matches somewhere in the text
/// (`regex::Regex::is_match`).
pub uninterp spec fn regex_finds(pattern: Seq<char>, text: Seq<char>) -> bool;

#[verifier::external_type_specification]
#[verifier::external_body]
pub struct ExRegex(regex::Regex);

/// A compiled regular expression with the pattern it was compiled from.
pub struct CompiledPattern {
    re: regex::Regex,
    pattern: String,
}

impl CompiledPattern {
    /// The pattern compiled.
    pub closed spec fn pattern(&self) -> Seq<char> {
        self.pattern@
    }
}

/// Compiles the pattern with `regex::Regex::new`; its error's message, or
/// nothing, is named `regex_error`.
#[verifier::external_body]
fn compile_regex(pattern: &str) -> (r: Result<CompiledPattern, String>)
    ensures
        match r {
            Ok(c) => c.pattern() == pattern@ && regex_error(pattern@) is None,
            Err(e) => regex_error(pattern@) == Some(e@),
        },
{
    regex::Regex::new(pattern).map(|re| CompiledPattern { re, pattern: pattern.to_string() }).map_err(|e| e.to_string())
}

/// Calls `regex::Regex::is_match` on the compiled expression; named
/// `regex_finds` of the pattern it was compiled from and the text.
#[verifier::external_body]
fn regex_is_match(c: &CompiledPattern, text: &str) -> (b: bool)
    ensures
        b == regex_finds(c.pattern(), text@),
{
    c.re.is_match(text)
}

/// Where the first line of `s` ends: at its first newline, or its end.
pub open spec fn line_end(s: Seq<char>) -> int
    decreases s.len(),
{
    if s.len() == 0 || s[0] == '\n' {
        0
    } else {
        1 + line_end(s.drop_first())
    }
}

/// A line without the carriage return of a `\r\n` ending.
pub open spec fn without_cr(l: Seq<char>) -> Seq<char> {
    if l.len() > 0 && l.last() == '\r' {
        l.drop_last()
    } else {
        l
    }
}

/// The lines of a text as `str::lines` gives them: split at each newline,
/// a carriage return just before it dropped, no line after a final newline.
pub open spec fn lines_of(s: Seq<char>) -> Seq<Seq<char>>
    decreases s.len(),
{
    if s.len() == 0 {
        Seq::empty()
    } else {
        let e = line_end(s);
        if e >= s.len() {
            seq![s]
        } else {
            proof {
                lemma_line_end_bounds(s);
            }
            seq![without_cr(s.take(e))] + lines_of(s.skip(e + 1))
        }
    }
}

/// The first line ends within the text, at a newline when before its end.
pub proof fn lemma_line_end_bounds(s: Seq<char>)
    ensures
        0 <= line_end(s) <= s.len(),
        line_end(s) < s.len() ==> s[line_end(s)] == '\n',
    decreases s.len(),
{
    if s.len() > 0 && s[0] != '\n' {
        lemma_line_end_bounds(s.drop_first());
        if line_end(s) < s.len() {
            assert(s.drop_first()[line_end(s.drop_first())] == s[line_end(s)]);
        }
    }
}

/// The lines of a text, as `str::lines` gives them.
pub fn text_lines(text: &str) -> (r: Vec<String>)
    ensures
        texts_of(r@) == lines_of(text@),
{
    let cs = chars_of(text);
    let n = cs.len();
    let mut out: Vec<String> = Vec::new();
    let mut start: usize = 0;
    assert(cs@.skip(0) =~= cs@);
    while start < n
        invariant
            n == cs@.len(),
            cs@ == text@,
            start <= n,
            texts_of(out@) + lines_of(cs@.skip(start as int)) == lines_of(text@),
        decreases n - start,
    {
        let mut j: usize = start;
        while j < n && cs[j] != '\n'
            invariant
                start <= j <= n == cs@.len(),
                line_end(cs@.skip(start as int)) == (j - start) + line_end(cs@.skip(j as int)),
            decreases n - j,
        {
            assert(cs@.skip(j as int).drop_first() =~= cs@.skip(j + 1));
            j = j + 1;
        }
        let ghost rest = cs@.skip(start as int);
        assert(line_end(cs@.skip(j as int)) == 0);
        let mut end = j;
        if end > start && cs[end - 1] == '\r' && j < n {
            end = end - 1;
        }
        let mut line: Vec<char> = Vec::new();
        let mut k: usize = start;
        while k < end
            invariant
                start <= k <= end <= n == cs@.len(),
                line@ == cs@.subrange(start as int, k as int),
            decreases end - k,
        {
            line.push(cs[k]);
            assert(cs@.subrange(start as int, k + 1) =~= cs@.subrange(start as int, k as int).push(cs@[k as int]));
            k = k + 1;
        }
        let l = string_from_chars(line.as_slice());
        let ghost before = out@;
        out.push(l);
        assert(texts_of(out@) =~= texts_of(before).push(l@));
        if j < n {
            assert(rest.take(j - start) =~= cs@.subrange(start as int, j as int));
            assert(rest.skip(j - start + 1) =~= cs@.skip(j + 1));
            if end < j {
                assert(cs@.subrange(start as int, j as int).drop_last() =~= cs@.subrange(start as int, end as int));
            }
            assert(lines_of(rest) == seq![l@] + lines_of(cs@.skip(j + 1)));
            assert(texts_of(out@) + lines_of(cs@.skip(j + 1)) =~= texts_of(before) + lines_of(rest));
            start = j + 1;
        } else {
            assert(rest =~= cs@.subrange(start as int, n as int));
            assert(lines_of(rest) == seq![l@]);
            assert(cs@.skip(n as int) =~= Seq::<char>::empty());
            assert(texts_of(out@) + lines_of(cs@.skip(n as int)) =~= texts_of(before) + lines_of(rest));
            start = n;
        }
    }
    assert(cs@.skip(n as int) =~= Seq::<char>::empty());
    assert(texts_of(out@) + lines_of(cs@.skip(n as int)) =~= texts_of(out@));
    out
}

/// The lines that match the pattern, each with its number counted from one.
pub open spec fn matching_lines(lines: Seq<Seq<char>>, pattern: Seq<char>, n: int) -> Seq<(int, Seq<char>)>
    decreases n,
{
    if n <= 0 {
        Seq::empty()
    } else {
        let before = matching_lines(lines, pattern, n - 1);
        if regex_finds(pattern, lines[n - 1]) {
            before.push((n, lines[n - 1]))
        } else {
            before
        }
    }
}

/// The error for a pattern `regex` refuses.
pub open spec fn invalid_pattern_message(e: Seq<char>) -> Seq<char> {
    "Invalid regex pattern: "@ + e
}

fn invalid_pattern(e: String) -> (err: MojenticError)
    ensures
        err matches MojenticError::ToolError(m) && m@ == invalid_pattern_message(e@),
{
    let mut m = String::from_str("Invalid regex pattern: ");
    m.append(e.as_str());
    proof {
        reveal_strlit("Invalid regex pattern: ");
    }
    MojenticError::ToolError(m)
}

/// The lines of a file's content that match a regular expression, each
/// with its line number (from one), in order; an error for a pattern the
/// `regex` crate refuses.
pub fn find_lines_matching(content: &str, pattern: &str) -> (r: Result<Vec<(usize, String)>, MojenticError>)
    ensures
        match regex_error(pattern@) {
            Some(e) => r matches Err(MojenticError::ToolError(m)) && m@ == invalid_pattern_message(e),
            None => r matches Ok(v) && v@.map_values(|p: (usize, String)| (p.0 as int, p.1@))
                == matching_lines(lines_of(content@), pattern@, lines_of(content@).len() as int),
        },
{
    let compiled = match compile_regex(pattern) {
        Err(e) => {
            return Err(invalid_pattern(e));
        },
        Ok(c) => c,
    };
    let lines = text_lines(content);
    let ghost ls = lines_of(content@);
    let mut out: Vec<(usize, String)> = Vec::new();
    let mut i: usize = 0;
    while i < lines.len()
        invariant
            i <= lines@.len(),
            texts_of(lines@) == ls,
            compiled.pattern() == pattern@,
            out@.map_values(|p: (usize, String)| (p.0 as int, p.1@)) == matching_lines(ls, pattern@, i as int),
        decreases lines@.len() - i,
    {
        assert(ls[i as int] == lines@[i as int]@);
        if regex_is_match(&compiled, lines[i].as_str()) {
            let ghost before = out@;
            out.push((i + 1, lines[i].clone()));
            assert(out@.map_values(|p: (usize, String)| (p.0 as int, p.1@)) =~= before.map_values(
                |p: (usize, String)| (p.0 as int, p.1@),
            ).push((i + 1, ls[i as int])));
        }
        i = i + 1;
    }
    Ok(out)
}

/// Whether a file's content matches a regular expression; an error for a
/// pattern the `regex` crate refuses.
pub fn content_matches(content: &str, pattern: &str) -> (r: Result<bool, MojenticError>)
    ensures
        match regex_error(pattern@) {
            Some(e) => r matches Err(MojenticError::ToolError(m)) && m@ == invalid_pattern_message(e),
            None => r == Ok::<bool, MojenticError>(regex_finds(pattern@, content@)),
        },
{
    match compile_regex(pattern) {
        Err(e) => Err(invalid_pattern(e)),
        Ok(c) => Ok(regex_is_match(&c, content)),
    }
}

/// `s` ends with `suffix`.
pub open spec fn ends_with(s: Seq<char>, suffix: Seq<char>) -> bool {
    suffix.len() <= s.len() && s.subrange(s.len() - suffix.len(), s.len() as int) == suffix
}

/// The names that end with the extension, in order.
pub open spec fn with_extension(files: Seq<String>, ext: Seq<char>) -> Seq<String>
    decreases files.len(),
{
    if files.len() == 0 {
        Seq::empty()
    } else {
        let rest = with_extension(files.drop_last(), ext);
        if ends_with(files.last()@, ext) {
            rest.push(files.last())
        } else {
            rest
        }
    }
}

/// The files whose names end with `ext`, in order; all of them without one.
pub fn filter_by_extension(files: Vec<String>, ext: Option<&str>) -> (r: Vec<String>)
    ensures
        r@ == match ext {
            Some(e) => with_extension(files@, e@),
            None => files@,
        },
{
    let e = match ext {
        None => {
            return files;
        },
        Some(e) => e,
    };
    let ec = chars_of(e);
    let mut r: Vec<String> = Vec::new();
    let mut k: usize = 0;
    while k < files.len()
        invariant
            k <= files@.len(),
            ec@ == e@,
            r@ == with_extension(files@.take(k as int), e@),
        decreases files@.len() - k,
    {
        assert(files@.take(k + 1).drop_last() =~= files@.take(k as int));
        let fc = chars_of(files[k].as_str());
        let hit = ec.len() <= fc.len() && matches_at(fc.as_slice(), ec.as_slice(), fc.len() - ec.len());
        proof {
            if ec@.len() <= fc@.len() {
                assert(occurs_at(fc@, ec@, fc@.len() - ec@.len()) == ends_with(files@[k as int]@, e@));
            }
        }
        if hit {
            r.push(files[k].clone());
        }
        k = k + 1;
    }
    assert(files@.take(files@.len() as int) =~= files@);
    r
}

/// The result of writing a file.
pub fn wrote_message(path: &str) -> (s: String)
    ensures
        s@ == "Successfully wrote to "@ + path@,
{
    let mut s = String::from_str("Successfully wrote to ");
    s.append(path);
    s
}

/// The result of creating a directory.
pub fn created_message(path: &str) -> (s: String)
    ensures
        s@ == "Successfully created directory '"@ + path@ + "'"@,
{
    let mut s = String::from_str("Successfully created directory '");
    s.append(path);
    s.append("'");
    s
}

/// Lists the files of a directory.
pub struct ListFilesTool {
    pub fs: FilesystemGateway,
}

/// Reads a whole file.
pub struct ReadFileTool {
    pub fs: FilesystemGateway,
}

/// Writes a whole file.
pub struct WriteFileTool {
    pub fs: FilesystemGateway,
}

/// Lists all files below a directory.
pub struct ListAllFilesTool {
    pub fs: FilesystemGateway,
}

/// Finds files by a glob pattern.
pub struct FindFilesByGlobTool {
    pub fs: FilesystemGateway,
}

/// Finds files whose text matches a pattern.
pub struct FindFilesContainingTool {
    pub fs: FilesystemGateway,
}

/// Finds the lines of a file that match a pattern.
pub struct FindLinesMatchingTool {
    pub fs: FilesystemGateway,
}

/// Creates a directory.
pub struct CreateDirectoryTool {
    pub fs: FilesystemGateway,
}

impl ListFilesTool {
    pub fn new(fs: FilesystemGateway) -> (t: Self)
        ensures
            t.fs == fs,
    {
        ListFilesTool { fs }
    }
}

impl ReadFileTool {
    pub fn new(fs: FilesystemGateway) -> (t: Self)
        ensures
            t.fs == fs,
    {
        ReadFileTool { fs }
    }
}

impl WriteFileTool {
    pub fn new(fs: FilesystemGateway) -> (t: Self)
        ensures
            t.fs == fs,
    {
        WriteFileTool { fs }
    }
}

impl ListAllFilesTool {
    pub fn new(fs: FilesystemGateway) -> (t: Self)
        ensures
            t.fs == fs,
    {
        ListAllFilesTool { fs }
    }
}

impl FindFilesByGlobTool {
    pub fn new(fs: FilesystemGateway) -> (t: Self)
        ensures
            t.fs == fs,
    {
        FindFilesByGlobTool { fs }
    }
}

impl FindFilesContainingTool {
    pub fn new(fs: FilesystemGateway) -> (t: Self)
        ensures
            t.fs == fs,
    {
        FindFilesContainingTool { fs }
    }
}

impl FindLinesMatchingTool {
    pub fn new(fs: FilesystemGateway) -> (t: Self)
        ensures
            t.fs == fs,
    {
        FindLinesMatchingTool { fs }
    }
}

impl CreateDirectoryTool {
    pub fn new(fs: FilesystemGateway) -> (t: Self)
        ensures
            t.fs == fs,
    {
        CreateDirectoryTool { fs }
    }
}

} // verus!
