//! The compilation-database synthesizer.
//!
//! Given the walked workspace tree (as component lists relative to the
//! workspace root), the resolved compiler binary and include root, the
//! synthesizer selects the eligible source files — pruning any
//! directory literally named among a fixed exclusion set, at any depth
//! — and produces one entry per file: its owning directory, its
//! absolute path, and the full compiler invocation.  The database text
//! is rendered here as well, together with the write policy for the
//! empty case.

use crate::locator::{BasiliskExtension, Resolution};
use crate::text::{
    concat_str, join_path, join_rel, last_index_of, lemma_last_index_of_bounds, push_str_chars,
    str_eq, string_from_chars,
};
use vstd::prelude::*;
use vstd::string::StrSliceExecFns;
use vstd::string::StringExecFns;

verus! {

/// One walked file, as its path components relative to the workspace
/// root, in order; the last component is the file name.
pub struct SourceFile {
    pub components: Vec<String>,
}

impl DeepView for SourceFile {
    type V = Seq<Seq<char>>;

    open spec fn deep_view(&self) -> Seq<Seq<char>> {
        self.components.deep_view()
    }
}

/// One compilation-database record.
pub struct CompileEntry {
    pub directory: String,
    pub file: String,
    pub command: String,
}

/// The mathematical content of one record.
pub struct EntryV {
    pub directory: Seq<char>,
    pub file: Seq<char>,
    pub command: Seq<char>,
}

impl DeepView for CompileEntry {
    type V = EntryV;

    open spec fn deep_view(&self) -> EntryV {
        EntryV { directory: self.directory@, file: self.file@, command: self.command@ }
    }
}

/// The fixed exclusion set: version-control metadata, build output and
/// dependency caches.
pub open spec fn excluded_name(n: Seq<char>) -> bool {
    n == "target"@ || n == "build"@ || n == ".git"@ || n == "node_modules"@
}

/// Whether a name is in the fixed exclusion set.
pub fn is_excluded_name(n: &str) -> (r: bool)
    ensures
        r == excluded_name(n@),
{
    str_eq(n, "target") || str_eq(n, "build") || str_eq(n, ".git") || str_eq(n, "node_modules")
}

/// Some directory component of the path (every component but the last)
/// is an excluded name.
pub open spec fn dir_excluded(parts: Seq<Seq<char>>) -> bool {
    exists|i: int| 0 <= i < parts.len() - 1 && excluded_name(parts[i])
}

/// The index of the dot that splits a file name from its extension:
/// the last dot, provided it is not the leading character.
pub open spec fn has_extension(name: Seq<char>) -> bool {
    last_index_of(name, '.') > 0
}

pub open spec fn extension_of(name: Seq<char>) -> Seq<char>
    recommends
        has_extension(name),
{
    name.subrange(last_index_of(name, '.') + 1, name.len() as int)
}

/// The file name with its extension removed; the whole name when there
/// is no extension.
pub open spec fn stem_of(name: Seq<char>) -> Seq<char> {
    if has_extension(name) {
        name.subrange(0, last_index_of(name, '.'))
    } else {
        name
    }
}

/// A file is eligible when no directory on its path is excluded and
/// its extension is the toolchain's source-file convention.
pub open spec fn eligible(parts: Seq<Seq<char>>) -> bool {
    &&& parts.len() > 0
    &&& !dir_excluded(parts)
    &&& has_extension(parts.last())
    &&& extension_of(parts.last()) == "c"@
}

/// Splits a file name into stem and extension, by the last dot that is
/// not the leading character.
pub fn split_extension(name: &str) -> (r: (String, Option<String>))
    ensures
        r.0@ == stem_of(name@),
        match r.1 {
            Some(e) => has_extension(name@) && e@ == extension_of(name@),
            None => !has_extension(name@),
        },
{
    proof {
        lemma_last_index_of_bounds(name@, '.');
    }
    match crate::text::rfind_char(name, '.') {
        Some(i) if i > 0 => {
            let len = name.unicode_len();
            let stem = String::from_str(name.substring_char(0, i));
            let ext = String::from_str(name.substring_char(i + 1, len));
            (stem, Some(ext))
        },
        _ => (String::from_str(name), None),
    }
}

/// The absolute directory of a walked file: the workspace root when
/// the file sits directly under it, else the root joined with the
/// directory components.
pub open spec fn spec_dir(root: Seq<char>, parts: Seq<Seq<char>>) -> Seq<char> {
    if parts.len() <= 1 {
        root
    } else {
        root + seq!['/'] + join_rel(parts.drop_last())
    }
}

/// The absolute path of a walked file.
pub open spec fn spec_file(root: Seq<char>, parts: Seq<Seq<char>>) -> Seq<char> {
    root + seq!['/'] + join_rel(parts)
}

/// The output path: the stem beside the input file.
pub open spec fn spec_output(root: Seq<char>, parts: Seq<Seq<char>>) -> Seq<char>
    recommends
        parts.len() > 0,
{
    spec_dir(root, parts) + seq!['/'] + stem_of(parts.last())
}

/// A path wrapped in literal double quotes.
pub open spec fn quoted(s: Seq<char>) -> Seq<char> {
    seq!['"'] + s + seq!['"']
}

/// The compiler to name in a command: the resolved binary path, or the
/// bare fallback name when unresolved.
pub open spec fn qcc_text(qcc: Option<Seq<char>>) -> Seq<char> {
    match qcc {
        Some(p) => p,
        None => "qcc"@,
    }
}

/// The full invocation text for one source file: compiler, fixed
/// flags, quoted input, quoted extensionless output, the math library,
/// and the include flag only when an include root resolved.
pub open spec fn spec_command(
    qcc: Option<Seq<char>>,
    inc: Option<Seq<char>>,
    file: Seq<char>,
    output: Seq<char>,
) -> Seq<char> {
    let base = qcc_text(qcc) + " -Wall -O2 -disable-dimensions "@ + quoted(file) + " -o "@
        + quoted(output) + " -lm"@;
    match inc {
        Some(r) => base + " -I"@ + r,
        None => base,
    }
}

/// The record synthesized for one eligible file.
pub open spec fn spec_entry(
    root: Seq<char>,
    qcc: Option<Seq<char>>,
    inc: Option<Seq<char>>,
    parts: Seq<Seq<char>>,
) -> EntryV {
    EntryV {
        directory: spec_dir(root, parts),
        file: spec_file(root, parts),
        command: spec_command(qcc, inc, spec_file(root, parts), spec_output(root, parts)),
    }
}

/// The records for a walked file list: one per eligible file, in
/// traversal order.
pub open spec fn spec_entries(
    root: Seq<char>,
    qcc: Option<Seq<char>>,
    inc: Option<Seq<char>>,
    files: Seq<Seq<Seq<char>>>,
) -> Seq<EntryV>
    decreases files.len(),
{
    if files.len() == 0 {
        Seq::empty()
    } else {
        spec_entries(root, qcc, inc, files.drop_last()) + if eligible(files.last()) {
            seq![spec_entry(root, qcc, inc, files.last())]
        } else {
            Seq::empty()
        }
    }
}

impl BasiliskExtension {
    /// Whether a traversal keeps an entry of this name: the relative
    /// dot names always pass, excluded names are pruned.
    pub fn is_included_directory(name: &str) -> (r: bool)
        ensures
            r == (name@ == "."@ || name@ == ".."@ || !excluded_name(name@)),
    {
        str_eq(name, ".") || str_eq(name, "..") || !is_excluded_name(name)
    }

    /// Wraps a path in literal double quotes for embedding in an
    /// invocation string.
    pub fn quote_path(path: &str) -> (r: String)
        ensures
            r@ == quoted(path@),
    {
        proof {
            reveal_strlit("\"");
            assert("\""@ =~= seq!['"']);
        }
        let r = concat_str("\"", path).concat("\"");
        proof {
            assert(r@ =~= quoted(path@));
        }
        r
    }
}

/// Joins the first `upto` components of a file under the root.
fn join_under(root: &str, parts: &Vec<String>, upto: usize) -> (r: String)
    requires
        upto <= parts@.len(),
    ensures
        upto == 0 ==> r@ == root@,
        upto > 0 ==> r@ == root@ + seq!['/'] + join_rel(parts.deep_view().take(upto as int)),
{
    let mut acc = String::from_str(root);
    let mut j: usize = 0;
    while j < upto
        invariant
            upto <= parts@.len(),
            0 <= j <= upto,
            j == 0 ==> acc@ == root@,
            j > 0 ==> acc@ == root@ + seq!['/'] + join_rel(parts.deep_view().take(j as int)),
        decreases upto - j,
    {
        proof {
            if j > 0 {
                assert(parts.deep_view().take(j + 1).drop_last() =~= parts.deep_view().take(
                    j as int,
                ));
                assert(parts.deep_view().take(j + 1).last() == parts@[j as int]@);
            } else {
                assert(parts.deep_view().take(1) =~= seq![parts@[0]@]);
            }
        }
        acc = join_path(acc.as_str(), parts[j].as_str());
        proof {
            if j > 0 {
                assert(acc@ =~= root@ + seq!['/'] + join_rel(parts.deep_view().take(j + 1)));
            }
        }
        j = j + 1;
    }
    acc
}

/// Synthesizes the record for one walked file, or nothing when the
/// file is not eligible.
fn make_entry(
    root: &str,
    qcc_name: &str,
    include_root: &Option<String>,
    f: &SourceFile,
    Ghost(qv): Ghost<Option<Seq<char>>>,
) -> (r: Option<CompileEntry>)
    requires
        qcc_name@ == qcc_text(qv),
    ensures
        match r {
            Some(e) => eligible(f.deep_view()) && e.deep_view() == spec_entry(
                root@,
                qv,
                include_root.deep_view(),
                f.deep_view(),
            ),
            None => !eligible(f.deep_view()),
        },
{
    let n = f.components.len();
    if n == 0 {
        return None;
    }
    let mut j: usize = 0;
    while j < n - 1
        invariant
            n == f.components@.len(),
            n > 0,
            0 <= j <= n - 1,
            forall|k: int| 0 <= k < j ==> !excluded_name(f.deep_view()[k]),
        decreases n - 1 - j,
    {
        if is_excluded_name(f.components[j].as_str()) {
            proof {
                assert(excluded_name(f.deep_view()[j as int]));
                assert(dir_excluded(f.deep_view()));
            }
            return None;
        }
        j = j + 1;
    }
    proof {
        assert(!dir_excluded(f.deep_view()));
    }
    let name = &f.components[n - 1];
    proof {
        assert(f.deep_view().last() == name@);
    }
    let (stem, ext) = split_extension(name.as_str());
    let ext = match ext {
        Some(e) => e,
        None => {
            return None;
        },
    };
    if !str_eq(ext.as_str(), "c") {
        return None;
    }
    let dir = join_under(root, &f.components, n - 1);
    let file = join_under(root, &f.components, n);
    let output = join_path(dir.as_str(), stem.as_str());
    proof {
        assert(f.deep_view().take(n as int) =~= f.deep_view());
        if n > 1 {
            assert(f.deep_view().take(n - 1) =~= f.deep_view().drop_last());
        }
        assert(dir@ == spec_dir(root@, f.deep_view()));
        assert(file@ == spec_file(root@, f.deep_view()));
        assert(output@ == spec_output(root@, f.deep_view()));
    }
    let quoted_file = BasiliskExtension::quote_path(file.as_str());
    let quoted_output = BasiliskExtension::quote_path(output.as_str());
    let mut cmd = concat_str(qcc_name, " -Wall -O2 -disable-dimensions ");
    cmd = cmd.concat(quoted_file.as_str());
    cmd = cmd.concat(" -o ");
    cmd = cmd.concat(quoted_output.as_str());
    cmd = cmd.concat(" -lm");
    if let Some(r) = include_root {
        cmd = cmd.concat(" -I");
        cmd = cmd.concat(r.as_str());
    }
    proof {
        assert(cmd@ =~= spec_command(
            qv,
            include_root.deep_view(),
            spec_file(root@, f.deep_view()),
            spec_output(root@, f.deep_view()),
        ));
    }
    Some(CompileEntry { directory: dir, file, command: cmd })
}

/// Synthesizes the full record list for a walked workspace tree.
pub fn synthesize_entries(
    root: &str,
    qcc: &Option<String>,
    include_root: &Option<String>,
    files: &Vec<SourceFile>,
) -> (entries: Vec<CompileEntry>)
    ensures
        entries.deep_view() == spec_entries(
            root@,
            qcc.deep_view(),
            include_root.deep_view(),
            files.deep_view(),
        ),
{
    let qcc_name: String = match qcc {
        Some(p) => String::from_str(p.as_str()),
        None => String::from_str("qcc"),
    };
    let mut entries: Vec<CompileEntry> = Vec::new();
    let n = files.len();
    let mut i: usize = 0;
    proof {
        assert(entries.deep_view() =~= spec_entries(
            root@,
            qcc.deep_view(),
            include_root.deep_view(),
            files.deep_view().take(0),
        ));
    }
    while i < n
        invariant
            n == files@.len(),
            0 <= i <= n,
            qcc_name@ == qcc_text(qcc.deep_view()),
            entries.deep_view() == spec_entries(
                root@,
                qcc.deep_view(),
                include_root.deep_view(),
                files.deep_view().take(i as int),
            ),
        decreases n - i,
    {
        let f = &files[i];
        proof {
            assert(files.deep_view().take(i + 1).drop_last() =~= files.deep_view().take(i as int));
            assert(files.deep_view().take(i + 1).last() == files@[i as int].deep_view());
        }
        match make_entry(root, qcc_name.as_str(), include_root, f, Ghost(qcc.deep_view())) {
            Some(e) => {
                entries.push(e);
            },
            None => {},
        }
        proof {
            assert(entries.deep_view() =~= spec_entries(
                root@,
                qcc.deep_view(),
                include_root.deep_view(),
                files.deep_view().take(i + 1),
            ));
        }
        i = i + 1;
    }
    proof {
        assert(files.deep_view().take(n as int) =~= files.deep_view());
    }
    entries
}

/// The digit characters used in a hexadecimal escape.
pub open spec fn hex_char(n: int) -> char {
    if n == 0 {
        '0'
    } else if n == 1 {
        '1'
    } else if n == 2 {
        '2'
    } else if n == 3 {
        '3'
    } else if n == 4 {
        '4'
    } else if n == 5 {
        '5'
    } else if n == 6 {
        '6'
    } else if n == 7 {
        '7'
    } else if n == 8 {
        '8'
    } else if n == 9 {
        '9'
    } else if n == 10 {
        'a'
    } else if n == 11 {
        'b'
    } else if n == 12 {
        'c'
    } else if n == 13 {
        'd'
    } else if n == 14 {
        'e'
    } else {
        'f'
    }
}

/// How one character is written inside a JSON string: quotes and
/// backslashes are escaped, control characters take a hexadecimal
/// escape, everything else stands as itself.
pub open spec fn esc_char(c: char) -> Seq<char> {
    if c == '"' {
        seq!['\\', '"']
    } else if c == '\\' {
        seq!['\\', '\\']
    } else if (c as u32) < 32 {
        seq!['\\', 'u', '0', '0', hex_char((c as u32) as int / 16), hex_char((c as u32) as int % 16)]
    } else {
        seq![c]
    }
}

/// A string escaped for embedding in a JSON string literal.
pub open spec fn json_escape(s: Seq<char>) -> Seq<char>
    decreases s.len(),
{
    if s.len() == 0 {
        Seq::empty()
    } else {
        json_escape(s.drop_last()) + esc_char(s.last())
    }
}

/// One hexadecimal digit character.
fn hex_digit(n: u32) -> (r: char)
    requires
        n < 16,
    ensures
        r == hex_char(n as int),
{
    if n == 0 {
        '0'
    } else if n == 1 {
        '1'
    } else if n == 2 {
        '2'
    } else if n == 3 {
        '3'
    } else if n == 4 {
        '4'
    } else if n == 5 {
        '5'
    } else if n == 6 {
        '6'
    } else if n == 7 {
        '7'
    } else if n == 8 {
        '8'
    } else if n == 9 {
        '9'
    } else if n == 10 {
        'a'
    } else if n == 11 {
        'b'
    } else if n == 12 {
        'c'
    } else if n == 13 {
        'd'
    } else if n == 14 {
        'e'
    } else {
        'f'
    }
}

/// Appends the JSON-escaped form of `s` to `out`.
fn push_escaped(out: &mut Vec<char>, s: &str)
    ensures
        final(out)@ == old(out)@ + json_escape(s@),
{
    let len = s.unicode_len();
    let mut i: usize = 0;
    while i < len
        invariant
            len == s@.len(),
            0 <= i <= len,
            out@ == old(out)@ + json_escape(s@.take(i as int)),
        decreases len - i,
    {
        let c = s.get_char(i);
        if c == '"' {
            out.push('\\');
            out.push('"');
        } else if c == '\\' {
            out.push('\\');
            out.push('\\');
        } else {
            let v = c as u32;
            if v < 32 {
                out.push('\\');
                out.push('u');
                out.push('0');
                out.push('0');
                out.push(hex_digit(v / 16));
                out.push(hex_digit(v % 16));
            } else {
                out.push(c);
            }
        }
        proof {
            assert(s@.take(i + 1).drop_last() =~= s@.take(i as int));
            assert(s@.take(i + 1).last() == s@[i as int]);
            assert(out@ =~= old(out)@ + json_escape(s@.take(i + 1)));
        }
        i = i + 1;
    }
    proof {
        assert(s@.take(len as int) =~= s@);
    }
}

/// The pretty-printed text of one record.
pub open spec fn entry_text(e: EntryV) -> Seq<char> {
    "  {\n    \"directory\": \""@ + json_escape(e.directory) + "\",\n    \"file\": \""@
        + json_escape(e.file) + "\",\n    \"command\": \""@ + json_escape(e.command) + "\"\n  }"@
}

/// The records joined by separators.
pub open spec fn entries_text(s: Seq<EntryV>) -> Seq<char>
    decreases s.len(),
{
    if s.len() == 0 {
        Seq::empty()
    } else if s.len() == 1 {
        entry_text(s[0])
    } else {
        entries_text(s.drop_last()) + ",\n"@ + entry_text(s.last())
    }
}

/// The full database file text: the literal empty array when there are
/// no records, else a pretty-printed array.
pub open spec fn db_text(s: Seq<EntryV>) -> Seq<char> {
    if s.len() == 0 {
        "[]"@
    } else {
        "[\n"@ + entries_text(s) + "\n]"@
    }
}

/// Appends the pretty-printed text of one record to `out`.
fn push_entry(out: &mut Vec<char>, e: &CompileEntry)
    ensures
        final(out)@ == old(out)@ + entry_text(e.deep_view()),
{
    push_str_chars(out, "  {\n    \"directory\": \"");
    push_escaped(out, e.directory.as_str());
    push_str_chars(out, "\",\n    \"file\": \"");
    push_escaped(out, e.file.as_str());
    push_str_chars(out, "\",\n    \"command\": \"");
    push_escaped(out, e.command.as_str());
    push_str_chars(out, "\"\n  }");
    proof {
        assert(out@ =~= old(out)@ + entry_text(e.deep_view()));
    }
}

/// Renders the full database text for a record list.
pub fn render_db(entries: &Vec<CompileEntry>) -> (r: String)
    ensures
        r@ == db_text(entries.deep_view()),
{
    let n = entries.len();
    if n == 0 {
        return String::from_str("[]");
    }
    let mut out: Vec<char> = Vec::new();
    push_str_chars(&mut out, "[\n");
    push_entry(&mut out, &entries[0]);
    proof {
        assert(entries.deep_view().take(1) =~= seq![entries@[0].deep_view()]);
        assert(out@ =~= "[\n"@ + entries_text(entries.deep_view().take(1)));
    }
    let mut i: usize = 1;
    while i < n
        invariant
            n == entries@.len(),
            1 <= i <= n,
            out@ == "[\n"@ + entries_text(entries.deep_view().take(i as int)),
        decreases n - i,
    {
        push_str_chars(&mut out, ",\n");
        push_entry(&mut out, &entries[i]);
        proof {
            assert(entries.deep_view().take(i + 1).drop_last() =~= entries.deep_view().take(
                i as int,
            ));
            assert(entries.deep_view().take(i + 1).last() == entries@[i as int].deep_view());
            assert(out@ =~= "[\n"@ + entries_text(entries.deep_view().take(i + 1)));
        }
        i = i + 1;
    }
    push_str_chars(&mut out, "\n]");
    proof {
        assert(entries.deep_view().take(n as int) =~= entries.deep_view());
    }
    let r = string_from_chars(&out);
    proof {
        assert(r@ =~= db_text(entries.deep_view()));
    }
    r
}

/// Decides what to write at the database path: nothing when no record
/// was synthesized and a database already exists (a possibly
/// hand-maintained file is protected); the literal empty array when no
/// record was synthesized and no file exists; the full fresh text
/// otherwise — every invocation is a full rebuild.
pub fn plan_database(entries: &Vec<CompileEntry>, db_exists: bool) -> (r: Option<String>)
    ensures
        entries@.len() == 0 && db_exists ==> r is None,
        entries@.len() == 0 && !db_exists ==> (r matches Some(s) && s@ == "[]"@),
        entries@.len() > 0 ==> (r matches Some(s) && s@ == db_text(entries.deep_view())),
{
    if entries.len() == 0 {
        if db_exists {
            return None;
        }
        return Some(String::from_str("[]"));
    }
    Some(render_db(entries))
}

impl BasiliskExtension {
    /// Plans the regeneration of the compilation database from the
    /// current tree state and the cached resolutions: the returned
    /// text, if any, is what the database file must become.
    pub fn refresh_compile_commands(
        &self,
        worktree_root: &str,
        files: &Vec<SourceFile>,
        db_exists: bool,
    ) -> (r: Option<String>)
        ensures
            ({
                let entries = spec_entries(
                    worktree_root@,
                    self.qcc_path.spec_path(),
                    self.basilisk_root.spec_path(),
                    files.deep_view(),
                );
                &&& entries.len() == 0 && db_exists ==> r is None
                &&& entries.len() == 0 && !db_exists ==> (r matches Some(s) && s@ == "[]"@)
                &&& entries.len() > 0 ==> (r matches Some(s) && s@ == db_text(entries))
            }),
    {
        let qcc: Option<String> = match &self.qcc_path {
            Resolution::Found(p) => Some(String::from_str(p.as_str())),
            _ => None,
        };
        let inc: Option<String> = match &self.basilisk_root {
            Resolution::Found(p) => Some(String::from_str(p.as_str())),
            _ => None,
        };
        proof {
            assert(qcc.deep_view() == self.qcc_path.spec_path());
            assert(inc.deep_view() == self.basilisk_root.spec_path());
        }
        let entries = synthesize_entries(worktree_root, &qcc, &inc, files);
        plan_database(&entries, db_exists)
    }
}

/// No file below an excluded directory ever yields a record: whenever
/// some directory component of a walked file is an excluded name, at
/// any depth, the synthesized record list for the remaining files is
/// exactly the list with that file dropped.
pub proof fn lemma_excluded_file_yields_nothing(
    root: Seq<char>,
    qcc: Option<Seq<char>>,
    inc: Option<Seq<char>>,
    files: Seq<Seq<Seq<char>>>,
    i: int,
)
    requires
        0 <= i < files.len(),
        dir_excluded(files[i]),
    ensures
        spec_entries(root, qcc, inc, files) == spec_entries(root, qcc, inc, files.remove(i)),
    decreases files.len(),
{
    if files.len() > 0 {
        if i == files.len() - 1 {
            assert(files.remove(i) =~= files.drop_last());
        } else {
            lemma_excluded_file_yields_nothing(root, qcc, inc, files.drop_last(), i);
            assert(files.remove(i).drop_last() =~= files.drop_last().remove(i));
            assert(files.remove(i).last() == files.last());
        }
    }
}

} // verus!
