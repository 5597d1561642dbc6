//! How a file is rewritten: a backup first, then the new content beside it, then a rename.
use vstd::prelude::*;

use crate::convert_identities::{ConvertError, convert_identities};
use crate::text::joined;

verus! {

/// One operation on files.
#[derive(Debug, PartialEq, Eq)]
pub enum FileOp {
    Copy { from: String, to: String },
    Write { to: String, content: String },
    Rename { from: String, to: String },
}

/// A [`FileOp`] as sequences of characters.
pub enum FileOpView {
    Copy { from: Seq<char>, to: Seq<char> },
    Write { to: Seq<char>, content: Seq<char> },
    Rename { from: Seq<char>, to: Seq<char> },
}

impl View for FileOp {
    type V = FileOpView;

    open spec fn view(&self) -> FileOpView {
        match *self {
            FileOp::Copy { from, to } => FileOpView::Copy { from: from@, to: to@ },
            FileOp::Write { to, content } => FileOpView::Write { to: to@, content: content@ },
            FileOp::Rename { from, to } => FileOpView::Rename { from: from@, to: to@ },
        }
    }
}

/// The content of each file, by its path.
pub type Files = Map<Seq<char>, Seq<char>>;

/// What an operation makes of the files.
pub open spec fn performed(files: Files, op: FileOpView) -> Files {
    match op {
        FileOpView::Copy { from, to } => files.insert(to, files[from]),
        FileOpView::Write { to, content } => files.insert(to, content),
        FileOpView::Rename { from, to } => files.remove(from).insert(to, files[from]),
    }
}

/// What the first `n` operations make of the files.
pub open spec fn performed_first(files: Files, ops: Seq<FileOpView>, n: nat) -> Files
    decreases n,
{
    if n == 0 {
        files
    } else {
        performed(performed_first(files, ops, (n - 1) as nat), ops[n - 1])
    }
}

/// The operations that give a file new content.
pub open spec fn rewriting(path: Seq<char>, content: Seq<char>) -> Seq<FileOpView> {
    seq![
        FileOpView::Copy { from: path, to: path + ".bak"@ },
        FileOpView::Write { to: path + ".tmp"@, content },
        FileOpView::Rename { from: path + ".tmp"@, to: path },
    ]
}

/// The operations that give a file its new content, if there is any.
pub open spec fn rewriting_if(path: Seq<char>, new: Option<Seq<char>>) -> Seq<FileOpView> {
    match new {
        Some(new) => rewriting(path, new),
        None => seq![],
    }
}

/// Operations as sequences of characters.
pub open spec fn ops_view(ops: Seq<FileOp>) -> Seq<FileOpView> {
    ops.map_values(|op: FileOp| op@)
}

/// Where the original content of a file is kept.
pub fn backup_path(path: &str) -> (r: String)
    ensures
        r@ == path@ + ".bak"@,
{
    joined(path, ".bak")
}

/// Where the new content of a file is written first.
pub fn tmp_path(path: &str) -> (r: String)
    ensures
        r@ == path@ + ".tmp"@,
{
    joined(path, ".tmp")
}

/// Why a file is not rewritten: its backup exists.
pub open spec fn backup_refusal(path: Seq<char>, backup_exists: bool) -> Option<Seq<char>> {
    if backup_exists {
        Some(
            "refusing to overwrite existing backup at "@ + (path + ".bak"@)
                + "; move or remove it and rerun"@,
        )
    } else {
        None
    }
}

/// Refuses to go on if the backup file already exists.
pub fn check_backup(path: &str, backup_exists: bool) -> (r: Result<(), ConvertError>)
    ensures
        match r {
            Ok(_) => backup_refusal(path@, backup_exists) is None,
            Err(e) => e matches ConvertError::BackupExists(message) && backup_refusal(
                path@,
                backup_exists,
            ) == Some(message@),
        },
{
    if backup_exists {
        let bak = backup_path(path);
        let message = joined(
            joined("refusing to overwrite existing backup at ", bak.as_str()).as_str(),
            "; move or remove it and rerun",
        );
        return Err(ConvertError::BackupExists(message));
    }
    Ok(())
}

/// The operations that give the file at `path` new content: save the original as
/// `{path}.bak`, write `{path}.tmp`, rename it to `path`.
pub fn rewrite(path: &str, content: String) -> (r: Vec<FileOp>)
    ensures
        ops_view(r@) == rewriting(path@, content@),
{
    let mut ops: Vec<FileOp> = Vec::new();
    ops.push(FileOp::Copy { from: String::from_str(path), to: backup_path(path) });
    ops.push(FileOp::Write { to: tmp_path(path), content });
    ops.push(FileOp::Rename { from: tmp_path(path), to: String::from_str(path) });
    assert(ops_view(ops@) =~= rewriting(path@, content@));
    ops
}

/// Whether `r` is what to do to convert the identities in a file.
pub open spec fn is_plan_of(
    path: Seq<char>,
    content: Seq<char>,
    r: Result<Vec<FileOp>, ConvertError>,
) -> bool {
    match r {
        Ok(ops) => crate::convert_identities::replacements(
            crate::lines::lines(content),
        ) matches Ok(rs) && ops_view(ops@) == rewriting_if(
            path,
            crate::convert_identities::new_content(crate::lines::lines(content), rs),
        ),
        Err(e) => crate::convert_identities::replacements(
            crate::lines::lines(content),
        ) matches Err(f) && crate::convert_identities::failure_is(e, f),
    }
}

/// The operations that convert the identities in the file at `path`, given its content; none
/// if it holds none to convert.
pub fn conversion(path: &str, content: &str) -> (r: Result<Vec<FileOp>, ConvertError>)
    ensures
        is_plan_of(path@, content@, r),
{
    match convert_identities(content) {
        Ok(Some(new)) => Ok(rewrite(path, new)),
        Ok(None) => {
            let ops: Vec<FileOp> = Vec::new();
            assert(ops_view(ops@) =~= seq![]);
            Ok(ops)
        },
        Err(e) => Err(e),
    }
}

/// A rewritten file has the new content and its backup the old one. At every point on the way
/// the file has all of its old content or, at the end, all of the new; the old content is never
/// lost; and no file but the three is touched.
pub proof fn law_rewriting_is_atomic(
    files: Files,
    path: Seq<char>,
    content: Seq<char>,
    n: nat,
    other: Seq<char>,
)
    requires
        files.dom().contains(path),
        n <= 3,
    ensures
        ({
            let now = performed_first(files, rewriting(path, content), n);
            let bak = path + ".bak"@;
            let tmp = path + ".tmp"@;
            &&& now.dom().contains(path)
            &&& n < 3 ==> now[path] == files[path]
            &&& n == 3 ==> now[path] == content
            &&& n >= 1 ==> now.dom().contains(bak) && now[bak] == files[path]
            &&& n == 3 ==> !now.dom().contains(tmp)
            &&& other != path && other != bak && other != tmp ==> {
                &&& now.dom().contains(other) == files.dom().contains(other)
                &&& files.dom().contains(other) ==> now[other] == files[other]
            }
        }),
{
    reveal_strlit(".bak");
    reveal_strlit(".tmp");
    let bak = path + ".bak"@;
    let tmp = path + ".tmp"@;
    assert(bak.len() == path.len() + 4 && tmp.len() == path.len() + 4);
    assert(bak[path.len() as int + 1] == 'b');
    assert(tmp[path.len() as int + 1] == 't');
    reveal_with_fuel(performed_first, 4);
}

/// An existing backup is refused, whatever the path, by a message that names it; else nothing is.
pub proof fn law_existing_backup_is_refused(path: Seq<char>)
    ensures
        backup_refusal(path, false) is None,
        backup_refusal(path, true) == Some(
            "refusing to overwrite existing backup at "@ + path + ".bak"@
                + "; move or remove it and rerun"@,
        ),
{
    assert(backup_refusal(path, true)->0 =~= "refusing to overwrite existing backup at "@ + path
        + ".bak"@ + "; move or remove it and rerun"@);
}

/// A file with new content is copied to its backup, the content written beside it, and that
/// renamed to it, in this order, whatever path and content; a file without is left alone.
pub proof fn law_which_files_are_written(
    ops: Seq<FileOp>,
    path: Seq<char>,
    new: Option<Seq<char>>,
)
    requires
        ops_view(ops) == rewriting_if(path, new),
    ensures
        new is None ==> ops.len() == 0,
        new matches Some(new) ==> {
            &&& ops.len() == 3
            &&& ops[0] matches FileOp::Copy { from, to }
            &&& from@ == path
            &&& to@ == path + ".bak"@
            &&& ops[1] matches FileOp::Write { to, content }
            &&& to@ == path + ".tmp"@
            &&& content@ == new
            &&& ops[2] matches FileOp::Rename { from, to }
            &&& from@ == path + ".tmp"@
            &&& to@ == path
        },
{
    assert(ops_view(ops).len() == ops.len());
    if new is Some {
        assert(ops_view(ops)[0] == ops[0]@);
        assert(ops_view(ops)[1] == ops[1]@);
        assert(ops_view(ops)[2] == ops[2]@);
    }
}

/// A file is planned to be rewritten exactly if converting its content gives new content, and then
/// with that content; where converting fails, so does the plan, for the same reason.
pub proof fn law_plan_follows_the_conversion(
    path: Seq<char>,
    content: Seq<char>,
    plan: Result<Vec<FileOp>, ConvertError>,
    converted: Result<Option<String>, ConvertError>,
)
    requires
        is_plan_of(path, content, plan),
        crate::convert_identities::is_conversion_of(content, converted),
    ensures
        plan is Err <==> converted is Err,
        plan matches Err(e) ==> (converted matches Err(c) && (e is Decode <==> c is Decode) && (
        e is Encode <==> c is Encode)),
        plan matches Ok(ops) ==> {
            &&& converted matches Ok(new)
            &&& new is None <==> ops@.len() == 0
            &&& new matches Some(text) ==> ops_view(ops@) == rewriting(path, text@)
        },
{
    if let Ok(ops) = plan {
        assert(ops_view(ops@).len() == ops@.len());
        if let Ok(Some(text)) = converted {
            assert(ops_view(ops@) == rewriting(path, text@));
            assert(rewriting(path, text@).len() == 3);
        }
    }
}

} // verus!
