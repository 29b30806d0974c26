//! File navigation, selection staging, and pending operations.
//!
//! The navigation state is an absolute path held as its components below
//! the root, the latest listing of that path (or the typed failure that
//! replaced it), a staging list of entries chosen for an operation, and the
//! frozen list waiting for a copy, move or delete to run. All filesystem
//! probing is done by the host, which hands in plain listing data and
//! existence answers; every state transition here is verified.

use vstd::prelude::*;

use crate::errors::TopError;

verus! {

/// The file-kind taxonomy. The directory bit decides first; the filename
/// suffix decides for everything else; unknown suffixes are plain files.
#[derive(Clone, Copy, PartialEq, Eq, Structural, Debug)]
pub enum FileType {
    Normal,
    Markdown,
    Code,
    Document,
    Audio,
    Video,
    Image,
    Zip,
    Folder,
}

/// The operation a staged selection is waiting for.
#[derive(Clone, Copy, PartialEq, Eq, Structural, Debug)]
pub enum FileOperation {
    Null,
    Copy,
    Move,
    Delete,
}

/// One listed entry: a value object, freely copyable.
#[derive(Debug)]
pub struct FileUnit {
    /// The entry's name within its directory.
    pub name: String,
    /// The inferred kind.
    pub file_type: FileType,
    /// The size in bytes.
    pub occupy: u64,
    /// The absolute path.
    pub path: String,
}

/// One raw directory entry as the host read it, before classification.
pub struct RawEntry {
    /// The entry's name within its directory.
    pub name: String,
    /// Whether the directory bit is set.
    pub is_dir: bool,
    /// The size in bytes.
    pub size: u64,
}

/// Whether two strings hold the same characters.
pub fn str_eq(a: &str, b: &str) -> (r: bool)
    ensures
        r == (a@ == b@),
{
    let n = a.unicode_len();
    if n != b.unicode_len() {
        return false;
    }
    let mut i: usize = 0;
    while i < n
        invariant
            n == a@.len(),
            n == b@.len(),
            i <= n,
            forall|j: int| 0 <= j < i ==> a@[j] == b@[j],
        decreases n - i,
    {
        if a.get_char(i) != b.get_char(i) {
            return false;
        }
        i += 1;
    }
    proof {
        assert(a@ =~= b@);
    }
    true
}

/// The index of the last `'.'` in `s`, or -1 when there is none.
pub open spec fn last_dot(s: Seq<char>) -> int
    decreases s.len(),
{
    if s.len() == 0 {
        -1
    } else if s.last() == '.' {
        s.len() - 1
    } else {
        last_dot(s.drop_last())
    }
}

/// Where `last_dot` points: at a dot with no later dot, or nowhere when
/// there is no dot at all.
pub proof fn lemma_last_dot(s: Seq<char>)
    ensures
        last_dot(s) < s.len(),
        last_dot(s) >= 0 ==> s[last_dot(s)] == '.',
        last_dot(s) >= 0 ==> forall|j: int| last_dot(s) < j < s.len() ==> s[j] != '.',
        last_dot(s) < 0 ==> forall|j: int| 0 <= j < s.len() ==> s[j] != '.',
    decreases s.len(),
{
    if s.len() > 0 && s.last() != '.' {
        lemma_last_dot(s.drop_last());
        assert(forall|j: int| 0 <= j < s.len() - 1 ==> s[j] == s.drop_last()[j]);
    }
}

/// A dot with no later dot is the last dot.
pub proof fn lemma_last_dot_at(s: Seq<char>, k: int)
    requires
        0 <= k < s.len(),
        s[k] == '.',
        forall|j: int| k < j < s.len() ==> s[j] != '.',
    ensures
        last_dot(s) == k,
    decreases s.len(),
{
    if k < s.len() - 1 {
        assert(forall|j: int| k < j < s.len() - 1 ==> s.drop_last()[j] != '.');
        lemma_last_dot_at(s.drop_last(), k);
    }
}

/// The filename suffix: what follows the last dot, provided the dot is
/// neither the leading character nor the very end of the name.
pub open spec fn suffix_of(name: Seq<char>) -> Option<Seq<char>> {
    let p = last_dot(name);
    if 1 <= p && p + 1 < name.len() {
        Some(name.subrange(p + 1, name.len() as int))
    } else {
        None
    }
}

/// Extracts the filename suffix, if the name has one.
pub fn get_file_name_suffix(filename: &String) -> (r: Option<String>)
    ensures
        r is Some <==> suffix_of(filename@) is Some,
        r is Some ==> r->0@ == suffix_of(filename@)->0,
{
    let s = filename.as_str();
    let n = s.unicode_len();
    let mut i: usize = n;
    while i > 0
        invariant
            s@ == filename@,
            n == s@.len(),
            i <= n,
            forall|j: int| i <= j < n ==> s@[j] != '.',
        decreases i,
    {
        i -= 1;
        if s.get_char(i) == '.' {
            proof {
                lemma_last_dot_at(s@, i as int);
            }
            if i >= 1 && i + 1 < n {
                let sub = s.substring_char(i + 1, n);
                return Some(sub.to_owned());
            } else {
                return None;
            }
        }
    }
    proof {
        lemma_last_dot(s@);
        if last_dot(s@) >= 0 {
            assert(s@[last_dot(s@)] == '.');
        }
    }
    None
}

/// The kind a suffix maps to. The table is fixed and case-sensitive;
/// anything not listed is a plain file.
pub open spec fn kind_of_suffix(s: Seq<char>) -> FileType {
    if s == "txt"@ || s == "doc"@ || s == "docx"@ {
        FileType::Document
    } else if s == "mp4"@ {
        FileType::Video
    } else if s == "mp3"@ || s == "wav"@ {
        FileType::Audio
    } else if s == "zip"@ || s == "7z"@ || s == "rar"@ {
        FileType::Zip
    } else if s == "md"@ {
        FileType::Markdown
    } else if s == "png"@ || s == "jpg"@ || s == "jpeg"@ {
        FileType::Image
    } else if s == "rs"@ || s == "c"@ || s == "py"@ || s == "cpp"@ || s == "h"@ {
        FileType::Code
    } else {
        FileType::Normal
    }
}

/// The kind of an entry: the directory bit wins over any suffix; without a
/// recognized suffix the entry is a plain file.
pub open spec fn kind_of(is_dir: bool, name: Seq<char>) -> FileType {
    if is_dir {
        FileType::Folder
    } else {
        match suffix_of(name) {
            Option::Some(sfx) => kind_of_suffix(sfx),
            Option::None => FileType::Normal,
        }
    }
}

/// Classifies one directory entry by its directory bit and its name.
pub fn classify_kind(is_dir: bool, name: &String) -> (r: FileType)
    ensures
        r == kind_of(is_dir, name@),
{
    if is_dir {
        return FileType::Folder;
    }
    match get_file_name_suffix(name) {
        Option::None => FileType::Normal,
        Option::Some(sfx) => {
            let x = sfx.as_str();
            if str_eq(x, "txt") || str_eq(x, "doc") || str_eq(x, "docx") {
                FileType::Document
            } else if str_eq(x, "mp4") {
                FileType::Video
            } else if str_eq(x, "mp3") || str_eq(x, "wav") {
                FileType::Audio
            } else if str_eq(x, "zip") || str_eq(x, "7z") || str_eq(x, "rar") {
                FileType::Zip
            } else if str_eq(x, "md") {
                FileType::Markdown
            } else if str_eq(x, "png") || str_eq(x, "jpg") || str_eq(x, "jpeg") {
                FileType::Image
            } else if str_eq(x, "rs") || str_eq(x, "c") || str_eq(x, "py") || str_eq(x, "cpp")
                || str_eq(x, "h") {
                FileType::Code
            } else {
                FileType::Normal
            }
        },
    }
}

impl FileUnit {
    /// An empty entry: a plain file with no name, no size and no path.
    pub fn new() -> (r: Self)
        ensures
            r.name@ == Seq::<char>::empty(),
            r.file_type == FileType::Normal,
            r.occupy == 0,
            r.path@ == Seq::<char>::empty(),
    {
        FileUnit {
            name: String::new(),
            file_type: FileType::Normal,
            occupy: 0,
            path: String::new(),
        }
    }

    /// Whether two entries are the same file: identity is path equality,
    /// never name equality, so the same file reached through different
    /// listing refreshes stages only once.
    pub fn is_equal(file_a: &FileUnit, file_b: &FileUnit) -> (r: bool)
        ensures
            r == (file_a.path@ == file_b.path@),
    {
        file_a.path == file_b.path
    }

    /// A field-for-field copy of this entry.
    pub fn duplicate(&self) -> (r: Self)
        ensures
            r == *self,
    {
        FileUnit {
            name: self.name.clone(),
            file_type: self.file_type,
            occupy: self.occupy,
            path: self.path.clone(),
        }
    }
}

/// A field-for-field copy of a list of entries.
pub fn clone_units(v: &Vec<FileUnit>) -> (r: Vec<FileUnit>)
    ensures
        r@ == v@,
{
    let mut r: Vec<FileUnit> = Vec::new();
    let mut i: usize = 0;
    while i < v.len()
        invariant
            i <= v@.len(),
            r@ == v@.subrange(0, i as int),
        decreases v@.len() - i,
    {
        r.push(v[i].duplicate());
        proof {
            assert(r@ =~= v@.subrange(0, i + 1 as int));
        }
        i += 1;
    }
    proof {
        assert(r@ =~= v@);
    }
    r
}

/// The text of an absolute path with the given components: a `'/'` ahead
/// of each component.
pub open spec fn path_seq(components: Seq<String>) -> Seq<char>
    decreases components.len(),
{
    if components.len() == 0 {
        Seq::<char>::empty()
    } else {
        path_seq(components.drop_last()) + seq!['/'] + components.last()@
    }
}

/// The display text of a path: the root alone shows as `"/"`.
pub open spec fn path_str_of(components: Seq<String>) -> Seq<char> {
    if components.len() == 0 {
        seq!['/']
    } else {
        path_seq(components)
    }
}

/// Builds the text of the absolute path with the given components.
pub fn path_string(components: &Vec<String>) -> (r: String)
    ensures
        r@ == path_seq(components@),
{
    let mut r = String::new();
    let mut i: usize = 0;
    while i < components.len()
        invariant
            i <= components@.len(),
            r@ == path_seq(components@.subrange(0, i as int)),
        decreases components@.len() - i,
    {
        r.append("/");
        r.append(components[i].as_str());
        proof {
            reveal_strlit("/");
            assert(components@.subrange(0, i + 1 as int).drop_last() =~= components@.subrange(
                0,
                i as int,
            ));
            assert(r@ =~= path_seq(components@.subrange(0, i + 1 as int)));
        }
        i += 1;
    }
    proof {
        assert(components@.subrange(0, components@.len() as int) =~= components@);
    }
    r
}

/// Whether some staged entry already has this path.
pub open spec fn has_path(s: Seq<FileUnit>, p: Seq<char>) -> bool {
    exists|i: int| 0 <= i < s.len() && s[i].path@ == p
}

/// What staging an entry does: nothing when its path is already staged,
/// an append otherwise.
pub open spec fn staged_after_add(s: Seq<FileUnit>, f: FileUnit) -> Seq<FileUnit> {
    if has_path(s, f.path@) {
        s
    } else {
        s.push(f)
    }
}

/// No two staged entries share a path.
pub open spec fn distinct_paths(s: Seq<FileUnit>) -> bool {
    forall|i: int, j: int| 0 <= i < j < s.len() ==> s[i].path@ != s[j].path@
}

/// Staging the same path twice is the same as staging it once: staging
/// holds at most one entry per path, however often an entry is re-added.
pub proof fn lemma_add_idempotent(s: Seq<FileUnit>, f: FileUnit)
    ensures
        staged_after_add(staged_after_add(s, f), f) == staged_after_add(s, f),
{
    if !has_path(s, f.path@) {
        let t = s.push(f);
        assert(t[s.len() as int].path@ == f.path@);
        assert(has_path(t, f.path@));
    }
}

/// Staging keeps paths distinct.
pub proof fn lemma_add_keeps_distinct(s: Seq<FileUnit>, f: FileUnit)
    requires
        distinct_paths(s),
    ensures
        distinct_paths(staged_after_add(s, f)),
{
    if !has_path(s, f.path@) {
        let t = s.push(f);
        assert forall|i: int, j: int| 0 <= i < j < t.len() implies t[i].path@ != t[j].path@ by {
            if j == s.len() {
                assert(t[i].path@ != f.path@) by {
                    assert(!(t[i].path@ == f.path@)) by {
                        assert(t[i] == s[i]);
                        assert(!has_path(s, f.path@));
                    }
                }
            }
        }
    }
}

/// The navigation, staging and pending-operation state of one session.
pub struct FileManage {
    /// The current absolute path, as its components below the root.
    pub now_path: Vec<String>,
    /// The latest listing of the current path, or the failure that took
    /// its place (the degraded state).
    pub file_list: Result<Vec<FileUnit>, TopError>,
    /// The entries staged for a coming operation.
    pub select_list: Vec<FileUnit>,
    /// The frozen entries of the committed, not yet executed operation.
    pub wait_operation_list: Vec<FileUnit>,
    /// The committed operation's kind.
    pub file_operation: FileOperation,
}

/// A committed operation, frozen at commit time: later selection changes
/// cannot alter it.
pub struct PendingOperation {
    /// What to do with each entry.
    pub kind: FileOperation,
    /// The entries captured when the staging was committed.
    pub entries: Vec<FileUnit>,
    /// The absolute path of the directory the operation targets.
    pub target: String,
}

impl FileManage {
    /// A fresh session at the root with an empty listing and nothing
    /// staged or pending.
    pub fn new() -> (r: Self)
        ensures
            r.now_path@ == Seq::<String>::empty(),
            r.file_list is Ok && r.file_list->Ok_0@ == Seq::<FileUnit>::empty(),
            r.select_list@ == Seq::<FileUnit>::empty(),
            r.wait_operation_list@ == Seq::<FileUnit>::empty(),
            r.file_operation == FileOperation::Null,
    {
        FileManage {
            now_path: Vec::new(),
            file_list: Ok(Vec::new()),
            select_list: Vec::new(),
            wait_operation_list: Vec::new(),
            file_operation: FileOperation::Null,
        }
    }

    /// Moves the session to the given absolute path. A path change scopes
    /// selections to the new browsing session, so staging is cleared.
    pub fn set_location(&mut self, components: Vec<String>)
        ensures
            final(self).now_path == components,
            final(self).select_list@ == Seq::<FileUnit>::empty(),
            final(self).file_list == old(self).file_list,
            final(self).wait_operation_list == old(self).wait_operation_list,
            final(self).file_operation == old(self).file_operation,
    {
        self.now_path = components;
        self.select_list.clear();
    }

    /// The current absolute path as text; the root shows as `"/"`.
    pub fn get_path_str(&self) -> (r: String)
        ensures
            r@ == path_str_of(self.now_path@),
    {
        if self.now_path.len() == 0 {
            let r = String::from_str("/");
            proof {
                reveal_strlit("/");
                assert(r@ =~= path_str_of(self.now_path@));
            }
            r
        } else {
            path_string(&self.now_path)
        }
    }

    /// The absolute path an entry of the current directory has.
    pub fn entry_path_string(&self, name: &String) -> (r: String)
        ensures
            r@ == path_seq(self.now_path@.push(*name)),
    {
        let mut r = path_string(&self.now_path);
        r.append("/");
        r.append(name.as_str());
        proof {
            reveal_strlit("/");
            assert(self.now_path@.push(*name).drop_last() =~= self.now_path@);
            assert(r@ =~= path_seq(self.now_path@.push(*name)));
        }
        r
    }

    /// Stages an entry unless an entry with the same resolved path is
    /// already staged: re-adding the same file never grows the staging.
    pub fn select_push(&mut self, file: FileUnit)
        ensures
            final(self).select_list@ == staged_after_add(old(self).select_list@, file),
            distinct_paths(old(self).select_list@) ==> distinct_paths(final(self).select_list@),
            final(self).now_path == old(self).now_path,
            final(self).file_list == old(self).file_list,
            final(self).wait_operation_list == old(self).wait_operation_list,
            final(self).file_operation == old(self).file_operation,
    {
        proof {
            if distinct_paths(self.select_list@) {
                lemma_add_keeps_distinct(self.select_list@, file);
            }
        }
        let mut i: usize = 0;
        while i < self.select_list.len()
            invariant
                i <= self.select_list@.len(),
                forall|j: int| 0 <= j < i ==> self.select_list@[j].path@ != file.path@,
            decreases self.select_list@.len() - i,
        {
            if FileUnit::is_equal(&self.select_list[i], &file) {
                return ;
            }
            i += 1;
        }
        assert(!has_path(self.select_list@, file.path@));
        self.select_list.push(file);
    }

    /// Empties the staging list; nothing else changes.
    pub fn clear_select(&mut self)
        ensures
            final(self).select_list@ == Seq::<FileUnit>::empty(),
            final(self).now_path == old(self).now_path,
            final(self).file_list == old(self).file_list,
            final(self).wait_operation_list == old(self).wait_operation_list,
            final(self).file_operation == old(self).file_operation,
    {
        self.select_list.clear();
    }

    /// Commits the staged selection for the given operation: the staged
    /// entries are frozen into the waiting list and staging is emptied, so
    /// a new selection can be gathered while this one is pending.
    pub fn select_ready_operation(&mut self, operate: FileOperation)
        ensures
            final(self).wait_operation_list@ == old(self).select_list@,
            final(self).select_list@ == Seq::<FileUnit>::empty(),
            final(self).file_operation == operate,
            final(self).now_path == old(self).now_path,
            final(self).file_list == old(self).file_list,
    {
        self.wait_operation_list.clear();
        self.wait_operation_list.append(&mut self.select_list);
        proof {
            assert(self.wait_operation_list@ =~= old(self).select_list@);
        }
        self.file_operation = operate;
    }

    /// Steps the path up to its parent and reports whether it moved. At
    /// the root this is a no-op, not a failure: the whole state is kept.
    /// A move clears the staging, as every path change does.
    pub fn back_upper_layer(&mut self) -> (r: bool)
        ensures
            r == (old(self).now_path@.len() > 0),
            old(self).now_path@.len() == 0 ==> *final(self) == *old(self),
            old(self).now_path@.len() > 0 ==> final(self).now_path@
                == old(self).now_path@.drop_last() && final(self).select_list@
                == Seq::<FileUnit>::empty(),
            final(self).file_list == old(self).file_list,
            final(self).wait_operation_list == old(self).wait_operation_list,
            final(self).file_operation == old(self).file_operation,
    {
        if self.now_path.len() == 0 {
            return false;
        }
        let _ = self.now_path.pop();
        self.select_list.clear();
        true
    }

    /// Tries to descend into a listed folder. Only a folder entry can be
    /// entered, and only when the host found the target path to exist;
    /// otherwise the navigation pointer is left exactly as it was and the
    /// caller may fall back to opening the entry as a file. A successful
    /// descent clears the staging.
    pub fn enter_new_folder(&mut self, folder: &FileUnit, target_exists: bool) -> (r: bool)
        ensures
            r == (folder.file_type is Folder && target_exists),
            !r ==> *final(self) == *old(self),
            r ==> final(self).now_path@ == old(self).now_path@.push(folder.name)
                && final(self).select_list@ == Seq::<FileUnit>::empty(),
            final(self).file_list == old(self).file_list,
            final(self).wait_operation_list == old(self).wait_operation_list,
            final(self).file_operation == old(self).file_operation,
    {
        match folder.file_type {
            FileType::Folder => {
                if target_exists {
                    self.now_path.push(folder.name.clone());
                    self.select_list.clear();
                    true
                } else {
                    false
                }
            },
            _ => false,
        }
    }

    /// The staged entries, or the committed ones once a commit is pending:
    /// what the user should see as "selected".
    pub fn get_select(&self) -> (r: Vec<FileUnit>)
        ensures
            self.wait_operation_list@.len() > 0 ==> r@ == self.wait_operation_list@,
            self.wait_operation_list@.len() == 0 ==> r@ == self.select_list@,
    {
        if self.wait_operation_list.len() == 0 {
            clone_units(&self.select_list)
        } else {
            clone_units(&self.wait_operation_list)
        }
    }

    /// The current listing, when the last refresh succeeded.
    pub fn get_file_list(&self) -> (r: Option<Vec<FileUnit>>)
        ensures
            r is Some <==> self.file_list is Ok,
            r is Some ==> r->0@ == self.file_list->Ok_0@,
    {
        match &self.file_list {
            Ok(v) => Some(clone_units(v)),
            Err(_) => None,
        }
    }
}


impl FileManage {
    /// Replaces the listing from the raw entries the host read for the
    /// current path. A successful read, even one with zero entries, becomes
    /// a fresh listing with every entry named, classified, sized and given
    /// its absolute path; a failed read puts the session into the degraded
    /// state, recording the failure kind in place of the listing while the
    /// path pointer itself is retained.
    pub fn refresh_file_list(&mut self, entries: Result<Vec<RawEntry>, TopError>) -> (r: Option<
        TopError,
    >)
        ensures
            r is Some <==> entries is Err,
            entries is Err ==> final(self).file_list is Err && final(self).file_list->Err_0
                == entries->Err_0 && r->0 == entries->Err_0,
            entries is Ok ==> final(self).file_list is Ok && ({
                let es = entries->Ok_0@;
                let fl = final(self).file_list->Ok_0@;
                &&& fl.len() == es.len()
                &&& forall|i: int|
                    0 <= i < es.len() ==> fl[i].name == es[i].name && fl[i].file_type == kind_of(
                        es[i].is_dir,
                        es[i].name@,
                    ) && fl[i].occupy == es[i].size && fl[i].path@ == path_seq(
                        old(self).now_path@.push(es[i].name),
                    )
            }),
            final(self).now_path == old(self).now_path,
            final(self).select_list == old(self).select_list,
            final(self).wait_operation_list == old(self).wait_operation_list,
            final(self).file_operation == old(self).file_operation,
    {
        match entries {
            Err(k) => {
                let back = k.duplicate();
                self.file_list = Err(k);
                Some(back)
            },
            Ok(es) => {
                let mut fl: Vec<FileUnit> = Vec::new();
                let mut i: usize = 0;
                while i < es.len()
                    invariant
                        i <= es@.len(),
                        self.now_path@ == old(self).now_path@,
                        fl@.len() == i,
                        forall|j: int|
                            0 <= j < i ==> fl@[j].name == es@[j].name && fl@[j].file_type
                                == kind_of(es@[j].is_dir, es@[j].name@) && fl@[j].occupy
                                == es@[j].size && fl@[j].path@ == path_seq(
                                old(self).now_path@.push(es@[j].name),
                            ),
                    decreases es@.len() - i,
                {
                    let path = self.entry_path_string(&es[i].name);
                    let ft = classify_kind(es[i].is_dir, &es[i].name);
                    fl.push(
                        FileUnit {
                            name: es[i].name.clone(),
                            file_type: ft,
                            occupy: es[i].size,
                            path,
                        },
                    );
                    i += 1;
                }
                self.file_list = Ok(fl);
                None
            },
        }
    }

    /// Hands out the committed operation for the host to run against the
    /// current path, clearing it here: whatever the host's outcome, no
    /// retry is kept. With nothing committed, an empty-data failure.
    pub fn begin_operation(&mut self) -> (r: Result<PendingOperation, TopError>)
        ensures
            r is Ok <==> old(self).wait_operation_list@.len() > 0,
            old(self).wait_operation_list@.len() == 0 ==> r->Err_0 is EmptyError && *final(self)
                == *old(self),
            old(self).wait_operation_list@.len() > 0 ==> ({
                let p = r->Ok_0;
                &&& p.kind == old(self).file_operation
                &&& p.entries@ == old(self).wait_operation_list@
                &&& p.target@ == path_str_of(old(self).now_path@)
                &&& final(self).wait_operation_list@ == Seq::<FileUnit>::empty()
                &&& final(self).file_operation is Null
            }),
            final(self).now_path == old(self).now_path,
            final(self).file_list == old(self).file_list,
            final(self).select_list == old(self).select_list,
    {
        if self.wait_operation_list.len() == 0 {
            return Err(TopError::EmptyError);
        }
        let target = self.get_path_str();
        let kind = self.file_operation;
        let mut entries: Vec<FileUnit> = Vec::new();
        entries.append(&mut self.wait_operation_list);
        self.file_operation = FileOperation::Null;
        proof {
            assert(entries@ =~= old(self).wait_operation_list@);
        }
        Ok(PendingOperation { kind, entries, target })
    }
}

/// The names of the entries whose paired outcome is a success, in order.
pub open spec fn ok_names(es: Seq<FileUnit>, rs: Seq<Option<TopError>>) -> Seq<String>
    recommends
        es.len() == rs.len(),
    decreases es.len(),
{
    if es.len() == 0 || rs.len() == 0 {
        Seq::<String>::empty()
    } else if rs.last() is None {
        ok_names(es.drop_last(), rs.drop_last()).push(es.last().name)
    } else {
        ok_names(es.drop_last(), rs.drop_last())
    }
}

/// The names of the entries whose paired outcome is a failure, each with
/// its failure kind, in order.
pub open spec fn err_pairs(es: Seq<FileUnit>, rs: Seq<Option<TopError>>) -> Seq<
    (String, TopError),
>
    recommends
        es.len() == rs.len(),
    decreases es.len(),
{
    if es.len() == 0 || rs.len() == 0 {
        Seq::<(String, TopError)>::empty()
    } else if rs.last() is Some {
        err_pairs(es.drop_last(), rs.drop_last()).push((es.last().name, rs.last()->0))
    } else {
        err_pairs(es.drop_last(), rs.drop_last())
    }
}

/// The aggregate outcome of one executed operation: which entries were
/// handled and which failed, and why.
pub struct OperationReport {
    /// The names of the entries whose action succeeded.
    pub succeeded: Vec<String>,
    /// Each failed entry's name with its failure kind.
    pub failed: Vec<(String, TopError)>,
}

/// Pairs a pending operation's entries with the per-entry outcomes the
/// host reports (`None` for a success) and splits them into the named
/// successes and the named failures: one entry's failure never hides the
/// outcome of the others.
pub fn operation_report(op: &PendingOperation, results: &Vec<Option<TopError>>) -> (r:
    OperationReport)
    ensures
        ({
            let n = vstd::math::min(op.entries@.len() as int, results@.len() as int);
            &&& r.succeeded@ == ok_names(op.entries@.take(n), results@.take(n))
            &&& r.failed@ == err_pairs(op.entries@.take(n), results@.take(n))
        }),
{
    let n = if op.entries.len() <= results.len() {
        op.entries.len()
    } else {
        results.len()
    };
    let mut succeeded: Vec<String> = Vec::new();
    let mut failed: Vec<(String, TopError)> = Vec::new();
    let mut i: usize = 0;
    while i < n
        invariant
            i <= n,
            n == vstd::math::min(op.entries@.len() as int, results@.len() as int),
            succeeded@ == ok_names(op.entries@.take(i as int), results@.take(i as int)),
            failed@ == err_pairs(op.entries@.take(i as int), results@.take(i as int)),
        decreases n - i,
    {
        proof {
            assert(op.entries@.take(i + 1 as int).drop_last() =~= op.entries@.take(i as int));
            assert(results@.take(i + 1 as int).drop_last() =~= results@.take(i as int));
        }
        match &results[i] {
            Option::None => {
                succeeded.push(op.entries[i].name.clone());
            },
            Option::Some(k) => {
                failed.push((op.entries[i].name.clone(), k.duplicate()));
            },
        }
        i += 1;
    }
    proof {
        assert(op.entries@.take(n as int) =~= op.entries@.take(i as int));
        assert(results@.take(n as int) =~= results@.take(i as int));
    }
    OperationReport { succeeded, failed }
}

} // verus!
