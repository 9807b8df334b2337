use crate::commands::parent_cursor_move::{child_path, join_path};
use crate::commands::reload::{outcome_view, reload, tab_reload};
use crate::context::{ContextView, JoshutoContext};
use crate::error::{ErrorView, JoshutoError, JoshutoErrorKind, JoshutoResult};
use crate::fs::dirlist::{selected_names, DirRead, DirReadView};
use crate::util::text::{chars_of, push_char, string_of, texts};
use rand::Rng;
use vstd::prelude::*;
use vstd::string::StringExecFns;

verus! {

/// Whether `c` is white space: a character with the Unicode property
/// `White_Space`.
pub open spec fn is_space(c: char) -> bool {
    let n = c as int;
    (0x09 <= n <= 0x0D) || n == 0x20 || n == 0x85 || n == 0xA0 || n == 0x1680 || (0x2000 <= n
        <= 0x200A) || n == 0x2028 || n == 0x2029 || n == 0x202F || n == 0x205F || n == 0x3000
}

/// The first position at or after `from` that holds no white space; the
/// length of `s` when there is none.
pub open spec fn skip_spaces(s: Seq<char>, from: int) -> int
    decreases s.len() - from,
{
    if from < 0 || from >= s.len() || !is_space(s[from]) {
        from
    } else {
        skip_spaces(s, from + 1)
    }
}

/// The position behind the last character before `to` that is no white
/// space; zero when there is none.
pub open spec fn drop_spaces(s: Seq<char>, to: int) -> int
    decreases to,
{
    if to <= 0 || to > s.len() || !is_space(s[to - 1]) {
        to
    } else {
        drop_spaces(s, to - 1)
    }
}

/// `s` without the white space at its two ends.
pub open spec fn trimmed(s: Seq<char>) -> Seq<char> {
    let from = skip_spaces(s, 0);
    let to = drop_spaces(s, s.len() as int);
    if from < to {
        s.subrange(from, to)
    } else {
        Seq::empty()
    }
}

/// What a line of the edited list names: the line without the white space
/// at its ends, if anything is left of it.
pub open spec fn name_of(line: Seq<char>) -> Seq<Seq<char>> {
    if trimmed(line).len() > 0 {
        seq![trimmed(line)]
    } else {
        Seq::empty()
    }
}

/// The names that the text `s` gives from position `from` on, where the
/// line that is being read began at `line_start`. Lines end at a line feed.
pub open spec fn names_from(s: Seq<char>, from: int, line_start: int) -> Seq<Seq<char>>
    decreases s.len() - from,
{
    if from >= s.len() {
        name_of(s.subrange(line_start, s.len() as int))
    } else if s[from] == '\n' {
        name_of(s.subrange(line_start, from)) + names_from(s, from + 1, from + 1)
    } else {
        names_from(s, from + 1, line_start)
    }
}

/// The names that an edited list gives: one for each line that holds more
/// than white space, without the white space at its ends.
pub open spec fn edited_names(content: Seq<char>) -> Seq<Seq<char>> {
    names_from(content, 0, 0)
}

/// The list that is handed to the editor: each name on a line of its own.
pub open spec fn names_listing(names: Seq<Seq<char>>) -> Seq<char>
    decreases names.len(),
{
    if names.len() == 0 {
        Seq::empty()
    } else {
        names_listing(names.drop_last()) + names.last() + seq!['\n']
    }
}

fn char_is_space(c: char) -> (r: bool)
    ensures
        r == is_space(c),
{
    (c >= '\u{9}' && c <= '\u{d}') || c == ' ' || c == '\u{85}' || c == '\u{a0}' || c
        == '\u{1680}' || (c >= '\u{2000}' && c <= '\u{200a}') || c == '\u{2028}' || c
        == '\u{2029}' || c == '\u{202f}' || c == '\u{205f}' || c == '\u{3000}'
}

/// The text of `line` without the white space at its two ends.
pub fn trim(line: &Vec<char>) -> (t: Vec<char>)
    ensures
        t@ == trimmed(line@),
{
    let mut from: usize = 0;
    while from < line.len() && char_is_space(line[from])
        invariant
            from <= line.len(),
            skip_spaces(line@, 0) == skip_spaces(line@, from as int),
        decreases line.len() - from,
    {
        from = from + 1;
    }
    let mut to: usize = line.len();
    while to > 0 && char_is_space(line[to - 1])
        invariant
            to <= line.len(),
            drop_spaces(line@, line.len() as int) == drop_spaces(line@, to as int),
        decreases to,
    {
        to = to - 1;
    }
    let mut t: Vec<char> = Vec::new();
    let mut i: usize = from;
    while i < to
        invariant
            from <= i,
            i <= to || to <= from,
            to <= line.len(),
            from < to ==> t@ == line@.subrange(from as int, i as int),
            from >= to ==> t@ == Seq::<char>::empty(),
        decreases to - i,
    {
        t.push(line[i]);
        i = i + 1;
    }
    t
}

/// The names that an edited list gives.
pub fn parse_names(content: &str) -> (names: Vec<String>)
    ensures
        texts(names@) == edited_names(content@),
{
    let s = chars_of(content);
    let mut names: Vec<String> = Vec::new();
    let mut line: Vec<char> = Vec::new();
    let ghost mut line_start: int = 0;
    let mut i: usize = 0;
    while i < s.len()
        invariant
            i <= s.len(),
            0 <= line_start <= i,
            line@ == s@.subrange(line_start, i as int),
            texts(names@) + names_from(s@, i as int, line_start) == edited_names(s@),
        decreases s.len() - i,
    {
        let c = s[i];
        if c == '\n' {
            let ghost before = texts(names@);
            let t = trim(&line);
            if t.len() > 0 {
                let name = string_of(&t);
                names.push(name);
                assert(texts(names@) =~= before + name_of(line@));
            }
            assert(texts(names@) =~= before + name_of(line@));
            line = Vec::new();
            proof {
                line_start = i + 1;
            }
            assert(line@ =~= s@.subrange(line_start, i + 1));
        } else {
            line.push(c);
            assert(line@ =~= s@.subrange(line_start, i + 1));
        }
        i = i + 1;
    }
    let ghost before = texts(names@);
    assert(line@ =~= s@.subrange(line_start, s@.len() as int));
    let t = trim(&line);
    if t.len() > 0 {
        let name = string_of(&t);
        names.push(name);
        assert(texts(names@) =~= before + name_of(line@));
    }
    assert(texts(names@) =~= before + name_of(line@));
    names
}

/// The list that is handed to the editor.
pub fn list_names(names: &Vec<String>) -> (listing: String)
    ensures
        listing@ == names_listing(texts(names@)),
{
    let ghost all = texts(names@);
    let mut listing = String::new();
    let mut i: usize = 0;
    while i < names.len()
        invariant
            i <= names.len(),
            all == texts(names@),
            listing@ == names_listing(all.take(i as int)),
        decreases names.len() - i,
    {
        assert(all.take(i + 1).drop_last() =~= all.take(i as int));
        listing.append(names[i].as_str());
        push_char(&mut listing, '\n');
        i = i + 1;
    }
    assert(all.take(i as int) =~= all);
    listing
}

/// Whether `b` is an ASCII letter or digit.
pub open spec fn is_alphanumeric(b: u8) -> bool {
    (0x30 <= b <= 0x39) || (0x41 <= b <= 0x5A) || (0x61 <= b <= 0x7A)
}

/// `Rng::sample_iter` of the `rand` crate on the thread's generator with the
/// distribution `Alphanumeric`, cut off after `len` samples. Trusted: `len`
/// bytes come back, each an ASCII letter or digit. Which ones is left open.
#[verifier::external_body]
fn random_alphanumeric(len: usize) -> (bytes: Vec<u8>)
    ensures
        bytes.len() == len,
        forall|i: int| 0 <= i < bytes.len() ==> is_alphanumeric(#[trigger] bytes[i]),
{
    rand::thread_rng().sample_iter(&rand::distributions::Alphanumeric).take(len).collect()
}

/// Whether `suffix` can be the random part of the name of the file for the
/// list: ten ASCII letters or digits.
pub open spec fn is_random_suffix(suffix: Seq<u8>) -> bool {
    suffix.len() == 10 && forall|i: int| 0 <= i < 10 ==> is_alphanumeric(#[trigger] suffix[i])
}

/// The text of a string that may be absent.
pub open spec fn option_text(s: Option<String>) -> Option<Seq<char>> {
    match s {
        Some(t) => Some(t@),
        None => None,
    }
}

/// The path of the file that holds the list while the editor runs, for the
/// random part `suffix` of its name.
pub open spec fn temp_path(suffix: Seq<u8>) -> Seq<char> {
    "/tmp/joshuto-"@ + suffix.map_values(|b: u8| b as char)
}

/// The path of the file that holds the list while the editor runs.
pub fn temp_file_path(suffix: &Vec<u8>) -> (path: String)
    ensures
        path@ == temp_path(suffix@),
{
    let mut path = String::from_str("/tmp/joshuto-");
    let mut i: usize = 0;
    while i < suffix.len()
        invariant
            i <= suffix.len(),
            path@ == "/tmp/joshuto-"@ + suffix@.take(i as int).map_values(|b: u8| b as char),
        decreases suffix.len() - i,
    {
        let b: u8 = suffix[i];
        push_char(&mut path, b as char);
        assert(path@ =~= "/tmp/joshuto-"@ + suffix@.take(i + 1).map_values(|b: u8| b as char));
        i = i + 1;
    }
    assert(suffix@.take(i as int) =~= suffix@);
    path
}

/// Where a bulk rename stands. Each stage but the first and the last waits
/// for the outside step that the action before it asked for.
#[derive(Clone, Copy, Debug, PartialEq, Eq, Structural)]
pub enum RenameStage {
    Start,
    Writing,
    Editing,
    Checking,
    Reading,
    Removing,
    Confirming,
    Moving,
    Acknowledging,
    Cleaning,
    Finished,
}

/// What the outside reports to a bulk rename. A failed step carries its
/// error message.
#[derive(Debug, PartialEq, Eq)]
pub enum RenameEvent {
    /// The value of the variable `EDITOR`, and the random part of the name
    /// of the file for the list.
    Begin { editor: Option<String>, suffix: Vec<u8> },
    /// The step asked for has been carried out.
    Done(Result<(), String>),
    /// Whether the file was modified after the editor was started.
    Modified(Result<bool, String>),
    /// What the file holds.
    Contents(Result<String, String>),
    /// What the user typed.
    Answer(Result<String, String>),
}

/// The mathematical content of a [`RenameEvent`].
pub enum RenameEventView {
    Begin { editor: Option<Seq<char>>, suffix: Seq<u8> },
    Done(Result<(), Seq<char>>),
    Modified(Result<bool, Seq<char>>),
    Contents(Result<Seq<char>, Seq<char>>),
    Answer(Result<Seq<char>, Seq<char>>),
}

impl View for RenameEvent {
    type V = RenameEventView;

    open spec fn view(&self) -> RenameEventView {
        match self {
            RenameEvent::Begin { editor, suffix } => RenameEventView::Begin {
                editor: match editor {
                    Some(e) => Some(e@),
                    None => None,
                },
                suffix: suffix@,
            },
            RenameEvent::Done(r) => RenameEventView::Done(
                match r {
                    Ok(_) => Ok(()),
                    Err(m) => Err(m@),
                },
            ),
            RenameEvent::Modified(r) => RenameEventView::Modified(
                match r {
                    Ok(b) => Ok(*b),
                    Err(m) => Err(m@),
                },
            ),
            RenameEvent::Contents(r) => RenameEventView::Contents(
                match r {
                    Ok(t) => Ok(t@),
                    Err(m) => Err(m@),
                },
            ),
            RenameEvent::Answer(r) => RenameEventView::Answer(
                match r {
                    Ok(t) => Ok(t@),
                    Err(m) => Err(m@),
                },
            ),
        }
    }
}

/// What a bulk rename asks of the outside.
#[derive(Debug, PartialEq, Eq)]
pub enum RenameAction {
    /// Create the file `path` with these contents; report `Done`.
    WriteFile { path: String, contents: String },
    /// Note the time, run the editor on the file, wait for it; report `Done`.
    RunEditor { editor: String, path: String },
    /// Report as `Modified` whether the file was modified after the time noted.
    CheckModified { path: String },
    /// Report as `Contents` what the file holds.
    ReadFile { path: String },
    /// Remove the file; report `Done`.
    RemoveFile { path: String },
    /// Show each of `paths` with the one of `names` at the same position,
    /// ask whether to go on, and report what was typed as `Answer`.
    Confirm { paths: Vec<String>, names: Vec<String> },
    /// Move `from` to `to`, asking before anything is overwritten; report `Done`.
    Move { from: String, to: String },
    /// Wait for the user to press enter; report what was typed as `Answer`.
    Acknowledge,
    /// The bulk rename has ended with this result.
    Finish(JoshutoResult<()>),
    /// The event was not awaited; nothing has changed.
    Nothing,
}

/// The mathematical content of a [`RenameAction`].
pub enum RenameActionView {
    WriteFile { path: Seq<char>, contents: Seq<char> },
    RunEditor { editor: Seq<char>, path: Seq<char> },
    CheckModified { path: Seq<char> },
    ReadFile { path: Seq<char> },
    RemoveFile { path: Seq<char> },
    Confirm { paths: Seq<Seq<char>>, names: Seq<Seq<char>> },
    Move { from: Seq<char>, to: Seq<char> },
    Acknowledge,
    Finish(Result<(), ErrorView>),
    Nothing,
}

impl View for RenameAction {
    type V = RenameActionView;

    open spec fn view(&self) -> RenameActionView {
        match self {
            RenameAction::WriteFile { path, contents } => RenameActionView::WriteFile {
                path: path@,
                contents: contents@,
            },
            RenameAction::RunEditor { editor, path } => RenameActionView::RunEditor {
                editor: editor@,
                path: path@,
            },
            RenameAction::CheckModified { path } => RenameActionView::CheckModified { path: path@ },
            RenameAction::ReadFile { path } => RenameActionView::ReadFile { path: path@ },
            RenameAction::RemoveFile { path } => RenameActionView::RemoveFile { path: path@ },
            RenameAction::Confirm { paths, names } => RenameActionView::Confirm {
                paths: texts(paths@),
                names: texts(names@),
            },
            RenameAction::Move { from, to } => RenameActionView::Move { from: from@, to: to@ },
            RenameAction::Acknowledge => RenameActionView::Acknowledge,
            RenameAction::Finish(r) => RenameActionView::Finish(outcome_view(*r)),
            RenameAction::Nothing => RenameActionView::Nothing,
        }
    }
}

/// The mathematical content of a [`BulkRename`].
#[verifier::ext_equal]
pub struct RenameView {
    pub stage: RenameStage,
    /// The directory that the files lie in.
    pub dir: Seq<char>,
    /// The names of the files to be renamed.
    pub names: Seq<Seq<char>>,
    pub editor: Seq<char>,
    /// The file that holds the list while the editor runs.
    pub file_path: Seq<char>,
    /// The names that the edited list gave.
    pub renamed: Seq<Seq<char>>,
    /// How many files have been handed to `Move`.
    pub next: nat,
}

/// The error of a bulk rename without an editor to run.
pub open spec fn no_editor_error() -> ErrorView {
    ErrorView {
        kind: JoshutoErrorKind::EnvVarNotPresent,
        cause: "EDITOR environment variable not set"@,
    }
}

/// The error of a bulk rename whose edited list names fewer files than
/// were to be renamed.
pub open spec fn insufficient_error() -> ErrorView {
    ErrorView { kind: JoshutoErrorKind::IoInvalidInput, cause: "Insufficient inputs"@ }
}

/// The error of a bulk rename of which an outside step failed with `message`.
pub open spec fn step_error(message: Seq<char>) -> ErrorView {
    ErrorView { kind: JoshutoErrorKind::IoOther, cause: message }
}

/// The error message that an event carries, if its step failed.
pub open spec fn event_failure(event: RenameEventView) -> Option<Seq<char>> {
    match event {
        RenameEventView::Done(Err(m)) => Some(m),
        RenameEventView::Modified(Err(m)) => Some(m),
        RenameEventView::Contents(Err(m)) => Some(m),
        RenameEventView::Answer(Err(m)) => Some(m),
        _ => None,
    }
}

impl RenameView {
    /// The invariant of a bulk rename: while files are moved, the edited
    /// list has a name for each.
    pub open spec fn wf(self) -> bool {
        &&& self.next <= self.names.len()
        &&& (self.stage == RenameStage::Confirming || self.stage == RenameStage::Moving)
            ==> self.renamed.len() >= self.names.len()
        &&& self.stage == RenameStage::Moving ==> self.next < self.names.len()
    }

    /// Whether `event` is of the kind that the stage waits for.
    pub open spec fn awaits(self, event: RenameEventView) -> bool {
        match self.stage {
            RenameStage::Start => event is Begin,
            RenameStage::Writing | RenameStage::Editing | RenameStage::Removing
            | RenameStage::Moving | RenameStage::Cleaning => event is Done,
            RenameStage::Checking => event is Modified,
            RenameStage::Reading => event is Contents,
            RenameStage::Confirming | RenameStage::Acknowledging => event is Answer,
            RenameStage::Finished => false,
        }
    }

    /// The paths of the files to be renamed.
    pub open spec fn paths(self) -> Seq<Seq<char>> {
        Seq::new(self.names.len(), |i: int| child_path(self.dir, self.names[i]))
    }

    /// The end of the bulk rename with `result`.
    pub open spec fn finish(self, result: Result<(), ErrorView>) -> (RenameView, RenameActionView) {
        (RenameView { stage: RenameStage::Finished, ..self }, RenameActionView::Finish(result))
    }

    /// The move of the next file, or, when every file has been moved, the
    /// wait for the user to press enter.
    pub open spec fn move_next(self) -> (RenameView, RenameActionView) {
        if self.next < self.names.len() {
            (
                RenameView { stage: RenameStage::Moving, ..self },
                RenameActionView::Move {
                    from: child_path(self.dir, self.names[self.next as int]),
                    to: self.renamed[self.next as int],
                },
            )
        } else {
            (
                RenameView { stage: RenameStage::Acknowledging, ..self },
                RenameActionView::Acknowledge,
            )
        }
    }

    /// The transition of a bulk rename. The list of names is written to a
    /// file, the editor is run on it, and the file is read again if it was
    /// modified; one name for each file is needed. The pairs are shown and,
    /// whatever the user answers, the files are moved one by one. An event
    /// that is not awaited changes nothing; a failed step ends the bulk
    /// rename with its error.
    pub open spec fn step(self, event: RenameEventView) -> (RenameView, RenameActionView) {
        if !self.awaits(event) {
            (self, RenameActionView::Nothing)
        } else if event_failure(event) is Some {
            self.finish(Err(step_error(event_failure(event)->0)))
        } else {
            match event {
                RenameEventView::Begin { editor: None, suffix } => self.finish(
                    Err(no_editor_error()),
                ),
                RenameEventView::Begin { editor: Some(editor), suffix } => (
                    RenameView {
                        stage: RenameStage::Writing,
                        editor,
                        file_path: temp_path(suffix),
                        ..self
                    },
                    RenameActionView::WriteFile {
                        path: temp_path(suffix),
                        contents: names_listing(self.names),
                    },
                ),
                RenameEventView::Modified(Ok(modified)) => if modified {
                    (
                        RenameView { stage: RenameStage::Reading, ..self },
                        RenameActionView::ReadFile { path: self.file_path },
                    )
                } else {
                    self.finish(Ok(()))
                },
                RenameEventView::Contents(Ok(text)) => (
                    RenameView {
                        stage: RenameStage::Removing,
                        renamed: edited_names(text),
                        ..self
                    },
                    RenameActionView::RemoveFile { path: self.file_path },
                ),
                RenameEventView::Answer(Ok(_)) => if self.stage == RenameStage::Confirming {
                    (RenameView { next: 0, ..self }).move_next()
                } else {
                    (
                        RenameView { stage: RenameStage::Cleaning, ..self },
                        RenameActionView::RemoveFile { path: self.file_path },
                    )
                },
                _ => match self.stage {
                    RenameStage::Writing => (
                        RenameView { stage: RenameStage::Editing, ..self },
                        RenameActionView::RunEditor { editor: self.editor, path: self.file_path },
                    ),
                    RenameStage::Editing => (
                        RenameView { stage: RenameStage::Checking, ..self },
                        RenameActionView::CheckModified { path: self.file_path },
                    ),
                    RenameStage::Removing => if self.renamed.len() < self.names.len() {
                        self.finish(Err(insufficient_error()))
                    } else {
                        (
                            RenameView { stage: RenameStage::Confirming, ..self },
                            RenameActionView::Confirm {
                                paths: self.paths(),
                                names: self.renamed.take(self.names.len() as int),
                            },
                        )
                    },
                    RenameStage::Moving => (RenameView { next: self.next + 1, ..self }).move_next(),
                    _ => self.finish(Ok(())),
                },
            }
        }
    }
}

/// Every transition keeps the invariant of a bulk rename.
pub proof fn lemma_rename_step_wf(s: RenameView, event: RenameEventView)
    requires
        s.wf(),
    ensures
        s.step(event).0.wf(),
        s.step(event).0.names == s.names,
        s.step(event).0.dir == s.dir,
{
}

/// A bulk rename that has ended stays ended, and a result is handed out
/// only by one that has not.
pub proof fn lemma_rename_ends_once(s: RenameView, event: RenameEventView)
    ensures
        s.stage == RenameStage::Finished ==> s.step(event) == (s, RenameActionView::Nothing),
        s.step(event).1 is Finish ==> s.stage != RenameStage::Finished && s.step(event).0.stage
            == RenameStage::Finished,
{
}

/// Files are moved only under names from the edited list, each file under
/// the name at its own position.
pub proof fn lemma_rename_moves_in_order(s: RenameView, event: RenameEventView)
    requires
        s.wf(),
    ensures
        s.step(event).1 matches RenameActionView::Move { from, to } ==> {
            let k = s.step(event).0.next as int;
            &&& k < s.names.len()
            &&& from == child_path(s.dir, s.names[k])
            &&& to == s.step(event).0.renamed[k]
            &&& k == (if s.stage == RenameStage::Confirming {
                0
            } else {
                s.next + 1
            })
        },
{
}

/// The bulk rename of the selected files of a directory: the user edits the
/// list of their names in an editor, and each file is moved to the name
/// that stands at its place in the edited list. The caller writes and reads
/// the file, runs the editor and moves the files; the bulk rename says what
/// is done next.
#[derive(Debug, PartialEq, Eq)]
pub struct BulkRename {
    stage: RenameStage,
    dir: String,
    names: Vec<String>,
    editor: String,
    file_path: String,
    renamed: Vec<String>,
    next: usize,
}

impl View for BulkRename {
    type V = RenameView;

    closed spec fn view(&self) -> RenameView {
        RenameView {
            stage: self.stage,
            dir: self.dir@,
            names: texts(self.names@),
            editor: self.editor@,
            file_path: self.file_path@,
            renamed: texts(self.renamed@),
            next: self.next as nat,
        }
    }
}

/// A bulk rename of the files `names` of the directory `dir` that has not
/// begun.
pub open spec fn new_rename(dir: Seq<char>, names: Seq<Seq<char>>) -> RenameView {
    RenameView {
        stage: RenameStage::Start,
        dir,
        names,
        editor: Seq::empty(),
        file_path: Seq::empty(),
        renamed: Seq::empty(),
        next: 0,
    }
}

fn first_texts(v: &Vec<String>, n: usize) -> (r: Vec<String>)
    requires
        n <= v.len(),
    ensures
        texts(r@) == texts(v@).take(n as int),
{
    let mut r: Vec<String> = Vec::new();
    let mut i: usize = 0;
    while i < n
        invariant
            i <= n <= v.len(),
            r@.len() == i,
            forall|k: int| 0 <= k < i ==> r@[k]@ == v@[k]@,
        decreases n - i,
    {
        r.push(v[i].clone());
        i = i + 1;
    }
    assert(texts(r@) =~= texts(v@).take(n as int));
    r
}

impl BulkRename {
    /// A bulk rename of the files `names` of the directory `dir`.
    pub fn new(dir: String, names: Vec<String>) -> (b: BulkRename)
        ensures
            b@ == new_rename(dir@, texts(names@)),
            b@.wf(),
    {
        let b = BulkRename {
            stage: RenameStage::Start,
            dir,
            names,
            editor: String::new(),
            file_path: String::new(),
            renamed: Vec::new(),
            next: 0,
        };
        assert(b@.renamed =~= Seq::empty());
        b
    }

    /// Where the bulk rename stands.
    pub fn stage(&self) -> (s: RenameStage)
        ensures
            s == self@.stage,
    {
        self.stage
    }

    fn finish(&mut self, result: JoshutoResult<()>) -> (action: RenameAction)
        ensures
            (final(self)@, action@) == old(self)@.finish(outcome_view(result)),
    {
        self.stage = RenameStage::Finished;
        RenameAction::Finish(result)
    }

    fn fail(&mut self, message: String) -> (action: RenameAction)
        ensures
            (final(self)@, action@) == old(self)@.finish(Err(step_error(message@))),
    {
        self.finish(Err(JoshutoError::new(JoshutoErrorKind::IoOther, message)))
    }

    fn paths(&self) -> (paths: Vec<String>)
        ensures
            texts(paths@) == self@.paths(),
    {
        let mut paths: Vec<String> = Vec::new();
        let mut i: usize = 0;
        while i < self.names.len()
            invariant
                i <= self.names.len(),
                paths@.len() == i,
                forall|k: int|
                    0 <= k < i ==> paths@[k]@ == child_path(self.dir@, texts(self.names@)[k]),
            decreases self.names.len() - i,
        {
            paths.push(join_path(self.dir.as_str(), self.names[i].as_str()));
            i = i + 1;
        }
        assert(texts(paths@) =~= self@.paths());
        paths
    }

    fn move_next(&mut self) -> (action: RenameAction)
        requires
            old(self)@.renamed.len() >= old(self)@.names.len(),
        ensures
            (final(self)@, action@) == old(self)@.move_next(),
    {
        if self.next < self.names.len() {
            self.stage = RenameStage::Moving;
            RenameAction::Move {
                from: join_path(self.dir.as_str(), self.names[self.next].as_str()),
                to: self.renamed[self.next].clone(),
            }
        } else {
            self.stage = RenameStage::Acknowledging;
            RenameAction::Acknowledge
        }
    }

    /// Takes the report of an outside step and says what to do next.
    pub fn step(&mut self, event: RenameEvent) -> (action: RenameAction)
        requires
            old(self)@.wf(),
        ensures
            (final(self)@, action@) == old(self)@.step(event@),
            final(self)@.wf(),
    {
        proof {
            lemma_rename_step_wf(self@, event@);
        }
        match event {
            RenameEvent::Begin { editor, suffix } => {
                if self.stage != RenameStage::Start {
                    return RenameAction::Nothing;
                }
                match editor {
                    None => self.finish(
                        Err(
                            JoshutoError::new(
                                JoshutoErrorKind::EnvVarNotPresent,
                                String::from_str("EDITOR environment variable not set"),
                            ),
                        ),
                    ),
                    Some(editor) => {
                        self.stage = RenameStage::Writing;
                        self.editor = editor;
                        self.file_path = temp_file_path(&suffix);
                        RenameAction::WriteFile {
                            path: self.file_path.clone(),
                            contents: list_names(&self.names),
                        }
                    },
                }
            },
            RenameEvent::Done(r) => {
                match self.stage {
                    RenameStage::Writing
                    | RenameStage::Editing
                    | RenameStage::Removing
                    | RenameStage::Moving
                    | RenameStage::Cleaning => {},
                    _ => {
                        return RenameAction::Nothing;
                    },
                }
                match r {
                    Err(message) => {
                        return self.fail(message);
                    },
                    Ok(_) => {},
                }
                match self.stage {
                    RenameStage::Writing => {
                        self.stage = RenameStage::Editing;
                        RenameAction::RunEditor {
                            editor: self.editor.clone(),
                            path: self.file_path.clone(),
                        }
                    },
                    RenameStage::Editing => {
                        self.stage = RenameStage::Checking;
                        RenameAction::CheckModified { path: self.file_path.clone() }
                    },
                    RenameStage::Removing => {
                        if self.renamed.len() < self.names.len() {
                            self.finish(
                                Err(
                                    JoshutoError::new(
                                        JoshutoErrorKind::IoInvalidInput,
                                        String::from_str("Insufficient inputs"),
                                    ),
                                ),
                            )
                        } else {
                            self.stage = RenameStage::Confirming;
                            RenameAction::Confirm {
                                paths: self.paths(),
                                names: first_texts(&self.renamed, self.names.len()),
                            }
                        }
                    },
                    RenameStage::Moving => {
                        let count: usize = self.names.len();
                        assert(self.next < count);
                        self.next = self.next + 1;
                        self.move_next()
                    },
                    _ => self.finish(Ok(())),
                }
            },
            RenameEvent::Modified(r) => {
                if self.stage != RenameStage::Checking {
                    return RenameAction::Nothing;
                }
                match r {
                    Err(message) => self.fail(message),
                    Ok(true) => {
                        self.stage = RenameStage::Reading;
                        RenameAction::ReadFile { path: self.file_path.clone() }
                    },
                    Ok(false) => self.finish(Ok(())),
                }
            },
            RenameEvent::Contents(r) => {
                if self.stage != RenameStage::Reading {
                    return RenameAction::Nothing;
                }
                match r {
                    Err(message) => self.fail(message),
                    Ok(text) => {
                        self.renamed = parse_names(text.as_str());
                        self.stage = RenameStage::Removing;
                        RenameAction::RemoveFile { path: self.file_path.clone() }
                    },
                }
            },
            RenameEvent::Answer(r) => {
                match self.stage {
                    RenameStage::Confirming | RenameStage::Acknowledging => {},
                    _ => {
                        return RenameAction::Nothing;
                    },
                }
                match r {
                    Err(message) => self.fail(message),
                    Ok(_) => {
                        if self.stage == RenameStage::Confirming {
                            self.next = 0;
                            self.move_next()
                        } else {
                            self.stage = RenameStage::Cleaning;
                            RenameAction::RemoveFile { path: self.file_path.clone() }
                        }
                    },
                }
            },
        }
    }

    /// Begins the bulk rename: `editor` is the value of the variable
    /// `EDITOR`, if it is set. The file for the list gets a name that ends
    /// in ten random letters and digits, so what comes back is what
    /// [`BulkRename::step`] gives on `Begin` for some such ending.
    pub fn start(&mut self, editor: Option<String>) -> (action: RenameAction)
        requires
            old(self)@.wf(),
        ensures
            exists|suffix: Seq<u8>| #[trigger]
                is_random_suffix(suffix) && (final(self)@, action@) == old(self)@.step(
                    RenameEventView::Begin { editor: option_text(editor), suffix },
                ),
            final(self)@.wf(),
    {
        let suffix = random_alphanumeric(10);
        let ghost chosen = suffix@;
        let action = self.step(RenameEvent::Begin { editor, suffix });
        assert(is_random_suffix(chosen));
        assert((self@, action@) == old(self)@.step(
            RenameEventView::Begin { editor: option_text(editor), suffix: chosen },
        ));
        action
    }
}

/// Sets up the bulk rename of the selected entries of the listing shown.
/// Without a listing there is nothing to rename.
pub fn _bulk_rename(context: &JoshutoContext) -> (b: BulkRename)
    requires
        context@.wf(),
    ensures
        b@ == new_rename(
            context@.curr_tab().cwd,
            match context@.curr_list() {
                Some(l) => selected_names(l.entries),
                None => Seq::empty(),
            },
        ),
        b@.wf(),
{
    let names = match context.curr_list_ref() {
        Some(list) => list.selected_file_names(),
        None => Vec::new(),
    };
    assert(context@.curr_list() is None ==> texts(names@) =~= Seq::empty());
    BulkRename::new(context.curr_tab_ref().pwd().to_owned(), names)
}

/// The session after a bulk rename, and what the command gives back. If
/// the terminal did not come back, that is the error and nothing is read
/// anew. Otherwise the current tab is refreshed; an error of that comes
/// before the result of the bulk rename itself.
pub open spec fn bulk_renamed(
    c: ContextView,
    flow: Result<(), ErrorView>,
    restored: Result<(), ErrorView>,
    curr_read: DirReadView,
    parent_read: DirReadView,
) -> (ContextView, Result<(), ErrorView>) {
    if restored is Err {
        (c, restored)
    } else {
        let (after, r) = tab_reload(c, c.index as int, curr_read, parent_read);
        (
            after,
            if r is Err {
                r
            } else {
                flow
            },
        )
    }
}

/// Ends the bulk rename command: `flow` is how the bulk rename went,
/// `restored` whether the terminal was taken back, and the two reads are
/// fresh reads of the directory shown and of the one above it.
pub fn bulk_rename(
    context: &mut JoshutoContext,
    flow: JoshutoResult<()>,
    restored: JoshutoResult<()>,
    curr_read: &DirRead,
    parent_read: &DirRead,
) -> (r: JoshutoResult<()>)
    requires
        old(context)@.wf(),
    ensures
        (final(context)@, outcome_view(r)) == bulk_renamed(
            old(context)@,
            outcome_view(flow),
            outcome_view(restored),
            curr_read@,
            parent_read@,
        ),
        final(context)@.wf(),
{
    match restored {
        Err(e) => {
            return Err(e);
        },
        Ok(_) => {},
    }
    let index = context.tab_index();
    match reload(context, index, curr_read, parent_read) {
        Err(e) => Err(e),
        Ok(_) => flow,
    }
}

} // verus!
