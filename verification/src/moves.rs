use vstd::prelude::*;
use vstd::string::*;

use crate::history::{backup_views, backups_of, Backup, TreeUndoEntry, UndoView};
use crate::path::{
    components, file_name, is_under, join, lemma_chars_of_shown, lemma_components_of_name,
    lemma_joined, lemma_name_is_no_root, letters, parent, path_text, shown, text_from_root,
    text_joined, text_parent, FilePath, PathText, PathView,
};
use crate::path_set::{given, PathSet};
use crate::selection::TreeSelection;
use crate::spelling::is_text;
use crate::state::{clipboard_view, ClipboardMode, Sidebar, TreeClipboard, TreeEffects};
use crate::text::{concat3, option_text};
use crate::tree::FileTree;

verus! {

/// A question to the disk: a free name in `dir` for an entry called `name`.
pub struct DestinationQuery {
    pub source: FilePath,
    pub dir: FilePath,
    pub name: String,
}

/// A move that the disk is asked for.
pub struct MoveRequest {
    pub source: FilePath,
    pub destination: FilePath,
}

/// A copy that the disk is asked for.
pub struct CopyRequest {
    pub source: FilePath,
    pub destination: FilePath,
}

/// What a paste comes to before the disk is asked.
pub enum PasteStep {
    /// Nothing was cut or copied, or it has no name.
    Nothing,
    /// What was cut lies where it is to be moved.
    AlreadyThere,
    /// A free name is needed, for a copy or for what was cut.
    Find(DestinationQuery, ClipboardMode),
}

/// What a paste asks the disk for once a free name is known.
pub enum PasteWork {
    /// No free name was found.
    Failed,
    Copy(CopyRequest),
    Move(MoveRequest),
}

/// A drop of several entries on a directory, one after the other.
pub struct DropRun {
    pub sources: Vec<FilePath>,
    pub dir: FilePath,
    /// The next of the entries.
    pub next: usize,
    /// Where the last entry that was moved lies now.
    pub last: Option<FilePath>,
}

/// What is left to do after an operation that can be taken back.
pub struct OperationOutcome {
    pub effects: TreeEffects,
    /// Copies that nothing needs any more.
    pub dropped: Vec<Backup>,
}

/// The path of an entry called `name` in `dir`.
pub open spec fn entry_in(dir: PathText, name: Seq<char>) -> PathText {
    text_joined(dir, letters(name))
}

/// Whether `path` is an entry of `dir`, directly.
pub open spec fn lies_in(path: PathText, dir: PathText) -> bool {
    file_name(components(path)) is Some && parent(components(path)) == Some(components(dir))
}

/// Whether `path` is an entry of `dir`, directly.
fn is_entry_of(path: &FilePath, dir: &FilePath) -> (there: bool)
    ensures
        there == lies_in(path.text(), dir.text()),
{
    match (path.file_name(), path.parent()) {
        (Some(_), Some(above)) => above.same(dir),
        _ => false,
    }
}

pub fn entry_path(dir: &FilePath, name: &str) -> (path: FilePath)
    ensures
        path.text() == entry_in(dir.text(), name@),
{
    dir.join(&FilePath::parse(name))
}

/// What is said of the drop of `source` on `dir` where it cannot be.
pub open spec fn drop_error(source: PathText, dir: PathText) -> Option<Seq<char>> {
    match file_name(components(source)) {
        Some(_) if !lies_in(source, dir) && is_under(
            components(dir),
            components(source),
        ) => Some("can't move "@ + shown(source) + " into its own subtree"@),
        _ => None,
    }
}

/// Whether the drop of `source` on `dir` moves nothing: the entry has no name,
/// lies there already, or would land in itself.
pub open spec fn drop_skipped(source: PathText, dir: PathText) -> bool {
    match file_name(components(source)) {
        Some(_) => lies_in(source, dir) || is_under(components(dir), components(source)),
        None => true,
    }
}

/// What the tree says after the drops of `sources` on `dir` were looked at.
pub open spec fn error_after_drops(
    error: Option<Seq<char>>,
    sources: Seq<PathText>,
    dir: PathText,
) -> Option<Seq<char>>
    decreases sources.len(),
{
    if sources.len() == 0 {
        error
    } else {
        match drop_error(sources.last(), dir) {
            Some(message) => Some(message),
            None => error_after_drops(error, sources.drop_last(), dir),
        }
    }
}

impl Sidebar {
    /// Whether `next` is this after a rename or a move was done: what is kept
    /// by path followed it, and it can be taken back.
    pub open spec fn relocated(
        self,
        next: Sidebar,
        source: PathText,
        destination: PathText,
        persist: bool,
        dropped: Seq<Backup>,
    ) -> bool {
        &&& self.renamed(
            Sidebar { history: self.history, ..next },
            components(source),
            destination,
            persist,
        )
        &&& next.history.undos() == self.history.undos().push(
            UndoView::Relocate { old_path: source, new_path: destination },
        )
        &&& next.history.redos() == Seq::<UndoView>::empty()
        &&& next.history.backup_root == self.history.backup_root
        &&& next.history.backup_counter == self.history.backup_counter
        &&& backup_views(dropped) == backups_of(self.history.redos())
    }

    /// Whether `next` is this with `path` revealed and selected.
    pub open spec fn shown_at(self, next: Sidebar, path: PathText, persist: bool) -> bool {
        &&& next == (Sidebar {
            tree: FileTree { fold: next.tree.fold, ..self.tree },
            selection: TreeSelection { anchor: next.selection.anchor, ..self.selection },
            ..self
        })
        &&& path_text(next.selection.anchor) == Some(path)
        &&& self.tree.fold.revealed(next.tree.fold, components(path), persist)
    }

    /// Whether `next` is this after what was cut was moved: it is no longer
    /// cut, and revealed and selected where it lies now.
    pub open spec fn moved_and_shown(
        self,
        next: Sidebar,
        source: PathText,
        destination: PathText,
        persist: bool,
        dropped: Seq<Backup>,
    ) -> bool {
        exists|middle: Sidebar, first: bool, second: bool|
            {
                &&& #[trigger] self.relocated(middle, source, destination, first, dropped)
                &&& #[trigger] middle.without_clipboard().shown_at(next, destination, second)
                &&& persist == (first || second)
            }
    }

    /// This with nothing cut or copied.
    pub open spec fn without_clipboard(self) -> Sidebar {
        Sidebar { clipboard: None, ..self }
    }

    pub(crate) fn relocate(&mut self, source: &FilePath, destination: &FilePath) -> (outcome: (
        bool,
        Vec<Backup>,
    ))
        ensures
            old(self).relocated(
                *final(self),
                source.text(),
                destination.text(),
                outcome.0,
                outcome.1@,
            ),
    {
        let persist = self.rename_open_paths(source, destination);
        let dropped = self.history.push_tree_undo_entry(
            TreeUndoEntry::Relocate { old_path: source.clone(), new_path: destination.clone() },
        );
        assert(old(self).renamed(
            Sidebar { history: old(self).history, ..*self },
            source@,
            destination.text(),
            persist,
        ));
        (persist, dropped)
    }

    pub(crate) fn show_at(&mut self, path: &FilePath) -> (persist: bool)
        ensures
            old(self).shown_at(*final(self), path.text(), persist),
    {
        let persist = self.tree.fold.reveal_in_tree(path);
        self.selection.anchor = Some(path.clone());
        persist
    }

    /// Puts an entry on the tree's clipboard.
    pub fn set_tree_clipboard(&mut self, path: FilePath, mode: ClipboardMode)
        ensures
            *final(self) == (Sidebar {
                clipboard: Some(TreeClipboard { path, mode }),
                ..*old(self)
            }),
    {
        self.clipboard = Some(TreeClipboard { path, mode });
    }

    /// Whether the selected row is an entry of this tree.
    pub open spec fn selects_entry(self) -> bool {
        self.selection.anchor matches Some(path) && is_under(path@, self.root()) && path@
            != self.root()
    }

    /// Cuts or copies the selected row. With nothing selected, or the root,
    /// nothing is captured.
    pub fn copy_selection_to_tree_clipboard(&mut self, mode: ClipboardMode)
        ensures
            *final(self) == (Sidebar { clipboard: final(self).clipboard, ..*old(self) }),
            clipboard_view(final(self).clipboard) == if old(self).selects_entry() {
                Some((old(self).selection.anchor->0.text(), mode))
            } else {
                clipboard_view(old(self).clipboard)
            },
    {
        let path = match &self.selection.anchor {
            Some(path) => path.clone(),
            None => {
                return ;
            },
        };
        if !path.starts_with(&self.tree.fold.root) || path.same(&self.tree.fold.root) {
            return ;
        }
        self.set_tree_clipboard(path, mode);
    }

    /// The directory that a paste lands in: the selected directory, that of
    /// the selected file, or the root.
    pub open spec fn paste_dir(self, on_disk: bool) -> PathText {
        match self.selection.anchor {
            Some(path) => if !is_under(path@, self.root()) {
                self.root_text()
            } else if self.tree.dir_at(path@, on_disk) {
                path.text()
            } else {
                match parent(path@) {
                    Some(_) => text_parent(path.text()),
                    None => self.root_text(),
                }
            },
            None => self.root_text(),
        }
    }

    pub fn paste_destination(&self, on_disk: bool) -> (dir: FilePath)
        ensures
            dir.text() == self.paste_dir(on_disk),
    {
        match &self.selection.anchor {
            Some(path) => {
                if !path.starts_with(&self.tree.fold.root) {
                    self.tree.fold.root.clone()
                } else if self.tree.is_dir_at(path, on_disk) {
                    path.clone()
                } else {
                    match path.parent() {
                        Some(above) => above,
                        None => self.tree.fold.root.clone(),
                    }
                }
            },
            None => self.tree.fold.root.clone(),
        }
    }

    /// Pastes where the selection says.
    pub fn paste_into_selection(&mut self, on_disk: bool) -> (step: PasteStep)
        ensures
            old(self).pasted(*final(self), step, old(self).paste_dir(on_disk)),
    {
        let dir = self.paste_destination(on_disk);
        self.paste_into_dir(&dir)
    }

    /// What a paste into `dir` comes to before the disk is asked.
    pub open spec fn pasted(self, next: Sidebar, step: PasteStep, dir: PathText) -> bool {
        match self.clipboard {
            None => step is Nothing && next == self,
            Some(entry) => match file_name(entry.path@) {
                None => step is Nothing && next == self,
                Some(name) => if entry.mode is Cut && lies_in(entry.path.text(), dir) {
                    step is AlreadyThere && next == (Sidebar { clipboard: None, ..self })
                } else {
                    &&& next == self
                    &&& step matches PasteStep::Find(query, mode) && query.source.text()
                        == entry.path.text()
                        && query.dir.text() == dir && query.name@ == name && mode == entry.mode
                },
            },
        }
    }

    /// Starts a paste into `dir`. What was cut and lies there already stays
    /// where it is, under its own name, and is then no longer cut.
    pub fn paste_into_dir(&mut self, dir: &FilePath) -> (step: PasteStep)
        ensures
            old(self).pasted(*final(self), step, dir.text()),
    {
        let (source, mode) = match &self.clipboard {
            Some(entry) => (entry.path.clone(), entry.mode),
            None => {
                return PasteStep::Nothing;
            },
        };
        let name = match source.file_name() {
            Some(name) => name,
            None => {
                return PasteStep::Nothing;
            },
        };
        if mode == ClipboardMode::Cut && is_entry_of(&source, dir) {
            self.clipboard = None;
            return PasteStep::AlreadyThere;
        }
        PasteStep::Find(DestinationQuery { source, dir: dir.clone(), name }, mode)
    }

    /// Goes on with a paste once the disk has found a free name, or has not.
    pub fn paste_to(
        &mut self,
        query: DestinationQuery,
        mode: ClipboardMode,
        found: Result<FilePath, String>,
    ) -> (work: PasteWork)
        ensures
            match found {
                Err(message) => work is Failed && *final(self) == (Sidebar {
                    op_error: Some(message),
                    ..*old(self)
                }),
                Ok(destination) => *final(self) == *old(self) && match mode {
                    ClipboardMode::Cut => {
                        work matches PasteWork::Move(request) && request.source.text()
                            == query.source.text() && request.destination.text()
                            == destination.text()
                    },
                    ClipboardMode::Copy => {
                        work matches PasteWork::Copy(request) && request.source.text()
                            == query.source.text() && request.destination.text()
                            == destination.text()
                    },
                },
            },
    {
        match found {
            Err(message) => {
                self.report_tree_op_error(message);
                PasteWork::Failed
            },
            Ok(destination) => match mode {
                ClipboardMode::Cut => PasteWork::Move(
                    MoveRequest { source: query.source, destination },
                ),
                ClipboardMode::Copy => PasteWork::Copy(
                    CopyRequest { source: query.source, destination },
                ),
            },
        }
    }

    /// Takes in whether what was cut has been moved.
    pub fn finish_paste_move(&mut self, request: MoveRequest, outcome: Result<(), String>)
        -> (done: OperationOutcome)
        ensures
            outcome matches Err(message) ==> {
                &&& *final(self) == (Sidebar { op_error: Some(message), ..*old(self) })
                &&& !done.effects.persist && !done.effects.refresh && done.dropped@.len() == 0
            },
            outcome is Ok ==> {
                &&& done.effects.refresh
                &&& old(self).moved_and_shown(
                    *final(self),
                    request.source.text(),
                    request.destination.text(),
                    done.effects.persist,
                    done.dropped@,
                )
            },
    {
        match outcome {
            Err(message) => {
                self.report_tree_op_error(message);
                nothing_to_do()
            },
            Ok(()) => {
                let (first, dropped) = self.relocate(&request.source, &request.destination);
                let ghost middle = *self;
                self.clipboard = None;
                assert(*self == middle.without_clipboard());
                let second = self.show_at(&request.destination);
                assert(middle.without_clipboard().shown_at(
                    *self,
                    request.destination.text(),
                    second,
                ));
                assert(old(self).relocated(
                    middle,
                    request.source.text(),
                    request.destination.text(),
                    first,
                    dropped@,
                ));
                assert(old(self).moved_and_shown(
                    *self,
                    request.source.text(),
                    request.destination.text(),
                    first || second,
                    dropped@,
                ));
                OperationOutcome {
                    effects: TreeEffects { persist: first || second, refresh: true },
                    dropped,
                }
            },
        }
    }

    /// Takes in whether a copy was made: it is revealed and selected.
    pub fn finish_copy(&mut self, request: CopyRequest, outcome: Result<(), String>) -> (effects:
        TreeEffects)
        ensures
            outcome matches Err(message) ==> {
                &&& *final(self) == (Sidebar { op_error: Some(message), ..*old(self) })
                &&& !effects.persist && !effects.refresh
            },
            outcome is Ok ==> {
                &&& effects.refresh
                &&& old(self).shown_at(*final(self), request.destination.text(), effects.persist)
            },
    {
        match outcome {
            Err(message) => {
                self.report_tree_op_error(message);
                TreeEffects { persist: false, refresh: false }
            },
            Ok(()) => {
                let persist = self.show_at(&request.destination);
                TreeEffects { persist, refresh: true }
            },
        }
    }

    /// Starts a duplicate of `path`: a copy beside it needs a free name.
    pub fn duplicate_tree_entry(&self, path: &FilePath) -> (query: Option<DestinationQuery>)
        ensures
            query is Some == (parent(path@) is Some && file_name(path@) is Some),
            query matches Some(asked) ==> {
                &&& asked.source.text() == path.text()
                &&& asked.dir.text() == text_parent(path.text())
                &&& file_name(path@) == Some(asked.name@)
            },
    {
        match (path.parent(), path.file_name()) {
            (Some(dir), Some(name)) => Some(
                DestinationQuery { source: path.clone(), dir, name },
            ),
            _ => None,
        }
    }

    /// Goes on with a duplicate once the disk has found a free name, or has
    /// not.
    pub fn duplicate_to(&mut self, query: DestinationQuery, found: Result<FilePath, String>)
        -> (request: Option<CopyRequest>)
        ensures
            match found {
                Err(message) => request is None && *final(self) == (Sidebar {
                    op_error: Some(message),
                    ..*old(self)
                }),
                Ok(destination) => *final(self) == *old(self) && (request matches Some(asked)
                    && asked.source.text() == query.source.text() && asked.destination.text()
                    == destination.text()),
            },
    {
        match found {
            Err(message) => {
                self.report_tree_op_error(message);
                None
            },
            Ok(destination) => Some(CopyRequest { source: query.source, destination }),
        }
    }

    /// What dropping `source` on `dir` comes to before the disk is asked.
    pub open spec fn drop_planned(
        self,
        next: Sidebar,
        source: PathText,
        dir: PathText,
        query: Option<DestinationQuery>,
    ) -> bool {
        &&& next == (Sidebar { op_error: next.op_error, ..self })
        &&& option_text(next.op_error) == match drop_error(source, dir) {
            Some(message) => Some(message),
            None => option_text(self.op_error),
        }
        &&& query is None == drop_skipped(source, dir)
        &&& query matches Some(asked) ==> asked.source.text() == source
            && asked.dir.text() == dir && Some(
            asked.name@,
        ) == file_name(components(source))
    }

    /// Starts the move of one dragged entry into `dir`. One that lies there
    /// already is left alone, and none can be dropped into itself.
    pub fn plan_drop(&mut self, source: &FilePath, dir: &FilePath) -> (query: Option<
        DestinationQuery,
    >)
        ensures
            old(self).drop_planned(*final(self), source.text(), dir.text(), query),
    {
        let name = match source.file_name() {
            Some(name) => name,
            None => {
                return None;
            },
        };
        if is_entry_of(source, dir) {
            return None;
        }
        if dir.starts_with(source) {
            let message = concat3(
                "can't move ",
                source.display().as_str(),
                " into its own subtree",
            );
            self.report_tree_op_error(message);
            return None;
        }
        Some(DestinationQuery { source: source.clone(), dir: dir.clone(), name })
    }

    /// Starts the drop of `sources` on `dir`.
    pub fn move_paths_into_dir(&self, sources: Vec<FilePath>, dir: FilePath) -> (run: DropRun)
        ensures
            run == (DropRun { sources, dir, next: 0, last: None }),
    {
        DropRun { sources, dir, next: 0, last: None }
    }

    /// Goes on to the next entry of a drop that is to be moved. Those that are
    /// not are passed over, and none of them stops the others.
    pub fn next_drop(&mut self, run: &mut DropRun) -> (query: Option<DestinationQuery>)
        requires
            old(run).next <= old(run).sources@.len(),
        ensures
            *final(run) == (DropRun { next: final(run).next, ..*old(run) }),
            old(run).next <= final(run).next <= old(run).sources@.len(),
            ({
                let sources = given(old(run).sources@);
                let dir = old(run).dir.text();
                let seen = sources.subrange(old(run).next as int, final(run).next as int);
                &&& *final(self) == (Sidebar { op_error: final(self).op_error, ..*old(self) })
                &&& option_text(final(self).op_error) == error_after_drops(
                    option_text(old(self).op_error),
                    seen,
                    dir,
                )
                &&& query is None ==> final(run).next == sources.len() && forall|k: int|
                    old(run).next <= k < sources.len() ==> drop_skipped(#[trigger] sources[k], dir)
                &&& query matches Some(asked) ==> {
                    let at = final(run).next - 1;
                    &&& old(run).next <= at
                    &&& forall|k: int|
                        old(run).next <= k < at ==> drop_skipped(#[trigger] sources[k], dir)
                    &&& !drop_skipped(sources[at], dir)
                    &&& asked.source.text() == sources[at]
                    &&& asked.dir.text() == dir
                    &&& Some(asked.name@) == file_name(components(sources[at]))
                }
            }),
    {
        let ghost sources = given(run.sources@);
        let ghost dir = run.dir.text();
        let ghost start = run.next as int;
        assert(sources.subrange(start, start) =~= Seq::<PathText>::empty());
        while run.next < run.sources.len()
            invariant
                sources == given(old(run).sources@),
                dir == old(run).dir.text(),
                start == old(run).next,
                *run == (DropRun { next: run.next, ..*old(run) }),
                start <= run.next <= sources.len(),
                *self == (Sidebar { op_error: self.op_error, ..*old(self) }),
                option_text(self.op_error) == error_after_drops(
                    option_text(old(self).op_error),
                    sources.subrange(start, run.next as int),
                    dir,
                ),
                forall|k: int| start <= k < run.next ==> drop_skipped(#[trigger] sources[k], dir),
            decreases run.sources@.len() - run.next,
        {
            let index = run.next;
            let source = run.sources[index].clone();
            proof {
                let so_far = sources.subrange(start, index + 1);
                assert(so_far.drop_last() =~= sources.subrange(start, index as int));
                assert(so_far.last() == sources[index as int]);
                assert(sources[index as int] == source.text());
            }
            let query = self.plan_drop(&source, &run.dir);
            run.next = index + 1;
            if query.is_some() {
                return query;
            }
        }
        None
    }

    /// Goes on with the move of one dragged entry once the disk has found a
    /// free name, or has not.
    pub fn drop_to(&mut self, query: DestinationQuery, found: Result<FilePath, String>) -> (request:
        Option<MoveRequest>)
        ensures
            match found {
                Err(message) => request is None && *final(self) == (Sidebar {
                    op_error: Some(message),
                    ..*old(self)
                }),
                Ok(destination) => *final(self) == *old(self) && (request matches Some(asked)
                    && asked.source.text() == query.source.text() && asked.destination.text()
                    == destination.text()),
            },
    {
        match found {
            Err(message) => {
                self.report_tree_op_error(message);
                None
            },
            Ok(destination) => Some(MoveRequest { source: query.source, destination }),
        }
    }

    /// Takes in whether one dragged entry was moved.
    pub fn finish_drop(
        &mut self,
        run: &mut DropRun,
        request: MoveRequest,
        outcome: Result<(), String>,
    ) -> (done: OperationOutcome)
        ensures
            !done.effects.refresh,
            outcome matches Err(message) ==> {
                &&& *final(run) == *old(run)
                &&& *final(self) == (Sidebar { op_error: Some(message), ..*old(self) })
                &&& !done.effects.persist && done.dropped@.len() == 0
            },
            outcome is Ok ==> {
                &&& *final(run) == (DropRun { last: Some(request.destination), ..*old(run) })
                &&& old(self).relocated(
                    *final(self),
                    request.source.text(),
                    request.destination.text(),
                    done.effects.persist,
                    done.dropped@,
                )
            },
    {
        match outcome {
            Err(message) => {
                self.report_tree_op_error(message);
                nothing_to_do()
            },
            Ok(()) => {
                let (persist, dropped) = self.relocate(&request.source, &request.destination);
                run.last = Some(request.destination);
                OperationOutcome { effects: TreeEffects { persist, refresh: false }, dropped }
            },
        }
    }

    /// Ends a drop: the last entry that was moved, if any, is revealed and
    /// alone selected.
    pub fn finish_drops(&mut self, run: DropRun) -> (effects: TreeEffects)
        ensures
            run.last is None ==> *final(self) == *old(self) && !effects.persist
                && !effects.refresh,
            run.last matches Some(destination) ==> {
                &&& effects.refresh
                &&& final(self).selection.additional@ == Set::<PathView>::empty()
                &&& old(self).shown_at(
                    Sidebar {
                        selection: TreeSelection {
                            additional: old(self).selection.additional,
                            ..final(self).selection
                        },
                        ..*final(self)
                    },
                    destination.text(),
                    effects.persist,
                )
            },
    {
        match run.last {
            None => TreeEffects { persist: false, refresh: false },
            Some(destination) => {
                let persist = self.show_at(&destination);
                self.selection.additional = PathSet::new();
                TreeEffects { persist, refresh: true }
            },
        }
    }

    /// The path as it is written to the system's clipboard.
    pub fn path_for_clipboard(&self, path: &FilePath, relative: bool) -> (text: String)
        ensures
            text@ == shown(
                if relative {
                    text_from_root(path.text(), self.root())
                } else {
                    path.text()
                },
            ),
    {
        if relative {
            match path.strip_prefix(&self.tree.fold.root) {
                Some(rest) => rest.display(),
                None => path.display(),
            }
        } else {
            path.display()
        }
    }

    /// The directory that is handed to the file manager: `path` itself, or
    /// that of a file.
    pub open spec fn dir_for_manager(self, path: PathText, is_dir: bool) -> PathText {
        if is_dir {
            path
        } else {
            match parent(components(path)) {
                Some(_) => text_parent(path),
                None => self.root_text(),
            }
        }
    }

    pub fn reveal_in_file_manager(&self, path: &FilePath, is_dir: bool) -> (dir: FilePath)
        ensures
            dir.text() == self.dir_for_manager(path.text(), is_dir),
    {
        if is_dir {
            path.clone()
        } else {
            match path.parent() {
                Some(above) => above,
                None => self.tree.fold.root.clone(),
            }
        }
    }
}

/// What lies in a directory already is what would get the same path there:
/// pasting or dropping it there under its own name changes nothing. The name
/// has to be text, to be typed again.
pub proof fn law_already_there(dir: PathText, source: PathText)
    requires
        file_name(components(source)) is Some,
        is_text(components(source).last()),
    ensures
        lies_in(source, dir) <==> components(entry_in(dir, file_name(components(source))->0))
            == components(source),
{
    let path = components(source);
    let last = path.last();
    let name = file_name(path)->0;
    lemma_chars_of_shown(last);
    lemma_components_of_name(name);
    lemma_joined(dir, letters(name));
    lemma_name_is_no_root(last);
    let base = components(dir);
    assert(join(base, seq![last]) =~= base.push(last));
    if parent(path) == Some(base) {
        assert(path =~= base.push(last));
    }
    if base.push(last) == path {
        assert(path.drop_last() =~= base);
    }
}

/// A directory is never moved into itself or below itself.
pub proof fn law_no_drop_into_itself(
    before: Sidebar,
    after: Sidebar,
    source: PathText,
    dir: PathText,
    query: Option<DestinationQuery>,
)
    requires
        before.drop_planned(after, source, dir, query),
        is_under(components(dir), components(source)),
    ensures
        query is None,
{
}

/// What one call of a drop run did: it took the run on without a move, or it
/// moved the entry at this place of the run to `destination`.
pub enum DropEvent {
    Passed,
    Moved { at: int, destination: PathText },
}

/// Where in the run the moved entries stood, one after the other.
pub open spec fn moved_places(events: Seq<DropEvent>) -> Seq<int>
    decreases events.len(),
{
    if events.len() == 0 {
        seq![]
    } else {
        match events.last() {
            DropEvent::Passed => moved_places(events.drop_last()),
            DropEvent::Moved { at, .. } => moved_places(events.drop_last()).push(at),
        }
    }
}

/// What can be taken back after the run, one after the other.
pub open spec fn relocations(sources: Seq<PathText>, events: Seq<DropEvent>) -> Seq<UndoView>
    decreases events.len(),
{
    if events.len() == 0 {
        seq![]
    } else {
        let before = relocations(sources, events.drop_last());
        match events.last() {
            DropEvent::Passed => before,
            DropEvent::Moved { at, destination } => before.push(
                UndoView::Relocate { old_path: sources[at], new_path: destination },
            ),
        }
    }
}

impl Sidebar {
    /// Whether `next` is this after one call of a drop of `sources`.
    pub open spec fn dropped_once(
        self,
        next: Sidebar,
        sources: Seq<PathText>,
        event: DropEvent,
    ) -> bool {
        match event {
            DropEvent::Passed => next == (Sidebar { op_error: next.op_error, ..self }),
            DropEvent::Moved { at, destination } => {
                &&& 0 <= at < sources.len()
                &&& exists|persist: bool, dropped: Seq<Backup>|
                    self.relocated(next, sources[at], destination, persist, dropped)
            },
        }
    }
}

/// Over a whole drop, what can be taken back grows by one entry for each entry
/// that was moved, and by nothing else: each under its own source, in the
/// order in which they were moved. Where any was moved, nothing is left to be done again;
/// where none was, the history is as it was.
pub proof fn law_drop_is_recorded_in_order(
    states: Seq<Sidebar>,
    sources: Seq<PathText>,
    events: Seq<DropEvent>,
)
    requires
        states.len() == events.len() + 1,
        forall|i: int|
            0 <= i < events.len() ==> (#[trigger] states[i]).dropped_once(
                states[i + 1],
                sources,
                events[i],
            ),
    ensures
        states.last().history.undos() == states[0].history.undos() + relocations(sources, events),
        relocations(sources, events).len() == moved_places(events).len(),
        forall|k: int|
            0 <= k < relocations(sources, events).len() ==> (#[trigger] relocations(
                sources,
                events,
            )[k] matches UndoView::Relocate { old_path, .. } && old_path
                == sources[moved_places(events)[k]]),
        states.last().history.redos() == if moved_places(events).len() > 0 {
            Seq::<UndoView>::empty()
        } else {
            states[0].history.redos()
        },
    decreases events.len(),
{
    if events.len() == 0 {
        assert(states[0].history.undos() + relocations(sources, events)
            =~= states[0].history.undos());
    } else {
        let rest = events.drop_last();
        let earlier = states.drop_last();
        let n = rest.len() as int;
        assert forall|i: int| 0 <= i < rest.len() implies (#[trigger] earlier[i]).dropped_once(
            earlier[i + 1],
            sources,
            rest[i],
        ) by {
            assert(states[i].dropped_once(states[i + 1], sources, events[i]));
        }
        law_drop_is_recorded_in_order(earlier, sources, rest);
        assert(states[n].dropped_once(states[n + 1], sources, events[n]));
        assert(earlier.last() == states[n]);
        let before = relocations(sources, rest);
        let all = relocations(sources, events);
        match events.last() {
            DropEvent::Passed => {},
            DropEvent::Moved { at, destination } => {
                let entry = UndoView::Relocate { old_path: sources[at], new_path: destination };
                assert(states[0].history.undos() + all =~= (states[0].history.undos()
                    + before).push(entry));
                assert forall|k: int| 0 <= k < all.len() implies (#[trigger] all[k]
                    matches UndoView::Relocate { old_path, .. } && old_path
                    == sources[moved_places(events)[k]]) by {
                    if k < before.len() {
                        assert(all[k] == before[k]);
                    }
                }
            },
        }
    }
}

fn nothing_to_do() -> (done: OperationOutcome)
    ensures
        !done.effects.persist,
        !done.effects.refresh,
        done.dropped@.len() == 0,
{
    OperationOutcome {
        effects: TreeEffects { persist: false, refresh: false },
        dropped: Vec::new(),
    }
}

} // verus!
