use vstd::prelude::*;
use vstd::string::*;

use crate::history::{
    backup_name, backup_views, backups_of, Backup, DeleteMechanism, MechanismView, TreeHistory,
    TreeUndoEntry, UndoView,
};
use crate::moves::{entry_in, MoveRequest, OperationOutcome};
use crate::path::{
    components, inside, is_inside_worktree, is_under, parent, path_text, shown, text_parent,
    FilePath, PathText, PathView,
};
use crate::path_set::{given, read, PathSet};
use crate::state::{Sidebar, TreeEffects};
use crate::text::{concat3, concat4, option_text};

verus! {

/// A deletion on its way.
pub struct DeleteTicket {
    pub path: FilePath,
    pub is_dir: bool,
    /// Where a copy is made before anything is removed.
    pub backup_path: FilePath,
    /// Whether this is a new operation, after which nothing can be done again,
    /// or one that is done again itself.
    pub clear_redo: bool,
}

pub struct TicketView {
    pub path: PathText,
    pub is_dir: bool,
    pub backup_path: PathText,
    pub clear_redo: bool,
}

impl View for DeleteTicket {
    type V = TicketView;

    open spec fn view(&self) -> TicketView {
        TicketView {
            path: self.path.text(),
            is_dir: self.is_dir,
            backup_path: self.backup_path.text(),
            clear_redo: self.clear_redo,
        }
    }
}

pub open spec fn ticket_views(tickets: Seq<DeleteTicket>) -> Seq<TicketView> {
    tickets.map_values(|ticket: DeleteTicket| ticket@)
}

/// One thing that the disk is asked for by a deletion.
pub enum DeleteStep {
    MakeDir(FilePath),
    Copy { source: FilePath, destination: FilePath },
    Remove { path: FilePath, mechanism: DeleteMechanism },
}

pub enum StepView {
    MakeDir(PathText),
    Copy { source: PathText, destination: PathText },
    Remove { path: PathText, mechanism: MechanismView },
}

impl View for DeleteStep {
    type V = StepView;

    open spec fn view(&self) -> StepView {
        match self {
            DeleteStep::MakeDir(path) => StepView::MakeDir(path.text()),
            DeleteStep::Copy { source, destination } => StepView::Copy {
                source: source.text(),
                destination: destination.text(),
            },
            DeleteStep::Remove { path, mechanism } => StepView::Remove {
                path: path.text(),
                mechanism: mechanism@,
            },
        }
    }
}

pub open spec fn step_view(step: Option<DeleteStep>) -> Option<StepView> {
    match step {
        Some(inner) => Some(inner@),
        None => None,
    }
}

/// What the disk is asked for by a deletion, from first to last.
pub open spec fn plan_of(ticket: TicketView, mechanism: MechanismView) -> Seq<StepView> {
    let rest = seq![
        StepView::Copy { source: ticket.path, destination: ticket.backup_path },
        StepView::Remove { path: ticket.path, mechanism },
    ];
    match parent(components(ticket.backup_path)) {
        Some(_) => seq![StepView::MakeDir(text_parent(ticket.backup_path))] + rest,
        None => rest,
    }
}

/// The step that comes after `done` others, the last of which passed or did
/// not. None comes after one that failed.
pub open spec fn step_after(
    ticket: TicketView,
    mechanism: MechanismView,
    done: nat,
    passed: bool,
) -> Option<StepView> {
    if passed && done < plan_of(ticket, mechanism).len() {
        Some(plan_of(ticket, mechanism)[done as int])
    } else {
        None
    }
}

/// Nothing is removed before its copy was made, and nothing where the copy
/// failed: the removal is the last step, the copy is the one before it, and
/// after a step that failed there is none. So a removal that failed is not
/// followed by another, by whatever means.
pub proof fn law_copy_before_removal(
    ticket: TicketView,
    mechanism: MechanismView,
    done: nat,
    passed: bool,
)
    ensures
        !passed ==> step_after(ticket, mechanism, done, passed) is None,
        step_after(ticket, mechanism, done, passed) matches Some(
            StepView::Remove { path, mechanism: means },
        ) ==> {
            &&& path == ticket.path
            &&& means == mechanism
            &&& passed
            &&& done > 0
            &&& step_after(ticket, mechanism, (done - 1) as nat, true) == Some(
                StepView::Copy { source: ticket.path, destination: ticket.backup_path },
            )
            &&& step_after(ticket, mechanism, done + 1, passed) is None
        },
{
}

/// What to say of a trash command that failed.
pub fn trash_failed_text(program: &str, status: &str, label: &str) -> (text: String)
    ensures
        text@ == program@ + " exited with "@ + status@ + " while trashing "@ + label@,
{
    let mut text = concat4(program, " exited with ", status, " while trashing ");
    text.append(label);
    text
}

/// What to say of a trash command that did not start.
pub fn trash_not_started_text(program: &str, err: &str) -> (text: String)
    ensures
        text@ == "failed to run "@ + program@ + ": "@ + err@,
{
    concat4("failed to run ", program, ": ", err)
}

/// What taking an operation back asks the disk for.
pub enum UndoStep {
    /// There is nothing to take back.
    Nothing,
    Move { entry: TreeUndoEntry, request: MoveRequest },
    /// A copy is put back, in a directory that may be gone too.
    Restore { entry: TreeUndoEntry, dir: Option<FilePath>, backup: FilePath, original: FilePath },
}

/// What doing an operation again asks the disk for.
pub enum RedoStep {
    /// There is nothing to do again.
    Nothing,
    Move { entry: TreeUndoEntry, request: MoveRequest },
    /// The copy of the first deletion is of no use any more.
    Delete { stale: Backup, ticket: DeleteTicket, mechanism: DeleteMechanism },
}

/// The paths that can be deleted, in their order.
pub open spec fn deletable(paths: Seq<PathText>, root: PathView) -> Seq<PathText> {
    paths.filter(|path: PathText| inside(root, components(path)))
}

/// Whether `path` is an entry of the tree at `root`.
pub open spec fn is_entry(root: PathView, path: PathView) -> bool {
    is_under(path, root) && path != root
}

/// The selected paths that are entries of the tree, in their order.
pub open spec fn entries_among(paths: Seq<PathText>, root: PathView) -> Seq<PathText> {
    paths.filter(|path: PathText| is_entry(root, components(path)))
}

pub open spec fn refused_text(path: PathText) -> Seq<char> {
    "refusing to delete "@ + shown(path) + ": it is not inside this worktree"@
}

/// What the tree says after deletions were refused for those of `paths` that
/// lie elsewhere.
pub open spec fn refusal_after(
    error: Option<Seq<char>>,
    paths: Seq<PathText>,
    root: PathView,
) -> Option<Seq<char>>
    decreases paths.len(),
{
    if paths.len() == 0 {
        error
    } else if inside(root, components(paths.last())) {
        refusal_after(error, paths.drop_last(), root)
    } else {
        Some(refused_text(paths.last()))
    }
}

impl Sidebar {
    /// The ticket for the deletion of `path`, with the copy numbered `number`.
    pub open spec fn ticket_for(
        self,
        path: PathText,
        is_dir: bool,
        number: nat,
        clear_redo: bool,
    ) -> TicketView {
        TicketView {
            path,
            is_dir,
            backup_path: entry_in(
                self.history.backup_root.text(),
                backup_name(number, components(path)),
            ),
            clear_redo,
        }
    }

    /// This with its copies numbered from `counter` on.
    pub open spec fn counting_from(self, counter: u64) -> Sidebar {
        Sidebar { history: TreeHistory { backup_counter: counter, ..self.history }, ..self }
    }

    /// Whether `next` is this after the deletion of `path` was started, or
    /// refused because it does not lie plainly inside the worktree.
    pub open spec fn delete_started(
        self,
        next: Sidebar,
        path: PathText,
        is_dir: bool,
        ticket: Option<DeleteTicket>,
    ) -> bool {
        if inside(self.root(), components(path)) {
            let number = self.history.backup_counter;
            &&& ticket matches Some(issued) && issued@ == self.ticket_for(
                path,
                is_dir,
                number as nat,
                true,
            )
            &&& next == self.counting_from((number + 1) as u64)
        } else {
            &&& ticket is None
            &&& next == (Sidebar { op_error: next.op_error, ..self })
            &&& option_text(next.op_error) == Some(refused_text(path))
        }
    }

    /// Starts the deletion of `path`, unless it does not lie plainly inside
    /// the worktree.
    pub fn request_tree_delete(&mut self, path: FilePath, is_dir: bool) -> (ticket: Option<
        DeleteTicket,
    >)
        requires
            old(self).history.backup_counter < u64::MAX,
        ensures
            old(self).delete_started(*final(self), path.text(), is_dir, ticket),
    {
        if !is_inside_worktree(&self.tree.fold.root, &path) {
            let message = concat3(
                "refusing to delete ",
                path.display().as_str(),
                ": it is not inside this worktree",
            );
            self.report_tree_op_error(message);
            return None;
        }
        Some(self.issue_ticket(path, is_dir, true))
    }

    fn issue_ticket(&mut self, path: FilePath, is_dir: bool, clear_redo: bool) -> (ticket:
        DeleteTicket)
        requires
            old(self).history.backup_counter < u64::MAX,
        ensures
            ticket@ == old(self).ticket_for(
                path.text(),
                is_dir,
                old(self).history.backup_counter as nat,
                clear_redo,
            ),
            *final(self) == old(self).counting_from(
                (old(self).history.backup_counter + 1) as u64,
            ),
    {
        let backup_path = self.history.next_tree_undo_backup_path(&path);
        DeleteTicket { path, is_dir, backup_path, clear_redo }
    }

    /// Whether `tickets` are those for `paths`, numbered from `counter` on.
    pub open spec fn tickets_for(
        self,
        tickets: Seq<TicketView>,
        paths: Seq<PathText>,
        dirs: Set<PathView>,
        counter: nat,
    ) -> bool {
        &&& tickets.len() == paths.len()
        &&& forall|k: int|
            0 <= k < tickets.len() ==> (#[trigger] tickets[k]) == self.ticket_for(
                paths[k],
                self.tree.dir_at(components(paths[k]), dirs.contains(components(paths[k]))),
                counter + k as nat,
                true,
            )
    }

    /// Starts the deletion of each of `paths`. `dirs` are those that are
    /// directories on the disk; what the tree lists it knows better.
    pub fn request_tree_deletes(&mut self, paths: &Vec<FilePath>, dirs: &PathSet) -> (tickets: Vec<
        DeleteTicket,
    >)
        requires
            old(self).history.backup_counter + paths@.len() <= u64::MAX,
        ensures
            old(self).deletes_started(
                *final(self),
                given(paths@),
                ticket_views(tickets@),
                dirs@,
            ),
    {
        let ghost all = given(paths@);
        let ghost root = self.root();
        let ghost start = *self;
        let ghost number = self.history.backup_counter as nat;
        let ghost pred = |path: PathText| inside(root, components(path));
        let mut tickets: Vec<DeleteTicket> = Vec::new();
        proof {
            reveal(Seq::filter);
            assert(all.take(0).filter(pred) =~= Seq::<PathText>::empty());
            assert(number + 0 == number);
        }
        let mut i: usize = 0;
        while i < paths.len()
            invariant
                i <= paths.len(),
                all == given(paths@),
                root == start.root(),
                number == start.history.backup_counter,
                number + paths@.len() <= u64::MAX,
                pred == (|path: PathText| inside(root, components(path))),
                all.take(i as int).filter(pred).len() <= i,
                start.tickets_for(
                    ticket_views(tickets@),
                    all.take(i as int).filter(pred),
                    dirs@,
                    number,
                ),
                *self == (Sidebar {
                    op_error: self.op_error,
                    ..start.counting_from((number + all.take(i as int).filter(pred).len()) as u64)
                }),
                option_text(self.op_error) == refusal_after(
                    option_text(start.op_error),
                    all.take(i as int),
                    root,
                ),
            decreases paths.len() - i,
        {
            let ghost done = all.take(i as int).filter(pred);
            let ghost before = ticket_views(tickets@);
            let ghost now = *self;
            proof {
                reveal(Seq::filter);
                assert(all.take(i + 1).drop_last() =~= all.take(i as int));
                assert(all.take(i + 1).last() == paths@[i as int].text());
                assert(self.history.backup_counter == number + done.len());
            }
            let path = paths[i].clone();
            let is_dir = self.tree.is_dir_at(&path, dirs.contains(&path));
            match self.request_tree_delete(path, is_dir) {
                Some(ticket) => {
                    tickets.push(ticket);
                    proof {
                        let after = ticket_views(tickets@);
                        assert(after =~= before.push(ticket@));
                        let next = all.take(i + 1).filter(pred);
                        assert(next =~= done.push(all[i as int]));
                        assert forall|k: int| 0 <= k < after.len() implies (#[trigger] after[k])
                            == start.ticket_for(
                            next[k],
                            start.tree.dir_at(
                                components(next[k]),
                                dirs@.contains(components(next[k])),
                            ),
                            number + k as nat,
                            true,
                        ) by {
                            if k < before.len() {
                                assert(after[k] == before[k]);
                                assert(next[k] == done[k]);
                            }
                        }
                    }
                },
                None => {},
            }
            i += 1;
        }
        assert(all.take(i as int) =~= all);
        tickets
    }

    /// Starts the deletion of every selected entry of the tree.
    pub fn request_tree_delete_for_selection(&mut self, dirs: &PathSet) -> (tickets: Vec<
        DeleteTicket,
    >)
        requires
            old(self).history.backup_counter + old(self).selection.selected().len() <= u64::MAX,
        ensures
            exists|order: Seq<PathText>| #[trigger]
                old(self).is_selection_order(order) && old(self).deletes_in_order(
                    *final(self),
                    order,
                    ticket_views(tickets@),
                    dirs@,
                ),
    {
        let selected = self.selection.tree_selected_paths(&self.tree);
        let ghost order = given(selected@);
        let ghost root = self.root();
        let ghost pred = |path: PathText| is_entry(root, components(path));
        let mut kept: Vec<FilePath> = Vec::new();
        proof {
            reveal(Seq::filter);
            assert(given(kept@) =~= order.take(0).filter(pred));
            read(order).unique_seq_to_set();
            assert(read(order).len() == order.len());
        }
        let mut i: usize = 0;
        while i < selected.len()
            invariant
                i <= selected.len(),
                root == self.root(),
                order == given(selected@),
                pred == (|path: PathText| is_entry(root, components(path))),
                given(kept@) == order.take(i as int).filter(pred),
                kept@.len() <= i,
            decreases selected.len() - i,
        {
            let ghost before = given(kept@);
            proof {
                reveal(Seq::filter);
                assert(order.take(i + 1).drop_last() =~= order.take(i as int));
                assert(order.take(i + 1).last() == selected@[i as int].text());
            }
            if selected[i].starts_with(&self.tree.fold.root) && !selected[i].same(
                &self.tree.fold.root,
            ) {
                kept.push(selected[i].clone());
                assert(given(kept@) =~= before.push(selected@[i as int].text()));
            }
            i += 1;
        }
        proof {
            assert(order.take(i as int) =~= order);
            assert(old(self).is_selection_order(order));
        }
        let tickets = self.request_tree_deletes(&kept, dirs);
        assert(old(self).deletes_in_order(*self, order, ticket_views(tickets@), dirs@));
        tickets
    }

    /// Whether `next` is this after the deletion of the entries of the tree
    /// among `order` was started.
    pub open spec fn deletes_in_order(
        self,
        next: Sidebar,
        order: Seq<PathText>,
        tickets: Seq<TicketView>,
        dirs: Set<PathView>,
    ) -> bool {
        self.deletes_started(next, entries_among(order, self.root()), tickets, dirs)
    }

    /// Whether `next` is this after the deletion of each of `paths` was
    /// started, as far as it can be.
    pub open spec fn deletes_started(
        self,
        next: Sidebar,
        paths: Seq<PathText>,
        tickets: Seq<TicketView>,
        dirs: Set<PathView>,
    ) -> bool {
        let wanted = deletable(paths, self.root());
        let number = self.history.backup_counter as nat;
        &&& self.tickets_for(tickets, wanted, dirs, number)
        &&& next == (Sidebar {
            op_error: next.op_error,
            ..self.counting_from((number + wanted.len()) as u64)
        })
        &&& option_text(next.op_error) == refusal_after(
            option_text(self.op_error),
            paths,
            self.root(),
        )
    }

    /// Whether `order` lists the selected paths as the tree does.
    pub open spec fn is_selection_order(self, order: Seq<PathText>) -> bool {
        self.selection.ordered(self.tree, order)
    }

    /// What the disk is asked for next by a deletion of which `done` steps were
    /// done, the last with the outcome `last`. After one that failed the disk
    /// is asked for nothing more.
    pub fn next_delete_step(
        &self,
        ticket: &DeleteTicket,
        mechanism: &DeleteMechanism,
        done: usize,
        last: &Result<(), String>,
    ) -> (step: Option<DeleteStep>)
        ensures
            last is Err ==> step is None,
            step_view(step) == step_after(ticket@, mechanism@, done as nat, last is Ok),
    {
        if last.is_err() {
            return None;
        }
        let dir = ticket.backup_path.parent();
        let made: usize = match &dir {
            Some(_) => 1,
            None => 0,
        };
        if done < made {
            match dir {
                Some(dir) => Some(DeleteStep::MakeDir(dir)),
                None => None,
            }
        } else if done - made == 0 {
            Some(
                DeleteStep::Copy {
                    source: ticket.path.clone(),
                    destination: ticket.backup_path.clone(),
                },
            )
        } else if done - made == 1 {
            Some(
                DeleteStep::Remove { path: ticket.path.clone(), mechanism: mechanism.copy() },
            )
        } else {
            None
        }
    }

    /// Whether `next` is this after a deletion was done.
    pub open spec fn deleted(
        self,
        next: Sidebar,
        ticket: TicketView,
        mechanism: MechanismView,
        persist: bool,
        dropped: Seq<Backup>,
    ) -> bool {
        &&& self.forgot(
            Sidebar { history: self.history, ..next },
            components(ticket.path),
            persist,
        )
        &&& next.history.backup_root == self.history.backup_root
        &&& next.history.backup_counter == self.history.backup_counter
        &&& next.history.undos() == self.history.undos().push(
            UndoView::Delete {
                original_path: ticket.path,
                is_dir: ticket.is_dir,
                backup_path: ticket.backup_path,
                mechanism,
            },
        )
        &&& if ticket.clear_redo {
            &&& next.history.redos() == Seq::<UndoView>::empty()
            &&& backup_views(dropped) == backups_of(self.history.redos())
        } else {
            &&& next.history.redos() == self.history.redos()
            &&& dropped.len() == 0
        }
    }

    /// Takes in whether an entry was deleted. Where it was not, its copy is of
    /// no use.
    pub fn finish_delete(
        &mut self,
        ticket: DeleteTicket,
        mechanism: DeleteMechanism,
        outcome: Result<(), String>,
    ) -> (done: OperationOutcome)
        ensures
            done.effects.refresh == outcome is Ok,
            outcome is Ok ==> old(self).deleted(
                *final(self),
                ticket@,
                mechanism@,
                done.effects.persist,
                done.dropped@,
            ),
            outcome matches Err(message) ==> {
                &&& *final(self) == (Sidebar { op_error: Some(message), ..*old(self) })
                &&& !done.effects.persist
                &&& backup_views(done.dropped@) == seq![(ticket.backup_path.text(), ticket.is_dir)]
            },
    {
        match outcome {
            Err(message) => {
                self.report_tree_op_error(message);
                let mut dropped: Vec<Backup> = Vec::new();
                let ghost wanted = seq![(ticket.backup_path.text(), ticket.is_dir)];
                dropped.push(Backup { path: ticket.backup_path, is_dir: ticket.is_dir });
                assert(backup_views(dropped@) =~= wanted);
                OperationOutcome {
                    effects: TreeEffects { persist: false, refresh: false },
                    dropped,
                }
            },
            Ok(()) => {
                let persist = self.forget_deleted_paths(&ticket.path);
                let clear_redo = ticket.clear_redo;
                let entry = TreeUndoEntry::Delete {
                    original_path: ticket.path,
                    is_dir: ticket.is_dir,
                    backup_path: ticket.backup_path,
                    mechanism,
                };
                let dropped = if clear_redo {
                    self.history.push_tree_undo_entry(entry)
                } else {
                    self.history.push_undo(entry);
                    Vec::new()
                };
                assert(old(self).forgot(
                    Sidebar { history: old(self).history, ..*self },
                    components(ticket@.path),
                    persist,
                ));
                OperationOutcome { effects: TreeEffects { persist, refresh: true }, dropped }
            },
        }
    }

    /// Whether `next` is this with the latest operation taken off, to take it
    /// back.
    pub open spec fn undo_taken(self, next: Sidebar, entry: UndoView) -> bool {
        &&& next == (Sidebar { history: next.history, ..self })
        &&& self.history.undos() == next.history.undos().push(entry)
        &&& next.history.redos() == self.history.redos()
        &&& next.history.backup_root == self.history.backup_root
        &&& next.history.backup_counter == self.history.backup_counter
    }

    /// Whether `next` is this with the latest undone operation taken off, to
    /// do it again.
    pub open spec fn redo_taken(self, next: Sidebar, entry: UndoView) -> bool {
        &&& next == (Sidebar { history: next.history, ..self })
        &&& self.history.redos() == next.history.redos().push(entry)
        &&& next.history.undos() == self.history.undos()
        &&& next.history.backup_root == self.history.backup_root
        &&& next.history.backup_counter == self.history.backup_counter
    }

    /// Starts to take the latest operation back.
    pub fn undo_tree_op(&mut self) -> (step: UndoStep)
        ensures
            step is Nothing == (old(self).history.undos().len() == 0),
            match step {
                UndoStep::Nothing => *final(self) == *old(self),
                UndoStep::Move { entry, request } => {
                    &&& old(self).undo_taken(*final(self), entry@)
                    &&& entry@ == (UndoView::Relocate {
                        old_path: request.destination.text(),
                        new_path: request.source.text(),
                    })
                },
                UndoStep::Restore { entry, dir, backup, original } => {
                    &&& old(self).undo_taken(*final(self), entry@)
                    &&& entry@ matches UndoView::Delete { original_path, backup_path, .. }
                        && original_path == original.text() && backup_path == backup.text()
                    &&& path_text(dir) == match parent(original@) {
                        Some(_) => Some(text_parent(original.text())),
                        None => None,
                    }
                },
            },
    {
        let entry = match self.history.pop_undo() {
            Some(entry) => entry,
            None => {
                return UndoStep::Nothing;
            },
        };
        match &entry {
            TreeUndoEntry::Relocate { old_path, new_path } => {
                let request = MoveRequest {
                    source: new_path.clone(),
                    destination: old_path.clone(),
                };
                UndoStep::Move { entry, request }
            },
            TreeUndoEntry::Delete { original_path, backup_path, .. } => {
                let dir = original_path.parent();
                let backup = backup_path.clone();
                let original = original_path.clone();
                UndoStep::Restore { entry, dir, backup, original }
            },
        }
    }

    /// Whether `next` is this after an operation was taken back, or done again:
    /// what was moved from `from` to `to`, or put back at `to`, is revealed and
    /// selected there.
    pub open spec fn brought_back(
        self,
        next: Sidebar,
        from: Option<PathText>,
        to: PathText,
        persist: bool,
    ) -> bool {
        match from {
            Some(source) => self.moved_back(next, source, to, persist),
            None => self.shown_at(next, to, persist),
        }
    }

    /// Whether `next` is this after `from` was moved to `to`, and revealed and
    /// selected there.
    pub open spec fn moved_back(
        self,
        next: Sidebar,
        from: PathText,
        to: PathText,
        persist: bool,
    ) -> bool {
        exists|middle: Sidebar, first: bool, second: bool|
            {
                &&& #[trigger] self.renamed(middle, components(from), to, first)
                &&& #[trigger] middle.shown_at(next, to, second)
                &&& persist == (first || second)
            }
    }

    fn bring_back(&mut self, from: Option<&FilePath>, to: &FilePath) -> (persist: bool)
        ensures
            old(self).brought_back(
                *final(self),
                match from {
                    Some(source) => Some(source.text()),
                    None => None,
                },
                to.text(),
                persist,
            ),
    {
        match from {
            Some(source) => {
                let first = self.rename_open_paths(source, to);
                let ghost middle = *self;
                let second = self.show_at(to);
                assert(old(self).renamed(middle, source@, to.text(), first));
                assert(middle.shown_at(*self, to.text(), second));
                assert(old(self).moved_back(*self, source.text(), to.text(), first || second));
                first || second
            },
            None => self.show_at(to),
        }
    }

    /// Where taking `entry` back moves something from, and where to.
    pub open spec fn undo_way(entry: UndoView) -> (Option<PathText>, PathText) {
        match entry {
            UndoView::Relocate { old_path, new_path } => (Some(new_path), old_path),
            UndoView::Delete { original_path, .. } => (None, original_path),
        }
    }

    /// Takes in whether an operation was taken back. Where it was, it can be
    /// done again; where not, it can still be taken back.
    pub fn finish_undo(&mut self, entry: TreeUndoEntry, outcome: Result<(), String>) -> (effects:
        TreeEffects)
        ensures
            effects.refresh == outcome is Ok,
            outcome matches Err(message) ==> {
                &&& !effects.persist
                &&& *final(self) == (Sidebar {
                    op_error: Some(message),
                    history: final(self).history,
                    ..*old(self)
                })
                &&& final(self).history.undos() == old(self).history.undos().push(entry@)
                &&& final(self).history.redos() == old(self).history.redos()
            },
            outcome is Ok ==> {
                let way = Self::undo_way(entry@);
                &&& old(self).brought_back(
                    Sidebar { history: old(self).history, ..*final(self) },
                    way.0,
                    way.1,
                    effects.persist,
                )
                &&& final(self).history.undos() == old(self).history.undos()
                &&& final(self).history.redos() == old(self).history.redos().push(entry@)
            },
            final(self).history.backup_root == old(self).history.backup_root,
            final(self).history.backup_counter == old(self).history.backup_counter,
    {
        match outcome {
            Err(message) => {
                self.history.push_undo(entry);
                self.report_tree_op_error(message);
                TreeEffects { persist: false, refresh: false }
            },
            Ok(()) => {
                let persist = match &entry {
                    TreeUndoEntry::Relocate { old_path, new_path } => {
                        self.bring_back(Some(new_path), old_path)
                    },
                    TreeUndoEntry::Delete { original_path, .. } => {
                        self.bring_back(None, original_path)
                    },
                };
                let ghost middle = *self;
                self.history.push_redo(entry);
                proof {
                    lemma_brought_back_keeps_history(*old(self), middle, entry@, persist);
                    assert(Sidebar { history: old(self).history, ..*self } == middle);
                }
                TreeEffects { persist, refresh: true }
            },
        }
    }

    /// Starts to do the latest undone operation again. A deletion is done
    /// again afresh, with a new copy of what lies there now, and in the way
    /// that it was done first.
    pub fn redo_tree_op(&mut self) -> (step: RedoStep)
        requires
            old(self).history.backup_counter < u64::MAX,
        ensures
            step is Nothing == (old(self).history.redos().len() == 0),
            match step {
                RedoStep::Nothing => *final(self) == *old(self),
                RedoStep::Move { entry, request } => {
                    &&& old(self).redo_taken(*final(self), entry@)
                    &&& entry@ == (UndoView::Relocate {
                        old_path: request.source.text(),
                        new_path: request.destination.text(),
                    })
                },
                RedoStep::Delete { stale, ticket, mechanism } => {
                    let number = old(self).history.backup_counter;
                    &&& old(self).redo_taken(
                        final(self).counting_from(number),
                        UndoView::Delete {
                            original_path: ticket.path.text(),
                            is_dir: ticket.is_dir,
                            backup_path: stale.path.text(),
                            mechanism: mechanism@,
                        },
                    )
                    &&& stale.is_dir == ticket.is_dir
                    &&& final(self).history.backup_counter == number + 1
                    &&& ticket@ == old(self).ticket_for(
                        ticket.path.text(),
                        ticket.is_dir,
                        number as nat,
                        false,
                    )
                },
            },
    {
        let entry = match self.history.pop_redo() {
            Some(entry) => entry,
            None => {
                return RedoStep::Nothing;
            },
        };
        match entry {
            TreeUndoEntry::Relocate { old_path, new_path } => {
                let request = MoveRequest {
                    source: old_path.clone(),
                    destination: new_path.clone(),
                };
                RedoStep::Move { entry: TreeUndoEntry::Relocate { old_path, new_path }, request }
            },
            TreeUndoEntry::Delete { original_path, is_dir, backup_path, mechanism } => {
                let ghost middle = *self;
                let ticket = self.issue_ticket(original_path, is_dir, false);
                assert(self.counting_from(old(self).history.backup_counter) == middle);
                RedoStep::Delete {
                    stale: Backup { path: backup_path, is_dir },
                    ticket,
                    mechanism,
                }
            },
        }
    }

    /// Takes in whether a move was done again. Where it was, it can be taken
    /// back; where not, it can still be done again.
    pub fn finish_redo_move(&mut self, entry: TreeUndoEntry, outcome: Result<(), String>)
        -> (effects: TreeEffects)
        requires
            entry is Relocate,
        ensures
            effects.refresh == outcome is Ok,
            outcome matches Err(message) ==> {
                &&& !effects.persist
                &&& *final(self) == (Sidebar {
                    op_error: Some(message),
                    history: final(self).history,
                    ..*old(self)
                })
                &&& final(self).history.redos() == old(self).history.redos().push(entry@)
                &&& final(self).history.undos() == old(self).history.undos()
            },
            outcome is Ok ==> {
                &&& entry@ matches UndoView::Relocate { old_path, new_path } && old(
                    self,
                ).brought_back(
                    Sidebar { history: old(self).history, ..*final(self) },
                    Some(old_path),
                    new_path,
                    effects.persist,
                )
                &&& final(self).history.redos() == old(self).history.redos()
                &&& final(self).history.undos() == old(self).history.undos().push(entry@)
            },
            final(self).history.backup_root == old(self).history.backup_root,
            final(self).history.backup_counter == old(self).history.backup_counter,
    {
        match outcome {
            Err(message) => {
                self.history.push_redo(entry);
                self.report_tree_op_error(message);
                TreeEffects { persist: false, refresh: false }
            },
            Ok(()) => {
                let persist = match &entry {
                    TreeUndoEntry::Relocate { old_path, new_path } => {
                        self.bring_back(Some(old_path), new_path)
                    },
                    TreeUndoEntry::Delete { .. } => false,
                };
                let ghost middle = *self;
                self.history.push_undo(entry);
                proof {
                    assert(Sidebar { history: old(self).history, ..*self } == middle);
                }
                TreeEffects { persist, refresh: true }
            },
        }
    }
}

proof fn lemma_brought_back_keeps_history(
    before: Sidebar,
    after: Sidebar,
    entry: UndoView,
    persist: bool,
)
    requires
        before.brought_back(
            after,
            Sidebar::undo_way(entry).0,
            Sidebar::undo_way(entry).1,
            persist,
        ),
    ensures
        after.history == before.history,
{
}

/// An operation that cannot be taken back stays where it was: what can be
/// taken back, and what can be done again, is as before.
pub proof fn law_failed_undo_keeps_the_history(
    first: Sidebar,
    second: Sidebar,
    third: Sidebar,
    entry: UndoView,
)
    requires
        first.undo_taken(second, entry),
        third.history.undos() == second.history.undos().push(entry),
        third.history.redos() == second.history.redos(),
    ensures
        third.history.undos() == first.history.undos(),
        third.history.redos() == first.history.redos(),
{
}

/// Taking a rename or a move back and doing it again leaves both lists as they
/// were.
pub proof fn law_undo_then_redo(
    first: Sidebar,
    taken: Sidebar,
    undone: Sidebar,
    retaken: Sidebar,
    redone: Sidebar,
    entry: UndoView,
    again: UndoView,
)
    requires
        first.undo_taken(taken, entry),
        undone.history.undos() == taken.history.undos(),
        undone.history.redos() == taken.history.redos().push(entry),
        undone.redo_taken(retaken, again),
        redone.history.undos() == retaken.history.undos().push(again),
        redone.history.redos() == retaken.history.redos(),
    ensures
        again == entry,
        redone.history.undos() == first.history.undos(),
        redone.history.redos() == first.history.redos(),
{
    let redos = undone.history.redos();
    assert(redos.last() == entry);
    assert(redos.last() == again);
    assert(retaken.history.redos() =~= redos.drop_last());
    assert(taken.history.redos() =~= redos.drop_last());
}

/// Taking a deletion back and doing it again leaves both lists as they were,
/// but for where the copy is kept: it is the copy that was made last.
pub proof fn law_undo_then_delete_again(
    first: Sidebar,
    taken: Sidebar,
    undone: Sidebar,
    retaken: Sidebar,
    redone: Sidebar,
    entry: UndoView,
    stale: PathText,
    ticket: TicketView,
    mechanism: MechanismView,
    persist: bool,
    dropped: Seq<Backup>,
)
    requires
        first.undo_taken(taken, entry),
        undone.history.undos() == taken.history.undos(),
        undone.history.redos() == taken.history.redos().push(entry),
        undone.redo_taken(
            retaken.counting_from(undone.history.backup_counter),
            UndoView::Delete {
                original_path: ticket.path,
                is_dir: ticket.is_dir,
                backup_path: stale,
                mechanism,
            },
        ),
        !ticket.clear_redo,
        retaken.deleted(redone, ticket, mechanism, persist, dropped),
    ensures
        entry == (UndoView::Delete {
            original_path: ticket.path,
            is_dir: ticket.is_dir,
            backup_path: stale,
            mechanism,
        }),
        redone.history.undos() == first.history.undos().drop_last().push(
            UndoView::Delete {
                original_path: ticket.path,
                is_dir: ticket.is_dir,
                backup_path: ticket.backup_path,
                mechanism,
            },
        ),
        redone.history.redos() == first.history.redos(),
{
    let redos = undone.history.redos();
    assert(redos.last() == entry);
    assert(retaken.history.redos() == retaken.counting_from(
        undone.history.backup_counter,
    ).history.redos());
    assert(retaken.history.redos() =~= redos.drop_last());
    assert(taken.history.redos() =~= redos.drop_last());
    assert(first.history.undos().drop_last() =~= taken.history.undos());
}

} // verus!
