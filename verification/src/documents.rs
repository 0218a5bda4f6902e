use vstd::prelude::*;

use crate::path::{
    components, from_root, is_bare, is_under, law_components_are_well_formed, lemma_remap_back,
    lemma_text_moved, message_view, moved, remap_path, remapped, text_from_root, text_moved,
    well_formed, FilePath, PathText, PathView,
};
use crate::path_set::{given, members_moved, members_outside, read, views, PathSet};
use crate::table::{lists, rows_outside, Table, WorktreePath};

verus! {

/// The text of an open file, and where saving it writes.
pub struct EditBuffer {
    pub path: FilePath,
    pub text: String,
}

pub struct BufferView {
    pub path: PathText,
    pub text: Seq<char>,
}

impl View for EditBuffer {
    type V = BufferView;

    open spec fn view(&self) -> BufferView {
        BufferView { path: self.path.text(), text: self.text@ }
    }
}

/// What was computed for the open file, and whether it is there.
#[derive(Clone, Copy, Debug, PartialEq, Eq, Structural)]
pub struct SurfaceCaches {
    pub file_view: bool,
    pub file_load: bool,
    pub freshness_check: bool,
    pub diff_highlight: bool,
    pub row_layout: bool,
    pub last_layout: bool,
    pub last_bounds: bool,
    pub last_layout_for: bool,
    pub hover: bool,
    pub completions: bool,
    pub pending_cursor_line: bool,
}

pub open spec fn no_caches() -> SurfaceCaches {
    SurfaceCaches {
        file_view: false,
        file_load: false,
        freshness_check: false,
        diff_highlight: false,
        row_layout: false,
        last_layout: false,
        last_bounds: false,
        last_layout_for: false,
        hover: false,
        completions: false,
        pending_cursor_line: false,
    }
}

/// Everything that is kept by path about open files. Some tables go by the
/// path inside the worktree and some by the whole path, as each says.
pub struct Documents {
    /// The tabs of this worktree, by the path inside it.
    pub open_files: Vec<FilePath>,
    /// The buffers of every worktree.
    pub edit_buffers: Table<WorktreePath, EditBuffer>,
    /// By the path inside the worktree.
    pub external_conflict: PathSet,
    /// By the path inside the worktree.
    pub save_pending: PathSet,
    /// By the path inside the worktree.
    pub save_running: PathSet,
    /// The paths inside the worktree with a running save.
    pub save_tasks: PathSet,
    /// The paths inside the worktree that are being highlighted.
    pub rehighlight_tasks: PathSet,
    /// The paths inside the worktree that are being told to the server.
    pub lsp_sync_tasks: PathSet,
    /// By the path inside the worktree.
    pub save_error: Option<(FilePath, String)>,
    /// By the whole path.
    pub lsp_opened_files: PathSet,
    /// By the whole path.
    pub lsp_document_versions: Table<FilePath, i64>,
    /// By the whole path.
    pub lsp_uri_cache: Table<FilePath, String>,
    /// By the path inside the worktree.
    pub lsp_last_synced_content: Table<FilePath, String>,
    /// By the path inside the worktree.
    pub lsp_synced_version: Table<FilePath, i64>,
    /// By the path inside the worktree.
    pub lsp_diagnostics_confirmed_version: Table<FilePath, i64>,
    pub caches: SurfaceCaches,
}

/// A rename as the tables see it: by the whole path, and by the path inside
/// the worktree at `root`.
pub struct Rename {
    pub root: FilePath,
    pub old_path: FilePath,
    pub new_path: FilePath,
    pub old_relative: FilePath,
    pub new_relative: FilePath,
}

/// A rename: what it is of, and the new path as it was given.
pub struct RenameView {
    pub root: PathView,
    pub old_path: PathView,
    pub new_path: PathText,
    pub old_relative: PathView,
    pub new_relative: PathText,
}

impl View for Rename {
    type V = RenameView;

    open spec fn view(&self) -> RenameView {
        RenameView {
            root: self.root@,
            old_path: self.old_path@,
            new_path: self.new_path.text(),
            old_relative: self.old_relative@,
            new_relative: self.new_relative.text(),
        }
    }
}

/// A rename of `old_path` to `new_path` in the worktree at `root`.
pub open spec fn rename_in(root: PathView, old_path: PathView, new_path: PathText) -> RenameView {
    RenameView {
        root,
        old_path,
        new_path,
        old_relative: from_root(old_path, root),
        new_relative: text_from_root(new_path, root),
    }
}

pub open spec fn paths_moved(paths: Seq<PathText>, from: PathView, to: PathText) -> Seq<PathText> {
    paths.map_values(|path: PathText| text_moved(path, from, to))
}

pub open spec fn paths_outside(paths: Seq<PathText>, base: PathView) -> Seq<PathText> {
    paths.filter(|path: PathText| !is_under(components(path), base))
}

/// The key that a buffer has after a rename: another worktree's is its own.
pub open spec fn key_moved(key: (PathView, PathView), rename: RenameView) -> (PathView, PathView) {
    if key.0 == rename.root {
        (key.0, moved(key.1, rename.old_relative, components(rename.new_relative)))
    } else {
        key
    }
}

pub open spec fn buffer_moved(
    key: (PathView, PathView),
    buffer: BufferView,
    rename: RenameView,
) -> BufferView {
    if key.0 == rename.root {
        BufferView { path: text_moved(buffer.path, rename.old_path, rename.new_path), ..buffer }
    } else {
        buffer
    }
}

/// Whether `after` holds the buffers of `before` after a rename: each under
/// its new key and no others.
pub open spec fn buffers_followed(
    before: Map<(PathView, PathView), EditBuffer>,
    after: Map<(PathView, PathView), EditBuffer>,
    rename: RenameView,
) -> bool {
    &&& forall|key: (PathView, PathView)| #[trigger]
        before.contains_key(key) ==> after.contains_key(key_moved(key, rename))
    &&& forall|there: (PathView, PathView)| #[trigger]
        after.contains_key(there) ==> exists|key: (PathView, PathView)| #[trigger]
            before.contains_key(key) && key_moved(key, rename) == there && after[there]@
                == buffer_moved(key, before[key]@, rename)
}

/// The buffers without those of the worktree at `root` that lie at `base` or
/// below it.
pub open spec fn buffers_outside(
    buffers: Map<(PathView, PathView), EditBuffer>,
    root: PathView,
    base: PathView,
) -> Map<(PathView, PathView), EditBuffer> {
    buffers.remove_keys(
        buffers.dom().filter(
            |key: (PathView, PathView)| key.0 == root && is_under(key.1, base),
        ),
    )
}

/// Lets every path of a list follow a rename.
pub fn remap_paths(paths: &Vec<FilePath>, old_path: &FilePath, new_path: &FilePath) -> (there: Vec<
    FilePath,
>)
    ensures
        given(there@) == paths_moved(given(paths@), old_path@, new_path.text()),
{
    let ghost wanted = paths_moved(given(paths@), old_path@, new_path.text());
    let mut there: Vec<FilePath> = Vec::new();
    let mut i: usize = 0;
    while i < paths.len()
        invariant
            i <= paths.len(),
            wanted == paths_moved(given(paths@), old_path@, new_path.text()),
            given(there@) == wanted.take(i as int),
        decreases paths.len() - i,
    {
        let ghost before = given(there@);
        let target = match remap_path(&paths[i], old_path, new_path) {
            Some(target) => target,
            None => paths[i].clone(),
        };
        there.push(target);
        assert(given(there@) =~= before.push(target.text()));
        assert(given(there@) =~= wanted.take(i + 1));
        i += 1;
    }
    assert(given(there@) =~= wanted);
    there
}

/// The paths of a list that lie neither at `base` nor below it.
pub fn drop_under(paths: &Vec<FilePath>, base: &FilePath) -> (kept: Vec<FilePath>)
    ensures
        given(kept@) == paths_outside(given(paths@), base@),
{
    let ghost all = given(paths@);
    let ghost pred = |path: PathText| !is_under(components(path), base@);
    let mut kept: Vec<FilePath> = Vec::new();
    proof {
        reveal(Seq::filter);
        assert(given(kept@) =~= all.take(0).filter(pred));
    }
    let mut i: usize = 0;
    while i < paths.len()
        invariant
            i <= paths.len(),
            all == given(paths@),
            pred == (|path: PathText| !is_under(components(path), base@)),
            given(kept@) == all.take(i as int).filter(pred),
        decreases paths.len() - i,
    {
        let ghost before = given(kept@);
        proof {
            reveal(Seq::filter);
            assert(all.take(i + 1).drop_last() =~= all.take(i as int));
            assert(all.take(i + 1).last() == paths@[i as int].text());
        }
        if !paths[i].starts_with(base) {
            kept.push(paths[i].clone());
            assert(given(kept@) =~= before.push(paths@[i as int].text()));
        }
        i += 1;
    }
    assert(all.take(i as int) =~= all);
    kept
}

impl Documents {
    /// Whether no file is open and nothing is kept.
    pub open spec fn keeps_nothing(self) -> bool {
        &&& self.open_files@.len() == 0
        &&& self.edit_buffers@ == Map::<(PathView, PathView), EditBuffer>::empty()
        &&& self.external_conflict@ == Set::<PathView>::empty()
        &&& self.save_pending@ == Set::<PathView>::empty()
        &&& self.save_running@ == Set::<PathView>::empty()
        &&& self.save_tasks@ == Set::<PathView>::empty()
        &&& self.rehighlight_tasks@ == Set::<PathView>::empty()
        &&& self.lsp_sync_tasks@ == Set::<PathView>::empty()
        &&& self.save_error is None
        &&& self.lsp_opened_files@ == Set::<PathView>::empty()
        &&& self.lsp_document_versions@ == Map::<PathView, i64>::empty()
        &&& self.lsp_uri_cache@ == Map::<PathView, String>::empty()
        &&& self.lsp_last_synced_content@ == Map::<PathView, String>::empty()
        &&& self.lsp_synced_version@ == Map::<PathView, i64>::empty()
        &&& self.lsp_diagnostics_confirmed_version@ == Map::<PathView, i64>::empty()
        &&& self.caches == no_caches()
    }

    /// No file open, and nothing kept.
    pub fn new() -> (docs: Documents)
        ensures
            docs.keeps_nothing(),
    {
        Documents {
            open_files: Vec::new(),
            edit_buffers: Table::new(),
            external_conflict: PathSet::new(),
            save_pending: PathSet::new(),
            save_running: PathSet::new(),
            save_tasks: PathSet::new(),
            rehighlight_tasks: PathSet::new(),
            lsp_sync_tasks: PathSet::new(),
            save_error: None,
            lsp_opened_files: PathSet::new(),
            lsp_document_versions: Table::new(),
            lsp_uri_cache: Table::new(),
            lsp_last_synced_content: Table::new(),
            lsp_synced_version: Table::new(),
            lsp_diagnostics_confirmed_version: Table::new(),
            caches: SurfaceCaches {
                file_view: false,
                file_load: false,
                freshness_check: false,
                diff_highlight: false,
                row_layout: false,
                last_layout: false,
                last_bounds: false,
                last_layout_for: false,
                hover: false,
                completions: false,
                pending_cursor_line: false,
            },
        }
    }

    /// Drops what the language server was told about the documents at the
    /// two bases and below them: one for the tables that go by the whole
    /// path, one for those that go by the path inside the worktree.
    pub fn forget_lsp_document_state(&mut self, absolute: &FilePath, relative: &FilePath)
        ensures
            *final(self) == (Documents {
                lsp_opened_files: final(self).lsp_opened_files,
                lsp_document_versions: final(self).lsp_document_versions,
                lsp_uri_cache: final(self).lsp_uri_cache,
                lsp_last_synced_content: final(self).lsp_last_synced_content,
                lsp_synced_version: final(self).lsp_synced_version,
                lsp_diagnostics_confirmed_version: final(self).lsp_diagnostics_confirmed_version,
                ..*old(self)
            }),
            old(self).lsp_forgotten(*final(self), absolute@, relative@),
    {
        self.lsp_opened_files.remove_under(absolute);
        self.lsp_document_versions.remove_under(absolute);
        self.lsp_uri_cache.remove_under(absolute);
        self.lsp_last_synced_content.remove_under(relative);
        self.lsp_synced_version.remove_under(relative);
        self.lsp_diagnostics_confirmed_version.remove_under(relative);
    }

    pub open spec fn lsp_forgotten(
        self,
        next: Documents,
        absolute: PathView,
        relative: PathView,
    ) -> bool {
        &&& next.lsp_opened_files@ == members_outside(self.lsp_opened_files@, absolute)
        &&& next.lsp_document_versions@ == rows_outside(self.lsp_document_versions@, absolute)
        &&& next.lsp_uri_cache@ == rows_outside(self.lsp_uri_cache@, absolute)
        &&& next.lsp_last_synced_content@ == rows_outside(self.lsp_last_synced_content@, relative)
        &&& next.lsp_synced_version@ == rows_outside(self.lsp_synced_version@, relative)
        &&& next.lsp_diagnostics_confirmed_version@ == rows_outside(
            self.lsp_diagnostics_confirmed_version@,
            relative,
        )
    }

    /// Drops everything that was computed for the open file.
    pub fn invalidate_code_surface_caches(&mut self)
        ensures
            *final(self) == (Documents { caches: no_caches(), ..*old(self) }),
    {
        self.caches = SurfaceCaches {
            file_view: false,
            file_load: false,
            freshness_check: false,
            diff_highlight: false,
            row_layout: false,
            last_layout: false,
            last_bounds: false,
            last_layout_for: false,
            hover: false,
            completions: false,
            pending_cursor_line: false,
        };
    }

    fn follow_buffers(&mut self, rename: &Rename)
        ensures
            *final(self) == (Documents { edit_buffers: final(self).edit_buffers, ..*old(self) }),
            buffers_followed(old(self).edit_buffers@, final(self).edit_buffers@, rename@),
    {
        let ghost before = self.edit_buffers@;
        let rows = self.edit_buffers.drain();
        let ghost all = rows@;
        let mut there: Table<WorktreePath, EditBuffer> = Table::new();
        for row in it: rows
            invariant
                it.seq() == all,
                lists(all, before),
                forall|i: int|
                    0 <= i < it.index() ==> there@.contains_key(
                        key_moved((#[trigger] all[i]).0@, rename@),
                    ),
                forall|target: (PathView, PathView)| #[trigger]
                    there@.contains_key(target) ==> exists|key: (PathView, PathView)| #[trigger]
                        before.contains_key(key) && key_moved(key, rename@) == target
                            && there@[target]@ == buffer_moved(key, before[key]@, rename@),
        {
            let ghost i = it.index() as int;
            let ghost previous = there@;
            assert(row == all[i]);
            let (key, buffer) = row;
            let ghost old_key = key@;
            let ghost old_buffer = buffer;
            assert(before.contains_key(all[i].0@));
            if key.worktree.same(&rename.root) {
                let relative = match remap_path(
                    &key.path,
                    &rename.old_relative,
                    &rename.new_relative,
                ) {
                    Some(target) => target,
                    None => key.path,
                };
                let path = match remap_path(&buffer.path, &rename.old_path, &rename.new_path) {
                    Some(target) => target,
                    None => buffer.path,
                };
                let next = EditBuffer { path, text: buffer.text };
                there.insert(WorktreePath { worktree: key.worktree, path: relative }, next);
                assert(there@ == previous.insert(key_moved(old_key, rename@), next));
                assert(next@ == buffer_moved(old_key, old_buffer@, rename@));
            } else {
                there.insert(key, buffer);
                assert(there@ == previous.insert(key_moved(old_key, rename@), buffer));
            }
            assert forall|target: (PathView, PathView)| #[trigger]
                there@.contains_key(target) implies exists|key: (PathView, PathView)| #[trigger]
                before.contains_key(key) && key_moved(key, rename@) == target && there@[target]@
                    == buffer_moved(key, before[key]@, rename@) by {
                if target == key_moved(old_key, rename@) {
                    assert(before.contains_key(old_key));
                } else {
                    assert(previous.contains_key(target));
                }
            }
        }
        self.edit_buffers = there;
        assert forall|key: (PathView, PathView)| #[trigger] before.contains_key(
            key,
        ) implies there@.contains_key(key_moved(key, rename@)) by {
            let i = choose|i: int| 0 <= i < all.len() && (#[trigger] all[i]).0@ == key;
            assert(all[i].0@ == key);
        }
    }

    /// Lets everything that is kept by path follow a rename. Work on its way
    /// for a path that is no more is dropped, and so is what the language
    /// server was told.
    pub fn follow_rename(&mut self, rename: &Rename)
        ensures
            old(self).renamed(*final(self), rename@),
    {
        self.open_files = remap_paths(&self.open_files, &rename.old_relative, &rename.new_relative);
        self.follow_buffers(rename);
        self.external_conflict.remap(&rename.old_relative, &rename.new_relative);
        self.save_pending.remap(&rename.old_relative, &rename.new_relative);
        self.save_running.remove_under(&rename.old_relative);
        self.save_tasks.remove_under(&rename.old_relative);
        self.rehighlight_tasks.remove_under(&rename.old_relative);
        self.lsp_sync_tasks.remove_under(&rename.old_relative);
        let error = self.save_error.take();
        self.save_error = match error {
            Some((path, message)) => {
                let there = match remap_path(&path, &rename.old_relative, &rename.new_relative) {
                    Some(target) => target,
                    None => path,
                };
                Some((there, message))
            },
            None => None,
        };
        self.forget_lsp_document_state(&rename.old_path, &rename.old_relative);
        self.invalidate_code_surface_caches();
    }

    /// Whether `next` is this after a rename.
    pub open spec fn renamed(self, next: Documents, rename: RenameView) -> bool {
        let from = rename.old_relative;
        let to = components(rename.new_relative);
        &&& given(next.open_files@) == paths_moved(
            given(self.open_files@),
            from,
            rename.new_relative,
        )
        &&& buffers_followed(self.edit_buffers@, next.edit_buffers@, rename)
        &&& next.external_conflict@ == members_moved(self.external_conflict@, from, to)
        &&& next.save_pending@ == members_moved(self.save_pending@, from, to)
        &&& next.save_running@ == members_outside(self.save_running@, from)
        &&& next.save_tasks@ == members_outside(self.save_tasks@, from)
        &&& next.rehighlight_tasks@ == members_outside(self.rehighlight_tasks@, from)
        &&& next.lsp_sync_tasks@ == members_outside(self.lsp_sync_tasks@, from)
        &&& message_view(next.save_error) == match self.save_error {
            Some((path, message)) => Some(
                (text_moved(path.text(), from, rename.new_relative), message@),
            ),
            None => None,
        }
        &&& self.lsp_forgotten(next, rename.old_path, from)
        &&& next.caches == no_caches()
    }

    /// Drops everything that is kept about `deleted` and the paths below it.
    pub fn forget(&mut self, root: &FilePath, deleted: &FilePath, relative: &FilePath)
        ensures
            old(self).forgotten(*final(self), root@, deleted@, relative@),
    {
        self.open_files = drop_under(&self.open_files, relative);
        self.forget_buffers(root, relative);
        self.external_conflict.remove_under(relative);
        self.save_pending.remove_under(relative);
        self.save_running.remove_under(relative);
        self.save_tasks.remove_under(relative);
        self.rehighlight_tasks.remove_under(relative);
        self.lsp_sync_tasks.remove_under(relative);
        let gone = match &self.save_error {
            Some((path, _)) => path.starts_with(relative),
            None => false,
        };
        if gone {
            self.save_error = None;
        }
        self.forget_lsp_document_state(deleted, relative);
        self.invalidate_code_surface_caches();
    }

    /// Whether `next` is this after a deletion.
    pub open spec fn forgotten(
        self,
        next: Documents,
        root: PathView,
        deleted: PathView,
        relative: PathView,
    ) -> bool {
        &&& given(next.open_files@) == paths_outside(given(self.open_files@), relative)
        &&& next.edit_buffers@ == buffers_outside(self.edit_buffers@, root, relative)
        &&& next.external_conflict@ == members_outside(self.external_conflict@, relative)
        &&& next.save_pending@ == members_outside(self.save_pending@, relative)
        &&& next.save_running@ == members_outside(self.save_running@, relative)
        &&& next.save_tasks@ == members_outside(self.save_tasks@, relative)
        &&& next.rehighlight_tasks@ == members_outside(self.rehighlight_tasks@, relative)
        &&& next.lsp_sync_tasks@ == members_outside(self.lsp_sync_tasks@, relative)
        &&& next.save_error == match self.save_error {
            Some((path, _)) if is_under(path@, relative) => None,
            other => other,
        }
        &&& self.lsp_forgotten(next, deleted, relative)
        &&& next.caches == no_caches()
    }

    fn forget_buffers(&mut self, root: &FilePath, relative: &FilePath)
        ensures
            *final(self) == (Documents { edit_buffers: final(self).edit_buffers, ..*old(self) }),
            final(self).edit_buffers@ == buffers_outside(
                old(self).edit_buffers@,
                root@,
                relative@,
            ),
    {
        let ghost before = self.edit_buffers@;
        let rows = self.edit_buffers.drain();
        let ghost all = rows@;
        let mut kept: Table<WorktreePath, EditBuffer> = Table::new();
        for row in it: rows
            invariant
                it.seq() == all,
                lists(all, before),
                forall|i: int|
                    0 <= i < it.index() && !((#[trigger] all[i]).0@.0 == root@ && is_under(
                        all[i].0@.1,
                        relative@,
                    )) ==> kept@.contains_key(all[i].0@),
                forall|key: (PathView, PathView)| #[trigger]
                    kept@.contains_key(key) ==> before.contains_key(key) && kept@[key]
                        == before[key] && !(key.0 == root@ && is_under(key.1, relative@)),
        {
            let ghost i = it.index() as int;
            assert(row == all[i]);
            let (key, buffer) = row;
            assert(before.contains_key(all[i].0@));
            if !(key.worktree.same(root) && key.path.starts_with(relative)) {
                kept.insert(key, buffer);
            }
        }
        self.edit_buffers = kept;
        proof {
            let after = kept@;
            let wanted = buffers_outside(before, root@, relative@);
            assert forall|key: (PathView, PathView)| after.contains_key(key)
                == wanted.contains_key(key) by {
                if wanted.contains_key(key) {
                    let i = choose|i: int| 0 <= i < all.len() && (#[trigger] all[i]).0@ == key;
                    assert(all[i].0@ == key);
                }
            }
            assert(after =~= wanted);
        }
    }
}

/// A rename leaves no buffer behind: none of this worktree's is kept under the
/// old path or below it.
pub proof fn law_rename_leaves_no_orphan(
    before: Documents,
    after: Documents,
    rename: RenameView,
    key: (PathView, PathView),
)
    requires
        before.renamed(after, rename),
        !is_bare(rename.old_relative),
        !is_under(components(rename.new_relative), rename.old_relative),
        !is_under(rename.old_relative, components(rename.new_relative)),
        after.edit_buffers@.contains_key(key),
        key.0 == rename.root,
    ensures
        !is_under(key.1, rename.old_relative),
{
    let old_buffers = before.edit_buffers@;
    before.edit_buffers.law_keys_are_paths();
    let from = choose|k: (PathView, PathView)| #[trigger]
        old_buffers.contains_key(k) && key_moved(k, rename) == key && after.edit_buffers@[key]@
            == buffer_moved(k, old_buffers[k]@, rename);
    lemma_moved_away(from.1, rename.old_relative, components(rename.new_relative));
}

/// A path that followed a rename to a place beside the old one lies no longer
/// at the old one.
proof fn lemma_moved_away(path: PathView, from: PathView, to: PathView)
    requires
        well_formed(path),
        !is_bare(from),
        !is_under(to, from),
        !is_under(from, to),
    ensures
        !is_under(moved(path, from, to), from),
{
    if remapped(path, from, to) is Some {
        let there = moved(path, from, to);
        lemma_remap_back(path, from, to);
        assert(is_under(there, to)) by {
            if there == to {
                assert(there.take(to.len() as int) =~= to);
            }
        }
        if is_under(there, from) {
            if from.len() <= to.len() {
                assert(to.take(from.len() as int) =~= there.take(from.len() as int)) by {
                    assert(there.take(to.len() as int).take(from.len() as int) =~= there.take(
                        from.len() as int,
                    ));
                }
            } else {
                assert(from.take(to.len() as int) =~= there.take(to.len() as int)) by {
                    assert(there.take(from.len() as int).take(to.len() as int) =~= there.take(
                        to.len() as int,
                    ));
                }
            }
        }
    } else if path == from {
    }
}

/// A rename and the rename back leave every set of paths as it was, where
/// nothing lay at the new path before.
pub proof fn law_rename_back_restores(set: PathSet, from: PathView, to: PathView)
    requires
        !is_bare(from),
        forall|path: PathView| #[trigger] set@.contains(path) ==> !is_under(path, to),
    ensures
        members_moved(members_moved(set@, from, to), to, from) == set@,
{
    set.law_members_are_paths();
    lemma_set_moved_back(set@, from, to);
}

/// A path that lay elsewhere follows a rename and the rename back home.
pub(crate) proof fn lemma_moved_back(path: PathView, from: PathView, to: PathView)
    requires
        !is_bare(from),
        well_formed(path),
        !is_under(path, to),
    ensures
        moved(moved(path, from, to), to, from) == path,
{
    if remapped(path, from, to) is Some {
        lemma_remap_back(path, from, to);
    } else if path == to {
        assert(path.take(to.len() as int) =~= to);
    }
}

/// A rename and the rename back leave the tabs as they were.
pub(crate) proof fn lemma_tabs_moved_back(
    tabs: Seq<PathText>,
    from: PathText,
    to: PathText,
)
    requires
        !is_bare(components(from)),
        forall|i: int| 0 <= i < tabs.len() ==> !is_under(#[trigger] read(tabs)[i], components(to)),
    ensures
        read(paths_moved(paths_moved(tabs, components(from), to), components(to), from)) == read(
            tabs,
        ),
{
    let there = paths_moved(tabs, components(from), to);
    let back = paths_moved(there, components(to), from);
    assert forall|i: int| 0 <= i < tabs.len() implies #[trigger] read(back)[i] == read(
        tabs,
    )[i] by {
        let path = read(tabs)[i];
        assert(path == components(tabs[i]));
        law_components_are_well_formed(tabs[i]);
        lemma_text_moved(tabs[i], components(from), to);
        assert(there[i] == text_moved(tabs[i], components(from), to));
        lemma_text_moved(there[i], components(to), from);
        lemma_moved_back(path, components(from), components(to));
        assert(back[i] == text_moved(there[i], components(to), from));
    }
    assert(read(back) =~= read(tabs));
}

/// A rename and the rename back leave each buffer under its key, with the text
/// that it had, where none lay at the new path before.
pub(crate) proof fn lemma_buffers_moved_back(
    first: Table<WorktreePath, EditBuffer>,
    second: Table<WorktreePath, EditBuffer>,
    third: Table<WorktreePath, EditBuffer>,
    rename: RenameView,
    again: RenameView,
)
    requires
        buffers_followed(first@, second@, rename),
        buffers_followed(second@, third@, again),
        again.root == rename.root,
        again.old_relative == components(rename.new_relative),
        components(again.new_relative) == rename.old_relative,
        !is_bare(rename.old_relative),
        forall|key: (PathView, PathView)| #[trigger]
            first@.contains_key(key) && key.0 == rename.root ==> !is_under(
                key.1,
                components(rename.new_relative),
            ),
    ensures
        third@.dom() == first@.dom(),
        forall|key: (PathView, PathView)| #[trigger]
            first@.contains_key(key) ==> third@[key].text@ == first@[key].text@,
{
    first.law_keys_are_paths();
    let from = rename.old_relative;
    let to = components(rename.new_relative);
    assert forall|key: (PathView, PathView)| #[trigger] first@.contains_key(key) implies key_moved(
        key_moved(key, rename),
        again,
    ) == key by {
        if key.0 == rename.root {
            lemma_moved_back(key.1, from, to);
        }
    }
    assert forall|key: (PathView, PathView)| third@.contains_key(key) == #[trigger]
        first@.contains_key(key) by {
        if first@.contains_key(key) {
            assert(second@.contains_key(key_moved(key, rename)));
            assert(third@.contains_key(key_moved(key_moved(key, rename), again)));
        }
        if third@.contains_key(key) {
            let middle = choose|k: (PathView, PathView)| #[trigger]
                second@.contains_key(k) && key_moved(k, again) == key && third@[key]@
                    == buffer_moved(k, second@[k]@, again);
            let start = choose|k: (PathView, PathView)| #[trigger]
                first@.contains_key(k) && key_moved(k, rename) == middle && second@[middle]@
                    == buffer_moved(k, first@[k]@, rename);
            assert(key_moved(key_moved(start, rename), again) == start);
        }
    }
    assert forall|key: (PathView, PathView)| #[trigger] first@.contains_key(key) implies
        third@[key].text@ == first@[key].text@ by {
        assert(third@.contains_key(key));
        let middle = choose|k: (PathView, PathView)| #[trigger]
            second@.contains_key(k) && key_moved(k, again) == key && third@[key]@ == buffer_moved(
                k,
                second@[k]@,
                again,
            );
        let start = choose|k: (PathView, PathView)| #[trigger]
            first@.contains_key(k) && key_moved(k, rename) == middle && second@[middle]@
                == buffer_moved(k, first@[k]@, rename);
        assert(key_moved(key_moved(start, rename), again) == start);
        assert(third@[key]@.text == second@[middle]@.text);
        assert(second@[middle]@.text == first@[start]@.text);
    }
    assert(third@.dom() =~= first@.dom());
}

proof fn lemma_set_moved_back(set: Set<PathView>, from: PathView, to: PathView)
    requires
        !is_bare(from),
        forall|path: PathView| #[trigger] set.contains(path) ==> well_formed(path) && !is_under(
            path,
            to,
        ),
    ensures
        members_moved(members_moved(set, from, to), to, from) == set,
{
    let there = |path: PathView| moved(path, from, to);
    let back = |path: PathView| moved(path, to, from);
    let result = members_moved(members_moved(set, from, to), to, from);
    assert forall|p: PathView| set.contains(p) implies back(there(p)) == p by {
        if remapped(p, from, to) is Some {
            lemma_remap_back(p, from, to);
        } else if p == to {
            assert(p.take(to.len() as int) =~= to);
        }
    }
    assert forall|p: PathView| result.contains(p) == set.contains(p) by {
        if result.contains(p) {
            let q = choose|q: PathView| set.map(there).contains(q) && p == back(q);
            let r = choose|r: PathView| set.contains(r) && q == there(r);
            assert(back(there(r)) == r);
        }
        if set.contains(p) {
            assert(set.map(there).contains(there(p)));
            assert(back(there(p)) == p);
        }
    }
    assert(result =~= set);
}

/// A deleted path, and everything below it, is forgotten in every table of
/// open files, so that a new file at its place starts afresh.
pub proof fn law_deleted_is_forgotten(
    before: Documents,
    after: Documents,
    root: PathView,
    deleted: PathView,
    relative: PathView,
    path: PathView,
)
    requires
        before.forgotten(after, root, deleted, relative),
    ensures
        is_under(path, relative) ==> {
            &&& !views(after.open_files@).contains(path)
            &&& !after.edit_buffers@.contains_key((root, path))
            &&& !after.external_conflict@.contains(path)
            &&& !after.save_pending@.contains(path)
            &&& !after.save_running@.contains(path)
            &&& !after.lsp_last_synced_content@.contains_key(path)
            &&& !after.lsp_synced_version@.contains_key(path)
            &&& !after.lsp_diagnostics_confirmed_version@.contains_key(path)
        },
        is_under(path, deleted) ==> {
            &&& !after.lsp_opened_files@.contains(path)
            &&& !after.lsp_document_versions@.contains_key(path)
            &&& !after.lsp_uri_cache@.contains_key(path)
        },
        forall|other: PathView, p: PathView|
            other != root ==> after.edit_buffers@.contains_key((other, p)) == #[trigger]
                before.edit_buffers@.contains_key((other, p)),
{
    let all = given(before.open_files@);
    let left = given(after.open_files@);
    let keep = |p: PathText| !is_under(components(p), relative);
    if views(after.open_files@).contains(path) {
        broadcast use vstd::seq_lib::group_filter_ensures;

        let k = choose|k: int|
            0 <= k < views(after.open_files@).len() && views(after.open_files@)[k] == path;
        assert(keep(all.filter(keep)[k]));
        assert(components(left[k]) == path);
    }
}

} // verus!
