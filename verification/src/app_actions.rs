//! Browser actions: navigation, selection, bookmarks, filters, and the requests they start.
use vstd::prelude::*;
use crate::app::{
    App, DlEntry, Effect, FilteredItem, PlanItem, Preview, Screen, Status, path_set,
    distinct_paths, position_of, sort_next_spec,
};
use crate::app_filter::rebuilt;
use crate::config::theme_index;
use crate::providers::{Node, NodeKind, ProviderKind, clone_opt_string, is_binary_ext, is_binary_name};
use crate::theme::{Theme, palette};

verus! {

/// The entry under the highlight.
pub open spec fn current_spec(a: App) -> Option<Node> {
    match a.list_sel {
        Some(i) => if i < a.filtered@.len() && a.filtered@[i as int].idx < a.files@.len() {
            Some(a.files@[a.filtered@[i as int].idx as int])
        } else {
            None
        },
        None => None,
    }
}

/// Index of the first string equal to `p`, or -1.
pub open spec fn first_index(v: Seq<String>, p: Seq<char>) -> int
    decreases v.len(),
{
    if v.len() == 0 {
        -1
    } else if first_index(v.drop_last(), p) >= 0 {
        first_index(v.drop_last(), p)
    } else if v.last()@ == p {
        v.len() - 1
    } else {
        -1
    }
}

proof fn lemma_first_index(v: Seq<String>, p: Seq<char>, i: int)
    requires
        0 <= i <= v.len(),
        forall|j: int| 0 <= j < i ==> (#[trigger] v[j])@ != p,
        i < v.len() ==> v[i]@ == p,
    ensures
        first_index(v, p) == if i < v.len() {
            i
        } else {
            -1
        },
    decreases v.len(),
{
    if v.len() > 0 {
        if i < v.len() - 1 {
            lemma_first_index(v.drop_last(), p, i);
        } else {
            lemma_first_index(v.drop_last(), p, v.len() - 1);
        }
    }
}

pub proof fn lemma_first_index_pub(v: Seq<String>, p: Seq<char>, i: int)
    requires
        0 <= i <= v.len(),
        forall|j: int| 0 <= j < i ==> (#[trigger] v[j])@ != p,
        i < v.len() ==> v[i]@ == p,
    ensures
        first_index(v, p) == if i < v.len() {
            i
        } else {
            -1
        },
{
    lemma_first_index(v, p, i);
}

/// Bookmarks after toggling the pin of path `p`.
pub open spec fn toggled_bookmarks(b: Seq<String>, p: String) -> Seq<String> {
    let i = first_index(b, p@);
    if i >= 0 {
        b.remove(i)
    } else {
        b.push(p)
    }
}

/// Pinning or unpinning keeps every path pinned at most once.
pub proof fn lemma_toggled_distinct(b: Seq<String>, p: String)
    requires
        distinct_paths(b),
    ensures
        distinct_paths(toggled_bookmarks(b, p)),
{
    let i = first_index(b, p@);
    lemma_first_index_range(b, p@);
    if i >= 0 {
        let r = b.remove(i);
        assert forall|x: int, y: int| 0 <= x < y < r.len() implies (#[trigger] r[x])@ != (#[trigger] r[y])@ by {
            let bx = if x < i { x } else { x + 1 };
            let by = if y < i { y } else { y + 1 };
            assert(r[x] == b[bx]);
            assert(r[y] == b[by]);
        }
    } else {
        let r = b.push(p);
        assert forall|x: int, y: int| 0 <= x < y < r.len() implies (#[trigger] r[x])@ != (#[trigger] r[y])@ by {
            if y == b.len() {
                assert(r[x] == b[x]);
            }
        }
    }
}

proof fn lemma_first_index_range(v: Seq<String>, p: Seq<char>)
    ensures
        -1 <= first_index(v, p) < v.len(),
        first_index(v, p) >= 0 ==> v[first_index(v, p)]@ == p,
        first_index(v, p) < 0 ==> forall|j: int| 0 <= j < v.len() ==> (#[trigger] v[j])@ != p,
    decreases v.len(),
{
    if v.len() > 0 {
        lemma_first_index_range(v.drop_last(), p);
        if first_index(v.drop_last(), p) < 0 {
            assert forall|j: int| 0 <= j < v.len() - 1 implies (#[trigger] v[j])@ != p by {
                assert(v.drop_last()[j] == v[j]);
            }
        } else {
            assert(v.drop_last()[first_index(v.drop_last(), p)] == v[first_index(v.drop_last(), p)]);
        }
    }
}

/// Set view after toggling `p`.
pub open spec fn toggle(s: Set<Seq<char>>, p: Seq<char>) -> Set<Seq<char>> {
    if s.contains(p) {
        s.remove(p)
    } else {
        s.insert(p)
    }
}

/// Set view after toggling each path of `ps` in turn.
pub open spec fn toggle_all(s: Set<Seq<char>>, ps: Seq<Seq<char>>) -> Set<Seq<char>>
    decreases ps.len(),
{
    if ps.len() == 0 {
        s
    } else {
        toggle(toggle_all(s, ps.drop_last()), ps.last())
    }
}

/// Paths of the listed entries, in listing order.
pub open spec fn visible_paths(a: App) -> Seq<Seq<char>> {
    a.filtered@.filter(|fi: FilteredItem| fi.idx < a.files@.len()).map_values(
        |fi: FilteredItem| a.files@[fi.idx as int].path@,
    )
}

/// `new` differs from `old` only in which paths are selected.
pub open spec fn selection_changed(old: App, new: App) -> bool {
    &&& new == (App { selected: new.selected, ..old })
    &&& distinct_paths(new.selected@)
}

/// Highlight position after moving by `delta` rows, kept within the list.
pub open spec fn paged(sel: Option<usize>, delta: int, len: int) -> int {
    let i = match sel {
        Some(i) => i as int,
        None => 0,
    };
    let t = i + delta;
    let lo = if t > 0 {
        t
    } else {
        0
    };
    if lo < len - 1 {
        lo
    } else {
        len - 1
    }
}

/// Size threshold after the next press of the size-filter key.
pub open spec fn next_min_size(m: Option<u64>) -> Option<u64> {
    match m {
        None => Some(1024),
        Some(1024) => Some(100_000),
        Some(100_000) => Some(1_000_000),
        _ => None,
    }
}

/// Token configured for a provider.
pub open spec fn token_for(a: App, kind: ProviderKind) -> Option<String> {
    match kind {
        ProviderKind::GitHub => a.config.auth.github_token,
        ProviderKind::GitLab => a.config.auth.gitlab_token,
        ProviderKind::Codeberg => a.config.auth.codeberg_token,
        ProviderKind::Gitea => a.config.auth.gitea_token,
    }
}

pub open spec fn client_effect(a: App) -> Effect {
    Effect::RebuildClient {
        kind: a.provider,
        token: token_for(a, a.provider),
        instance: a.instance_url,
        parallel: (if a.config.core.parallel > 1 {
            a.config.core.parallel
        } else {
            1
        }) as usize,
    }
}

/// `b` is `a` after starting to list directory `path`.
pub open spec fn load_contents_rel(a: App, path: String, b: App) -> bool {
    &&& b == (App {
        loading: true,
        error: None,
        ext_filter: None,
        status: Status::LoadingPath(path),
        effects: b.effects,
        ..a
    })
    &&& b.effects@ == a.effects@.push(
        Effect::LoadContents { owner: a.owner, repo: a.repo, path: path, branch: a.branch },
    )
}

/// `b` is `a` after going back to the directory on top of the path stack (if any).
pub open spec fn go_back_rel(a: App, b: App) -> bool {
    if a.path_stack@.len() == 0 {
        b == a
    } else {
        &&& b.path_stack@ == a.path_stack@.drop_last()
        &&& load_contents_rel(App { path_stack: b.path_stack, ..a }, a.path_stack@.last(), b)
    }
}

/// `b` is `a` after starting to download `n` (nothing happens without a download URL).
pub open spec fn download_rel(a: App, n: Node, b: App) -> bool {
    match n.download_url {
        None => b == a,
        Some(url) => {
            &&& b == (App {
                downloads: b.downloads,
                status: Status::Downloading(n.name),
                effects: b.effects,
                ..a
            })
            &&& b.downloads@.len() == a.downloads@.len() + 1
            &&& b.downloads@.drop_last() == a.downloads@
            &&& b.downloads@.last() == (DlEntry { name: n.name, path: n.path, done: false, skipped: false, error: None })
            &&& b.effects@ == a.effects@.push(
                Effect::Download {
                    url,
                    path: n.path,
                    dest_dir: a.config.core.download_path,
                    dest: if a.dl_preserve_structure {
                        n.path
                    } else {
                        n.name
                    },
                    skip_existing: a.dl_skip_existing,
                    retry_count: a.config.core.retry_count,
                },
            )
        },
    }
}

/// `b` is `a` after starting to download each node of `ns` in turn.
pub open spec fn downloads_rel(a: App, ns: Seq<Node>, b: App) -> bool
    decreases ns.len(),
{
    if ns.len() == 0 {
        b == a
    } else {
        exists|m: App| downloads_rel(a, ns.drop_last(), m) && download_rel(m, ns.last(), b)
    }
}

/// Largest preview that is fetched, in bytes.
pub open spec fn preview_limit() -> u64 {
    512_000
}

/// `b` is `a` after asking to preview `n`: binary and oversized files get a notice,
/// others are fetched.
pub open spec fn preview_rel(a: App, n: Node, b: App) -> bool {
    if n.kind != NodeKind::File {
        b == a
    } else {
        let size = match n.size {
            Some(s) => s,
            None => 0,
        };
        let base = App { preview_path: Some(n.path), preview_scroll: 0, ..a };
        if is_binary_name(n.name@) {
            b == (App { preview: Some(Preview::Binary { name: n.name, size, path: n.path }), ..base })
        } else if size > preview_limit() {
            b == (App { preview: Some(Preview::TooLarge { size }), ..base })
        } else {
            match n.download_url {
                None => b == (App { preview: Some(Preview::NoUrl), ..base }),
                Some(url) => {
                    &&& b == (App { preview: Some(Preview::Loading), effects: b.effects, ..base })
                    &&& b.effects@ == a.effects@.push(Effect::LoadPreview { url })
                },
            }
        }
    }
}

/// `b` is `a` after starting to open repository `owner/repo` on `kind`.
pub open spec fn load_repo_rel(
    a: App,
    kind: ProviderKind,
    owner: String,
    repo: String,
    instance: Option<String>,
    b: App,
) -> bool {
    let m = App {
        provider: kind,
        instance_url: instance,
        owner,
        repo,
        loading: true,
        error: None,
        status: Status::LoadingRepo { kind, owner, repo },
        ..a
    };
    &&& b == (App { effects: b.effects, ..m })
    &&& b.effects@ == a.effects@.push(client_effect(m)).push(Effect::LoadRepo { owner, repo })
}


/// Plan entry fields (name, path, size).
pub open spec fn plan_view(p: PlanItem) -> (Seq<char>, Seq<char>, Option<u64>) {
    (p.name@, p.path@, p.size)
}

pub open spec fn file_item(n: Node) -> (Seq<char>, Seq<char>, Option<u64>) {
    (n.name@, n.path@, n.size)
}

/// Plan entry standing for a whole directory tree.
pub open spec fn dir_item(n: Node) -> (Seq<char>, Seq<char>, Option<u64>) {
    (n.name@ + "/ (recursive)"@, n.path@, None)
}

pub open spec fn is_selected(a: App, n: Node) -> bool {
    path_set(a.selected@).contains(n.path@)
}

/// Selected files, in listing order.
pub open spec fn selected_file_nodes(a: App) -> Seq<Node> {
    a.files@.filter(|f: Node| is_selected(a, f) && f.kind == NodeKind::File)
}

/// Selected directories, in listing order, when directories are downloaded recursively.
pub open spec fn selected_dir_nodes(a: App) -> Seq<Node> {
    if a.dl_recursive {
        a.files@.filter(|f: Node| is_selected(a, f) && f.kind == NodeKind::Dir)
    } else {
        Seq::empty()
    }
}

/// `b` is `a` after opening the download plan: the selected files and (when recursive)
/// directories, or else the highlighted entry; nothing happens when there is nothing to plan.
pub open spec fn open_plan_rel(a: App, b: App) -> bool {
    let fs = selected_file_nodes(a);
    let ds = selected_dir_nodes(a);
    let planned = b == (App { plan: b.plan, screen: Screen::DownloadPlan, ..a });
    if fs.len() == 0 && ds.len() == 0 {
        match current_spec(a) {
            Some(n) => if n.kind == NodeKind::File {
                planned && b.plan@.map_values(|p: PlanItem| plan_view(p)) == seq![file_item(n)]
            } else if a.dl_recursive {
                planned && b.plan@.map_values(|p: PlanItem| plan_view(p)) == seq![dir_item(n)]
            } else {
                b == a
            },
            None => b == a,
        }
    } else {
        planned && b.plan@.map_values(|p: PlanItem| plan_view(p)) == fs.map_values(|n: Node| file_item(n))
            + ds.map_values(|n: Node| dir_item(n))
    }
}

/// First listed node with path `p`.
pub open spec fn find_node(files: Seq<Node>, p: Seq<char>) -> Option<Node>
    decreases files.len(),
{
    if files.len() == 0 {
        None
    } else if files[0].path@ == p {
        Some(files[0])
    } else {
        find_node(files.drop_first(), p)
    }
}

/// Plan entries marked as whole directory trees.
pub open spec fn is_recursive_item(p: PlanItem) -> bool {
    crate::text::contains(p.name@, "(recursive)"@)
}

/// Files that the plan downloads directly, in plan order.
pub open spec fn plan_file_nodes(files: Seq<Node>, plan: Seq<PlanItem>) -> Seq<Node>
    decreases plan.len(),
{
    if plan.len() == 0 {
        Seq::empty()
    } else {
        let rest = plan_file_nodes(files, plan.drop_last());
        let pi = plan.last();
        if !(pi.path@.len() > 0 && pi.path@.last() == '/') && !is_recursive_item(pi) {
            match find_node(files, pi.path@) {
                Some(n) => rest.push(n),
                None => rest,
            }
        } else {
            rest
        }
    }
}

/// Directories that the plan walks, in plan order.
pub open spec fn plan_dir_nodes(files: Seq<Node>, plan: Seq<PlanItem>) -> Seq<Node>
    decreases plan.len(),
{
    if plan.len() == 0 {
        Seq::empty()
    } else {
        let rest = plan_dir_nodes(files, plan.drop_last());
        let pi = plan.last();
        if is_recursive_item(pi) {
            match find_node(files, crate::text::trim_end_char(pi.path@, '/')) {
                Some(n) => rest.push(n),
                None => rest,
            }
        } else {
            rest
        }
    }
}

pub open spec fn walk_effect(a: App, n: Node) -> Effect {
    Effect::CollectRecursive { owner: a.owner, repo: a.repo, path: n.path, branch: a.branch }
}

/// `b` is `a` after carrying out the plan: directory walks are queued first, then each
/// file download starts, and the downloads panel opens.
pub open spec fn execute_plan_rel(a: App, b: App) -> bool {
    let ds = plan_dir_nodes(a.files@, a.plan@);
    let fs = plan_file_nodes(a.files@, a.plan@);
    exists|m: App, m2: App|
        {
            &&& m == (App { effects: m.effects, ..a })
            &&& m.effects@ == a.effects@ + ds.map_values(|n: Node| walk_effect(a, n))
            &&& downloads_rel(m, fs, m2)
            &&& b == (App { screen: Screen::Downloads, ..m2 })
        }
}

/// `b` is `a` with the next theme of the cycle applied, recorded in the configuration,
/// and the configuration queued for saving.
pub open spec fn next_theme_rel(a: App, b: App) -> bool {
    &&& theme_index(b.theme_name) == (theme_index(a.theme_name) + 1) % 8
    &&& b == (App {
        theme_name: b.theme_name,
        theme: palette(b.theme_name),
        config: b.config,
        status: Status::ThemeChanged(b.theme_name),
        effects: b.effects,
        ..a
    })
    &&& b.config == (crate::config::Config {
        core: crate::config::CoreConfig { theme: b.theme_name, ..a.config.core },
        ..a.config
    })
    &&& b.effects@ == a.effects@.push(Effect::SaveConfig)
}

/// `b` is `a` after pinning or unpinning the highlighted entry.
pub open spec fn toggle_bookmark_rel(a: App, b: App) -> bool {
    match current_spec(a) {
        Some(n) => {
            &&& b == (App {
                bookmarks: b.bookmarks,
                status: if first_index(a.bookmarks@, n.path@) >= 0 {
                    Status::Unpinned(n.name)
                } else {
                    Status::Pinned(n.name)
                },
                ..a
            })
            &&& b.bookmarks@ == toggled_bookmarks(a.bookmarks@, n.path)
        },
        None => b == a,
    }
}

/// `b` is `a` with the highlight one row up.
pub open spec fn nav_up_rel(a: App, b: App) -> bool {
    b == if a.filtered@.len() == 0 {
        a
    } else {
        App {
            list_sel: Some(
                match a.list_sel {
                    Some(i) => if i > 0 {
                        (i - 1) as usize
                    } else {
                        0
                    },
                    None => 0,
                },
            ),
            ..a
        }
    }
}

/// `b` is `a` with the highlight one row down, when there is a row below.
pub open spec fn nav_down_rel(a: App, b: App) -> bool {
    b == if a.filtered@.len() == 0 {
        a
    } else {
        let i = match a.list_sel {
            Some(i) => i as int,
            None => 0,
        };
        if i + 1 < a.filtered@.len() {
            App { list_sel: Some((i + 1) as usize), ..a }
        } else {
            a
        }
    }
}

/// `b` is `a` with the first row highlighted.
pub open spec fn nav_top_rel(a: App, b: App) -> bool {
    b == if a.filtered@.len() == 0 {
        a
    } else {
        App { list_sel: Some(0), ..a }
    }
}

/// `b` is `a` with the last row highlighted.
pub open spec fn nav_bottom_rel(a: App, b: App) -> bool {
    b == if a.filtered@.len() == 0 {
        a
    } else {
        App { list_sel: Some((a.filtered@.len() - 1) as usize), ..a }
    }
}

/// `b` is `a` with the highlight moved by `delta` rows, kept within the list.
pub open spec fn nav_page_rel(a: App, delta: int, b: App) -> bool {
    b == if a.filtered@.len() == 0 {
        a
    } else {
        App {
            list_sel: Some(
                paged(a.list_sel, delta, a.filtered@.len() as int) as usize,
            ),
            ..a
        }
    }
}

/// `b` is `a` with the highlighted entry selected or deselected.
pub open spec fn toggle_select_rel(a: App, b: App) -> bool {
    match current_spec(a) {
        Some(n) => selection_changed(a, b) && path_set(b.selected@)
            == toggle(path_set(a.selected@), n.path@),
        None => b == a,
    }
}

/// `b` is `a` with every listed entry selected as well.
pub open spec fn select_all_rel(a: App, b: App) -> bool {
    &&& selection_changed(a, b)
    &&& path_set(b.selected@) == path_set(a.selected@).union(
        visible_paths(a).to_set(),
    )
}

/// `b` is `a` with nothing selected.
pub open spec fn unselect_all_rel(a: App, b: App) -> bool {
    &&& selection_changed(a, b)
    &&& b.selected@.len() == 0
}

/// `b` is `a` with the selection of every listed entry flipped.
pub open spec fn invert_rel(a: App, b: App) -> bool {
    &&& selection_changed(a, b)
    &&& path_set(b.selected@) == toggle_all(path_set(a.selected@), visible_paths(a))
}

/// `b` is `a` with the raw URL of the highlighted file queued for the clipboard.
pub open spec fn copy_url_rel(a: App, b: App) -> bool {
    match current_spec(a) {
        None => b == a,
        Some(n) => {
            &&& b == (App { effects: b.effects, ..a })
            &&& b.effects@.drop_last() == a.effects@
            &&& b.effects@.len() == a.effects@.len() + 1
            &&& b.effects@.last() matches Effect::Copy { text, wget } && !wget
                && text@ == crate::providers::raw_url_spec(
                a.provider,
                match a.instance_url {
                    Some(i) => Some(i@),
                    None => None,
                },
                a.owner@,
                a.repo@,
                a.branch@,
                n.path@,
            )
        },
    }
}

/// `b` is `a` with a `wget` command for the highlighted file queued for the clipboard.
pub open spec fn wget_rel(a: App, b: App) -> bool {
    match current_spec(a) {
        None => b == a,
        Some(n) => {
            &&& b == (App { effects: b.effects, ..a })
            &&& b.effects@.drop_last() == a.effects@
            &&& b.effects@.len() == a.effects@.len() + 1
            &&& b.effects@.last() matches Effect::Copy { text, wget } && wget
                && text@ == "wget "@ + crate::providers::raw_url_spec(
                a.provider,
                match a.instance_url {
                    Some(i) => Some(i@),
                    None => None,
                },
                a.owner@,
                a.repo@,
                a.branch@,
                n.path@,
            )
        },
    }
}

/// Total size of the planned files.
pub open spec fn plan_sum(plan: Seq<PlanItem>) -> int
    decreases plan.len(),
{
    if plan.len() == 0 {
        0
    } else {
        plan_sum(plan.drop_last()) + match plan.last().size {
            Some(s) => s as int,
            None => 0,
        }
    }
}

impl App {
    /// The entry under the highlight.
    pub fn current_node(&self) -> (r: Option<&Node>)
        ensures
            match r {
                Some(n) => current_spec(*self) == Some(*n),
                None => current_spec(*self) is None,
            },
    {
        match self.list_sel {
            Some(i) => {
                if i < self.filtered.len() && self.filtered[i].idx < self.files.len() {
                    Some(&self.files[self.filtered[i].idx])
                } else {
                    None
                }
            },
            None => None,
        }
    }

    // ── Bookmarks ─────────────────────────────────────────────────────────────

    /// Pin the highlighted entry, or unpin it when pinned.
    pub fn toggle_bookmark(&mut self)
        ensures
            toggle_bookmark_rel(*old(self), *final(self)),
            distinct_paths(old(self).bookmarks@) ==> distinct_paths(final(self).bookmarks@),
    {
        let (p, name) = match self.current_node() {
            Some(node) => (node.path.clone(), node.name.clone()),
            None => {
                return;
            },
        };
        proof {
            if distinct_paths(self.bookmarks@) {
                lemma_toggled_distinct(self.bookmarks@, p);
            }
        }
        match position_of(&self.bookmarks, &p) {
            Some(pos) => {
                proof {
                    lemma_first_index(self.bookmarks@, p@, pos as int);
                }
                self.bookmarks.remove(pos);
                self.status = Status::Unpinned(name);
            },
            None => {
                proof {
                    lemma_first_index(self.bookmarks@, p@, self.bookmarks@.len() as int);
                }
                self.bookmarks.push(p);
                self.status = Status::Pinned(name);
            },
        }
    }

    pub fn is_bookmarked(&self, path: &str) -> (r: bool)
        ensures
            r == exists|i: int| 0 <= i < self.bookmarks@.len() && (#[trigger] self.bookmarks@[i])@ == path@,
    {
        let p = crate::text::string_of(crate::text::chars_of(path).as_slice());
        match position_of(&self.bookmarks, &p) {
            Some(_) => true,
            None => false,
        }
    }

    // ── Navigation ────────────────────────────────────────────────────────────

    pub fn nav_up(&mut self)
        ensures
            nav_up_rel(*old(self), *final(self)),
    {
        if self.filtered.len() == 0 {
            return;
        }
        let i = match self.list_sel {
            Some(i) => i,
            None => 0,
        };
        self.list_sel = Some(if i > 0 { i - 1 } else { 0 });
    }

    pub fn nav_down(&mut self)
        requires
            old(self).wf(),
        ensures
            nav_down_rel(*old(self), *final(self)),
    {
        if self.filtered.len() == 0 {
            return;
        }
        let i = match self.list_sel {
            Some(i) => i,
            None => 0,
        };
        if i + 1 < self.filtered.len() {
            self.list_sel = Some(i + 1);
        }
    }

    pub fn nav_top(&mut self)
        ensures
            nav_top_rel(*old(self), *final(self)),
    {
        if self.filtered.len() != 0 {
            self.list_sel = Some(0);
        }
    }

    pub fn nav_bottom(&mut self)
        ensures
            nav_bottom_rel(*old(self), *final(self)),
    {
        if self.filtered.len() != 0 {
            self.list_sel = Some(self.filtered.len() - 1);
        }
    }

    /// Move the highlight by `delta` rows, staying within the list.
    pub fn nav_page(&mut self, delta: i32)
        requires
            old(self).wf(),
            old(self).filtered@.len() > 0 ==> match old(self).list_sel {
                Some(i) => i + delta <= i32::MAX,
                None => delta <= i32::MAX,
            },
        ensures
            nav_page_rel(*old(self), delta as int, *final(self)),
    {
        if self.filtered.len() == 0 {
            return;
        }
        let i: i32 = match self.list_sel {
            Some(i) => i as i32,
            None => 0,
        };
        let t = i + delta;
        let lo = if t > 0 { t } else { 0 };
        let last = self.filtered.len() as i32 - 1;
        let new = if lo < last { lo } else { last };
        self.list_sel = Some(new as usize);
    }

    pub(crate) fn go_back(&mut self)
        ensures
            go_back_rel(*old(self), *final(self)),
    {
        if self.path_stack.len() == 0 {
            return;
        }
        let ghost a = *self;
        let popped = self.path_stack.pop();
        match popped {
            Some(prev) => {
                proof {
                    assert(prev == a.path_stack@.last());
                    assert(self.path_stack@ == a.path_stack@.drop_last());
                    assert(*self == (App { path_stack: self.path_stack, ..a }));
                }
                self.do_load_contents(prev);
            },
            None => {},
        }
    }

    // ── Selection ─────────────────────────────────────────────────────────────

    fn select_insert(&mut self, p: String)
        requires
            distinct_paths(old(self).selected@),
        ensures
            selection_changed(*old(self), *final(self)),
            path_set(final(self).selected@) == path_set(old(self).selected@).insert(p@),
    {
        match position_of(&self.selected, &p) {
            Some(_) => {
                proof {
                    assert(path_set(self.selected@) =~= path_set(self.selected@).insert(p@));
                }
            },
            None => {
                let ghost old_sel = self.selected@;
                self.selected.push(p);
                proof {
                    assert(path_set(self.selected@) =~= path_set(old_sel).insert(p@)) by {
                        assert forall|q: Seq<char>| path_set(old_sel).insert(p@).contains(q) implies path_set(self.selected@).contains(q) by {
                            if q == p@ {
                                assert(self.selected@[old_sel.len() as int]@ == q);
                            } else {
                                let i = choose|i: int| 0 <= i < old_sel.len() && old_sel[i]@ == q;
                                assert(self.selected@[i]@ == q);
                            }
                        }
                        assert forall|q: Seq<char>| path_set(self.selected@).contains(q) implies path_set(old_sel).insert(p@).contains(q) by {
                            let i = choose|i: int| 0 <= i < self.selected@.len() && self.selected@[i]@ == q;
                            if i < old_sel.len() {
                                assert(old_sel[i]@ == q);
                            }
                        }
                    }
                }
            },
        }
    }

    pub(crate) fn select_remove_pub(&mut self, p: &String) -> (was: bool)
        requires
            distinct_paths(old(self).selected@),
        ensures
            selection_changed(*old(self), *final(self)),
            was == path_set(old(self).selected@).contains(p@),
            path_set(final(self).selected@) == path_set(old(self).selected@).remove(p@),
    {
        self.select_remove(p)
    }

    /// Remove `p` from the selection; whether it was there.
    fn select_remove(&mut self, p: &String) -> (was: bool)
        requires
            distinct_paths(old(self).selected@),
        ensures
            selection_changed(*old(self), *final(self)),
            was == path_set(old(self).selected@).contains(p@),
            path_set(final(self).selected@) == path_set(old(self).selected@).remove(p@),
    {
        match position_of(&self.selected, p) {
            Some(pos) => {
                let ghost old_sel = self.selected@;
                self.selected.remove(pos);
                proof {
                    let n = self.selected@;
                    assert(n == old_sel.remove(pos as int));
                    assert(path_set(old_sel).contains(p@)) by {
                        assert(old_sel[pos as int]@ == p@);
                    }
                    assert forall|i: int, j: int| 0 <= i < j < n.len() implies (#[trigger] n[i])@ != (#[trigger] n[j])@ by {
                        let oi = if i < pos { i } else { i + 1 };
                        let oj = if j < pos { j } else { j + 1 };
                        assert(n[i] == old_sel[oi] && n[j] == old_sel[oj]);
                    }
                    assert(path_set(n) =~= path_set(old_sel).remove(p@)) by {
                        assert forall|q: Seq<char>| path_set(n).contains(q) implies path_set(old_sel).remove(p@).contains(q) by {
                            let i = choose|i: int| 0 <= i < n.len() && n[i]@ == q;
                            let oi = if i < pos { i } else { i + 1 };
                            assert(n[i] == old_sel[oi]);
                            assert(old_sel[oi]@ != old_sel[pos as int]@);
                        }
                        assert forall|q: Seq<char>| path_set(old_sel).remove(p@).contains(q) implies path_set(n).contains(q) by {
                            let i = choose|i: int| 0 <= i < old_sel.len() && old_sel[i]@ == q;
                            assert(i != pos);
                            let ni = if i < pos { i } else { i - 1 };
                            assert(n[ni] == old_sel[i]);
                        }
                    }
                }
                true
            },
            None => {
                proof {
                    assert(!path_set(self.selected@).contains(p@));
                    assert(path_set(self.selected@) =~= path_set(self.selected@).remove(p@));
                }
                false
            },
        }
    }

    fn select_toggle(&mut self, p: String)
        requires
            distinct_paths(old(self).selected@),
        ensures
            selection_changed(*old(self), *final(self)),
            path_set(final(self).selected@) == toggle(path_set(old(self).selected@), p@),
    {
        if !self.select_remove(&p) {
            self.select_insert(p);
        }
    }

    /// Select or unselect the highlighted entry.
    pub fn toggle_select(&mut self)
        requires
            old(self).wf(),
        ensures
            toggle_select_rel(*old(self), *final(self)),
    {
        let p = match self.current_node() {
            Some(node) => node.path.clone(),
            None => {
                return;
            },
        };
        self.select_toggle(p);
    }

    /// Select every listed entry.
    pub fn select_all(&mut self)
        requires
            old(self).wf(),
        ensures
            select_all_rel(*old(self), *final(self)),
    {
        let ghost vis = visible_paths(*old(self));
        let ghost pred = |fi: FilteredItem| fi.idx < old(self).files@.len();
        let ghost f = |fi: FilteredItem| old(self).files@[fi.idx as int].path@;
        let mut k: usize = 0;
        while k < self.filtered.len()
            invariant
                k <= self.filtered.len(),
                selection_changed(*old(self), *self),
                pred == (|fi: FilteredItem| fi.idx < old(self).files@.len()),
                f == (|fi: FilteredItem| old(self).files@[fi.idx as int].path@),
                path_set(self.selected@) == path_set(old(self).selected@).union(
                    old(self).filtered@.subrange(0, k as int).filter(pred).map_values(f).to_set(),
                ),
            decreases self.filtered.len() - k,
        {
            let ghost before = self.selected@;
            proof {
                reveal(Seq::filter);
                assert(old(self).filtered@.subrange(0, k + 1).drop_last() =~= old(self).filtered@.subrange(0, k as int));
            }
            let idx = self.filtered[k].idx;
            if idx < self.files.len() {
                let p = self.files[idx].path.clone();
                self.select_insert(p);
                proof {
                    let s1 = old(self).filtered@.subrange(0, k as int).filter(pred);
                    let s2 = old(self).filtered@.subrange(0, k + 1).filter(pred);
                    assert(s2 == s1.push(old(self).filtered@[k as int]));
                    assert(s2.map_values(f) =~= s1.map_values(f).push(p@));
                    s1.map_values(f).lemma_push_to_set_commute(p@);
                }
            } else {
                proof {
                    let s1 = old(self).filtered@.subrange(0, k as int).filter(pred);
                    let s2 = old(self).filtered@.subrange(0, k + 1).filter(pred);
                    assert(s2 == s1);
                }
            }
            k += 1;
            proof {
                assert(path_set(self.selected@) =~= path_set(old(self).selected@).union(
                    old(self).filtered@.subrange(0, k as int).filter(pred).map_values(f).to_set(),
                ));
            }
        }
        proof {
            assert(old(self).filtered@.subrange(0, self.filtered@.len() as int) =~= old(self).filtered@);
        }
    }

    pub fn unselect_all(&mut self)
        ensures
            unselect_all_rel(*old(self), *final(self)),
    {
        self.selected.clear();
    }

    // ── Requests ──────────────────────────────────────────────────────────────

    /// Start listing directory `path`.
    pub fn do_load_contents(&mut self, path: String)
        ensures
            load_contents_rel(*old(self), path, *final(self)),
    {
        self.loading = true;
        self.error = None;
        self.ext_filter = None;
        let e = Effect::LoadContents {
            owner: self.owner.clone(),
            repo: self.repo.clone(),
            path: path.clone(),
            branch: self.branch.clone(),
        };
        self.status = Status::LoadingPath(path);
        self.effects.push(e);
    }

    fn token_for_exec(&self, kind: ProviderKind) -> (r: Option<String>)
        ensures
            r == token_for(*self, kind),
    {
        match kind {
            ProviderKind::GitHub => clone_opt_string(&self.config.auth.github_token),
            ProviderKind::GitLab => clone_opt_string(&self.config.auth.gitlab_token),
            ProviderKind::Codeberg => clone_opt_string(&self.config.auth.codeberg_token),
            ProviderKind::Gitea => clone_opt_string(&self.config.auth.gitea_token),
        }
    }

    pub(crate) fn rebuild_client(&mut self)
        ensures
            *final(self) == (App { effects: final(self).effects, ..*old(self) }),
            final(self).effects@ == old(self).effects@.push(client_effect(*old(self))),
    {
        let token = self.token_for_exec(self.provider);
        let p = self.config.core.parallel;
        let parallel: usize = if p > 1 { p as usize } else { 1 };
        let e = Effect::RebuildClient {
            kind: self.provider,
            token,
            instance: clone_opt_string(&self.instance_url),
            parallel,
        };
        self.effects.push(e);
    }

    /// Start opening repository `owner/repo` on `kind`.
    pub fn do_load_repo(&mut self, kind: ProviderKind, owner: String, repo: String, instance: Option<String>)
        ensures
            load_repo_rel(*old(self), kind, owner, repo, instance, *final(self)),
    {
        self.provider = kind;
        self.instance_url = instance;
        self.owner = owner.clone();
        self.repo = repo.clone();
        self.loading = true;
        self.error = None;
        self.status = Status::LoadingRepo { kind, owner: owner.clone(), repo: repo.clone() };
        self.rebuild_client();
        self.effects.push(Effect::LoadRepo { owner, repo });
    }

    /// Show a file in the preview pane.
    pub fn do_load_preview(&mut self, node: Node)
        ensures
            preview_rel(*old(self), node, *final(self)),
    {
        if node.kind != NodeKind::File {
            return;
        }
        self.preview_path = Some(node.path.clone());
        self.preview_scroll = 0;
        let size = match node.size {
            Some(s) => s,
            None => 0,
        };
        if is_binary_ext(node.name.as_str()) {
            self.preview = Some(Preview::Binary { name: node.name.clone(), size, path: node.path.clone() });
            return;
        }
        if size > 512_000 {
            self.preview = Some(Preview::TooLarge { size });
            return;
        }
        match node.download_url {
            None => {
                self.preview = Some(Preview::NoUrl);
            },
            Some(url) => {
                self.preview = Some(Preview::Loading);
                self.effects.push(Effect::LoadPreview { url });
            },
        }
    }

    /// Start downloading a file.
    pub fn do_download_node(&mut self, node: Node)
        ensures
            download_rel(*old(self), node, *final(self)),
    {
        let url = match &node.download_url {
            Some(u) => u.clone(),
            None => {
                return;
            },
        };
        let dest = if self.dl_preserve_structure {
            node.path.clone()
        } else {
            node.name.clone()
        };
        self.downloads.push(
            DlEntry {
                name: node.name.clone(),
                path: node.path.clone(),
                done: false,
                skipped: false,
                error: None,
            },
        );
        self.status = Status::Downloading(node.name.clone());
        let e = Effect::Download {
            url,
            path: node.path.clone(),
            dest_dir: clone_opt_string(&self.config.core.download_path),
            dest,
            skip_existing: self.dl_skip_existing,
            retry_count: self.config.core.retry_count,
        };
        self.effects.push(e);
        proof {
            assert(final(self).downloads@.drop_last() =~= old(self).downloads@);
        }
    }

    /// Invert the selection of every listed entry.
    pub fn invert_selection(&mut self)
        requires
            old(self).wf(),
        ensures
            invert_rel(*old(self), *final(self)),
    {
        let ghost pred = |fi: FilteredItem| fi.idx < old(self).files@.len();
        let ghost f = |fi: FilteredItem| old(self).files@[fi.idx as int].path@;
        let mut visible: Vec<String> = Vec::new();
        let mut k: usize = 0;
        while k < self.filtered.len()
            invariant
                k <= self.filtered.len(),
                *self == *old(self),
                pred == (|fi: FilteredItem| fi.idx < old(self).files@.len()),
                f == (|fi: FilteredItem| old(self).files@[fi.idx as int].path@),
                visible@.map_values(|s: String| s@) == old(self).filtered@.subrange(0, k as int).filter(pred).map_values(f),
            decreases self.filtered.len() - k,
        {
            proof {
                reveal(Seq::filter);
                assert(old(self).filtered@.subrange(0, k + 1).drop_last() =~= old(self).filtered@.subrange(0, k as int));
            }
            let idx = self.filtered[k].idx;
            let ghost before = visible@;
            if idx < self.files.len() {
                visible.push(self.files[idx].path.clone());
                proof {
                    let s1 = old(self).filtered@.subrange(0, k as int).filter(pred);
                    let s2 = old(self).filtered@.subrange(0, k + 1).filter(pred);
                    assert(s2 == s1.push(old(self).filtered@[k as int]));
                    assert(s2.map_values(f) =~= s1.map_values(f).push(f(old(self).filtered@[k as int])));
                    assert(visible@.map_values(|s: String| s@) =~= before.map_values(|s: String| s@).push(self.files@[idx as int].path@));
                }
            } else {
                proof {
                    let s1 = old(self).filtered@.subrange(0, k as int).filter(pred);
                    let s2 = old(self).filtered@.subrange(0, k + 1).filter(pred);
                    assert(s2 == s1);
                }
            }
            k += 1;
        }
        proof {
            assert(old(self).filtered@.subrange(0, self.filtered@.len() as int) =~= old(self).filtered@);
        }
        let ghost vis = visible_paths(*old(self));
        let mut j: usize = 0;
        while j < visible.len()
            invariant
                j <= visible.len(),
                vis == visible@.map_values(|s: String| s@),
                selection_changed(*old(self), *self),
                path_set(self.selected@) == toggle_all(path_set(old(self).selected@), vis.take(j as int)),
            decreases visible.len() - j,
        {
            let p = visible[j].clone();
            self.select_toggle(p);
            proof {
                assert(vis.take(j + 1).drop_last() =~= vis.take(j as int));
                assert(vis.take(j + 1).last() == vis[j as int]);
            }
            j += 1;
        }
        proof {
            assert(vis.take(vis.len() as int) =~= vis);
        }
    }

    /// Selected files, in listing order.
    fn selected_files(&self) -> (r: Vec<Node>)
        requires
            self.wf(),
        ensures
            r@ == selected_file_nodes(*self),
    {
        self.selected_of_kind(NodeKind::File)
    }

    fn is_selected_exec(&self, p: &String) -> (r: bool)
        ensures
            r == path_set(self.selected@).contains(p@),
    {
        match position_of(&self.selected, p) {
            Some(i) => {
                assert(self.selected@[i as int]@ == p@);
                true
            },
            None => false,
        }
    }

    fn selected_of_kind(&self, kind: NodeKind) -> (r: Vec<Node>)
        ensures
            r@ == self.files@.filter(|f: Node| is_selected(*self, f) && f.kind == kind),
    {
        let ghost pred = |f: Node| is_selected(*self, f) && f.kind == kind;
        let mut r: Vec<Node> = Vec::new();
        let mut i: usize = 0;
        while i < self.files.len()
            invariant
                i <= self.files.len(),
                pred == (|f: Node| is_selected(*self, f) && f.kind == kind),
                r@ == self.files@.subrange(0, i as int).filter(pred),
            decreases self.files.len() - i,
        {
            proof {
                reveal(Seq::filter);
                assert(self.files@.subrange(0, i + 1).drop_last() =~= self.files@.subrange(0, i as int));
            }
            let f = &self.files[i];
            if self.is_selected_exec(&f.path) && f.kind == kind {
                r.push(f.clone());
            }
            i += 1;
        }
        proof {
            assert(self.files@.subrange(0, self.files@.len() as int) =~= self.files@);
        }
        r
    }

    // ── Sort and size filter ──────────────────────────────────────────────────

    /// Switch to the next sort mode.
    pub fn cycle_sort(&mut self)
        ensures
            rebuilt(
                App {
                    sort_mode: sort_next_spec(old(self).sort_mode),
                    status: Status::SortChanged(sort_next_spec(old(self).sort_mode)),
                    ..*old(self)
                },
                *final(self),
            ),
    {
        self.sort_mode = self.sort_mode.next();
        self.status = Status::SortChanged(self.sort_mode);
        self.rebuild_filter();
    }

    /// Switch to the next size threshold: off, 1 KiB, 100 kB, 1 MB, off.
    pub fn cycle_size_filter(&mut self)
        ensures
            rebuilt(
                App {
                    min_size: next_min_size(old(self).min_size),
                    status: Status::SizeFilter(next_min_size(old(self).min_size)),
                    ..*old(self)
                },
                *final(self),
            ),
    {
        self.min_size = match self.min_size {
            None => Some(1024),
            Some(1024) => Some(100_000),
            Some(100_000) => Some(1_000_000),
            _ => None,
        };
        self.status = Status::SizeFilter(self.min_size);
        self.rebuild_filter();
    }

    // ── Download plan ─────────────────────────────────────────────────────────

    fn dir_item_exec(n: &Node) -> (p: PlanItem)
        ensures
            plan_view(p) == dir_item(*n),
    {
        let mut v = crate::text::chars_of(n.name.as_str());
        crate::text::push_str(&mut v, "/ (recursive)");
        PlanItem { name: crate::text::string_of(v.as_slice()), path: n.path.clone(), size: None }
    }

    /// Open the download plan for the selection, or for the highlighted entry.
    pub fn open_download_plan(&mut self)
        requires
            old(self).wf(),
        ensures
            open_plan_rel(*old(self), *final(self)),
    {
        let files = self.selected_files();
        let dirs: Vec<Node> = if self.dl_recursive {
            self.selected_of_kind(NodeKind::Dir)
        } else {
            Vec::new()
        };
        let ghost a = *self;
        if files.len() == 0 && dirs.len() == 0 {
            let n = match self.current_node() {
                Some(n) => n.clone(),
                None => {
                    return;
                },
            };
            if n.kind == NodeKind::File {
                let mut plan: Vec<PlanItem> = Vec::new();
                plan.push(PlanItem { name: n.name.clone(), path: n.path.clone(), size: n.size });
                self.plan = plan;
                proof {
                    assert(self.plan@.map_values(|p: PlanItem| plan_view(p)) =~= seq![file_item(n)]);
                }
            } else if self.dl_recursive {
                let mut plan: Vec<PlanItem> = Vec::new();
                plan.push(App::dir_item_exec(&n));
                self.plan = plan;
                proof {
                    assert(self.plan@.map_values(|p: PlanItem| plan_view(p)) =~= seq![dir_item(n)]);
                }
            } else {
                return;
            }
        } else {
            let mut items: Vec<PlanItem> = Vec::new();
            let mut i: usize = 0;
            while i < files.len()
                invariant
                    i <= files.len(),
                    items@.map_values(|p: PlanItem| plan_view(p)) == files@.subrange(0, i as int).map_values(|n: Node| file_item(n)),
                decreases files.len() - i,
            {
                let f = &files[i];
                let it = PlanItem { name: f.name.clone(), path: f.path.clone(), size: f.size };
                assert(plan_view(it) == file_item(files@[i as int]));
                let ghost before = items@;
                items.push(it);
                proof {
                    assert(items@.map_values(|p: PlanItem| plan_view(p)) =~= before.map_values(|p: PlanItem| plan_view(p)).push(plan_view(it)));
                    assert(files@.subrange(0, i + 1).map_values(|n: Node| file_item(n)) =~= files@.subrange(0, i as int).map_values(|n: Node| file_item(n)).push(file_item(files@[i as int])));
                }
                i += 1;
                proof {
                    assert(items@.map_values(|p: PlanItem| plan_view(p)) =~= files@.subrange(0, i as int).map_values(|n: Node| file_item(n)));
                }
            }
            let mut j: usize = 0;
            while j < dirs.len()
                invariant
                    j <= dirs.len(),
                    items@.map_values(|p: PlanItem| plan_view(p)) == files@.map_values(|n: Node| file_item(n))
                        + dirs@.subrange(0, j as int).map_values(|n: Node| dir_item(n)),
                decreases dirs.len() - j,
            {
                if j == 0 {
                    assert(files@.subrange(0, files@.len() as int) =~= files@);
                }
                let it = App::dir_item_exec(&dirs[j]);
                let ghost before = items@;
                items.push(it);
                proof {
                    assert(items@.map_values(|p: PlanItem| plan_view(p)) =~= before.map_values(|p: PlanItem| plan_view(p)).push(plan_view(it)));
                    assert(dirs@.subrange(0, j + 1).map_values(|n: Node| dir_item(n)) =~= dirs@.subrange(0, j as int).map_values(|n: Node| dir_item(n)).push(dir_item(dirs@[j as int])));
                }
                j += 1;
                proof {
                    assert(items@.map_values(|p: PlanItem| plan_view(p)) =~= files@.map_values(|n: Node| file_item(n))
                        + dirs@.subrange(0, j as int).map_values(|n: Node| dir_item(n)));
                }
            }
            proof {
                assert(files@.subrange(0, files@.len() as int) =~= files@);
                assert(dirs@.subrange(0, dirs@.len() as int) =~= dirs@);
                assert(files@.map_values(|n: Node| file_item(n)) + Seq::<Node>::empty().map_values(|n: Node| dir_item(n)) =~= files@.map_values(|n: Node| file_item(n)));
            }
            self.plan = items;
        }
        self.screen = Screen::DownloadPlan;
    }

    /// Total size of the planned files.
    pub fn plan_total_size(&self) -> (r: u64)
        requires
            plan_sum(self.plan@) <= u64::MAX,
        ensures
            r == plan_sum(self.plan@),
    {
        let mut sum: u64 = 0;
        let mut i: usize = 0;
        while i < self.plan.len()
            invariant
                i <= self.plan.len(),
                plan_sum(self.plan@) <= u64::MAX,
                sum == plan_sum(self.plan@.subrange(0, i as int)),
            decreases self.plan.len() - i,
        {
            proof {
                assert(self.plan@.subrange(0, i + 1).drop_last() =~= self.plan@.subrange(0, i as int));
                lemma_plan_sum_prefix(self.plan@, i + 1);
            }
            if let Some(s) = self.plan[i].size {
                sum = sum + s;
            }
            i += 1;
        }
        proof {
            assert(self.plan@.subrange(0, self.plan@.len() as int) =~= self.plan@);
        }
        sum
    }

    /// Whether the planned sizes add up to a total that fits in 64 bits.
    pub fn plan_total_fits(&self) -> (r: bool)
        ensures
            r == (plan_sum(self.plan@) <= u64::MAX),
    {
        let mut sum: u64 = 0;
        let mut i: usize = 0;
        while i < self.plan.len()
            invariant
                i <= self.plan.len(),
                sum == plan_sum(self.plan@.subrange(0, i as int)),
            decreases self.plan.len() - i,
        {
            proof {
                assert(self.plan@.subrange(0, i + 1).drop_last() =~= self.plan@.subrange(0, i as int));
                lemma_plan_sum_prefix(self.plan@, i + 1);
            }
            if let Some(s) = self.plan[i].size {
                if s > u64::MAX - sum {
                    proof {
                        lemma_plan_sum_prefix(self.plan@, i + 1);
                    }
                    return false;
                }
                sum = sum + s;
            }
            i += 1;
        }
        proof {
            assert(self.plan@.subrange(0, self.plan@.len() as int) =~= self.plan@);
        }
        true
    }

    fn find_file(&self, p: &Vec<char>) -> (r: Option<Node>)
        ensures
            r == find_node(self.files@, p@),
    {
        let mut i: usize = 0;
        assert(self.files@.skip(0) =~= self.files@);
        while i < self.files.len()
            invariant
                i <= self.files.len(),
                find_node(self.files@, p@) == find_node(self.files@.skip(i as int), p@),
            decreases self.files.len() - i,
        {
            assert(self.files@.skip(i as int)[0] == self.files@[i as int]);
            assert(self.files@.skip(i as int).drop_first() =~= self.files@.skip(i + 1));
            if crate::text::chars_eq_str(p, self.files[i].path.as_str()) {
                return Some(self.files[i].clone());
            }
            i += 1;
        }
        None
    }

    /// Start every download of the plan and open the downloads panel.
    pub fn execute_plan(&mut self)
        ensures
            execute_plan_rel(*old(self), *final(self)),
            old(self).wf() ==> final(self).wf(),
    {
        let ghost a = *self;
        let mut file_nodes: Vec<Node> = Vec::new();
        let mut dir_nodes: Vec<Node> = Vec::new();
        let mut i: usize = 0;
        while i < self.plan.len()
            invariant
                *self == a,
                i <= self.plan.len(),
                file_nodes@ == plan_file_nodes(a.files@, a.plan@.subrange(0, i as int)),
                dir_nodes@ == plan_dir_nodes(a.files@, a.plan@.subrange(0, i as int)),
            decreases self.plan.len() - i,
        {
            proof {
                assert(a.plan@.subrange(0, i + 1).drop_last() =~= a.plan@.subrange(0, i as int));
                assert(a.plan@.subrange(0, i + 1).last() == a.plan@[i as int]);
            }
            let pi = &self.plan[i];
            let path = crate::text::chars_of(pi.path.as_str());
            let name = crate::text::chars_of(pi.name.as_str());
            let rec = crate::text::contains_str(&name, "(recursive)");
            let slash = path.len() > 0 && path[path.len() - 1] == '/';
            if !slash && !rec {
                if let Some(n) = self.find_file(&path) {
                    file_nodes.push(n);
                }
            }
            if rec {
                let clean = crate::text::trim_end_char_chars(&path, '/');
                if let Some(n) = self.find_file(&clean) {
                    dir_nodes.push(n);
                }
            }
            i += 1;
        }
        proof {
            assert(a.plan@.subrange(0, a.plan@.len() as int) =~= a.plan@);
        }
        let ghost ds = dir_nodes@;
        let mut j: usize = 0;
        while j < dir_nodes.len()
            invariant
                j <= dir_nodes.len(),
                ds == dir_nodes@,
                *self == (App { effects: self.effects, ..a }),
                self.effects@ == a.effects@ + ds.subrange(0, j as int).map_values(|n: Node| walk_effect(a, n)),
            decreases dir_nodes.len() - j,
        {
            let d = &dir_nodes[j];
            let e = Effect::CollectRecursive {
                owner: self.owner.clone(),
                repo: self.repo.clone(),
                path: d.path.clone(),
                branch: self.branch.clone(),
            };
            self.effects.push(e);
            j += 1;
            proof {
                assert(self.effects@ =~= a.effects@ + ds.subrange(0, j as int).map_values(|n: Node| walk_effect(a, n)));
            }
        }
        proof {
            assert(ds.subrange(0, ds.len() as int) =~= ds);
        }
        let ghost m = *self;
        let ghost fs = file_nodes@;
        let mut k: usize = 0;
        proof {
            assert(fs.take(0) =~= Seq::<Node>::empty());
        }
        while k < file_nodes.len()
            invariant
                k <= file_nodes.len(),
                fs == file_nodes@,
                downloads_rel(m, fs.take(k as int), *self),
                m.wf() ==> self.wf(),
            decreases file_nodes.len() - k,
        {
            let ghost before = *self;
            let n = file_nodes[k].clone();
            self.do_download_node(n);
            proof {
                assert(fs.take(k + 1).drop_last() =~= fs.take(k as int));
                assert(fs.take(k + 1).last() == fs[k as int]);
                assert(downloads_rel(m, fs.take(k + 1).drop_last(), before) && download_rel(before, fs.take(k + 1).last(), *self));
            }
            k += 1;
        }
        proof {
            assert(fs.take(fs.len() as int) =~= fs);
        }
        self.screen = Screen::Downloads;
    }

    // ── Theme ─────────────────────────────────────────────────────────────────

    /// Switch to the next theme and save the choice.
    pub fn next_theme(&mut self)
        ensures
            next_theme_rel(*old(self), *final(self)),
    {
        let next = self.theme_name.next();
        self.theme_name = next;
        self.theme = Theme::get(&next);
        self.config.core.theme = next;
        self.effects.push(Effect::SaveConfig);
        self.status = Status::ThemeChanged(next);
    }

    // ── Clipboard ─────────────────────────────────────────────────────────────

    /// Copy the raw URL of the highlighted entry (or a `wget` command for it).
    pub fn do_copy(&mut self, wget: bool)
        ensures
            match current_spec(*old(self)) {
                None => *final(self) == *old(self),
                Some(n) => {
                    let url = crate::providers::raw_url_spec(
                        old(self).provider,
                        match old(self).instance_url {
                            Some(i) => Some(i@),
                            None => None,
                        },
                        old(self).owner@,
                        old(self).repo@,
                        old(self).branch@,
                        n.path@,
                    );
                    &&& *final(self) == (App { effects: final(self).effects, ..*old(self) })
                    &&& final(self).effects@.drop_last() == old(self).effects@
                    &&& final(self).effects@.len() == old(self).effects@.len() + 1
                    &&& final(self).effects@.last() matches Effect::Copy { text, wget: w } && w == wget
                        && text@ == if wget {
                        "wget "@ + url
                    } else {
                        url
                    }
                },
            },
    {
        let path = match self.current_node() {
            Some(node) => node.path.clone(),
            None => {
                return;
            },
        };
        let inst: Option<&str> = match &self.instance_url {
            Some(i) => Some(i.as_str()),
            None => None,
        };
        let url = crate::providers::raw_url(
            self.provider,
            inst,
            self.owner.as_str(),
            self.repo.as_str(),
            self.branch.as_str(),
            path.as_str(),
        );
        let text = if wget {
            let mut v = crate::text::chars_of("wget ");
            crate::text::push_str(&mut v, url.as_str());
            crate::text::string_of(v.as_slice())
        } else {
            url
        };
        self.effects.push(Effect::Copy { text, wget });
        proof {
            assert(final(self).effects@.drop_last() =~= old(self).effects@);
        }
    }

    pub fn do_copy_url(&mut self)
        ensures
            copy_url_rel(*old(self), *final(self)),
    {
        self.do_copy(false);
    }

    pub fn do_wget_cmd(&mut self)
        ensures
            wget_rel(*old(self), *final(self)),
    {
        self.do_copy(true);
    }

    /// Report the outcome of a clipboard copy in the status line.
    pub fn finish_copy(&mut self, text: String, wget: bool, ok: bool)
        ensures
            *final(self) == (App {
                status: if wget {
                    if ok {
                        Status::CopiedWget
                    } else {
                        Status::ShowWget(text)
                    }
                } else {
                    if ok {
                        Status::CopiedUrl(text)
                    } else {
                        Status::ShowUrl(text)
                    }
                },
                ..*old(self)
            }),
    {
        self.status = if wget {
            if ok {
                Status::CopiedWget
            } else {
                Status::ShowWget(text)
            }
        } else {
            if ok {
                Status::CopiedUrl(text)
            } else {
                Status::ShowUrl(text)
            }
        };
    }
}

proof fn lemma_plan_sum_prefix(plan: Seq<PlanItem>, i: int)
    requires
        0 <= i <= plan.len(),
    ensures
        0 <= plan_sum(plan.subrange(0, i)) <= plan_sum(plan),
    decreases plan.len(),
{
    if plan.len() > 0 {
        if i < plan.len() {
            assert(plan.drop_last().subrange(0, i) =~= plan.subrange(0, i));
            lemma_plan_sum_prefix(plan.drop_last(), i);
        } else {
            assert(plan.subrange(0, i) =~= plan);
            lemma_plan_sum_prefix(plan.drop_last(), i - 1);
            assert(plan.drop_last().subrange(0, i - 1) =~= plan.drop_last());
        }
    }
}

} // verus!
