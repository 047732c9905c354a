//! How completed requests change the browser's state.
use vstd::prelude::*;
use crate::app::{App, DlEntry, Msg, Preview, Screen, SearchMode, SortMode, Status, path_set, distinct_paths,
    position_of, clone_history};
use crate::app_actions::{load_contents_rel, download_rel, first_index};
use crate::app_filter::rebuilt;
use crate::config::{Config, History, HistoryEntry, pushed_history};
use crate::providers::{Node, NodeKind, RepoMeta, label_spec, clone_opt_string};
use crate::text::{after_last, lowercase, chars_of, string_of, to_lower, after_last_chars, push_str};

verus! {

/// Index of the first download entry for `p`, or -1.
pub open spec fn first_dl(ds: Seq<DlEntry>, p: Seq<char>) -> int
    decreases ds.len(),
{
    if ds.len() == 0 {
        -1
    } else if first_dl(ds.drop_last(), p) >= 0 {
        first_dl(ds.drop_last(), p)
    } else if ds.last().path@ == p {
        ds.len() - 1
    } else {
        -1
    }
}

proof fn lemma_first_dl(ds: Seq<DlEntry>, p: Seq<char>, i: int)
    requires
        0 <= i <= ds.len(),
        forall|j: int| 0 <= j < i ==> (#[trigger] ds[j]).path@ != p,
        i < ds.len() ==> ds[i].path@ == p,
    ensures
        first_dl(ds, p) == if i < ds.len() {
            i
        } else {
            -1
        },
    decreases ds.len(),
{
    if ds.len() > 0 {
        if i < ds.len() - 1 {
            lemma_first_dl(ds.drop_last(), p, i);
        } else {
            lemma_first_dl(ds.drop_last(), p, ds.len() - 1);
        }
    }
}

/// Number of directories.
pub open spec fn count_dirs(s: Seq<Node>) -> nat
    decreases s.len(),
{
    if s.len() == 0 {
        0
    } else {
        count_dirs(s.drop_last()) + if s.last().kind == NodeKind::Dir {
            1nat
        } else {
            0nat
        }
    }
}

/// Index of the default branch among the branches, or 0.
pub open spec fn branch_index(bs: Seq<String>, b: Seq<char>) -> int {
    let i = first_index(bs, b);
    if i >= 0 {
        i
    } else {
        0
    }
}

/// `b` is `a` after handling one discovered node.
pub open spec fn discover_step(a: App, n: Node, exists_already: bool, b: App) -> bool {
    if n.kind != NodeKind::File {
        b == a
    } else if !a.dl_skip_existing || !exists_already {
        download_rel(a, n, b)
    } else {
        &&& b == (App { downloads: b.downloads, ..a })
        &&& b.downloads@ == a.downloads@.push(
            DlEntry { name: n.name, path: n.path, done: true, skipped: true, error: None },
        )
    }
}

/// `b` is `a` after handling each discovered node in turn; `states` are the states in between.
pub open spec fn discover_chain(a: App, ns: Seq<(Node, bool)>, b: App, states: Seq<App>) -> bool {
    &&& states.len() == ns.len() + 1
    &&& states[0] == a
    &&& states.last() == b
    &&& forall|i: int| 0 <= i < ns.len() ==> discover_step(#[trigger] states[i], ns[i].0, ns[i].1, states[i + 1])
}

pub open spec fn discover_rel(a: App, ns: Seq<(Node, bool)>, b: App) -> bool {
    exists|states: Seq<App>| discover_chain(a, ns, b, states)
}

/// Download entries with entry `i` changed by `f` (unchanged when `i` is -1).
pub open spec fn dl_updated(ds: Seq<DlEntry>, i: int, done: bool, skipped: bool, error: Option<String>) -> Seq<DlEntry> {
    if i >= 0 {
        ds.update(i, DlEntry { done, skipped, error, ..ds[i] })
    } else {
        ds
    }
}

pub open spec fn repo_loaded_rel(a: App, meta: RepoMeta, branches: Vec<String>, b: App) -> bool {
    let m = App {
        branch: meta.def_branch,
        branches,
        branch_sel: Some(branch_index(branches@, meta.def_branch@) as usize),
        repo_meta: Some(meta),
        current_path: b.current_path,
        path_stack: b.path_stack,
        files: b.files,
        filtered: b.filtered,
        selected: b.selected,
        preview: None,
        screen: Screen::Browser,
        ext_filter: None,
        min_size: None,
        sort_mode: SortMode::Default,
        bookmarks: b.bookmarks,
        config: b.config,
        history: b.history,
        status: Status::RepoInfo {
            full_name: meta.full_name,
            branch: meta.def_branch,
            stars: meta.stars,
            language: meta.language,
        },
        ..a
    };
    &&& b.current_path@.len() == 0
    &&& b.path_stack@.len() == 0
    &&& b.files@.len() == 0
    &&& b.filtered@.len() == 0
    &&& b.selected@.len() == 0
    &&& b.bookmarks@.len() == 0
    &&& b.config == (Config { history: History { entries: b.config.history.entries }, ..a.config })
    &&& exists|e: HistoryEntry|
        {
            &&& e.provider@ == lowercase(label_spec(a.provider))
            &&& e.owner == a.owner
            &&& e.repo == a.repo
            &&& e.branch == meta.def_branch
            &&& e.instance == a.instance_url
            &&& b.config.history.entries@ == pushed_history(a.config.history.entries@, e)
        }
    &&& b.history@ == b.config.history.entries@
    &&& exists|p: String| p@.len() == 0 && load_contents_rel(m, p, b)
}

pub open spec fn contents_loaded_rel(a: App, path: String, items: Vec<Node>, b: App) -> bool {
    let m = App {
        current_path: path,
        files: items,
        search_query: b.search_query,
        search_mode: SearchMode::Off,
        list_sel: if items@.len() == 0 {
            None
        } else {
            Some(0)
        },
        status: Status::Listing {
            owner: a.owner,
            repo: a.repo,
            path,
            dirs: count_dirs(items@) as usize,
            files: (items@.len() - count_dirs(items@)) as usize,
        },
        ..a
    };
    &&& b.search_query@.len() == 0
    &&& rebuilt(m, b)
}

pub open spec fn done_rel(a: App, path: String, dest: String, b: App) -> bool {
    let i = first_dl(a.downloads@, path@);
    &&& b == (App { downloads: b.downloads, selected: b.selected, status: b.status, ..a })
    &&& b.downloads@ == dl_updated(
        a.downloads@,
        i,
        true,
        if i >= 0 {
            a.downloads@[i].skipped
        } else {
            false
        },
        if i >= 0 {
            a.downloads@[i].error
        } else {
            None
        },
    )
    &&& distinct_paths(b.selected@)
    &&& path_set(b.selected@) == path_set(a.selected@).remove(path@)
    &&& b.status matches Status::Downloaded { name, dest: d } && name@ == after_last(path@, '/') && d == dest
}

pub open spec fn fail_rel(a: App, path: String, error: String, b: App) -> bool {
    let i = first_dl(a.downloads@, path@);
    &&& b == (App { downloads: b.downloads, error: b.error, ..a })
    &&& b.downloads@ == dl_updated(
        a.downloads@,
        i,
        if i >= 0 {
            a.downloads@[i].done
        } else {
            false
        },
        if i >= 0 {
            a.downloads@[i].skipped
        } else {
            false
        },
        Some(error),
    )
    &&& b.error matches Some(e) && e@ == "download failed: "@ + error@
}

pub open spec fn skipped_rel(a: App, path: String, b: App) -> bool {
    let i = first_dl(a.downloads@, path@);
    &&& b == (App { downloads: b.downloads, ..a })
    &&& b.downloads@ == dl_updated(
        a.downloads@,
        i,
        true,
        true,
        if i >= 0 {
            a.downloads@[i].error
        } else {
            None
        },
    )
}

/// `b` is `a` after handling a completed request.
pub open spec fn msg_rel(a0: App, msg: Msg, b: App) -> bool {
    let a = App { loading: false, ..a0 };
    match msg {
        Msg::RepoLoaded(meta, branches) => repo_loaded_rel(a, meta, branches, b),
        Msg::ContentsLoaded(path, items) => contents_loaded_rel(a, path, items, b),
        Msg::PreviewLoaded(content) => b == (App { preview: Some(Preview::Text(content)), ..a }),
        Msg::NodesDiscovered(list) => discover_rel(a, list@, b),
        Msg::DownloadDone { path, dest } => done_rel(a, path, dest, b),
        Msg::DownloadFail { path, error } => fail_rel(a, path, error, b),
        Msg::DownloadSkipped { path } => skipped_rel(a, path, b),
        Msg::ApiError(e) => b == (App { error: Some(e), ..a }),
    }
}

fn find_download(ds: &Vec<DlEntry>, p: &String) -> (r: Option<usize>)
    ensures
        match r {
            Some(i) => i < ds.len() && first_dl(ds@, p@) == i,
            None => first_dl(ds@, p@) == -1,
        },
{
    let mut i: usize = 0;
    while i < ds.len()
        invariant
            i <= ds.len(),
            forall|j: int| 0 <= j < i ==> (#[trigger] ds@[j]).path@ != p@,
        decreases ds.len() - i,
    {
        if ds[i].path.eq(p) {
            proof {
                lemma_first_dl(ds@, p@, i as int);
            }
            return Some(i);
        }
        i += 1;
    }
    proof {
        lemma_first_dl(ds@, p@, ds@.len() as int);
    }
    None
}

fn count_dirs_exec(items: &Vec<Node>) -> (r: usize)
    ensures
        r == count_dirs(items@),
        r <= items.len(),
{
    let mut c: usize = 0;
    let mut i: usize = 0;
    while i < items.len()
        invariant
            i <= items.len(),
            c == count_dirs(items@.subrange(0, i as int)),
            c <= i,
        decreases items.len() - i,
    {
        proof {
            assert(items@.subrange(0, i + 1).drop_last() =~= items@.subrange(0, i as int));
        }
        if items[i].kind == NodeKind::Dir {
            c += 1;
        }
        i += 1;
    }
    proof {
        assert(items@.subrange(0, items@.len() as int) =~= items@);
    }
    c
}

impl App {
    fn set_download(&mut self, i: usize, done: bool, skipped: bool, error: Option<String>)
        requires
            i < old(self).downloads.len(),
        ensures
            *final(self) == (App { downloads: final(self).downloads, ..*old(self) }),
            final(self).downloads@ == old(self).downloads@.update(
                i as int,
                DlEntry { done, skipped, error, ..old(self).downloads@[i as int] },
            ),
    {
        let mut d = self.downloads.remove(i);
        d.done = done;
        d.skipped = skipped;
        d.error = error;
        self.downloads.insert(i, d);
        proof {
            assert(final(self).downloads@ =~= old(self).downloads@.update(
                i as int,
                DlEntry { done, skipped, error, ..old(self).downloads@[i as int] },
            ));
        }
    }

    fn discover_one(&mut self, n: Node, exists_already: bool)
        ensures
            discover_step(*old(self), n, exists_already, *final(self)),
    {
        if n.kind == NodeKind::File {
            if !self.dl_skip_existing || !exists_already {
                self.do_download_node(n);
            } else {
                self.downloads.push(
                    DlEntry { name: n.name, path: n.path, done: true, skipped: true, error: None },
                );
            }
        }
    }

    fn on_repo_loaded(&mut self, meta: RepoMeta, branches: Vec<String>)
        requires
            old(self).wf(),
        ensures
            repo_loaded_rel(*old(self), meta, branches, *final(self)),
            final(self).wf(),
    {
        let ghost a = *self;
        self.branch = meta.def_branch.clone();
        self.branches = branches;
        let bi = match position_of(&self.branches, &self.branch) {
            Some(i) => {
                proof {
                    crate::app_actions::lemma_first_index_pub(self.branches@, self.branch@, i as int);
                }
                i
            },
            None => {
                proof {
                    crate::app_actions::lemma_first_index_pub(self.branches@, self.branch@, self.branches@.len() as int);
                }
                0
            },
        };
        self.branch_sel = Some(bi);
        let full = meta.full_name.clone();
        let stars = meta.stars;
        let lang = clone_opt_string(&meta.language);
        self.repo_meta = Some(meta);
        self.current_path = String::new();
        self.path_stack = Vec::new();
        self.files = Vec::new();
        self.filtered = Vec::new();
        self.selected = Vec::new();
        self.preview = None;
        self.screen = Screen::Browser;
        self.ext_filter = None;
        self.min_size = None;
        self.sort_mode = SortMode::Default;
        self.bookmarks = Vec::new();
        let provider = to_lower(self.provider.label());
        let e = HistoryEntry {
            provider,
            owner: self.owner.clone(),
            repo: self.repo.clone(),
            branch: self.branch.clone(),
            instance: clone_opt_string(&self.instance_url),
        };
        let ghost eg = e;
        self.config.push_history(e);
        self.history = clone_history(&self.config.history.entries);
        self.status = Status::RepoInfo { full_name: full, branch: self.branch.clone(), stars, language: lang };
        let p = String::new();
        let ghost pg = p;
        let ghost m = *self;
        proof {
            assert(self.config == (Config { history: History { entries: self.config.history.entries }, ..a.config }));
            assert(self.current_path@ =~= Seq::<char>::empty());
            assert(p@ =~= Seq::<char>::empty());
        }
        self.do_load_contents(p);
        proof {
            assert(self.selected@ =~= Seq::<String>::empty());
            assert(load_contents_rel(m, pg, *self));
            assert(eg.provider@ == lowercase(label_spec(a.provider)));
            assert(self.config.history.entries@ == pushed_history(a.config.history.entries@, eg));
            assert(m == (App {
                branch: meta.def_branch,
                branches,
                branch_sel: Some(branch_index(branches@, meta.def_branch@) as usize),
                repo_meta: Some(meta),
                current_path: self.current_path,
                path_stack: self.path_stack,
                files: self.files,
                filtered: self.filtered,
                selected: self.selected,
                preview: None,
                screen: Screen::Browser,
                ext_filter: None,
                min_size: None,
                sort_mode: SortMode::Default,
                bookmarks: self.bookmarks,
                config: self.config,
                history: self.history,
                status: Status::RepoInfo {
                    full_name: meta.full_name,
                    branch: meta.def_branch,
                    stars: meta.stars,
                    language: meta.language,
                },
                ..a
            }));
        }
    }

    fn on_contents_loaded(&mut self, path: String, items: Vec<Node>)
        requires
            old(self).wf(),
            items@.len() <= 0x7fff_0000,
        ensures
            contents_loaded_rel(*old(self), path, items, *final(self)),
            final(self).wf(),
    {
        let dirs = count_dirs_exec(&items);
        let nfiles = items.len() - dirs;
        self.status = Status::Listing {
            owner: self.owner.clone(),
            repo: self.repo.clone(),
            path: path.clone(),
            dirs,
            files: nfiles,
        };
        self.current_path = path;
        self.list_sel = if items.len() == 0 {
            None
        } else {
            Some(0)
        };
        self.files = items;
        self.search_query = String::new();
        self.search_mode = SearchMode::Off;
        proof {
            assert(self.search_query@ =~= Seq::<char>::empty());
        }
        self.rebuild_filter();
    }

    fn on_nodes_discovered(&mut self, list: Vec<(Node, bool)>)
        requires
            old(self).wf(),
        ensures
            discover_rel(*old(self), list@, *final(self)),
            final(self).wf(),
    {
        let ghost a = *self;
        let ghost ls = list@;
        let ghost mut states: Seq<App> = seq![a];
        let mut k: usize = 0;
        while k < list.len()
            invariant
                k <= list.len(),
                ls == list@,
                states.len() == k + 1,
                states[0] == a,
                states.last() == *self,
                forall|i: int| 0 <= i < k ==> discover_step(#[trigger] states[i], ls[i].0, ls[i].1, states[i + 1]),
                self.wf(),
            decreases list.len() - k,
        {
            let ghost before = *self;
            let n = list[k].0.clone();
            let ex = list[k].1;
            self.discover_one(n, ex);
            proof {
                let old_states = states;
                states = states.push(*self);
                assert forall|i: int| 0 <= i < k + 1 implies discover_step(#[trigger] states[i], ls[i].0, ls[i].1, states[i + 1]) by {
                    if i < k {
                        assert(states[i] == old_states[i] && states[i + 1] == old_states[i + 1]);
                    } else {
                        assert(states[i] == before);
                    }
                }
            }
            k += 1;
        }
        proof {
            assert(discover_chain(a, ls, *self, states));
        }
    }

    fn on_done(&mut self, path: String, dest: String)
        requires
            old(self).wf(),
        ensures
            done_rel(*old(self), path, dest, *final(self)),
            final(self).wf(),
    {
        if let Some(i) = find_download(&self.downloads, &path) {
            let skipped = self.downloads[i].skipped;
            let err = clone_opt_string(&self.downloads[i].error);
            self.set_download(i, true, skipped, err);
        }
        self.select_remove_pub(&path);
        let pv = chars_of(path.as_str());
        let name = string_of(after_last_chars(&pv, '/').as_slice());
        self.status = Status::Downloaded { name, dest };
    }

    fn on_fail(&mut self, path: String, error: String)
        ensures
            fail_rel(*old(self), path, error, *final(self)),
    {
        if let Some(i) = find_download(&self.downloads, &path) {
            let done = self.downloads[i].done;
            let skipped = self.downloads[i].skipped;
            self.set_download(i, done, skipped, Some(error.clone()));
        }
        let mut v = chars_of("download failed: ");
        push_str(&mut v, error.as_str());
        self.error = Some(string_of(v.as_slice()));
    }

    fn on_skipped(&mut self, path: String)
        ensures
            skipped_rel(*old(self), path, *final(self)),
    {
        if let Some(i) = find_download(&self.downloads, &path) {
            let err = clone_opt_string(&self.downloads[i].error);
            self.set_download(i, true, true, err);
        }
    }

    /// Apply a completed request.
    pub fn handle_msg(&mut self, msg: Msg)
        requires
            old(self).wf(),
            msg matches Msg::ContentsLoaded(_, items) ==> items@.len() <= 0x7fff_0000,
        ensures
            msg_rel(*old(self), msg, *final(self)),
            final(self).wf(),
    {
        self.loading = false;
        match msg {
            Msg::RepoLoaded(meta, branches) => self.on_repo_loaded(meta, branches),
            Msg::ContentsLoaded(path, items) => self.on_contents_loaded(path, items),
            Msg::PreviewLoaded(content) => {
                self.preview = Some(Preview::Text(content));
            },
            Msg::NodesDiscovered(list) => self.on_nodes_discovered(list),
            Msg::DownloadDone { path, dest } => self.on_done(path, dest),
            Msg::DownloadFail { path, error } => self.on_fail(path, error),
            Msg::DownloadSkipped { path } => self.on_skipped(path),
            Msg::ApiError(e) => {
                self.error = Some(e);
            },
        }
    }
}

} // verus!
