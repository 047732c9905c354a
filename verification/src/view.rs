//! What the screens show, computed from the state: which badges, counts, labels and
//! positions the drawing code puts on screen.
use vstd::prelude::*;
use crate::app::{App, DlEntry, SearchMode, SortMode, Status};
use crate::input::{utf8_len, is_boundary, boundary_index, byte_len_of, boundary_at, lemma_boundary_index};
use crate::providers::NodeKind;
use crate::text::{chars_of, string_of, copy_range, push_str};

verus! {

// ─── Downloads ────────────────────────────────────────────────────────────────

pub open spec fn is_active(d: DlEntry) -> bool {
    !d.done && d.error is None
}

pub open spec fn active_count(ds: Seq<DlEntry>) -> nat {
    ds.filter(|d: DlEntry| is_active(d)).len()
}

pub open spec fn done_count(ds: Seq<DlEntry>) -> nat {
    ds.filter(|d: DlEntry| d.done).len()
}

pub open spec fn failed_count(ds: Seq<DlEntry>) -> nat {
    ds.filter(|d: DlEntry| d.error is Some).len()
}

/// Downloads under way, finished, and failed.
pub fn download_counts(ds: &Vec<DlEntry>) -> (r: (usize, usize, usize))
    ensures
        r.0 == active_count(ds@),
        r.1 == done_count(ds@),
        r.2 == failed_count(ds@),
{
    let mut a: usize = 0;
    let mut d: usize = 0;
    let mut f: usize = 0;
    let mut i: usize = 0;
    proof {
        reveal(Seq::filter);
        assert(ds@.take(0) =~= Seq::<DlEntry>::empty());
    }
    while i < ds.len()
        invariant
            i <= ds.len(),
            a == active_count(ds@.take(i as int)),
            d == done_count(ds@.take(i as int)),
            f == failed_count(ds@.take(i as int)),
            a <= i,
            d <= i,
            f <= i,
        decreases ds.len() - i,
    {
        proof {
            reveal(Seq::filter);
            assert(ds@.take(i + 1).drop_last() =~= ds@.take(i as int));
            assert(ds@.take(i + 1).last() == ds@[i as int]);
        }
        let e = &ds[i];
        if !e.done && e.error.is_none() {
            a += 1;
        }
        if e.done {
            d += 1;
        }
        if e.error.is_some() {
            f += 1;
        }
        i += 1;
    }
    proof {
        assert(ds@.take(i as int) =~= ds@);
    }
    (a, d, f)
}

// ─── Shortened names ──────────────────────────────────────────────────────────

/// `s` cut to fit `w` bytes: when longer, its first `w - 1` bytes and an ellipsis.
pub open spec fn truncated(s: Seq<char>, w: nat) -> Seq<char> {
    if utf8_len(s) > w {
        s.take(boundary_index(s, if w > 0 { w - 1 } else { 0 })) + "…"@
    } else {
        s
    }
}

/// A name longer than `w` bytes can be cut only where a character begins.
pub open spec fn cuttable(s: Seq<char>, w: nat) -> bool {
    utf8_len(s) > w ==> is_boundary(s, if w > 0 { w - 1 } else { 0 })
}

/// `s` shortened to `w` bytes with an ellipsis, as the lists show long names.
pub fn truncate_name(s: &str, w: usize) -> (r: String)
    requires
        cuttable(s@, w as nat),
    ensures
        r@ == truncated(s@, w as nat),
{
    let n = byte_len_of(s);
    if n > w {
        let cut: usize = if w > 0 { w - 1 } else { 0 };
        let v = chars_of(s);
        proof {
            crate::input::lemma_prefix_full(s@);
        }
        match boundary_at(&v, cut) {
            Some(k) => {
                proof {
                    lemma_boundary_index(s@, cut as int, k as int);
                }
                let mut out = copy_range(&v, 0, k);
                push_str(&mut out, "…");
                proof {
                    assert(out@ =~= truncated(s@, w as nat));
                }
                string_of(out.as_slice())
            },
            None => String::new(),
        }
    } else {
        string_of(chars_of(s).as_slice())
    }
}

// ─── Top bar ──────────────────────────────────────────────────────────────────

/// One badge of the top bar.
pub enum TopItem {
    /// owner, repository and branch
    Repo { owner: String, repo: String, branch: String },
    Stars(u64),
    Language(String),
    Private,
    Sort(SortMode),
    MinSize(u64),
    Ext(String),
    Matches(usize),
    Bookmarks(usize),
    /// downloads under way (the spinner shows)
    Downloading(usize),
    /// downloads finished, when none is under way
    Downloaded(usize),
    Loading,
    Selected(usize),
}

pub open spec fn repo_items(a: App) -> Seq<TopItem> {
    if a.owner@.len() == 0 {
        Seq::empty()
    } else {
        let base = seq![TopItem::Repo { owner: a.owner, repo: a.repo, branch: a.branch }];
        match a.repo_meta {
            Some(m) => {
                let s = base.push(TopItem::Stars(m.stars));
                let l = match m.language {
                    Some(lang) => s.push(TopItem::Language(lang)),
                    None => s,
                };
                if m.private {
                    l.push(TopItem::Private)
                } else {
                    l
                }
            },
            None => base,
        }
    }
}

pub open spec fn push_if(s: Seq<TopItem>, c: bool, x: TopItem) -> Seq<TopItem> {
    if c {
        s.push(x)
    } else {
        s
    }
}

/// The badges after the provider badge, in order.
pub open spec fn top_items(a: App) -> Seq<TopItem> {
    let s0 = repo_items(a);
    let s1 = push_if(s0, a.sort_mode != SortMode::Default, TopItem::Sort(a.sort_mode));
    let s2 = match a.min_size {
        Some(m) => s1.push(TopItem::MinSize(m)),
        None => s1,
    };
    let s3 = match a.ext_filter {
        Some(e) => s2.push(TopItem::Ext(e)),
        None => s2,
    };
    let s4 = push_if(s3, a.search_query@.len() > 0, TopItem::Matches(a.filtered@.len() as usize));
    let s5 = push_if(s4, a.bookmarks@.len() > 0, TopItem::Bookmarks(a.bookmarks@.len() as usize));
    let act = active_count(a.downloads@);
    let done = done_count(a.downloads@);
    let s6 = if act > 0 {
        s5.push(TopItem::Downloading(act as usize))
    } else if done > 0 {
        s5.push(TopItem::Downloaded(done as usize))
    } else {
        s5
    };
    let s7 = push_if(s6, a.loading, TopItem::Loading);
    push_if(s7, a.selected@.len() > 0, TopItem::Selected(a.selected@.len() as usize))
}

fn clone_string(s: &String) -> (r: String)
    ensures
        r == *s,
{
    s.clone()
}

impl App {
    /// The badges of the top bar after the provider badge.
    pub fn top_bar(&self) -> (r: Vec<TopItem>)
        ensures
            r@ == top_items(*self),
    {
        let mut v: Vec<TopItem> = Vec::new();
        if !self.owner.as_str().is_empty() {
            v.push(TopItem::Repo {
                owner: clone_string(&self.owner),
                repo: clone_string(&self.repo),
                branch: clone_string(&self.branch),
            });
            if let Some(m) = &self.repo_meta {
                v.push(TopItem::Stars(m.stars));
                if let Some(lang) = &m.language {
                    v.push(TopItem::Language(clone_string(lang)));
                }
                if m.private {
                    v.push(TopItem::Private);
                }
            }
        }
        proof {
            assert(v@ =~= repo_items(*self));
        }
        let ghost s0 = v@;
        if self.sort_mode != SortMode::Default {
            v.push(TopItem::Sort(self.sort_mode));
        }
        if let Some(m) = self.min_size {
            v.push(TopItem::MinSize(m));
        }
        if let Some(e) = &self.ext_filter {
            v.push(TopItem::Ext(clone_string(e)));
        }
        if !self.search_query.as_str().is_empty() {
            v.push(TopItem::Matches(self.filtered.len()));
        }
        if self.bookmarks.len() > 0 {
            v.push(TopItem::Bookmarks(self.bookmarks.len()));
        }
        let (act, done, _failed) = download_counts(&self.downloads);
        if act > 0 {
            v.push(TopItem::Downloading(act));
        } else if done > 0 {
            v.push(TopItem::Downloaded(done));
        }
        if self.loading {
            v.push(TopItem::Loading);
        }
        if self.selected.len() > 0 {
            v.push(TopItem::Selected(self.selected.len()));
        }
        proof {
            assert(v@ =~= top_items(*self));
        }
        v
    }
}

// ─── Bottom bar ───────────────────────────────────────────────────────────────

/// What the bottom bar shows.
pub enum BottomView {
    /// typing a search of this kind
    Search(SearchMode),
    Error(String),
    /// names of the first two downloads under way, how many more, how many done and failed
    Downloads { names: Vec<String>, more: usize, done: usize, failed: usize },
    /// this many entries selected
    Selected(usize),
    /// the status line
    Status,
}

/// Names of the first `n` active downloads.
pub open spec fn active_names(ds: Seq<DlEntry>) -> Seq<Seq<char>> {
    ds.filter(|d: DlEntry| is_active(d)).map_values(|d: DlEntry| d.name@)
}

pub open spec fn bottom_spec(a: App, r: BottomView) -> bool {
    if a.search_mode != SearchMode::Off {
        r == BottomView::Search(a.search_mode)
    } else if a.error is Some {
        r == BottomView::Error(a.error->0)
    } else if active_count(a.downloads@) > 0 {
        let act = active_count(a.downloads@);
        &&& r matches BottomView::Downloads { names, more, done, failed }
        &&& names@.map_values(|s: String| s@) == active_names(a.downloads@).take(if act < 2 { act as int } else { 2 })
        &&& more == (if act > 2 { act - 2 } else { 0 })
        &&& done == done_count(a.downloads@)
        &&& failed == failed_count(a.downloads@)
    } else if a.selected@.len() > 0 {
        r == BottomView::Selected(a.selected@.len() as usize)
    } else {
        r is Status
    }
}

fn first_active_names(ds: &Vec<DlEntry>) -> (r: Vec<String>)
    ensures
        r@.map_values(|s: String| s@) == active_names(ds@).take(
            if active_names(ds@).len() < 2 { active_names(ds@).len() as int } else { 2 },
        ),
{
    let mut r: Vec<String> = Vec::new();
    let mut i: usize = 0;
    proof {
        reveal(Seq::filter);
        assert(ds@.take(0).filter(|d: DlEntry| is_active(d)) =~= Seq::<DlEntry>::empty());
    }
    while i < ds.len() && r.len() < 2
        invariant
            i <= ds.len(),
            r@.len() <= 2,
            r@.map_values(|s: String| s@) == active_names(ds@.take(i as int)),
        decreases ds.len() - i,
    {
        proof {
            reveal(Seq::filter);
            assert(ds@.take(i + 1).drop_last() =~= ds@.take(i as int));
            assert(ds@.take(i + 1).last() == ds@[i as int]);
        }
        let e = &ds[i];
        let ghost before = r@;
        let ghost fprev = ds@.take(i as int).filter(|d: DlEntry| is_active(d));
        let ghost fnext = ds@.take(i + 1).filter(|d: DlEntry| is_active(d));
        if !e.done && e.error.is_none() {
            r.push(clone_string(&e.name));
            proof {
                assert(fnext == fprev.push(*e));
                assert(fnext.map_values(|d: DlEntry| d.name@) =~= fprev.map_values(|d: DlEntry| d.name@).push(e.name@));
                assert(r@.map_values(|s: String| s@) =~= before.map_values(|s: String| s@).push(e.name@));
            }
        } else {
            proof {
                assert(fnext == fprev);
            }
        }
        i += 1;
    }
    proof {
        lemma_active_names_prefix(ds@, i as int);
        if r@.len() < 2 {
            assert(ds@.take(i as int) =~= ds@);
        }
    }
    r
}

proof fn lemma_active_names_prefix(ds: Seq<DlEntry>, i: int)
    requires
        0 <= i <= ds.len(),
    ensures
        active_names(ds.take(i)).len() <= active_names(ds).len(),
        active_names(ds) == active_names(ds.take(i)) + active_names(ds.skip(i)),
{
    reveal(Seq::filter);
    assert(ds =~= ds.take(i) + ds.skip(i));
    Seq::filter_distributes_over_add(ds.take(i), ds.skip(i), |d: DlEntry| is_active(d));
    assert(ds.take(i) + ds.skip(i) == ds);
    let f1 = ds.take(i).filter(|d: DlEntry| is_active(d));
    let f2 = ds.skip(i).filter(|d: DlEntry| is_active(d));
    assert((f1 + f2).map_values(|d: DlEntry| d.name@) =~= f1.map_values(|d: DlEntry| d.name@) + f2.map_values(
        |d: DlEntry| d.name@,
    ));
}

impl App {
    /// What the bottom bar shows.
    pub fn bottom_bar(&self) -> (r: BottomView)
        ensures
            bottom_spec(*self, r),
    {
        if self.search_mode != SearchMode::Off {
            return BottomView::Search(self.search_mode);
        }
        if let Some(e) = &self.error {
            return BottomView::Error(clone_string(e));
        }
        let (act, done, failed) = download_counts(&self.downloads);
        if act > 0 {
            let names = first_active_names(&self.downloads);
            proof {
                assert(active_names(self.downloads@).len() == active_count(self.downloads@));
            }
            let more = if act > 2 { act - 2 } else { 0 };
            return BottomView::Downloads { names, more, done, failed };
        }
        if self.selected.len() > 0 {
            return BottomView::Selected(self.selected.len());
        }
        BottomView::Status
    }
}

// ─── File list ────────────────────────────────────────────────────────────────

/// Title of the file list.
pub enum ListTitle {
    /// a search (of this kind, `Off` when only a query is left), whether it is being
    /// typed, and how many entries match
    Search { mode: SearchMode, typing: bool, matches: usize },
    /// directories and files listed, how many are selected, and the sort mode when not
    /// the default
    Counts { dirs: usize, files: usize, selected: usize, sort: Option<SortMode> },
}

pub open spec fn dir_count(a: App) -> nat {
    a.files@.filter(|n: crate::providers::Node| n.kind == NodeKind::Dir).len()
}

pub open spec fn list_title_spec(a: App) -> ListTitle {
    if a.search_mode != SearchMode::Off || a.search_query@.len() > 0 {
        ListTitle::Search {
            mode: a.search_mode,
            typing: a.search_mode != SearchMode::Off,
            matches: a.filtered@.len() as usize,
        }
    } else {
        ListTitle::Counts {
            dirs: dir_count(a) as usize,
            files: (a.files@.len() - dir_count(a)) as usize,
            selected: a.selected@.len() as usize,
            sort: if a.sort_mode != SortMode::Default {
                Some(a.sort_mode)
            } else {
                None
            },
        }
    }
}

/// Mark in front of a listed entry.
#[derive(Debug, Clone, Copy, PartialEq, Eq, Structural)]
pub enum RowMark {
    Selected,
    Previewed,
    Pinned,
    Plain,
}

pub open spec fn row_mark_spec(a: App, path: Seq<char>) -> RowMark {
    if crate::app::path_set(a.selected@).contains(path) {
        RowMark::Selected
    } else if a.preview_path matches Some(p) && p@ == path {
        RowMark::Previewed
    } else if exists|i: int| 0 <= i < a.bookmarks@.len() && (#[trigger] a.bookmarks@[i])@ == path {
        RowMark::Pinned
    } else {
        RowMark::Plain
    }
}

/// Size shown in the accent color: larger than the size filter's threshold.
pub open spec fn size_hl_spec(min_size: Option<u64>, size: Option<u64>) -> bool {
    match min_size {
        Some(m) => (match size {
            Some(s) => s,
            None => 0,
        }) > m,
        None => false,
    }
}

impl App {
    /// Title of the file list.
    pub fn list_title(&self) -> (r: ListTitle)
        ensures
            r == list_title_spec(*self),
    {
        if self.search_mode != SearchMode::Off || !self.search_query.as_str().is_empty() {
            return ListTitle::Search {
                mode: self.search_mode,
                typing: self.search_mode != SearchMode::Off,
                matches: self.filtered.len(),
            };
        }
        let mut dirs: usize = 0;
        let mut i: usize = 0;
        proof {
            reveal(Seq::filter);
            assert(self.files@.take(0) =~= Seq::<crate::providers::Node>::empty());
        }
        while i < self.files.len()
            invariant
                i <= self.files.len(),
                dirs == self.files@.take(i as int).filter(|n: crate::providers::Node| n.kind == NodeKind::Dir).len(),
                dirs <= i,
            decreases self.files.len() - i,
        {
            proof {
                reveal(Seq::filter);
                assert(self.files@.take(i + 1).drop_last() =~= self.files@.take(i as int));
                assert(self.files@.take(i + 1).last() == self.files@[i as int]);
            }
            if self.files[i].kind == NodeKind::Dir {
                dirs += 1;
            }
            i += 1;
        }
        proof {
            assert(self.files@.take(i as int) =~= self.files@);
        }
        ListTitle::Counts {
            dirs,
            files: self.files.len() - dirs,
            selected: self.selected.len(),
            sort: if self.sort_mode != SortMode::Default {
                Some(self.sort_mode)
            } else {
                None
            },
        }
    }

    /// Mark in front of the entry with path `path`: selected, else previewed, else pinned.
    pub fn row_mark(&self, path: &String) -> (r: RowMark)
        ensures
            r == row_mark_spec(*self, path@),
    {
        let sel = crate::app::position_of(&self.selected, path);
        if sel.is_some() {
            return RowMark::Selected;
        }
        if let Some(p) = &self.preview_path {
            if p.eq(path) {
                return RowMark::Previewed;
            }
        }
        if self.is_bookmarked(path.as_str()) {
            return RowMark::Pinned;
        }
        RowMark::Plain
    }
}

/// Whether a size is shown in the accent color.
pub fn size_highlighted(min_size: Option<u64>, size: Option<u64>) -> (r: bool)
    ensures
        r == size_hl_spec(min_size, size),
{
    match min_size {
        Some(m) => (match size {
            Some(s) => s,
            None => 0,
        }) > m,
        None => false,
    }
}

/// Spaces between a row's name and its size: what is left of `width` after the mark, the
/// icon, the name (and a `/` for a directory) and the size, at least one.
pub fn row_gap(width: usize, name_bytes: usize, is_dir: bool, size_bytes: usize) -> (r: usize)
    requires
        name_bytes + size_bytes + 5 <= usize::MAX,
    ensures
        r == (if width > 4 + name_bytes + (if is_dir { 1int } else { 0 }) + size_bytes + 1 {
            width - (4 + name_bytes + (if is_dir { 1int } else { 0 }) + size_bytes)
        } else {
            1
        }),
{
    let left = 2 + 2 + name_bytes + if is_dir { 1 } else { 0 };
    let used = left + size_bytes;
    let g = width.saturating_sub(used);
    if g > 1 {
        g
    } else {
        1
    }
}

// ─── Breadcrumb ───────────────────────────────────────────────────────────────

/// All pieces of `s` between occurrences of `c`, empty ones included (`str::split`).
pub open spec fn split_all(s: Seq<char>, c: char) -> Seq<Seq<char>>
    decreases s.len(),
{
    let k = crate::text::next_sep(s, c, 0);
    if k >= s.len() {
        seq![s]
    } else {
        proof {
            crate::text::lemma_next_sep(s, c, 0);
        }
        seq![s.take(k)] + split_all(s.skip(k + 1), c)
    }
}

/// The directories of the current path, for the breadcrumb (none at the root).
pub fn breadcrumb_parts(path: &str) -> (r: Vec<String>)
    ensures
        path@.len() == 0 ==> r@.len() == 0,
        path@.len() > 0 ==> r@.map_values(|s: String| s@) == split_all(path@, '/'),
{
    let v = chars_of(path);
    let mut r: Vec<String> = Vec::new();
    if v.len() == 0 {
        return r;
    }
    let mut start: usize = 0;
    let mut i: usize = 0;
    proof {
        assert(v@.skip(0) =~= v@);
    }
    while i < v.len()
        invariant
            start <= i <= v.len(),
            v@ == path@,
            r@.map_values(|s: String| s@) + split_all(v@.skip(start as int), '/') == split_all(v@, '/'),
            forall|m: int| start <= m < i ==> v@[m] != '/',
        decreases v.len() - i,
    {
        if v[i] == '/' {
            let ghost t = v@.skip(start as int);
            proof {
                crate::text::lemma_next_sep_at(t, '/', 0, i - start);
                assert(t.take(i - start) =~= v@.subrange(start as int, i as int));
                assert(t.skip(i - start + 1) =~= v@.skip(i + 1));
            }
            let ghost before = r@.map_values(|s: String| s@);
            let piece = copy_range(&v, start, i);
            r.push(string_of(piece.as_slice()));
            proof {
                assert(r@.map_values(|s: String| s@) =~= before.push(piece@));
                assert(split_all(t, '/') == seq![t.take(i - start)] + split_all(t.skip(i - start + 1), '/'));
                assert(before + split_all(t, '/') =~= r@.map_values(|s: String| s@) + split_all(v@.skip(i + 1), '/'));
            }
            start = i + 1;
        }
        i += 1;
    }
    let ghost t = v@.skip(start as int);
    proof {
        crate::text::lemma_next_sep_at(t, '/', 0, t.len() as int);
    }
    let ghost before = r@.map_values(|s: String| s@);
    let piece = copy_range(&v, start, v.len());
    r.push(string_of(piece.as_slice()));
    proof {
        assert(piece@ =~= t);
        assert(r@.map_values(|s: String| s@) =~= before.push(t));
        assert(split_all(t, '/') == seq![t]);
        assert(before + seq![t] =~= before.push(t));
    }
    r
}

// ─── Preview ──────────────────────────────────────────────────────────────────

pub open spec fn newline_count(s: Seq<char>) -> nat {
    s.filter(|ch: char| ch == '\n').len()
}

/// Number of lines `str::lines` yields: a final line ending adds no line.
pub open spec fn line_count_spec(s: Seq<char>) -> nat {
    newline_count(s) + if s.len() > 0 && s.last() != '\n' {
        1nat
    } else {
        0nat
    }
}

/// Number of lines of `s` as `str::lines` splits them.
pub fn line_count(s: &str) -> (n: usize)
    ensures
        n == line_count_spec(s@),
{
    let v = chars_of(s);
    let mut n: usize = 0;
    let mut i: usize = 0;
    proof {
        reveal(Seq::filter);
        assert(v@.take(0) =~= Seq::<char>::empty());
    }
    while i < v.len()
        invariant
            i <= v.len(),
            v@ == s@,
            n == newline_count(v@.take(i as int)),
            n <= i,
            i > 0 && v@[i - 1] != '\n' ==> n < i,
        decreases v.len() - i,
    {
        proof {
            reveal(Seq::filter);
            assert(v@.take(i + 1).drop_last() =~= v@.take(i as int));
            assert(v@.take(i + 1).last() == v@[i as int]);
        }
        if v[i] == '\n' {
            n += 1;
        }
        i += 1;
    }
    proof {
        assert(v@.take(i as int) =~= v@);
    }
    if v.len() > 0 && v[v.len() - 1] != '\n' {
        n + 1
    } else {
        n
    }
}

/// Name shown over the preview: the last part of the previewed path, or `preview`.
pub open spec fn preview_title_spec(p: Option<String>) -> Seq<char> {
    match p {
        Some(s) => crate::text::after_last(s@, '/'),
        None => "preview"@,
    }
}

impl App {
    pub fn preview_title(&self) -> (r: String)
        ensures
            r@ == preview_title_spec(self.preview_path),
    {
        match &self.preview_path {
            Some(p) => string_of(crate::text::after_last_chars(&chars_of(p.as_str()), '/').as_slice()),
            None => string_of(chars_of("preview").as_slice()),
        }
    }
}

/// How far through the preview the scroll position is, in percent.
pub fn scroll_percent(scroll: u16, total: usize) -> (r: usize)
    ensures
        r == (scroll as int * 100) / (if total > 0 { total as int } else { 1 }),
{
    let t = if total > 0 { total } else { 1 };
    ((scroll as usize) * 100) / t
}

// ─── Popup sizes ──────────────────────────────────────────────────────────────

pub open spec fn sat_sub(a: int, b: int) -> int {
    if a > b {
        a - b
    } else {
        0
    }
}

pub open spec fn min_i(a: int, b: int) -> int {
    if a < b {
        a
    } else {
        b
    }
}

pub open spec fn max_i(a: int, b: int) -> int {
    if a > b {
        a
    } else {
        b
    }
}

/// Width and height of the downloads panel for `n` downloads on a `width` by `height` screen.
pub fn downloads_popup_size(n: usize, width: u16, height: u16) -> (r: (u16, u16))
    requires
        (n as u16) + 6 <= u16::MAX,
    ensures
        r.0 == min_i(72, sat_sub(width as int, 4)),
        r.1 == max_i(min_i((n as u16) + 6, sat_sub(height as int, 4)), 8),
{
    let w = if width.saturating_sub(4) < 72 { width.saturating_sub(4) } else { 72 };
    let k: u16 = (n as u16) + 6;
    let m = if k < height.saturating_sub(4) { k } else { height.saturating_sub(4) };
    (w, if m > 8 { m } else { 8 })
}

/// Width and height of the branch picker for `n` branches.
pub fn branch_popup_size(n: usize, width: u16, height: u16) -> (r: (u16, u16))
    requires
        (n as u16) + 4 <= u16::MAX,
    ensures
        r.0 == min_i(44, sat_sub(width as int, 4)),
        r.1 == max_i(min_i((n as u16) + 4, sat_sub(height as int, 4)), 6),
{
    let w = if width.saturating_sub(4) < 44 { width.saturating_sub(4) } else { 44 };
    let k: u16 = (n as u16) + 4;
    let m = if k < height.saturating_sub(4) { k } else { height.saturating_sub(4) };
    (w, if m > 6 { m } else { 6 })
}

/// Rows of planned files shown, and the plan popup's width and height, for `n` entries.
pub fn plan_popup_size(n: usize, width: u16, height: u16) -> (r: (u16, u16, u16))
    ensures
        r.0 == min_i(n as u16 as int, 14),
        r.1 == min_i(68, sat_sub(width as int, 4)),
        r.2 == min_i(r.0 + 10, sat_sub(height as int, 4)),
{
    let c = n as u16;
    let list_h = if c < 14 { c } else { 14 };
    let w = if width.saturating_sub(4) < 68 { width.saturating_sub(4) } else { 68 };
    let h = if list_h + 10 < height.saturating_sub(4) { list_h + 10 } else { height.saturating_sub(4) };
    (list_h, w, h)
}

/// Width and height of the help popup.
pub fn help_popup_size(width: u16, height: u16) -> (r: (u16, u16))
    ensures
        r.0 == min_i(74, sat_sub(width as int, 4)),
        r.1 == min_i(44, sat_sub(height as int, 2)),
{
    let w = if width.saturating_sub(4) < 74 { width.saturating_sub(4) } else { 74 };
    let h = if height.saturating_sub(2) < 44 { height.saturating_sub(2) } else { 44 };
    (w, h)
}

/// Width and height of the configuration panel.
pub fn config_popup_size(width: u16, height: u16) -> (r: (u16, u16))
    ensures
        r.0 == min_i(70, sat_sub(width as int, 4)),
        r.1 == min_i(30, sat_sub(height as int, 4)),
{
    let w = if width.saturating_sub(4) < 70 { width.saturating_sub(4) } else { 70 };
    let h = if height.saturating_sub(4) < 30 { height.saturating_sub(4) } else { 30 };
    (w, h)
}

// ─── Downloads panel rows ─────────────────────────────────────────────────────

#[derive(Debug, Clone, Copy, PartialEq, Eq, Structural)]
pub enum DlStatus {
    Failed,
    Skipped,
    Done,
    Running,
}

pub open spec fn dl_status_spec(d: DlEntry) -> DlStatus {
    if d.error is Some {
        DlStatus::Failed
    } else if d.skipped {
        DlStatus::Skipped
    } else if d.done {
        DlStatus::Done
    } else {
        DlStatus::Running
    }
}

/// How a download's row is marked: failed before skipped before done.
pub fn dl_status(d: &DlEntry) -> (r: DlStatus)
    ensures
        r == dl_status_spec(*d),
{
    if d.error.is_some() {
        DlStatus::Failed
    } else if d.skipped {
        DlStatus::Skipped
    } else if d.done {
        DlStatus::Done
    } else {
        DlStatus::Running
    }
}

/// The first 30 bytes of an error message (all of a shorter one).
pub open spec fn excerpt_spec(e: Seq<char>) -> Seq<char> {
    if utf8_len(e) > 30 {
        e.take(boundary_index(e, 30))
    } else {
        e
    }
}

pub fn error_excerpt(e: &str) -> (r: String)
    requires
        utf8_len(e@) > 30 ==> is_boundary(e@, 30),
    ensures
        r@ == excerpt_spec(e@),
{
    let n = byte_len_of(e);
    let v = chars_of(e);
    if n > 30 {
        proof {
            crate::input::lemma_prefix_full(e@);
        }
        match boundary_at(&v, 30) {
            Some(k) => {
                proof {
                    lemma_boundary_index(e@, 30, k as int);
                }
                string_of(copy_range(&v, 0, k).as_slice())
            },
            None => String::new(),
        }
    } else {
        string_of(v.as_slice())
    }
}

// ─── Configuration panel ──────────────────────────────────────────────────────

pub open spec fn cfg_hint(idx: usize) -> Seq<char> {
    if idx == 0 {
        "github_token"@
    } else if idx == 1 {
        "gitlab_token"@
    } else if idx == 2 {
        "codeberg_token"@
    } else if idx == 3 {
        "gitea_token"@
    } else if idx == 4 {
        "gitea_url (self-hosted)"@
    } else {
        "download_path"@
    }
}

/// Text shown in configuration field `idx`: the text being edited with a cursor, or the
/// stored value (tokens longer than eight bytes shortened), or a hint when it is unset.
pub open spec fn cfg_display_spec(a: App, idx: usize) -> Seq<char> {
    let raw = crate::app_panels::cfg_value(a, idx);
    if a.cfg_field == idx && a.cfg_editing {
        a.cfg_buf@ + "_"@
    } else if raw.len() == 0 {
        "(not set)  # "@ + cfg_hint(idx)
    } else if idx < 4 && utf8_len(raw) > 8 {
        crate::cli::masked(raw)
    } else {
        raw
    }
}

impl App {
    pub fn cfg_display(&self, idx: usize) -> (r: String)
        requires
            idx < 4 && utf8_len(crate::app_panels::cfg_value(*self, idx)) > 8 ==> is_boundary(
                crate::app_panels::cfg_value(*self, idx),
                4,
            ) && is_boundary(
                crate::app_panels::cfg_value(*self, idx),
                utf8_len(crate::app_panels::cfg_value(*self, idx)) - 4,
            ),
        ensures
            r@ == cfg_display_spec(*self, idx),
    {
        if self.cfg_field == idx && self.cfg_editing {
            let mut v = chars_of(self.cfg_buf.as_str());
            push_str(&mut v, "_");
            return string_of(v.as_slice());
        }
        let raw = self.cfg_field_value_pub(idx);
        if raw.as_str().is_empty() {
            let mut v = chars_of("(not set)  # ");
            let hint = if idx == 0 {
                "github_token"
            } else if idx == 1 {
                "gitlab_token"
            } else if idx == 2 {
                "codeberg_token"
            } else if idx == 3 {
                "gitea_token"
            } else if idx == 4 {
                "gitea_url (self-hosted)"
            } else {
                "download_path"
            };
            push_str(&mut v, hint);
            return string_of(v.as_slice());
        }
        if idx < 4 && byte_len_of(raw.as_str()) > 8 {
            return crate::cli::mask_token(&raw);
        }
        raw
    }
}

// ─── Home screen ──────────────────────────────────────────────────────────────

/// Rows of the logo.
pub open spec fn logo_rows() -> int {
    6
}

/// First row of the home screen's content, which is centered vertically.
pub open spec fn home_top(height: u16, history_len: usize) -> int {
    let hist_h = min_i(history_len as int, 6);
    let total = logo_rows() + 2 + 3 + 2 + (if hist_h > 0 {
        hist_h + 3
    } else {
        0
    });
    sat_sub(height as int, total) / 2
}

/// Rows and columns of the home screen's parts.
pub struct HomeLayout {
    pub top_y: u16,
    /// version and tagline
    pub tag_y: u16,
    /// the input box (three rows high)
    pub box_x: u16,
    pub box_y: u16,
    pub box_w: u16,
    /// whether the suggestion dropdown fits below the box
    pub dropdown: bool,
    pub hint_y: u16,
    /// heading of the recent repositories; their rows follow
    pub hist_y: u16,
}

pub open spec fn home_layout_spec(width: u16, height: u16, history_len: usize, suggestions: usize, l: HomeLayout) -> bool {
    let n = suggestions as u16 as int;
    let top = home_top(height, history_len);
    let box_w = min_i(66, sat_sub(width as int, 4));
    let box_y = top + logo_rows() + 2;
    let drop_h = if n > 0 {
        n + 2
    } else {
        0
    };
    &&& l.top_y == top
    &&& l.tag_y == top + logo_rows()
    &&& l.box_w == box_w
    &&& l.box_x == (width - box_w) / 2
    &&& l.box_y == box_y
    &&& l.dropdown == (n > 0 && box_y + 3 + n + 2 < height)
    &&& l.hint_y == box_y + 3 + drop_h
    &&& l.hist_y == box_y + 3 + drop_h + 2
}

/// Whether the home screen's rows, down to the last suggestion, fit in 16-bit row numbers.
pub fn home_layout_fits(height: u16, history_len: usize, suggestions: usize) -> (r: bool)
    ensures
        r == (home_top(height, history_len) + 21 + (suggestions as u16) <= u16::MAX),
{
    let hist_h: u16 = if history_len < 6 { history_len as u16 } else { 6 };
    let total_h: u16 = 6 + 2 + 3 + 2 + if hist_h > 0 { hist_h + 3 } else { 0 };
    let top_y = height.saturating_sub(total_h) / 2;
    let n = suggestions as u16;
    (top_y as u32) + 21 + (n as u32) <= 65535
}

/// Layout of the home screen on a `width` by `height` screen.
pub fn home_layout(width: u16, height: u16, history_len: usize, suggestions: usize) -> (l: HomeLayout)
    requires
        home_top(height, history_len) + 21 + (suggestions as u16) <= u16::MAX,
    ensures
        home_layout_spec(width, height, history_len, suggestions, l),
{
    let hist_h: u16 = if history_len < 6 { history_len as u16 } else { 6 };
    let total_h: u16 = 6 + 2 + 3 + 2 + if hist_h > 0 { hist_h + 3 } else { 0 };
    let top_y = height.saturating_sub(total_h) / 2;
    let tag_y = top_y + 6;
    let box_w = if width.saturating_sub(4) < 66 { width.saturating_sub(4) } else { 66 };
    let box_x = (width - box_w) / 2;
    let box_y = tag_y + 2;
    let n = suggestions as u16;
    let dropdown = n > 0 && box_y + 3 + n + 2 < height;
    let hint_y = box_y + 3 + if n > 0 { n + 2 } else { 0 };
    let hist_y = hint_y + 2;
    HomeLayout { top_y, tag_y, box_x, box_y, box_w, dropdown, hint_y, hist_y }
}

/// A suggestion split after as many bytes as the input has (all of it when shorter): the
/// part drawn as matched, and the rest.
pub open spec fn suggestion_parts(input: Seq<char>, s: Seq<char>) -> (Seq<char>, Seq<char>) {
    let k = boundary_index(s, min_i(utf8_len(input) as int, utf8_len(s) as int));
    (s.take(k), s.skip(k))
}

pub fn split_suggestion(input: &str, s: &str) -> (r: (String, String))
    requires
        is_boundary(s@, min_i(utf8_len(input@) as int, utf8_len(s@) as int)),
    ensures
        (r.0@, r.1@) == suggestion_parts(input@, s@),
{
    let a = byte_len_of(input);
    let b = byte_len_of(s);
    let cut = if a < b { a } else { b };
    let v = chars_of(s);
    proof {
        crate::input::lemma_prefix_full(s@);
    }
    match boundary_at(&v, cut) {
        Some(k) => {
            proof {
                lemma_boundary_index(s@, cut as int, k as int);
            }
            (string_of(copy_range(&v, 0, k).as_slice()), string_of(copy_range(&v, k, v.len()).as_slice()))
        },
        None => (String::new(), String::new()),
    }
}

} // verus!
