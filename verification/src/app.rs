//! The browser's state and the transitions that keys and completed requests cause.
//! Requests, downloads, clipboard access and persistence are not performed here:
//! the transitions queue them as `Effect`s for the caller to carry out.
use vstd::prelude::*;
use crate::config::{Config, HistoryEntry, ThemeName};
use crate::fuzzy::FuzzyMatch;
use crate::providers::{Node, ProviderKind, RepoMeta};
use crate::theme::{Theme, palette};

verus! {

// ─── Screen ───────────────────────────────────────────────────────────────────

#[derive(Debug, Clone, Copy, PartialEq, Eq, Structural)]
pub enum Screen {
    Home,
    Browser,
    BranchPopup,
    DownloadPlan,
    Help,
    Config,
    Downloads,
}

// ─── Sort mode ────────────────────────────────────────────────────────────────

#[derive(Debug, Clone, Copy, PartialEq, Eq, Structural)]
pub enum SortMode {
    /// dirs first, then alpha
    Default,
    /// strict alpha
    Name,
    /// largest first
    Size,
    /// group by extension
    Ext,
}

pub open spec fn sort_label_spec(m: SortMode) -> Seq<char> {
    match m {
        SortMode::Default => "default"@,
        SortMode::Name => "name"@,
        SortMode::Size => "size↓"@,
        SortMode::Ext => "ext"@,
    }
}

pub open spec fn sort_next_spec(m: SortMode) -> SortMode {
    match m {
        SortMode::Default => SortMode::Name,
        SortMode::Name => SortMode::Size,
        SortMode::Size => SortMode::Ext,
        SortMode::Ext => SortMode::Default,
    }
}

impl SortMode {
    pub fn label(&self) -> (r: &'static str)
        ensures
            r@ == sort_label_spec(*self),
    {
        match self {
            SortMode::Default => "default",
            SortMode::Name => "name",
            SortMode::Size => "size↓",
            SortMode::Ext => "ext",
        }
    }

    pub fn next(&self) -> (r: Self)
        ensures
            r == sort_next_spec(*self),
    {
        match self {
            SortMode::Default => SortMode::Name,
            SortMode::Name => SortMode::Size,
            SortMode::Size => SortMode::Ext,
            SortMode::Ext => SortMode::Default,
        }
    }
}

/// Cycling the sort mode four times comes back to the starting mode.
pub proof fn lemma_sort_cycle(m: SortMode)
    ensures
        sort_next_spec(sort_next_spec(sort_next_spec(sort_next_spec(m)))) == m,
        sort_next_spec(m) != m,
{
}

// ─── Completed requests ───────────────────────────────────────────────────────

pub enum Msg {
    RepoLoaded(RepoMeta, Vec<String>),
    ContentsLoaded(String, Vec<Node>),
    PreviewLoaded(String),
    /// files found under a directory, each with whether its download destination exists
    NodesDiscovered(Vec<(Node, bool)>),
    DownloadDone { path: String, dest: String },
    DownloadFail { path: String, error: String },
    DownloadSkipped { path: String },
    ApiError(String),
}

// ─── Download entry ───────────────────────────────────────────────────────────

pub struct DlEntry {
    pub name: String,
    pub path: String,
    pub done: bool,
    pub skipped: bool,
    pub error: Option<String>,
}

// ─── Search mode ──────────────────────────────────────────────────────────────

#[derive(Debug, Clone, Copy, PartialEq, Eq, Structural)]
pub enum SearchMode {
    Off,
    Name,
    Ext,
    Path,
}

// ─── Filtered item with fuzzy score ──────────────────────────────────────────

pub struct FilteredItem {
    pub idx: usize,
    pub fuzzy: Option<FuzzyMatch>,
}

// ─── Download plan ────────────────────────────────────────────────────────────

pub struct PlanItem {
    pub name: String,
    pub path: String,
    pub size: Option<u64>,
}

// ─── What the status line reports ─────────────────────────────────────────────

pub enum Status {
    /// "Enter a repo URL or owner/repo"
    Welcome,
    SortChanged(SortMode),
    Pinned(String),
    Unpinned(String),
    SizeFilter(Option<u64>),
    ThemeChanged(ThemeName),
    LoadingRepo { kind: ProviderKind, owner: String, repo: String },
    /// path being listed ("/" for the root)
    LoadingPath(String),
    Downloading(String),
    CopiedUrl(String),
    ShowUrl(String),
    CopiedWget,
    ShowWget(String),
    RepoInfo { full_name: String, branch: String, stars: u64, language: Option<String> },
    /// directory listed (the root is the empty path), with its counts of directories and files
    Listing { owner: String, repo: String, path: String, dirs: usize, files: usize },
    Downloaded { name: String, dest: String },
    NoDownloads,
    ConfigSaved,
}

// ─── What the preview pane shows ──────────────────────────────────────────────

pub enum Preview {
    Binary { name: String, size: u64, path: String },
    TooLarge { size: u64 },
    NoUrl,
    Loading,
    Text(String),
}

// ─── Work for the caller to carry out ─────────────────────────────────────────

pub enum Effect {
    /// Replace the API client, and the download concurrency limit.
    RebuildClient { kind: ProviderKind, token: Option<String>, instance: Option<String>, parallel: usize },
    /// Fetch repository metadata and branches; answer with `RepoLoaded` or `ApiError`.
    LoadRepo { owner: String, repo: String },
    /// List a directory; answer with `ContentsLoaded` or `ApiError`.
    LoadContents { owner: String, repo: String, path: String, branch: String },
    /// Fetch file text; answer with `PreviewLoaded`.
    LoadPreview { url: String },
    /// Download `url` to `dest` under `dest_dir` (the current directory when none);
    /// answer with `DownloadDone`, `DownloadFail` or `DownloadSkipped`.
    Download { url: String, path: String, dest_dir: Option<String>, dest: String, skip_existing: bool, retry_count: u8 },
    /// Walk a directory tree; answer with `NodesDiscovered`.
    CollectRecursive { owner: String, repo: String, path: String, branch: String },
    /// Persist the configuration.
    SaveConfig,
    /// Put text on the clipboard; report the outcome with `finish_copy`.
    Copy { text: String, wget: bool },
}

// ─── Keys ─────────────────────────────────────────────────────────────────────

#[derive(Debug, Clone, Copy, PartialEq, Eq, Structural)]
pub enum KeyCode {
    Char(char),
    Enter,
    Esc,
    Backspace,
    Tab,
    Left,
    Right,
    Up,
    Down,
    Home,
    End,
    PageUp,
    PageDown,
    F(u8),
    Other,
}

// ─── App ──────────────────────────────────────────────────────────────────────

pub struct App {
    pub screen: Screen,
    // Home input
    pub input: String,
    /// byte offset into `input`
    pub input_cursor: usize,
    // Provider + repo
    pub provider: ProviderKind,
    pub instance_url: Option<String>,
    pub owner: String,
    pub repo: String,
    pub branch: String,
    pub repo_meta: Option<RepoMeta>,
    pub branches: Vec<String>,
    // File browser
    pub current_path: String,
    pub path_stack: Vec<String>,
    pub files: Vec<Node>,
    pub filtered: Vec<FilteredItem>,
    /// highlighted row of `filtered`
    pub list_sel: Option<usize>,
    /// selected paths (no path twice)
    pub selected: Vec<String>,
    /// paths pinned in current session
    pub bookmarks: Vec<String>,
    // Search / filter
    pub search_mode: SearchMode,
    pub search_query: String,
    pub ext_filter: Option<String>,
    /// byte threshold for size filter
    pub min_size: Option<u64>,
    pub sort_mode: SortMode,
    // Preview
    pub preview: Option<Preview>,
    pub preview_path: Option<String>,
    pub preview_scroll: u16,
    /// highlighted row of the branch popup
    pub branch_sel: Option<usize>,
    // Download plan + options
    pub plan: Vec<PlanItem>,
    pub dl_recursive: bool,
    pub dl_preserve_structure: bool,
    pub dl_skip_existing: bool,
    pub downloads: Vec<DlEntry>,
    // Config screen
    pub cfg_field: usize,
    pub cfg_editing: bool,
    pub cfg_buf: String,
    /// directory used when the configured download path is cleared
    pub default_download_dir: Option<String>,
    // Autocomplete
    pub autocomplete_suggestions: Vec<String>,
    pub autocomplete_idx: Option<usize>,
    // UI state
    pub status: Status,
    pub error: Option<String>,
    pub loading: bool,
    /// Tick counter for spinner animation
    pub tick: u64,
    pub history: Vec<HistoryEntry>,
    pub theme: Theme,
    pub theme_name: ThemeName,
    pub config: Config,
    /// work queued for the caller, oldest first
    pub effects: Vec<Effect>,
}

pub fn clone_history(v: &Vec<HistoryEntry>) -> (r: Vec<HistoryEntry>)
    ensures
        r@ == v@,
{
    let mut r: Vec<HistoryEntry> = Vec::new();
    let mut i: usize = 0;
    while i < v.len()
        invariant
            i <= v.len(),
            r@ == v@.subrange(0, i as int),
        decreases v.len() - i,
    {
        r.push(v[i].clone());
        i += 1;
        assert(r@ =~= v@.subrange(0, i as int));
    }
    assert(v@.subrange(0, v@.len() as int) =~= v@);
    r
}

/// The paths held by a vector of strings.
pub open spec fn path_set(v: Seq<String>) -> Set<Seq<char>> {
    Set::new(|p: Seq<char>| exists|i: int| 0 <= i < v.len() && #[trigger] v[i]@ == p)
}

/// No path occurs twice.
pub open spec fn distinct_paths(v: Seq<String>) -> bool {
    forall|i: int, j: int| 0 <= i < j < v.len() ==> (#[trigger] v[i])@ != (#[trigger] v[j])@
}

/// Index of the first string equal to `p`.
pub fn position_of(v: &Vec<String>, p: &String) -> (r: Option<usize>)
    ensures
        match r {
            Some(i) => i < v.len() && v@[i as int]@ == p@ && forall|j: int| 0 <= j < i ==> (#[trigger] v@[j])@ != p@,
            None => forall|j: int| 0 <= j < v.len() ==> (#[trigger] v@[j])@ != p@,
        },
{
    let mut i: usize = 0;
    while i < v.len()
        invariant
            i <= v.len(),
            forall|j: int| 0 <= j < i ==> (#[trigger] v@[j])@ != p@,
        decreases v.len() - i,
    {
        if v[i].eq(p) {
            return Some(i);
        }
        i += 1;
    }
    None
}

impl App {
    /// Fresh state on the home screen.
    pub fn new(config: Config, default_download_dir: Option<String>) -> (r: App)
        ensures
            r.screen == Screen::Home,
            r.input@.len() == 0,
            r.input_cursor == 0,
            r.provider == ProviderKind::GitHub,
            r.files@.len() == 0,
            r.filtered@.len() == 0,
            r.list_sel is None,
            r.selected@.len() == 0,
            r.sort_mode == SortMode::Default,
            r.search_mode == SearchMode::Off,
            r.theme_name == config.core.theme,
            r.theme == palette(config.core.theme),
            r.history@ == config.history.entries@,
            r.dl_recursive == config.core.recursive,
            r.dl_preserve_structure == config.core.preserve_structure,
            r.dl_skip_existing == config.core.skip_existing,
            r.status is Welcome,
            r.effects@.len() == 0,
            r.config == config,
            r.default_download_dir == default_download_dir,
            r.instance_url is None,
            r.owner@.len() == 0 && r.repo@.len() == 0 && r.branch@.len() == 0,
            r.repo_meta is None,
            r.branches@.len() == 0,
            r.current_path@.len() == 0,
            r.path_stack@.len() == 0,
            r.bookmarks@.len() == 0,
            r.search_query@.len() == 0,
            r.ext_filter is None,
            r.min_size is None,
            r.preview is None,
            r.preview_path is None,
            r.preview_scroll == 0,
            r.branch_sel is None,
            r.plan@.len() == 0,
            r.downloads@.len() == 0,
            r.cfg_field == 0,
            !r.cfg_editing,
            r.cfg_buf@.len() == 0,
            r.autocomplete_suggestions@.len() == 0,
            r.autocomplete_idx is None,
            r.error is None,
            !r.loading,
            r.tick == 0,
            r.wf(),
    {
        let theme_name = config.core.theme;
        let theme = Theme::get(&theme_name);
        let history = clone_history(&config.history.entries);
        let dl_recursive = config.core.recursive;
        let dl_preserve_structure = config.core.preserve_structure;
        let dl_skip_existing = config.core.skip_existing;
        let r = App {
            screen: Screen::Home,
            input: String::new(),
            input_cursor: 0,
            provider: ProviderKind::GitHub,
            instance_url: None,
            owner: String::new(),
            repo: String::new(),
            branch: String::new(),
            repo_meta: None,
            branches: Vec::new(),
            current_path: String::new(),
            path_stack: Vec::new(),
            files: Vec::new(),
            filtered: Vec::new(),
            list_sel: None,
            selected: Vec::new(),
            bookmarks: Vec::new(),
            search_mode: SearchMode::Off,
            search_query: String::new(),
            ext_filter: None,
            min_size: None,
            sort_mode: SortMode::Default,
            preview: None,
            preview_path: None,
            preview_scroll: 0,
            branch_sel: None,
            plan: Vec::new(),
            dl_recursive,
            dl_preserve_structure,
            dl_skip_existing,
            downloads: Vec::new(),
            cfg_field: 0,
            cfg_editing: false,
            cfg_buf: String::new(),
            default_download_dir,
            autocomplete_suggestions: Vec::new(),
            autocomplete_idx: None,
            status: Status::Welcome,
            error: None,
            loading: false,
            tick: 0,
            history,
            theme,
            theme_name,
            config,
            effects: Vec::new(),
        };
        proof {
            assert(r.input@ =~= Seq::<char>::empty());
            assert(crate::input::utf8_len(r.input@) == 0);
        }
        r
    }

    /// Invariants the transitions keep.
    pub open spec fn wf(&self) -> bool {
        &&& self.input_cursor <= crate::input::utf8_len(self.input@)
        &&& (self.autocomplete_idx matches Some(i) ==> i < self.autocomplete_suggestions@.len())
        &&& self.cfg_field <= 5
        &&& distinct_paths(self.selected@)
        &&& distinct_paths(self.bookmarks@)
        &&& self.filtered@.len() > 0 ==> (self.list_sel matches Some(i) && i < self.filtered@.len())
        &&& self.filtered@.len() <= self.files@.len()
        &&& self.files@.len() <= 0x7fff_0000
    }

    pub fn advance_tick(&mut self)
        ensures
            *final(self) == (App { tick: (if old(self).tick == u64::MAX { 0 } else { (old(self).tick + 1) as u64 }), ..*old(self) }),
    {
        self.tick = self.tick.wrapping_add(1);
    }
}

} // verus!
