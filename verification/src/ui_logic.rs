//! Pure helpers of the interface: spinner frames, file icons, popup placement, provider
//! colors, and the runs of a name to draw highlighted.
use vstd::prelude::*;
use crate::text::{chars_of, string_of, chars_eq_str, lowercase, lower_chars, after_last, after_last_chars,
    starts_with, contains, starts_with_chars, contains_chars};
use crate::theme::{Rgb, Theme};

verus! {

// ─── Spinner ──────────────────────────────────────────────────────────────────

pub open spec fn spinner_frames() -> Seq<Seq<char>> {
    seq!["⠋"@, "⠙"@, "⠹"@, "⠸"@, "⠼"@, "⠴"@, "⠦"@, "⠧"@, "⠇"@, "⠏"@]
}

/// The spinner frame shown at `tick`: each frame lasts three ticks.
pub fn spinner_frame(tick: u64) -> (r: &'static str)
    ensures
        r@ == spinner_frames()[((tick / 3) % 10) as int],
{
    let frames = ["⠋", "⠙", "⠹", "⠸", "⠼", "⠴", "⠦", "⠧", "⠇", "⠏"];
    let i = ((tick / 3) % 10) as usize;
    frames[i]
}

// ─── Icons ────────────────────────────────────────────────────────────────────

/// Which palette color an icon is drawn in.
#[derive(Debug, Clone, Copy, PartialEq, Eq, Structural)]
pub enum Tint {
    Accent,
    Mid,
    Dim,
    Green,
    Blue,
    Red,
    Yellow,
    Purple,
    Cyan,
    Orange,
    Teal,
    Pink,
}

pub open spec fn tint_spec(t: Theme, k: Tint) -> Rgb {
    match k {
        Tint::Accent => t.accent,
        Tint::Mid => t.mid,
        Tint::Dim => t.dim,
        Tint::Green => t.green,
        Tint::Blue => t.blue,
        Tint::Red => t.red,
        Tint::Yellow => t.yellow,
        Tint::Purple => t.purple,
        Tint::Cyan => t.cyan,
        Tint::Orange => t.orange,
        Tint::Teal => t.teal,
        Tint::Pink => t.pink,
    }
}

impl Tint {
    /// The color of this tint in theme `t`.
    pub fn color(&self, t: &Theme) -> (c: Rgb)
        ensures
            c == tint_spec(*t, *self),
    {
        match self {
            Tint::Accent => t.accent,
            Tint::Mid => t.mid,
            Tint::Dim => t.dim,
            Tint::Green => t.green,
            Tint::Blue => t.blue,
            Tint::Red => t.red,
            Tint::Yellow => t.yellow,
            Tint::Purple => t.purple,
            Tint::Cyan => t.cyan,
            Tint::Orange => t.orange,
            Tint::Teal => t.teal,
            Tint::Pink => t.pink,
        }
    }
}

/// Icons by (lowercase) extension.
pub open spec fn icon_table() -> Seq<(Seq<char>, Seq<char>, Tint)> {
    seq![
        ("rs"@, "●"@, Tint::Orange),
        ("js"@, "◆"@, Tint::Yellow),
        ("mjs"@, "◆"@, Tint::Yellow),
        ("cjs"@, "◆"@, Tint::Yellow),
        ("ts"@, "◆"@, Tint::Blue),
        ("tsx"@, "◆"@, Tint::Cyan),
        ("jsx"@, "◆"@, Tint::Cyan),
        ("py"@, "◆"@, Tint::Green),
        ("pyw"@, "◆"@, Tint::Green),
        ("go"@, "◆"@, Tint::Cyan),
        ("rb"@, "◆"@, Tint::Red),
        ("java"@, "◆"@, Tint::Orange),
        ("kt"@, "◆"@, Tint::Orange),
        ("kts"@, "◆"@, Tint::Orange),
        ("cpp"@, "◆"@, Tint::Purple),
        ("cc"@, "◆"@, Tint::Purple),
        ("cxx"@, "◆"@, Tint::Purple),
        ("c"@, "◆"@, Tint::Purple),
        ("h"@, "◆"@, Tint::Purple),
        ("hpp"@, "◆"@, Tint::Purple),
        ("swift"@, "◆"@, Tint::Orange),
        ("dart"@, "◆"@, Tint::Blue),
        ("zig"@, "◆"@, Tint::Accent),
        ("ex"@, "◆"@, Tint::Purple),
        ("exs"@, "◆"@, Tint::Purple),
        ("hs"@, "◆"@, Tint::Purple),
        ("lhs"@, "◆"@, Tint::Purple),
        ("lua"@, "◆"@, Tint::Blue),
        ("php"@, "◆"@, Tint::Purple),
        ("cs"@, "◆"@, Tint::Purple),
        ("scala"@, "◆"@, Tint::Red),
        ("sbt"@, "◆"@, Tint::Red),
        ("nim"@, "◆"@, Tint::Yellow),
        ("v"@, "◆"@, Tint::Blue),
        ("vlang"@, "◆"@, Tint::Blue),
        ("r"@, "◆"@, Tint::Blue),
        ("jl"@, "◆"@, Tint::Purple),
        ("md"@, "≡"@, Tint::Mid),
        ("mdx"@, "≡"@, Tint::Mid),
        ("markdown"@, "≡"@, Tint::Mid),
        ("txt"@, "≡"@, Tint::Dim),
        ("rst"@, "≡"@, Tint::Dim),
        ("json"@, "{"@, Tint::Yellow),
        ("json5"@, "{"@, Tint::Yellow),
        ("jsonc"@, "{"@, Tint::Yellow),
        ("yaml"@, "{"@, Tint::Green),
        ("yml"@, "{"@, Tint::Green),
        ("toml"@, "{"@, Tint::Orange),
        ("xml"@, "<"@, Tint::Mid),
        ("html"@, "<"@, Tint::Orange),
        ("htm"@, "<"@, Tint::Orange),
        ("css"@, "{"@, Tint::Blue),
        ("scss"@, "{"@, Tint::Blue),
        ("sass"@, "{"@, Tint::Blue),
        ("svg"@, "<"@, Tint::Teal),
        ("sh"@, "$"@, Tint::Green),
        ("bash"@, "$"@, Tint::Green),
        ("zsh"@, "$"@, Tint::Green),
        ("fish"@, "$"@, Tint::Green),
        ("env"@, "#"@, Tint::Green),
        ("png"@, "□"@, Tint::Teal),
        ("jpg"@, "□"@, Tint::Teal),
        ("jpeg"@, "□"@, Tint::Teal),
        ("gif"@, "□"@, Tint::Teal),
        ("webp"@, "□"@, Tint::Teal),
        ("bmp"@, "□"@, Tint::Teal),
        ("ico"@, "□"@, Tint::Teal),
        ("pdf"@, "□"@, Tint::Red),
        ("zip"@, "□"@, Tint::Mid),
        ("tar"@, "□"@, Tint::Mid),
        ("gz"@, "□"@, Tint::Mid),
        ("bz2"@, "□"@, Tint::Mid),
        ("xz"@, "□"@, Tint::Mid),
        ("7z"@, "□"@, Tint::Mid),
        ("mp4"@, "▷"@, Tint::Mid),
        ("mov"@, "▷"@, Tint::Mid),
        ("mkv"@, "▷"@, Tint::Mid),
        ("webm"@, "▷"@, Tint::Mid),
        ("mp3"@, "♪"@, Tint::Mid),
        ("wav"@, "♪"@, Tint::Mid),
        ("ogg"@, "♪"@, Tint::Mid),
        ("flac"@, "♪"@, Tint::Mid),
        ("wasm"@, "■"@, Tint::Purple),
        ("proto"@, "◈"@, Tint::Cyan),
        ("sql"@, "◈"@, Tint::Cyan),
        ("nix"@, "◈"@, Tint::Cyan),
        ("tf"@, "◈"@, Tint::Purple),
        ("tfvars"@, "◈"@, Tint::Purple),
        ("graphql"@, "◈"@, Tint::Pink),
        ("gql"@, "◈"@, Tint::Pink)
    ]
}

/// Icon of the first row of `tbl` for extension `ext`, or the plain dot.
pub open spec fn lookup_icon(tbl: Seq<(Seq<char>, Seq<char>, Tint)>, ext: Seq<char>) -> (Seq<char>, Tint)
    decreases tbl.len(),
{
    if tbl.len() == 0 {
        ("·"@, Tint::Dim)
    } else if tbl[0].0 == ext {
        (tbl[0].1, tbl[0].2)
    } else {
        lookup_icon(tbl.drop_first(), ext)
    }
}

pub open spec fn ends_with(s: Seq<char>, p: Seq<char>) -> bool {
    p.len() <= s.len() && s.skip(s.len() - p.len()) == p
}

/// Icon and tint of an entry named `name`.
pub open spec fn icon_spec(name: Seq<char>, is_dir: bool) -> (Seq<char>, Tint) {
    let ext = lowercase(after_last(name, '.'));
    let lower = lowercase(name);
    if is_dir {
        ("▸"@, Tint::Accent)
    } else if lower == "dockerfile"@ {
        ("■"@, Tint::Cyan)
    } else if starts_with(lower, "makefile"@) {
        ("■"@, Tint::Yellow)
    } else if starts_with(lower, ".git"@) {
        ("■"@, Tint::Dim)
    } else if lower == "license"@ || lower == "licence"@ {
        ("≡"@, Tint::Mid)
    } else if contains(lower, "readme"@) {
        ("≡"@, Tint::Blue)
    } else if ends_with(lower, ".lock"@) || ext == "lock"@ {
        ("-"@, Tint::Dim)
    } else {
        lookup_icon(icon_table(), ext)
    }
}

fn ends_with_str(s: &Vec<char>, p: &str) -> (r: bool)
    ensures
        r == ends_with(s@, p@),
{
    let pv = chars_of(p);
    if pv.len() > s.len() {
        return false;
    }
    let tail = crate::text::copy_range(s, s.len() - pv.len(), s.len());
    proof {
        assert(tail@ =~= s@.skip(s@.len() - pv@.len()));
    }
    crate::text::chars_eq(&tail, &pv)
}

fn table_icon(ext: &Vec<char>) -> (r: (&'static str, Tint))
    ensures
        (r.0@, r.1) == lookup_icon(icon_table(), ext@),
{
    let table = [
        ("rs", "●", Tint::Orange),
        ("js", "◆", Tint::Yellow),
        ("mjs", "◆", Tint::Yellow),
        ("cjs", "◆", Tint::Yellow),
        ("ts", "◆", Tint::Blue),
        ("tsx", "◆", Tint::Cyan),
        ("jsx", "◆", Tint::Cyan),
        ("py", "◆", Tint::Green),
        ("pyw", "◆", Tint::Green),
        ("go", "◆", Tint::Cyan),
        ("rb", "◆", Tint::Red),
        ("java", "◆", Tint::Orange),
        ("kt", "◆", Tint::Orange),
        ("kts", "◆", Tint::Orange),
        ("cpp", "◆", Tint::Purple),
        ("cc", "◆", Tint::Purple),
        ("cxx", "◆", Tint::Purple),
        ("c", "◆", Tint::Purple),
        ("h", "◆", Tint::Purple),
        ("hpp", "◆", Tint::Purple),
        ("swift", "◆", Tint::Orange),
        ("dart", "◆", Tint::Blue),
        ("zig", "◆", Tint::Accent),
        ("ex", "◆", Tint::Purple),
        ("exs", "◆", Tint::Purple),
        ("hs", "◆", Tint::Purple),
        ("lhs", "◆", Tint::Purple),
        ("lua", "◆", Tint::Blue),
        ("php", "◆", Tint::Purple),
        ("cs", "◆", Tint::Purple),
        ("scala", "◆", Tint::Red),
        ("sbt", "◆", Tint::Red),
        ("nim", "◆", Tint::Yellow),
        ("v", "◆", Tint::Blue),
        ("vlang", "◆", Tint::Blue),
        ("r", "◆", Tint::Blue),
        ("jl", "◆", Tint::Purple),
        ("md", "≡", Tint::Mid),
        ("mdx", "≡", Tint::Mid),
        ("markdown", "≡", Tint::Mid),
        ("txt", "≡", Tint::Dim),
        ("rst", "≡", Tint::Dim),
        ("json", "{", Tint::Yellow),
        ("json5", "{", Tint::Yellow),
        ("jsonc", "{", Tint::Yellow),
        ("yaml", "{", Tint::Green),
        ("yml", "{", Tint::Green),
        ("toml", "{", Tint::Orange),
        ("xml", "<", Tint::Mid),
        ("html", "<", Tint::Orange),
        ("htm", "<", Tint::Orange),
        ("css", "{", Tint::Blue),
        ("scss", "{", Tint::Blue),
        ("sass", "{", Tint::Blue),
        ("svg", "<", Tint::Teal),
        ("sh", "$", Tint::Green),
        ("bash", "$", Tint::Green),
        ("zsh", "$", Tint::Green),
        ("fish", "$", Tint::Green),
        ("env", "#", Tint::Green),
        ("png", "□", Tint::Teal),
        ("jpg", "□", Tint::Teal),
        ("jpeg", "□", Tint::Teal),
        ("gif", "□", Tint::Teal),
        ("webp", "□", Tint::Teal),
        ("bmp", "□", Tint::Teal),
        ("ico", "□", Tint::Teal),
        ("pdf", "□", Tint::Red),
        ("zip", "□", Tint::Mid),
        ("tar", "□", Tint::Mid),
        ("gz", "□", Tint::Mid),
        ("bz2", "□", Tint::Mid),
        ("xz", "□", Tint::Mid),
        ("7z", "□", Tint::Mid),
        ("mp4", "▷", Tint::Mid),
        ("mov", "▷", Tint::Mid),
        ("mkv", "▷", Tint::Mid),
        ("webm", "▷", Tint::Mid),
        ("mp3", "♪", Tint::Mid),
        ("wav", "♪", Tint::Mid),
        ("ogg", "♪", Tint::Mid),
        ("flac", "♪", Tint::Mid),
        ("wasm", "■", Tint::Purple),
        ("proto", "◈", Tint::Cyan),
        ("sql", "◈", Tint::Cyan),
        ("nix", "◈", Tint::Cyan),
        ("tf", "◈", Tint::Purple),
        ("tfvars", "◈", Tint::Purple),
        ("graphql", "◈", Tint::Pink),
        ("gql", "◈", Tint::Pink)
    ];
    let ghost tbl = icon_table();
    let mut i: usize = 0;
    proof {
        assert(tbl.skip(0) =~= tbl);
    }
    while i < 90
        invariant
            i <= 90,
            tbl == icon_table(),
            tbl.len() == 90,
            forall|k: int| 0 <= k < 90 ==> {
                &&& (#[trigger] table@[k]).0@ == tbl[k].0
                &&& table@[k].1@ == tbl[k].1
                &&& table@[k].2 == tbl[k].2
            },
            lookup_icon(tbl, ext@) == lookup_icon(tbl.skip(i as int), ext@),
        decreases 90 - i,
    {
        let row = table[i];
        proof {
            assert(tbl.skip(i as int)[0] == tbl[i as int]);
            assert(tbl.skip(i as int).drop_first() =~= tbl.skip(i + 1));
        }
        if chars_eq_str(ext, row.0) {
            return (row.1, row.2);
        }
        i += 1;
    }
    proof {
        assert(tbl.skip(90) =~= Seq::<(Seq<char>, Seq<char>, Tint)>::empty());
    }
    ("·", Tint::Dim)
}

/// Icon and tint of an entry named `name` (`is_dir` for a directory).
pub fn icon_for(name: &str, is_dir: bool) -> (r: (&'static str, Tint))
    ensures
        (r.0@, r.1) == icon_spec(name@, is_dir),
{
    if is_dir {
        return ("▸", Tint::Accent);
    }
    let n = chars_of(name);
    let ext = lower_chars(&after_last_chars(&n, '.'));
    let lower = lower_chars(&n);
    if chars_eq_str(&lower, "dockerfile") {
        ("■", Tint::Cyan)
    } else if starts_with_chars(&lower, &chars_of("makefile")) {
        ("■", Tint::Yellow)
    } else if starts_with_chars(&lower, &chars_of(".git")) {
        ("■", Tint::Dim)
    } else if chars_eq_str(&lower, "license") || chars_eq_str(&lower, "licence") {
        ("≡", Tint::Mid)
    } else if contains_chars(&lower, &chars_of("readme")) {
        ("≡", Tint::Blue)
    } else if ends_with_str(&lower, ".lock") || chars_eq_str(&ext, "lock") {
        ("-", Tint::Dim)
    } else {
        table_icon(&ext)
    }
}

/// Icon and its color in theme `t` for an entry named `name`.
pub fn file_icon(name: &str, is_dir: bool, t: &Theme) -> (r: (&'static str, Rgb))
    ensures
        r.0@ == icon_spec(name@, is_dir).0,
        r.1 == tint_spec(*t, icon_spec(name@, is_dir).1),
{
    let (icon, tint) = icon_for(name, is_dir);
    (icon, tint.color(t))
}

// ─── Provider colors ──────────────────────────────────────────────────────────

pub open spec fn provider_tint(label: Seq<char>) -> Tint {
    if label == "github"@ {
        Tint::Mid
    } else if label == "gitlab"@ {
        Tint::Orange
    } else if label == "codeberg"@ {
        Tint::Blue
    } else if label == "gitea"@ {
        Tint::Green
    } else {
        Tint::Dim
    }
}

/// Color of a provider's name (`github`, `gitlab`, `codeberg`, `gitea`).
pub fn provider_color(label: &str, t: &Theme) -> (c: Rgb)
    ensures
        c == tint_spec(*t, provider_tint(label@)),
{
    let l = chars_of(label);
    let k = if chars_eq_str(&l, "github") {
        Tint::Mid
    } else if chars_eq_str(&l, "gitlab") {
        Tint::Orange
    } else if chars_eq_str(&l, "codeberg") {
        Tint::Blue
    } else if chars_eq_str(&l, "gitea") {
        Tint::Green
    } else {
        Tint::Dim
    };
    k.color(t)
}

// ─── Popup placement ──────────────────────────────────────────────────────────

/// A rectangle of terminal cells.
#[derive(Debug, Clone, Copy, PartialEq, Eq, Structural)]
pub struct Rect {
    pub x: u16,
    pub y: u16,
    pub width: u16,
    pub height: u16,
}

/// A `w` by `h` rectangle centered in the size of `area` (its offsets count from zero).
pub fn centered_rect(w: u16, h: u16, area: Rect) -> (r: Rect)
    ensures
        r.width == w,
        r.height == h,
        r.x == (if area.width > w {
            (area.width - w) / 2
        } else {
            0
        }),
        r.y == (if area.height > h {
            (area.height - h) / 2
        } else {
            0
        }),
{
    Rect { x: area.width.saturating_sub(w) / 2, y: area.height.saturating_sub(h) / 2, width: w, height: h }
}

// ─── Highlighted runs ─────────────────────────────────────────────────────────

/// Character `i` is one of the matched positions.
pub open spec fn is_hl(pos: Seq<usize>, i: int) -> bool {
    exists|k: int| 0 <= k < pos.len() && pos[k] == i
}

/// `runs` split `t` into nonempty pieces, each wholly highlighted or not as its flag says,
/// no two neighbours alike.
pub open spec fn runs_match(t: Seq<char>, pos: Seq<usize>, runs: Seq<(Seq<char>, bool)>) -> bool
    decreases runs.len(),
{
    if runs.len() == 0 {
        t.len() == 0
    } else {
        let s = runs.last().0;
        let f = runs.last().1;
        let n = t.len() - s.len();
        &&& s.len() > 0
        &&& n >= 0
        &&& t.skip(n) == s
        &&& forall|j: int| n <= j < t.len() ==> #[trigger] is_hl(pos, j) == f
        &&& runs.len() > 1 ==> runs[runs.len() - 2].1 != f
        &&& runs_match(t.take(n), pos, runs.drop_last())
    }
}

pub open spec fn run_views(v: Seq<(String, bool)>) -> Seq<(Seq<char>, bool)> {
    v.map_values(|r: (String, bool)| (r.0@, r.1))
}

fn has_pos(pos: &[usize], i: usize) -> (r: bool)
    ensures
        r == is_hl(pos@, i as int),
{
    let mut k: usize = 0;
    while k < pos.len()
        invariant
            k <= pos.len(),
            forall|j: int| 0 <= j < k ==> pos@[j] != i,
        decreases pos.len() - k,
    {
        if pos[k] == i {
            return true;
        }
        k += 1;
    }
    false
}

/// The pieces of `text` to draw, each with whether it is highlighted: with no positions,
/// all of `text` plain; otherwise the maximal runs of highlighted and plain characters.
pub fn highlight_runs(text: &str, pos: &[usize]) -> (r: Vec<(String, bool)>)
    ensures
        pos@.len() == 0 ==> run_views(r@) == seq![(text@, false)],
        pos@.len() > 0 ==> runs_match(text@, pos@, run_views(r@)),
{
    if pos.len() == 0 {
        let mut r: Vec<(String, bool)> = Vec::new();
        r.push((string_of(chars_of(text).as_slice()), false));
        proof {
            assert(run_views(r@) =~= seq![(text@, false)]);
        }
        return r;
    }
    let t = chars_of(text);
    let mut runs: Vec<(String, bool)> = Vec::new();
    let mut buf: Vec<char> = Vec::new();
    let mut in_hl = false;
    let mut i: usize = 0;
    proof {
        assert(t@.take(0) =~= Seq::<char>::empty());
        assert(run_views(runs@) =~= Seq::<(Seq<char>, bool)>::empty());
    }
    while i < t.len()
        invariant
            i <= t.len(),
            buf@.len() <= i,
            t@ == text@,
            buf@ == t@.subrange(i - buf@.len(), i as int),
            forall|j: int| i - buf@.len() <= j < i ==> #[trigger] is_hl(pos@, j) == in_hl,
            runs_match(t@.take(i - buf@.len()), pos@, run_views(runs@)),
            buf@.len() > 0 && runs@.len() > 0 ==> run_views(runs@).last().1 != in_hl,
            buf@.len() == 0 ==> runs@.len() == 0,
            i > 0 ==> buf@.len() > 0,
        decreases t.len() - i,
    {
        let should = has_pos(pos, i);
        if should != in_hl {
            if buf.len() > 0 {
                let ghost before = run_views(runs@);
                let ghost start = i - buf@.len();
                let piece = string_of(buf.as_slice());
                runs.push((piece, in_hl));
                proof {
                    let rv = run_views(runs@);
                    assert(rv =~= before.push((buf@, in_hl)));
                    assert(rv.drop_last() =~= before);
                    assert(t@.take(i as int).take(start) =~= t@.take(start));
                    assert(t@.take(i as int).skip(start) =~= buf@);
                    if before.len() > 0 {
                        assert(rv[rv.len() - 2] == before.last());
                    }
                }
                buf = Vec::new();
            }
            in_hl = should;
        }
        buf.push(t[i]);
        i += 1;
        proof {
            assert(buf@ =~= t@.subrange(i - buf@.len(), i as int));
        }
    }
    if buf.len() > 0 {
        let ghost before = run_views(runs@);
        let ghost start = i - buf@.len();
        let piece = string_of(buf.as_slice());
        runs.push((piece, in_hl));
        proof {
            let rv = run_views(runs@);
            assert(rv =~= before.push((buf@, in_hl)));
            assert(rv.drop_last() =~= before);
            assert(t@.take(i as int).take(start) =~= t@.take(start));
            assert(t@.take(i as int).skip(start) =~= buf@);
            assert(t@.take(i as int) =~= t@);
            if before.len() > 0 {
                assert(rv[rv.len() - 2] == before.last());
            }
        }
    } else {
        proof {
            assert(t@.take(i as int) =~= t@);
        }
    }
    runs
}

} // verus!
