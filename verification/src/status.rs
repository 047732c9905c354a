//! Text of the status line and of the preview pane's notices.
//!
//! Sizes come in already written out (`size` below): the caller formats them in human
//! units, which takes fractional arithmetic.
use vstd::prelude::*;
use crate::app::{Preview, Status, sort_label_spec};
use crate::config::theme_str;
use crate::providers::label_spec;
use crate::text::{string_of, push_str, push_all, decimal, decimal_chars};

verus! {

/// The status line for status `s`; `size` is the size filter's threshold written out.
pub open spec fn status_spec(s: Status, size: Seq<char>) -> Seq<char> {
    match s {
        Status::Welcome => "  Enter a repo URL or owner/repo"@,
        Status::SortChanged(m) => "  sort → "@ + sort_label_spec(m),
        Status::Pinned(name) => "  ★ pinned: "@ + name@,
        Status::Unpinned(name) => "  ✗ unpinned: "@ + name@,
        Status::SizeFilter(None) => "  size filter → off"@,
        Status::SizeFilter(Some(_)) => "  size filter → >"@ + size,
        Status::ThemeChanged(t) => "  theme → "@ + theme_str(t),
        Status::LoadingRepo { kind, owner, repo } => "  ["@ + label_spec(kind) + "] Loading "@ + owner@
            + "/"@ + repo@ + "…"@,
        Status::LoadingPath(p) => "  Loading "@ + (if p@.len() == 0 {
            "/"@
        } else {
            p@
        }) + "…"@,
        Status::Downloading(name) => "  ↓ "@ + name@,
        Status::CopiedUrl(url) => "  ✓ copied: "@ + url@,
        Status::ShowUrl(url) => "  url: "@ + url@,
        Status::CopiedWget => "  ✓ copied wget command"@,
        Status::ShowWget(cmd) => cmd@,
        Status::RepoInfo { full_name, branch, stars, language } => "  "@ + full_name@ + "  ⎇ "@ + branch@
            + "  ★ "@ + decimal(stars as nat) + match language {
            Some(l) => if l@.len() > 0 {
                "  "@ + l@
            } else {
                Seq::empty()
            },
            None => Seq::empty(),
        },
        Status::Listing { owner, repo, path, dirs, files } => "  "@ + owner@ + "/"@ + repo@ + (if path@.len()
            == 0 {
            "/"@
        } else {
            "/"@ + path@
        }) + "  "@ + decimal(dirs as nat) + "▸ "@ + decimal(files as nat) + "≡"@,
        Status::Downloaded { name, dest } => "  ✓ "@ + name@ + "  →  "@ + dest@,
        Status::NoDownloads => "  No downloads yet"@,
        Status::ConfigSaved => "  ✓ config saved"@,
    }
}

/// The status line for status `s`; `size` is the size filter's threshold written out
/// (used only for an active size filter).
pub fn status_line(s: &Status, size: &str) -> (r: String)
    ensures
        r@ == status_spec(*s, size@),
{
    let mut v: Vec<char> = Vec::new();
    match s {
        Status::Welcome => push_str(&mut v, "  Enter a repo URL or owner/repo"),
        Status::SortChanged(m) => {
            push_str(&mut v, "  sort → ");
            push_str(&mut v, m.label());
        },
        Status::Pinned(name) => {
            push_str(&mut v, "  ★ pinned: ");
            push_str(&mut v, name.as_str());
        },
        Status::Unpinned(name) => {
            push_str(&mut v, "  ✗ unpinned: ");
            push_str(&mut v, name.as_str());
        },
        Status::SizeFilter(None) => push_str(&mut v, "  size filter → off"),
        Status::SizeFilter(Some(_)) => {
            push_str(&mut v, "  size filter → >");
            push_str(&mut v, size);
        },
        Status::ThemeChanged(t) => {
            push_str(&mut v, "  theme → ");
            push_str(&mut v, t.as_str());
        },
        Status::LoadingRepo { kind, owner, repo } => {
            push_str(&mut v, "  [");
            push_str(&mut v, kind.label());
            push_str(&mut v, "] Loading ");
            push_str(&mut v, owner.as_str());
            push_str(&mut v, "/");
            push_str(&mut v, repo.as_str());
            push_str(&mut v, "…");
        },
        Status::LoadingPath(p) => {
            push_str(&mut v, "  Loading ");
            if p.as_str().is_empty() {
                push_str(&mut v, "/");
            } else {
                push_str(&mut v, p.as_str());
            }
            push_str(&mut v, "…");
        },
        Status::Downloading(name) => {
            push_str(&mut v, "  ↓ ");
            push_str(&mut v, name.as_str());
        },
        Status::CopiedUrl(url) => {
            push_str(&mut v, "  ✓ copied: ");
            push_str(&mut v, url.as_str());
        },
        Status::ShowUrl(url) => {
            push_str(&mut v, "  url: ");
            push_str(&mut v, url.as_str());
        },
        Status::CopiedWget => push_str(&mut v, "  ✓ copied wget command"),
        Status::ShowWget(cmd) => push_str(&mut v, cmd.as_str()),
        Status::RepoInfo { full_name, branch, stars, language } => {
            push_str(&mut v, "  ");
            push_str(&mut v, full_name.as_str());
            push_str(&mut v, "  ⎇ ");
            push_str(&mut v, branch.as_str());
            push_str(&mut v, "  ★ ");
            let d = decimal_chars(*stars);
            push_all(&mut v, &d);
            match language {
                Some(l) => {
                    if !l.as_str().is_empty() {
                        push_str(&mut v, "  ");
                        push_str(&mut v, l.as_str());
                    }
                },
                None => {},
            }
        },
        Status::Listing { owner, repo, path, dirs, files } => {
            push_str(&mut v, "  ");
            push_str(&mut v, owner.as_str());
            push_str(&mut v, "/");
            push_str(&mut v, repo.as_str());
            push_str(&mut v, "/");
            if !path.as_str().is_empty() {
                push_str(&mut v, path.as_str());
            }
            push_str(&mut v, "  ");
            let dd = decimal_chars(*dirs as u64);
            push_all(&mut v, &dd);
            push_str(&mut v, "▸ ");
            let fd = decimal_chars(*files as u64);
            push_all(&mut v, &fd);
            push_str(&mut v, "≡");
        },
        Status::Downloaded { name, dest } => {
            push_str(&mut v, "  ✓ ");
            push_str(&mut v, name.as_str());
            push_str(&mut v, "  →  ");
            push_str(&mut v, dest.as_str());
        },
        Status::NoDownloads => push_str(&mut v, "  No downloads yet"),
        Status::ConfigSaved => push_str(&mut v, "  ✓ config saved"),
    }
    proof {
        assert(v@ =~= status_spec(*s, size@));
    }
    string_of(v.as_slice())
}

/// The text of the preview pane; `size` is the previewed file's size written out (used
/// only for the binary and too-large notices).
pub open spec fn preview_spec(p: Preview, size: Seq<char>) -> Seq<char> {
    match p {
        Preview::Binary { name, size: _, path } => "  [binary: "@ + name@ + "]\n  size: "@ + size
            + "\n  path: "@ + path@ + "\n\n  Press d to download."@,
        Preview::TooLarge { size: _ } => "  [too large to preview]\n  size: "@ + size
            + "\n\n  Press d to download."@,
        Preview::NoUrl => "  [no download URL]"@,
        Preview::Loading => "  loading…"@,
        Preview::Text(t) => t@,
    }
}

/// The text of the preview pane.
pub fn preview_text(p: &Preview, size: &str) -> (r: String)
    ensures
        r@ == preview_spec(*p, size@),
{
    let mut v: Vec<char> = Vec::new();
    match p {
        Preview::Binary { name, size: _, path } => {
            push_str(&mut v, "  [binary: ");
            push_str(&mut v, name.as_str());
            push_str(&mut v, "]\n  size: ");
            push_str(&mut v, size);
            push_str(&mut v, "\n  path: ");
            push_str(&mut v, path.as_str());
            push_str(&mut v, "\n\n  Press d to download.");
        },
        Preview::TooLarge { size: _ } => {
            push_str(&mut v, "  [too large to preview]\n  size: ");
            push_str(&mut v, size);
            push_str(&mut v, "\n\n  Press d to download.");
        },
        Preview::NoUrl => push_str(&mut v, "  [no download URL]"),
        Preview::Loading => push_str(&mut v, "  loading…"),
        Preview::Text(t) => push_str(&mut v, t.as_str()),
    }
    proof {
        assert(v@ =~= preview_spec(*p, size@));
    }
    string_of(v.as_slice())
}

} // verus!
