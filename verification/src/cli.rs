//! Command-line arguments and the `config` subcommand.
use vstd::prelude::*;
use crate::app_complete::string_views;
use crate::app_keys::opt_sv;
use crate::config::{Config, ThemeName, theme_from_spec};
use crate::input::{utf8_len, is_boundary, boundary_index, byte_len_of, boundary_at, lemma_boundary_index};
use crate::text::{chars_of, string_of, chars_eq_str, copy_range, push_str, starts_with};

verus! {

/// Options for an interactive session.
pub struct Args {
    pub url: Option<String>,
    pub ext_filter: Option<String>,
    pub theme: Option<String>,
}

/// The `config` subcommand.
pub enum ConfigCmd {
    List,
    SetValue { key: String, value: String },
    Unset { key: String },
    /// Anything else: print how to use it.
    Usage,
}

/// What the command line asks for.
pub enum Command {
    Help,
    Version,
    Config(ConfigCmd),
    Run(Args),
}

pub type Scan = (Option<Seq<char>>, Option<Seq<char>>, Option<Seq<char>>);

/// The argument after position `i`, if any.
pub open spec fn next_arg(raw: Seq<Seq<char>>, i: int) -> Option<Seq<char>> {
    if i + 1 < raw.len() {
        Some(raw[i + 1])
    } else {
        None
    }
}

/// URL, extension filter and theme gathered from `raw[i..]`, starting from `acc`: later
/// options override earlier ones, a subcommand or option consumes the argument after it.
pub open spec fn scan_args(raw: Seq<Seq<char>>, i: int, acc: Scan) -> Scan
    decreases raw.len() + 1 - i,
{
    if i < 0 || i >= raw.len() {
        acc
    } else {
        let a = raw[i];
        let (url, ext, theme) = acc;
        if a == "browse"@ || a == "get"@ || a == "sync"@ {
            scan_args(raw, i + 2, (next_arg(raw, i), ext, theme))
        } else if a == "--ext"@ {
            scan_args(raw, i + 2, (url, next_arg(raw, i), theme))
        } else if a == "--theme"@ {
            scan_args(raw, i + 2, (url, ext, next_arg(raw, i)))
        } else if starts_with(a, "--ext="@) {
            scan_args(raw, i + 1, (url, Some(a.skip("--ext="@.len() as int)), theme))
        } else if starts_with(a, "--theme="@) {
            scan_args(raw, i + 1, (url, ext, Some(a.skip("--theme="@.len() as int))))
        } else if !starts_with(a, "-"@) {
            scan_args(raw, i + 1, (Some(a), ext, theme))
        } else {
            scan_args(raw, i + 1, acc)
        }
    }
}

pub open spec fn config_cmd_spec(args: Seq<Seq<char>>, c: ConfigCmd) -> bool {
    if args.len() == 1 && args[0] == "list"@ {
        c is List
    } else if args.len() == 3 && args[0] == "set"@ {
        c matches ConfigCmd::SetValue { key, value } && key@ == args[1] && value@ == args[2]
    } else if args.len() == 2 && args[0] == "unset"@ {
        c matches ConfigCmd::Unset { key } && key@ == args[1]
    } else {
        c is Usage
    }
}

/// The command for arguments `raw` (without the program name).
pub open spec fn command_spec(raw: Seq<Seq<char>>, c: Command) -> bool {
    if raw.contains("--help"@) || raw.contains("-h"@) {
        c is Help
    } else if raw.contains("--version"@) || raw.contains("-V"@) {
        c is Version
    } else if raw.len() > 0 && raw[0] == "config"@ {
        c matches Command::Config(cc) && config_cmd_spec(raw.drop_first(), cc)
    } else {
        c matches Command::Run(args) && (opt_sv(args.url), opt_sv(args.ext_filter), opt_sv(args.theme))
            == scan_args(raw, 0, (None, None, None))
    }
}

fn is_arg(a: &String, lit: &str) -> (r: bool)
    ensures
        r == (a@ == lit@),
{
    chars_eq_str(&chars_of(a.as_str()), lit)
}

fn any_arg(raw: &Vec<String>, x: &str, y: &str) -> (r: bool)
    ensures
        r == (string_views(raw@).contains(x@) || string_views(raw@).contains(y@)),
{
    let mut i: usize = 0;
    while i < raw.len()
        invariant
            i <= raw.len(),
            forall|j: int| 0 <= j < i ==> raw@[j]@ != x@ && raw@[j]@ != y@,
        decreases raw.len() - i,
    {
        if is_arg(&raw[i], x) || is_arg(&raw[i], y) {
            proof {
                assert(string_views(raw@)[i as int] == raw@[i as int]@);
            }
            return true;
        }
        i += 1;
    }
    proof {
        assert forall|j: int| 0 <= j < string_views(raw@).len() implies string_views(raw@)[j] != x@
            && string_views(raw@)[j] != y@ by {
            assert(string_views(raw@)[j] == raw@[j]@);
        }
    }
    false
}

fn clone_next(raw: &Vec<String>, i: usize) -> (r: Option<String>)
    ensures
        opt_sv(r) == next_arg(string_views(raw@), i as int),
{
    if i < raw.len() && raw.len() - i > 1 {
        Some(raw[i + 1].clone())
    } else {
        None
    }
}

fn tail_after(a: &String, n: usize) -> (r: String)
    requires
        n <= a@.len(),
    ensures
        r@ == a@.skip(n as int),
{
    let v = chars_of(a.as_str());
    let t = copy_range(&v, n, v.len());
    string_of(t.as_slice())
}

fn starts_with_lit(a: &String, lit: &str) -> (r: bool)
    ensures
        r == starts_with(a@, lit@),
{
    crate::text::starts_with_chars(&chars_of(a.as_str()), &chars_of(lit))
}

/// The options of an interactive session in `raw`.
fn scan(raw: &Vec<String>) -> (r: Args)
    ensures
        (opt_sv(r.url), opt_sv(r.ext_filter), opt_sv(r.theme)) == scan_args(string_views(raw@), 0, (None, None, None)),
{
    let ghost rs = string_views(raw@);
    let mut url: Option<String> = None;
    let mut ext: Option<String> = None;
    let mut theme: Option<String> = None;
    let mut i: usize = 0;
    proof {
        reveal_strlit("--ext=");
        reveal_strlit("--theme=");
    }
    while i < raw.len()
        invariant
            rs == string_views(raw@),
            "--ext="@.len() == 6,
            "--theme="@.len() == 8,
            scan_args(rs, 0, (None, None, None)) == scan_args(rs, i as int, (opt_sv(url), opt_sv(ext), opt_sv(theme))),
        decreases raw.len() - i,
    {
        let a = &raw[i];
        let ghost acc = (opt_sv(url), opt_sv(ext), opt_sv(theme));
        let ghost i0 = i as int;
        proof {
            assert(rs[i as int] == a@);
        }
        if is_arg(a, "browse") || is_arg(a, "get") || is_arg(a, "sync") {
            url = clone_next(raw, i);
            i = if raw.len() - i >= 2 { i + 2 } else { raw.len() };
            assert(scan_args(rs, i0, acc) == scan_args(rs, i0 + 2, (opt_sv(url), opt_sv(ext), opt_sv(theme))));
        } else if is_arg(a, "--ext") {
            ext = clone_next(raw, i);
            i = if raw.len() - i >= 2 { i + 2 } else { raw.len() };
            assert(scan_args(rs, i0, acc) == scan_args(rs, i0 + 2, (opt_sv(url), opt_sv(ext), opt_sv(theme))));
        } else if is_arg(a, "--theme") {
            theme = clone_next(raw, i);
            i = if raw.len() - i >= 2 { i + 2 } else { raw.len() };
            assert(scan_args(rs, i0, acc) == scan_args(rs, i0 + 2, (opt_sv(url), opt_sv(ext), opt_sv(theme))));
        } else if starts_with_lit(a, "--ext=") {
            ext = Some(tail_after(a, 6));
            i += 1;
            assert(scan_args(rs, i0, acc) == scan_args(rs, i0 + 1, (opt_sv(url), opt_sv(ext), opt_sv(theme))));
        } else if starts_with_lit(a, "--theme=") {
            theme = Some(tail_after(a, 8));
            i += 1;
            assert(scan_args(rs, i0, acc) == scan_args(rs, i0 + 1, (opt_sv(url), opt_sv(ext), opt_sv(theme))));
        } else if !starts_with_lit(a, "-") {
            url = Some(a.clone());
            i += 1;
            assert(scan_args(rs, i0, acc) == scan_args(rs, i0 + 1, (opt_sv(url), opt_sv(ext), opt_sv(theme))));
        } else {
            i += 1;
            assert(scan_args(rs, i0, acc) == scan_args(rs, i0 + 1, (opt_sv(url), opt_sv(ext), opt_sv(theme))));
        }
    }
    Args { url, ext_filter: ext, theme }
}

/// The `config` subcommand for its arguments.
pub fn parse_config_cmd(args: &Vec<String>) -> (c: ConfigCmd)
    ensures
        config_cmd_spec(args@.map_values(|s: String| s@), c),
{
    let ghost v = args@.map_values(|s: String| s@);
    proof {
        assert(v.len() == args@.len());
    }
    if args.len() == 1 && is_arg(&args[0], "list") {
        proof {
            assert(v[0] == args@[0]@);
        }
        ConfigCmd::List
    } else if args.len() == 3 && is_arg(&args[0], "set") {
        proof {
            assert(v[0] == args@[0]@ && v[1] == args@[1]@ && v[2] == args@[2]@);
        }
        ConfigCmd::SetValue { key: args[1].clone(), value: args[2].clone() }
    } else if args.len() == 2 && is_arg(&args[0], "unset") {
        proof {
            assert(v[0] == args@[0]@ && v[1] == args@[1]@);
        }
        ConfigCmd::Unset { key: args[1].clone() }
    } else {
        proof {
            if args.len() == 1 || args.len() == 2 || args.len() == 3 {
                assert(v[0] == args@[0]@);
            }
        }
        ConfigCmd::Usage
    }
}

/// What the command line `raw` (without the program name) asks for.
pub fn parse_args(raw: &Vec<String>) -> (c: Command)
    ensures
        command_spec(string_views(raw@), c),
{
    if any_arg(raw, "--help", "-h") {
        return Command::Help;
    }
    if any_arg(raw, "--version", "-V") {
        return Command::Version;
    }
    if raw.len() > 0 && is_arg(&raw[0], "config") {
        let mut rest: Vec<String> = Vec::new();
        let mut i: usize = 1;
        while i < raw.len()
            invariant
                1 <= i <= raw.len(),
                rest@ == raw@.subrange(1, i as int),
            decreases raw.len() - i,
        {
            rest.push(raw[i].clone());
            i += 1;
            proof {
                assert(rest@ =~= raw@.subrange(1, i as int));
            }
        }
        let cc = parse_config_cmd(&rest);
        proof {
            assert(rest@.map_values(|s: String| s@) =~= string_views(raw@).drop_first());
        }
        return Command::Config(cc);
    }
    Command::Run(scan(raw))
}

// ─── config set / unset / list ────────────────────────────────────────────────

pub open spec fn is_digit(c: char) -> bool {
    '0' <= c <= '9'
}

/// Value of a string of decimal digits.
pub open spec fn digits_value(d: Seq<char>) -> nat
    decreases d.len(),
{
    if d.len() == 0 {
        0
    } else {
        digits_value(d.drop_last()) * 10 + (d.last() as nat - '0' as nat) as nat
    }
}

/// `s` without a leading `+`.
pub open spec fn sign_stripped(s: Seq<char>) -> Seq<char> {
    if s.len() > 0 && s[0] == '+' {
        s.drop_first()
    } else {
        s
    }
}

pub open spec fn all_digits(d: Seq<char>) -> bool {
    forall|i: int| 0 <= i < d.len() ==> is_digit(#[trigger] d[i])
}

/// `str::parse::<u8>`: an optional `+`, then at least one decimal digit, the value at most 255.
pub open spec fn parse_u8_spec(s: Seq<char>) -> Option<u8> {
    let d = sign_stripped(s);
    if d.len() > 0 && all_digits(d) && digits_value(d) <= 255 {
        Some(digits_value(d) as u8)
    } else {
        None
    }
}

proof fn lemma_digits_grow(d: Seq<char>, i: int, j: int)
    requires
        0 <= i <= j <= d.len(),
        forall|k: int| 0 <= k < d.len() ==> is_digit(#[trigger] d[k]),
    ensures
        digits_value(d.take(i)) <= digits_value(d.take(j)),
    decreases j - i,
{
    if i < j {
        lemma_digits_grow(d, i, j - 1);
        assert(d.take(j).drop_last() =~= d.take(j - 1));
    }
}

/// Parse a decimal `u8` as `str::parse` does.
pub fn parse_u8(s: &str) -> (r: Option<u8>)
    ensures
        r == parse_u8_spec(s@),
{
    let v = chars_of(s);
    let start: usize = if v.len() > 0 && v[0] == '+' { 1 } else { 0 };
    let ghost d = sign_stripped(s@);
    proof {
        assert(d =~= v@.skip(start as int));
    }
    if start >= v.len() {
        return None;
    }
    let mut i: usize = start;
    let mut n: u32 = 0;
    proof {
        assert(d.take(0) =~= Seq::<char>::empty());
    }
    while i < v.len()
        invariant
            start <= i <= v.len(),
            start < v.len(),
            d == v@.skip(start as int),
            v@ == s@,
            d == sign_stripped(s@),
            forall|k: int| 0 <= k < i - start ==> is_digit(#[trigger] d[k]),
            n == digits_value(d.take(i - start)),
            n <= 255,
        decreases v.len() - i,
    {
        let c = v[i];
        proof {
            assert(d[i - start] == c);
        }
        if c < '0' || c > '9' {
            proof {
                assert(!is_digit(d[i - start]));
            }
            return None;
        }
        let dig: u32 = (c as u32) - ('0' as u32);
        proof {
            assert(d.take(i + 1 - start).drop_last() =~= d.take(i - start));
            assert(d.take(i + 1 - start).last() == c);
        }
        let next = n * 10 + dig;
        if next > 255 {
            proof {
                if all_digits(d) {
                    lemma_digits_grow(d, i + 1 - start, d.len() as int);
                    assert(d.take(d.len() as int) =~= d);
                }
            }
            return None;
        }
        n = next;
        i += 1;
    }
    proof {
        assert(d.take(d.len() as int) =~= d);
    }
    Some(n as u8)
}

/// Store configuration key `key`; false (and nothing changed) for an unknown key.
pub open spec fn config_set_spec(c: Config, key: Seq<char>, val: String, r: Config) -> bool {
    if key == "github_token"@ {
        r == (Config { auth: crate::config::AuthConfig { github_token: Some(val), ..c.auth }, ..c })
    } else if key == "gitlab_token"@ {
        r == (Config { auth: crate::config::AuthConfig { gitlab_token: Some(val), ..c.auth }, ..c })
    } else if key == "codeberg_token"@ {
        r == (Config { auth: crate::config::AuthConfig { codeberg_token: Some(val), ..c.auth }, ..c })
    } else if key == "gitea_token"@ {
        r == (Config { auth: crate::config::AuthConfig { gitea_token: Some(val), ..c.auth }, ..c })
    } else if key == "gitea_url"@ {
        r == (Config { auth: crate::config::AuthConfig { gitea_url: Some(val), ..c.auth }, ..c })
    } else if key == "theme"@ {
        r == (Config { core: crate::config::CoreConfig { theme: theme_from_spec(val@), ..c.core }, ..c })
    } else if key == "parallel"@ {
        r == match parse_u8_spec(val@) {
            Some(n) => Config { core: crate::config::CoreConfig { parallel: n, ..c.core }, ..c },
            None => c,
        }
    } else if key == "path"@ {
        r == (Config { core: crate::config::CoreConfig { download_path: Some(val), ..c.core }, ..c })
    } else {
        r == c
    }
}

pub open spec fn known_set_key(key: Seq<char>) -> bool {
    key == "github_token"@ || key == "gitlab_token"@ || key == "codeberg_token"@ || key == "gitea_token"@
        || key == "gitea_url"@ || key == "theme"@ || key == "parallel"@ || key == "path"@
}

pub open spec fn known_unset_key(key: Seq<char>) -> bool {
    key == "github_token"@ || key == "gitlab_token"@ || key == "codeberg_token"@ || key == "gitea_token"@
        || key == "gitea_url"@ || key == "path"@
}

pub open spec fn config_unset_spec(c: Config, key: Seq<char>, r: Config) -> bool {
    if key == "github_token"@ {
        r == (Config { auth: crate::config::AuthConfig { github_token: None, ..c.auth }, ..c })
    } else if key == "gitlab_token"@ {
        r == (Config { auth: crate::config::AuthConfig { gitlab_token: None, ..c.auth }, ..c })
    } else if key == "codeberg_token"@ {
        r == (Config { auth: crate::config::AuthConfig { codeberg_token: None, ..c.auth }, ..c })
    } else if key == "gitea_token"@ {
        r == (Config { auth: crate::config::AuthConfig { gitea_token: None, ..c.auth }, ..c })
    } else if key == "gitea_url"@ {
        r == (Config { auth: crate::config::AuthConfig { gitea_url: None, ..c.auth }, ..c })
    } else if key == "path"@ {
        r == (Config { core: crate::config::CoreConfig { download_path: None, ..c.core }, ..c })
    } else {
        r == c
    }
}

/// `riftx config set <key> <val>`: returns whether the key is known (only then is
/// anything stored; an unparsable `parallel` leaves the value as it was).
pub fn config_set(cfg: &mut Config, key: &str, val: String) -> (known: bool)
    ensures
        known == known_set_key(key@),
        config_set_spec(*old(cfg), key@, val, *final(cfg)),
{
    let k = chars_of(key);
    if chars_eq_str(&k, "github_token") {
        cfg.auth.github_token = Some(val);
    } else if chars_eq_str(&k, "gitlab_token") {
        cfg.auth.gitlab_token = Some(val);
    } else if chars_eq_str(&k, "codeberg_token") {
        cfg.auth.codeberg_token = Some(val);
    } else if chars_eq_str(&k, "gitea_token") {
        cfg.auth.gitea_token = Some(val);
    } else if chars_eq_str(&k, "gitea_url") {
        cfg.auth.gitea_url = Some(val);
    } else if chars_eq_str(&k, "theme") {
        cfg.core.theme = ThemeName::from_str(val.as_str());
    } else if chars_eq_str(&k, "parallel") {
        if let Some(n) = parse_u8(val.as_str()) {
            cfg.core.parallel = n;
        }
    } else if chars_eq_str(&k, "path") {
        cfg.core.download_path = Some(val);
    } else {
        return false;
    }
    true
}

/// `riftx config unset <key>`: returns whether the key is known (only then is it cleared).
pub fn config_unset(cfg: &mut Config, key: &str) -> (known: bool)
    ensures
        known == known_unset_key(key@),
        config_unset_spec(*old(cfg), key@, *final(cfg)),
{
    let k = chars_of(key);
    if chars_eq_str(&k, "github_token") {
        cfg.auth.github_token = None;
    } else if chars_eq_str(&k, "gitlab_token") {
        cfg.auth.gitlab_token = None;
    } else if chars_eq_str(&k, "codeberg_token") {
        cfg.auth.codeberg_token = None;
    } else if chars_eq_str(&k, "gitea_token") {
        cfg.auth.gitea_token = None;
    } else if chars_eq_str(&k, "gitea_url") {
        cfg.auth.gitea_url = None;
    } else if chars_eq_str(&k, "path") {
        cfg.core.download_path = None;
    } else {
        return false;
    }
    true
}

/// A token shortened to its first and last four bytes, as `riftx config list` shows it.
pub open spec fn masked(t: Seq<char>) -> Seq<char> {
    t.take(boundary_index(t, 4)) + "…"@ + t.skip(boundary_index(t, utf8_len(t) - 4))
}

/// A token longer than eight bytes can be shortened only where its characters begin.
pub open spec fn maskable(o: Option<String>) -> bool {
    match o {
        Some(t) => utf8_len(t@) > 8 ==> is_boundary(t@, 4) && is_boundary(t@, utf8_len(t@) - 4),
        None => true,
    }
}

/// How `config list` shows a setting: tokens longer than eight bytes shortened, a missing
/// value as `(not set)`.
pub open spec fn shown_value(o: Option<String>, is_token: bool) -> Seq<char> {
    match o {
        Some(t) => if is_token && utf8_len(t@) > 8 {
            masked(t@)
        } else {
            t@
        },
        None => "(not set)"@,
    }
}

/// What `riftx config list` prints.
pub struct ConfigListing {
    pub theme: ThemeName,
    pub parallel: u8,
    /// the download directory, or `(default)`
    pub download: String,
    /// (key, shown value) of each authentication setting, in a fixed order
    pub auth: Vec<(String, String)>,
}

pub(crate) fn mask_token(t: &String) -> (r: String)
    requires
        utf8_len(t@) > 8,
        is_boundary(t@, 4),
        is_boundary(t@, utf8_len(t@) - 4),
    ensures
        r@ == masked(t@),
{
    let v = chars_of(t.as_str());
    let n = byte_len_of(t.as_str());
    proof {
        crate::input::lemma_prefix_full(t@);
    }
    let a = match boundary_at(&v, 4) {
        Some(a) => a,
        None => {
            return String::new();
        },
    };
    let b = match boundary_at(&v, n - 4) {
        Some(b) => b,
        None => {
            return String::new();
        },
    };
    proof {
        lemma_boundary_index(t@, 4, a as int);
        lemma_boundary_index(t@, utf8_len(t@) - 4, b as int);
    }
    let mut out = copy_range(&v, 0, a);
    push_str(&mut out, "…");
    let tail = copy_range(&v, b, v.len());
    crate::text::push_all(&mut out, &tail);
    proof {
        assert(out@ =~= masked(t@));
    }
    string_of(out.as_slice())
}

fn shown(o: &Option<String>, is_token: bool) -> (r: String)
    requires
        is_token ==> maskable(*o),
    ensures
        r@ == shown_value(*o, is_token),
{
    match o {
        Some(t) => {
            if is_token && byte_len_of(t.as_str()) > 8 {
                mask_token(t)
            } else {
                t.clone()
            }
        },
        None => string_of(chars_of("(not set)").as_slice()),
    }
}

fn key_string(k: &str) -> (r: String)
    ensures
        r@ == k@,
{
    string_of(chars_of(k).as_slice())
}

pub open spec fn listing_keys() -> Seq<Seq<char>> {
    seq!["github_token"@, "gitlab_token"@, "codeberg_token"@, "gitea_token"@, "gitea_url"@]
}

pub open spec fn listing_values(c: Config) -> Seq<Seq<char>> {
    seq![
        shown_value(c.auth.github_token, true),
        shown_value(c.auth.gitlab_token, true),
        shown_value(c.auth.codeberg_token, true),
        shown_value(c.auth.gitea_token, true),
        shown_value(c.auth.gitea_url, false),
    ]
}

/// What `riftx config list` shows for `cfg`.
pub fn config_listing(cfg: &Config) -> (r: ConfigListing)
    requires
        maskable(cfg.auth.github_token),
        maskable(cfg.auth.gitlab_token),
        maskable(cfg.auth.codeberg_token),
        maskable(cfg.auth.gitea_token),
    ensures
        r.theme == cfg.core.theme,
        r.parallel == cfg.core.parallel,
        r.download@ == match cfg.core.download_path {
            Some(p) => p@,
            None => "(default)"@,
        },
        r.auth@.len() == 5,
        forall|i: int| 0 <= i < 5 ==> (#[trigger] r.auth@[i]).0@ == listing_keys()[i] && r.auth@[i].1@
            == listing_values(*cfg)[i],
{
    let mut auth: Vec<(String, String)> = Vec::new();
    auth.push((key_string("github_token"), shown(&cfg.auth.github_token, true)));
    auth.push((key_string("gitlab_token"), shown(&cfg.auth.gitlab_token, true)));
    auth.push((key_string("codeberg_token"), shown(&cfg.auth.codeberg_token, true)));
    auth.push((key_string("gitea_token"), shown(&cfg.auth.gitea_token, true)));
    auth.push((key_string("gitea_url"), shown(&cfg.auth.gitea_url, false)));
    let download = match &cfg.core.download_path {
        Some(p) => p.clone(),
        None => key_string("(default)"),
    };
    ConfigListing { theme: cfg.core.theme, parallel: cfg.core.parallel, download, auth }
}

} // verus!
