use vstd::prelude::*;
use vstd::string::*;

verus! {

/// The user's home directory, if one can be found. Relies on dirs::home_dir; the answer
/// depends on the environment, so nothing is promised of it.
#[verifier::external_body]
fn home_dir() -> (r: Option<String>) {
    dirs::home_dir().map(|p| p.to_string_lossy().into_owned())
}

/// The parent directory of a path, as the standard library computes it.
pub uninterp spec fn path_parent(path: Seq<char>) -> Option<Seq<char>>;

/// Relies on std::path::Path::parent: the path without its final component, or none for a
/// root or an empty path.
#[verifier::external_body]
fn parent_of(path: &str) -> (r: Option<String>)
    ensures
        match r {
            Some(p) => path_parent(path@) == Some(p@),
            None => path_parent(path@) is None,
        },
{
    std::path::Path::new(path).parent().map(|p| p.to_string_lossy().into_owned())
}

pub open spec fn starts_with(s: Seq<char>, prefix: Seq<char>) -> bool {
    prefix.len() <= s.len() && s.subrange(0, prefix.len() as int) == prefix
}

/// On this platform a path is absolute exactly when it starts with `/`.
pub open spec fn is_relative(path: Seq<char>) -> bool {
    !(path.len() > 0 && path[0] == '/')
}

/// `dir` joined with the relative path `path`, with a separator where one is missing.
pub open spec fn join(dir: Seq<char>, path: Seq<char>) -> Seq<char> {
    if dir.len() == 0 || dir.last() == '/' {
        dir + path
    } else {
        dir + seq!['/'] + path
    }
}

/// `path` with a leading `~` or `$HOME` expanded to `home`: a path that starts with neither
/// is kept; a path that is exactly one of them becomes the home directory; otherwise the
/// leading word is replaced by the home directory (by nothing when the home directory is
/// `/`, so that `~/x` stays `/x`). Without a home directory only an unexpanded path is
/// returned.
pub open spec fn spec_expand_path(path: Seq<char>, home: Option<Seq<char>>) -> Option<Seq<char>> {
    if !starts_with(path, seq!['~']) && !starts_with(path, seq!['$', 'H', 'O', 'M', 'E']) {
        Some(path)
    } else if path == seq!['~'] || path == seq!['$', 'H', 'O', 'M', 'E'] {
        home
    } else {
        match home {
            None => None,
            Some(h) => {
                let with = if h == seq!['/'] {
                    Seq::empty()
                } else {
                    h
                };
                let word = if starts_with(path, seq!['~']) {
                    1int
                } else {
                    5int
                };
                Some(with + path.subrange(word, path.len() as int))
            },
        }
    }
}

/// Whether `s` starts with `prefix`.
fn text_starts_with(s: &Vec<char>, prefix: &Vec<char>, at: usize) -> (r: bool)
    requires
        at <= s.len(),
    ensures
        r == starts_with(s@.subrange(at as int, s@.len() as int), prefix@),
{
    let n = s.len();
    let m = prefix.len();
    if m > n - at {
        return false;
    }
    let mut j: usize = 0;
    while j < m
        invariant
            n == s@.len(),
            m == prefix@.len(),
            at + m <= n,
            j <= m,
            forall|k: int| 0 <= k < j ==> s@[at + k] == prefix@[k],
        decreases m - j,
    {
        if s[at + j] != prefix[j] {
            assert(s@.subrange(at as int, n as int).subrange(0, m as int)[j as int] != prefix@[j as int]);
            return false;
        }
        j = j + 1;
    }
    assert(s@.subrange(at as int, n as int).subrange(0, m as int) =~= prefix@);
    true
}

/// The characters of `s[from..to]` as a string.
fn text_of(s: &str, from: usize, to: usize) -> (r: String)
    requires
        from <= to <= s@.len(),
    ensures
        r@ == s@.subrange(from as int, to as int),
{
    s.substring_char(from, to).to_owned()
}

/// Expand a leading `~` or `$HOME` in `path_str` to `home`; see `spec_expand_path`.
pub fn expand_path(path_str: &String, home: Option<String>) -> (r: Option<String>)
    ensures
        opt_view(r) == spec_expand_path(path_str@, opt_view(home)),
{
    let path = path_str.as_str();
    let chars = crate::toplevel::chars_of(path);
    let tilde = vec!['~'];
    let home_word = vec!['$', 'H', 'O', 'M', 'E'];
    assert(chars@.subrange(0, chars@.len() as int) =~= chars@);
    assert(tilde@ =~= seq!['~']);
    assert(home_word@ =~= seq!['$', 'H', 'O', 'M', 'E']);
    let tilde_first = text_starts_with(&chars, &tilde, 0);
    let home_first = text_starts_with(&chars, &home_word, 0);
    if !tilde_first && !home_first {
        return Some(path_str.clone());
    }
    if (tilde_first && chars.len() == 1) || (home_first && chars.len() == 5) {
        assert(chars@ =~= chars@.subrange(0, chars@.len() as int));
        return home;
    }
    assert(chars@ != seq!['~'] && chars@ != seq!['$', 'H', 'O', 'M', 'E']);
    match home {
        None => None,
        Some(h) => {
            let root = h.as_str().unicode_len() == 1 && h.as_str().get_char(0) == '/';
            assert(root == (h@ == seq!['/'])) by {
                if h@.len() == 1 && h@[0] == '/' {
                    assert(h@ =~= seq!['/']);
                }
            }
            let with = if root {
                String::new()
            } else {
                h
            };
            let word: usize = if tilde_first {
                1
            } else {
                5
            };
            let mut expanded = with;
            expanded.append(text_of(path, word, chars.len()).as_str());
            Some(expanded)
        },
    }
}

/// The view of an optional string.
pub open spec fn opt_view(s: Option<String>) -> Option<Seq<char>> {
    match s {
        Some(v) => Some(v@),
        None => None,
    }
}

/// The directory that holds the file at `path`: its parent, or the path itself when it has none.
pub open spec fn spec_directory(path: Seq<char>) -> Seq<char> {
    match path_parent(path) {
        Some(d) => d,
        None => path,
    }
}

/// `path` expanded (kept as it is when no home directory is known), then, when relative,
/// joined to `dir`.
pub open spec fn spec_resolve(dir: Seq<char>, path: Seq<char>, home: Option<Seq<char>>) -> Seq<char> {
    let expanded = match spec_expand_path(path, home) {
        Some(p) => p,
        None => path,
    };
    if is_relative(expanded) {
        join(dir, expanded)
    } else {
        expanded
    }
}

/// Size of the application window.
#[derive(Clone, Debug)]
pub struct WindowConfig {
    /// Target width of the application window.
    pub width: i32,
    /// Target height of the application window.
    pub height: i32,
}

impl Default for WindowConfig {
    fn default() -> (r: Self)
        ensures
            r.width == 1000,
            r.height == 500,
    {
        WindowConfig { width: 1000, height: 500 }
    }
}

/// Sizes of the pictures.
#[derive(Clone, Debug)]
pub struct ImageConfig {
    /// Every picture is scaled down internally so that its shorter side is at most this long.
    pub resize_size: u32,
    /// Target height of the widget that shows a picture.
    pub widget_size: i32,
}

impl Default for ImageConfig {
    fn default() -> (r: Self)
        ensures
            r.resize_size == 200,
            r.widget_size == 150,
    {
        ImageConfig { resize_size: 200, widget_size: 150 }
    }
}

/// Style classes of the widgets.
#[derive(Clone, Debug)]
pub struct ClassesConfig {
    pub window: String,
    pub image_card: String,
    pub image: String,
    pub image_label: String,
    pub notebook: String,
    pub tab_label: String,
    pub notebook_page: String,
    pub region_button: String,
    pub restore_button: String,
}

impl Default for ClassesConfig {
    fn default() -> (r: Self)
        ensures
            r.window@ == "window"@,
            r.image_card@ == "card"@,
            r.image@ == "image"@,
            r.image_label@ == "image-label"@,
            r.notebook@ == "notebook"@,
            r.tab_label@ == "tab-label"@,
            r.notebook_page@ == "page"@,
            r.region_button@ == "region-button"@,
            r.restore_button@ == "restore-button"@,
    {
        ClassesConfig {
            window: "window".to_owned(),
            image_card: "card".to_owned(),
            image: "image".to_owned(),
            image_label: "image-label".to_owned(),
            notebook: "notebook".to_owned(),
            tab_label: "tab-label".to_owned(),
            notebook_page: "page".to_owned(),
            region_button: "region-button".to_owned(),
            restore_button: "restore-button".to_owned(),
        }
    }
}

/// The region selection command.
#[derive(Clone, Debug)]
pub struct RegionConfig {
    /// Command that prints the selected region as `<output>@<x>,<y>,<w>,<h>`.
    pub command: String,
}

impl Default for RegionConfig {
    fn default() -> (r: Self)
        ensures
            r.command@ == "slurp -f '%o@%x,%y,%w,%h'"@,
    {
        RegionConfig { command: "slurp -f '%o@%x,%y,%w,%h'".to_owned() }
    }
}

/// Layout of the outputs page.
#[derive(Clone, Debug)]
pub struct OutputsConfig {
    /// Minimum number of cards per row.
    pub min_per_row: u32,
    /// Maximum number of cards per row.
    pub max_per_row: u32,
}

impl Default for OutputsConfig {
    fn default() -> (r: Self)
        ensures
            r.min_per_row == 2,
            r.max_per_row == 2,
    {
        OutputsConfig { min_per_row: 2, max_per_row: 2 }
    }
}

/// Layout of the windows page.
#[derive(Clone, Debug)]
pub struct WindowsConfig {
    /// Minimum number of cards per row.
    pub min_per_row: u32,
    /// Maximum number of cards per row.
    pub max_per_row: u32,
}

impl Default for WindowsConfig {
    fn default() -> (r: Self)
        ensures
            r.min_per_row == 3,
            r.max_per_row == 999,
    {
        WindowsConfig { min_per_row: 3, max_per_row: 999 }
    }
}

/// The page shown first.
#[derive(Clone, Copy, Debug, PartialEq, Eq, Structural)]
pub enum Page {
    Windows,
    Outputs,
    Region,
}

impl Default for Page {
    fn default() -> (r: Self)
        ensures
            r == Page::Windows,
    {
        Page::Windows
    }
}

/// The picker's settings, and where they were read from.
#[derive(Clone, Debug)]
pub struct Config {
    /// Where the settings were read from.
    pub path: String,
    /// Settings of the application window.
    pub window: WindowConfig,
    /// Stylesheets to load, relative to the directory of the configuration file.
    pub stylesheets: Vec<String>,
    /// Hide the restore-token checkbox and use its default value.
    pub hide_token_restore: bool,
    /// Page selected at start.
    pub default_page: Page,
    /// Settings of the pictures.
    pub image: ImageConfig,
    /// Style classes of the widgets.
    pub classes: ClassesConfig,
    /// Settings of the region page.
    pub region: RegionConfig,
    /// Settings of the windows page.
    pub windows: WindowsConfig,
    /// Settings of the outputs page.
    pub outputs: OutputsConfig,
}

impl Default for Config {
    /// Default settings, located in the user's home directory (or `/` without one).
    fn default() -> (r: Self)
        ensures
            r.window.width == 1000 && r.window.height == 500,
            r.stylesheets@.len() == 0,
            !r.hide_token_restore,
            r.default_page == Page::Windows,
            r.image.resize_size == 200 && r.image.widget_size == 150,
            r.outputs.min_per_row == 2 && r.outputs.max_per_row == 2,
            r.windows.min_per_row == 3 && r.windows.max_per_row == 999,
            r.region.command@ == "slurp -f '%o@%x,%y,%w,%h'"@,
            r.classes.window@ == "window"@,
            r.classes.image_card@ == "card"@,
            r.classes.image@ == "image"@,
            r.classes.image_label@ == "image-label"@,
            r.classes.notebook@ == "notebook"@,
            r.classes.tab_label@ == "tab-label"@,
            r.classes.notebook_page@ == "page"@,
            r.classes.region_button@ == "region-button"@,
            r.classes.restore_button@ == "restore-button"@,
    {
        let path = match home_dir() {
            Some(home) => home,
            None => "/".to_owned(),
        };
        Config {
            path,
            window: WindowConfig::default(),
            stylesheets: Vec::new(),
            hide_token_restore: false,
            default_page: Page::default(),
            image: ImageConfig::default(),
            classes: ClassesConfig::default(),
            region: RegionConfig::default(),
            windows: WindowsConfig::default(),
            outputs: OutputsConfig::default(),
        }
    }
}

impl Config {
    /// These settings, recorded as read from the file at `path`.
    pub fn with_path(self, path: String) -> (r: Config)
        ensures
            r.path@ == path@,
            r.window == self.window,
            r.stylesheets == self.stylesheets,
            r.hide_token_restore == self.hide_token_restore,
            r.default_page == self.default_page,
            r.image == self.image,
            r.classes == self.classes,
            r.region == self.region,
            r.windows == self.windows,
            r.outputs == self.outputs,
    {
        Config { path, ..self }
    }

    /// Path of the configuration file.
    pub fn path(&self) -> (r: &String)
        ensures
            r@ == self.path@,
    {
        &self.path
    }

    /// Directory of the configuration file.
    pub fn directory(&self) -> (r: String)
        ensures
            r@ == spec_directory(self.path@),
    {
        match parent_of(self.path.as_str()) {
            Some(dir) => dir,
            None => self.path.clone(),
        }
    }

    /// Resolve `path_str` against the configuration file with the home directory `home`:
    /// `~` and `$HOME` are expanded, and a relative path is joined to the file's directory.
    pub fn resolve_path_with_home(&self, path_str: &String, home: Option<String>) -> (r: String)
        ensures
            r@ == spec_resolve(spec_directory(self.path@), path_str@, opt_view(home)),
    {
        let path = match expand_path(path_str, home) {
            Some(p) => p,
            None => path_str.clone(),
        };
        let relative = path.as_str().unicode_len() == 0 || path.as_str().get_char(0) != '/';
        if !relative {
            return path;
        }
        let mut full = self.directory();
        let n = full.as_str().unicode_len();
        if n > 0 && full.as_str().get_char(n - 1) != '/' {
            full.append("/");
            proof {
                reveal_strlit("/");
            }
        }
        full.append(path.as_str());
        full
    }

    /// Resolve `path_str` against the configuration file and the user's home directory, as
    /// `resolve_path_with_home` does for whatever home directory the environment gives.
    pub fn resolve_path(&self, path_str: &String) -> (r: String)
        ensures
            exists|home: Option<Seq<char>>| r@ == spec_resolve(spec_directory(self.path@), path_str@, home),
    {
        let home = home_dir();
        let r = self.resolve_path_with_home(path_str, home);
        assert(r@ == spec_resolve(spec_directory(self.path@), path_str@, opt_view(home)));
        r
    }
}

} // verus!
