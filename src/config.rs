use vstd::prelude::*;
use crate::text::{
    chars_of, find_char, find_from, lemma_find_from_bounds, lemma_find_from_is, parse_u64,
    parse_u64_range, range_is, trim, trim_range,
};

verus! {

/// The section whose keys the display reads.
pub const SECTION_NAME: &'static str = "sdl3_text40x24";
pub const KEY_SCREENSHOT_PATH: &'static str = "default_screenshot_path";
pub const KEY_AUTO_EXIT_SECONDS: &'static str = "auto_exit_seconds";
pub const DEFAULT_SCREENSHOT_PATH: &'static str = "screenshots/echolab_last_frame.ppm";
pub const DEFAULT_AUTO_EXIT_SECONDS: u64 = 5;

/// Settings of the 40x24 text display.
#[derive(Debug, Clone, PartialEq, Eq)]
pub struct Sdl3Text40x24Config {
    pub default_screenshot_path: String,
    pub auto_exit_seconds: u64,
}

impl Default for Sdl3Text40x24Config {
    fn default() -> (r: Self)
        ensures
            r.default_screenshot_path@ == DEFAULT_SCREENSHOT_PATH@,
            r.auto_exit_seconds == DEFAULT_AUTO_EXIT_SECONDS,
    {
        Sdl3Text40x24Config {
            default_screenshot_path: DEFAULT_SCREENSHOT_PATH.to_owned(),
            auto_exit_seconds: DEFAULT_AUTO_EXIT_SECONDS,
        }
    }
}

/// The whole configuration document.
#[derive(Debug, Clone, PartialEq, Eq)]
pub struct EchoLabConfig {
    pub sdl3_text40x24: Sdl3Text40x24Config,
}

impl Default for EchoLabConfig {
    fn default() -> (r: Self)
        ensures
            r@ == default_config(),
    {
        EchoLabConfig { sdl3_text40x24: Sdl3Text40x24Config::default() }
    }
}

/// Why a configuration document was rejected; each names its 1-based line.
#[derive(Debug, Clone, PartialEq, Eq)]
pub enum ConfigError {
    /// A line that is neither blank, a comment, a section header nor `key = value`.
    MissingEquals { line: usize },
    /// A value that opens a double quote and does not close it.
    UnterminatedQuote { line: usize },
    /// An `auto_exit_seconds` value that is not a 64-bit unsigned integer.
    InvalidAutoExitSeconds { line: usize, value: String },
}

/// Abstract configuration.
pub struct ConfigModel {
    pub default_screenshot_path: Seq<char>,
    pub auto_exit_seconds: u64,
}

/// Abstract rejection.
pub enum ConfigFault {
    MissingEquals(int),
    UnterminatedQuote(int),
    InvalidAutoExitSeconds(int, Seq<char>),
}

impl View for EchoLabConfig {
    type V = ConfigModel;

    open spec fn view(&self) -> ConfigModel {
        ConfigModel {
            default_screenshot_path: self.sdl3_text40x24.default_screenshot_path@,
            auto_exit_seconds: self.sdl3_text40x24.auto_exit_seconds,
        }
    }
}

impl View for ConfigError {
    type V = ConfigFault;

    open spec fn view(&self) -> ConfigFault {
        match self {
            ConfigError::MissingEquals { line } => ConfigFault::MissingEquals(*line as int),
            ConfigError::UnterminatedQuote { line } => ConfigFault::UnterminatedQuote(*line as int),
            ConfigError::InvalidAutoExitSeconds { line, value } => ConfigFault::InvalidAutoExitSeconds(
                *line as int,
                value@,
            ),
        }
    }
}

pub open spec fn default_config() -> ConfigModel {
    ConfigModel {
        default_screenshot_path: DEFAULT_SCREENSHOT_PATH@,
        auto_exit_seconds: DEFAULT_AUTO_EXIT_SECONDS,
    }
}

/// What has been read so far: the current section and the settings.
pub struct ParseState {
    pub section: Seq<char>,
    pub config: ConfigModel,
}

/// A value as written, or the text between its double quotes; `None` for an
/// opening quote without a closing one.
pub open spec fn unquote(raw: Seq<char>) -> Option<Seq<char>> {
    if raw.len() > 0 && raw[0] == '"' {
        if raw.len() < 2 || raw.last() != '"' {
            None
        } else {
            Some(raw.subrange(1, raw.len() - 1))
        }
    } else {
        Some(raw)
    }
}

/// The effect of line `number`, whose text is `line`.
pub open spec fn apply_line(line: Seq<char>, number: int, st: ParseState) -> Result<
    ParseState,
    ConfigFault,
> {
    let t = trim(line);
    if t.len() == 0 || t[0] == '#' {
        Ok(st)
    } else if t[0] == '[' && t.last() == ']' {
        Ok(ParseState { section: trim(t.subrange(1, t.len() - 1)), ..st })
    } else {
        let eq = find_from(t, '=', 0);
        if eq >= t.len() {
            Err(ConfigFault::MissingEquals(number))
        } else {
            let key = trim(t.subrange(0, eq));
            match unquote(trim(t.subrange(eq + 1, t.len() as int))) {
                None => Err(ConfigFault::UnterminatedQuote(number)),
                Some(value) => {
                    if st.section != SECTION_NAME@ {
                        Ok(st)
                    } else if key == KEY_SCREENSHOT_PATH@ {
                        Ok(
                            ParseState {
                                config: ConfigModel { default_screenshot_path: value, ..st.config },
                                ..st
                            },
                        )
                    } else if key == KEY_AUTO_EXIT_SECONDS@ {
                        match parse_u64(value) {
                            Some(n) => Ok(
                                ParseState {
                                    config: ConfigModel { auto_exit_seconds: n, ..st.config },
                                    ..st
                                },
                            ),
                            None => Err(ConfigFault::InvalidAutoExitSeconds(number, value)),
                        }
                    } else {
                        Ok(st)
                    }
                },
            }
        }
    }
}

/// Reads the lines of `text` that start at `p`; `count` lines came before.
/// Lines end at `'\n'`; a final newline does not start another line.
pub open spec fn apply_lines(text: Seq<char>, p: int, count: int, st: ParseState) -> Result<
    ParseState,
    ConfigFault,
>
    decreases text.len() + 1 - p,
    via apply_lines_decreases
{
    if p < 0 || p >= text.len() {
        Ok(st)
    } else {
        let end = find_from(text, '\n', p);
        match apply_line(text.subrange(p, end), count + 1, st) {
            Ok(next) => apply_lines(text, end + 1, count + 1, next),
            Err(f) => Err(f),
        }
    }
}

#[via_fn]
proof fn apply_lines_decreases(text: Seq<char>, p: int, count: int, st: ParseState) {
    if 0 <= p < text.len() {
        lemma_find_from_bounds(text, '\n', p);
    }
}

/// The configuration that `text` describes, starting from the defaults.
pub open spec fn parse_config(text: Seq<char>) -> Result<ConfigModel, ConfigFault> {
    match apply_lines(text, 0, 0, ParseState { section: Seq::empty(), config: default_config() }) {
        Ok(st) => Ok(st.config),
        Err(f) => Err(f),
    }
}

/// Parser state over the characters of the document: the bounds of the
/// current section name and the settings read so far.
struct Scan {
    section_lo: usize,
    section_hi: usize,
    config: EchoLabConfig,
}

impl Scan {
    spec fn wf(&self, cs: Seq<char>) -> bool {
        self.section_lo <= self.section_hi <= cs.len()
    }

    spec fn state(&self, cs: Seq<char>) -> ParseState {
        ParseState {
            section: cs.subrange(self.section_lo as int, self.section_hi as int),
            config: self.config@,
        }
    }
}

/// Applies the line `cs[lo..hi]`, numbered `number`, to `scan`.
fn apply_line_exec(
    text: &str,
    cs: &Vec<char>,
    lo: usize,
    hi: usize,
    number: usize,
    scan: &mut Scan,
) -> (r: Result<(), ConfigError>)
    requires
        cs@ == text@,
        lo <= hi <= cs@.len(),
        old(scan).wf(cs@),
    ensures
        final(scan).wf(cs@),
        match apply_line(cs@.subrange(lo as int, hi as int), number as int, old(scan).state(cs@)) {
            Ok(st) => r is Ok && final(scan).state(cs@) == st,
            Err(f) => r is Err && r->Err_0@ == f,
        },
{
    let ghost line = cs@.subrange(lo as int, hi as int);
    let (a, b) = trim_range(cs, lo, hi);
    let ghost t = cs@.subrange(a as int, b as int);
    if a == b || cs[a] == '#' {
        return Ok(());
    }
    if cs[a] == '[' && cs[b - 1] == ']' {
        let (sa, sb) = trim_range(cs, a + 1, b - 1);
        assert(t.subrange(1, t.len() - 1) =~= cs@.subrange(a + 1, b - 1));
        scan.section_lo = sa;
        scan.section_hi = sb;
        return Ok(());
    }
    let eq = find_char(cs, '=', a, b);
    proof {
        assert forall|k: int| 0 <= k < eq - a implies t[k] != '=' by {
            assert(t[k] == cs@[a + k]);
        }
        lemma_find_from_is(t, '=', 0, eq - a);
    }
    if eq == b {
        return Err(ConfigError::MissingEquals { line: number });
    }
    assert(t.subrange(0, eq - a) =~= cs@.subrange(a as int, eq as int));
    assert(t.subrange(eq - a + 1, t.len() as int) =~= cs@.subrange(eq + 1, b as int));
    let (ka, kb) = trim_range(cs, a, eq);
    let (mut va, mut vb) = trim_range(cs, eq + 1, b);
    let ghost raw = cs@.subrange(va as int, vb as int);
    if va < vb && cs[va] == '"' {
        if vb - va < 2 || cs[vb - 1] != '"' {
            return Err(ConfigError::UnterminatedQuote { line: number });
        }
        assert(raw.subrange(1, raw.len() - 1) =~= cs@.subrange(va + 1, vb - 1));
        va = va + 1;
        vb = vb - 1;
    }
    if !range_is(cs, scan.section_lo, scan.section_hi, SECTION_NAME) {
        return Ok(());
    }
    if range_is(cs, ka, kb, KEY_SCREENSHOT_PATH) {
        scan.config.sdl3_text40x24.default_screenshot_path = text.substring_char(va, vb).to_owned();
        return Ok(());
    }
    if range_is(cs, ka, kb, KEY_AUTO_EXIT_SECONDS) {
        match parse_u64_range(cs, va, vb) {
            Some(n) => {
                scan.config.sdl3_text40x24.auto_exit_seconds = n;
            },
            None => {
                return Err(
                    ConfigError::InvalidAutoExitSeconds {
                        line: number,
                        value: text.substring_char(va, vb).to_owned(),
                    },
                );
            },
        }
    }
    Ok(())
}

impl EchoLabConfig {
    /// Reads a small TOML-like document: `[section]` headers, `key = value`
    /// lines (values may be double-quoted), blank lines and `#` comments.
    /// Only the keys of the `sdl3_text40x24` section are taken; others are
    /// ignored, and absent keys keep their defaults.
    pub fn from_toml_like(contents: &str) -> (r: Result<EchoLabConfig, ConfigError>)
        ensures
            match r {
                Ok(c) => parse_config(contents@) == Ok::<ConfigModel, ConfigFault>(c@),
                Err(e) => parse_config(contents@) == Err::<ConfigModel, ConfigFault>(e@),
            },
    {
        let cs = chars_of(contents);
        let n = cs.len();
        let mut scan = Scan { section_lo: 0, section_hi: 0, config: EchoLabConfig::default() };
        let ghost init = ParseState { section: Seq::empty(), config: default_config() };
        assert(scan.state(cs@).section =~= Seq::<char>::empty());
        let mut p: usize = 0;
        let mut count: usize = 0;
        while p < n
            invariant
                cs@ == contents@,
                n == cs@.len(),
                p <= n,
                count <= p,
                scan.wf(cs@),
                init == (ParseState { section: Seq::empty(), config: default_config() }),
                apply_lines(cs@, 0, 0, init) == apply_lines(
                    cs@,
                    p as int,
                    count as int,
                    scan.state(cs@),
                ),
            decreases n - p,
        {
            let end = find_char(&cs, '\n', p, n);
            proof {
                lemma_find_from_is(cs@, '\n', p as int, end as int);
            }
            let number = count + 1;
            let ghost before = scan.state(cs@);
            match apply_line_exec(contents, &cs, p, end, number, &mut scan) {
                Ok(()) => {},
                Err(e) => {
                    assert(apply_lines(cs@, p as int, count as int, before) == Err::<
                        ParseState,
                        ConfigFault,
                    >(e@));
                    return Err(e);
                },
            }
            proof {
                let st = scan.state(cs@);
                assert(apply_lines(cs@, end + 1, number as int, st) == apply_lines(
                    cs@,
                    if end < n {
                        end + 1
                    } else {
                        n as int
                    },
                    number as int,
                    st,
                ));
            }
            count = number;
            if end < n {
                p = end + 1;
            } else {
                p = n;
            }
        }
        Ok(scan.config)
    }
}

} // verus!
