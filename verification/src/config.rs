use vstd::prelude::*;

verus! {

// ===== byte-level helpers for the small ASCII tokens the options use =====

/// UTF-8 bytes of a character sequence.
pub open spec fn bytes_of(s: Seq<char>) -> Seq<u8> {
    vstd::utf8::encode_utf8(s)
}

pub open spec fn spec_lower(b: u8) -> u8 {
    if 65 <= b && b <= 90 {
        (b + 32) as u8
    } else {
        b
    }
}

pub open spec fn spec_lower_bytes(s: Seq<u8>) -> Seq<u8> {
    s.map_values(|b: u8| spec_lower(b))
}

fn lower_byte(b: u8) -> (r: u8)
    ensures
        r == spec_lower(b),
{
    if 65 <= b && b <= 90 {
        b + 32
    } else {
        b
    }
}

/// ASCII-case-insensitive equality of two byte strings.
pub open spec fn spec_eq_ignore_case(a: Seq<u8>, b: Seq<u8>) -> bool {
    spec_lower_bytes(a) == spec_lower_bytes(b)
}

fn eq_ignore_case(a: &[u8], b: &[u8]) -> (r: bool)
    ensures
        r == spec_eq_ignore_case(a@, b@),
{
    if a.len() != b.len() {
        assert(spec_lower_bytes(a@).len() != spec_lower_bytes(b@).len());
        return false;
    }
    let n: usize = a.len();
    let mut i: usize = 0;
    while i < n
        invariant
            n == a@.len() == b@.len(),
            0 <= i <= n,
            forall|j: int| 0 <= j < i ==> spec_lower(a@[j]) == spec_lower(b@[j]),
        decreases n - i,
    {
        if lower_byte(a[i]) != lower_byte(b[i]) {
            assert(spec_lower_bytes(a@)[i as int] != spec_lower_bytes(b@)[i as int]);
            return false;
        }
        i += 1;
    }
    assert(spec_lower_bytes(a@) =~= spec_lower_bytes(b@));
    true
}

// ===== trimming ASCII whitespace =====

pub open spec fn spec_is_ws(b: u8) -> bool {
    b == 9 || b == 10 || b == 11 || b == 12 || b == 13 || b == 32
}

fn is_ws(b: u8) -> (r: bool)
    ensures
        r == spec_is_ws(b),
{
    b == 9 || b == 10 || b == 11 || b == 12 || b == 13 || b == 32
}

/// Number of leading whitespace bytes.
pub open spec fn ws_prefix_len(s: Seq<u8>) -> int
    decreases s.len(),
{
    if s.len() > 0 && spec_is_ws(s[0]) {
        1 + ws_prefix_len(s.drop_first())
    } else {
        0
    }
}

/// Number of trailing whitespace bytes.
pub open spec fn ws_suffix_len(s: Seq<u8>) -> int
    decreases s.len(),
{
    if s.len() > 0 && spec_is_ws(s[s.len() - 1]) {
        1 + ws_suffix_len(s.drop_last())
    } else {
        0
    }
}

/// The byte string with leading and trailing ASCII whitespace removed.
pub open spec fn spec_trim(s: Seq<u8>) -> Seq<u8> {
    if ws_prefix_len(s) == s.len() {
        Seq::empty()
    } else {
        s.subrange(ws_prefix_len(s), s.len() - ws_suffix_len(s))
    }
}

proof fn lemma_ws_prefix(s: Seq<u8>, k: int)
    requires
        0 <= k <= s.len(),
        forall|j: int| 0 <= j < k ==> spec_is_ws(s[j]),
        k == s.len() || !spec_is_ws(s[k]),
    ensures
        ws_prefix_len(s) == k,
    decreases k,
{
    if k == 0 {
    } else {
        lemma_ws_prefix(s.drop_first(), k - 1);
    }
}

proof fn lemma_ws_suffix(s: Seq<u8>, k: int)
    requires
        0 <= k <= s.len(),
        forall|j: int| s.len() - k <= j < s.len() ==> spec_is_ws(s[j]),
        k == s.len() || !spec_is_ws(s[s.len() - k - 1]),
    ensures
        ws_suffix_len(s) == k,
    decreases k,
{
    if k == 0 {
    } else {
        lemma_ws_suffix(s.drop_last(), k - 1);
    }
}

/// Bounds of the trimmed middle of `b`: everything before the first and after
/// the last non-whitespace byte is dropped.
fn trim_range(b: &[u8]) -> (r: (usize, usize))
    ensures
        r.0 <= r.1 <= b@.len(),
        b@.subrange(r.0 as int, r.1 as int) == spec_trim(b@),
{
    let n: usize = b.len();
    let mut lo: usize = 0;
    while lo < n && is_ws(b[lo])
        invariant
            0 <= lo <= n,
            n == b@.len(),
            forall|j: int| 0 <= j < lo ==> spec_is_ws(b@[j]),
        decreases n - lo,
    {
        lo += 1;
    }
    proof {
        lemma_ws_prefix(b@, lo as int);
    }
    if lo == n {
        proof {
            assert(b@.subrange(lo as int, lo as int) =~= spec_trim(b@));
        }
        return (lo, lo);
    }
    let mut hi: usize = n;
    while hi > lo && is_ws(b[hi - 1])
        invariant
            lo <= hi <= n,
            n == b@.len(),
            !spec_is_ws(b@[lo as int]),
            forall|j: int| hi <= j < n ==> spec_is_ws(b@[j]),
        decreases hi,
    {
        hi -= 1;
    }
    proof {
        lemma_ws_suffix(b@, (n - hi) as int);
        assert(b@.subrange(lo as int, hi as int) =~= spec_trim(b@));
    }
    (lo, hi)
}

// ===== palettes =====

/// How many colors the terminal is driven with.
#[derive(Clone, Copy, PartialEq, Eq, Structural, Debug)]
pub enum Palette {
    NoColors,
    Ansi8,
    Ansi16,
    Ansi256,
    All,
}

/// The palette a token names: `8`, `16`, `256`, `all` or `off`, with
/// surrounding ASCII whitespace ignored.
pub open spec fn spec_parse_palette(s: Seq<u8>) -> Option<Palette> {
    let t = spec_trim(s);
    if t == seq![56u8] {
        Some(Palette::Ansi8)
    } else if t == seq![49u8, 54u8] {
        Some(Palette::Ansi16)
    } else if t == seq![50u8, 53u8, 54u8] {
        Some(Palette::Ansi256)
    } else if t == seq![97u8, 108u8, 108u8] {
        Some(Palette::All)
    } else if t == seq![111u8, 102u8, 102u8] {
        Some(Palette::NoColors)
    } else {
        None
    }
}

fn token_eq(b: &[u8], lo: usize, hi: usize, tok: &[u8]) -> (r: bool)
    requires
        lo <= hi <= b@.len(),
    ensures
        r == (b@.subrange(lo as int, hi as int) == tok@),
{
    let ghost t = b@.subrange(lo as int, hi as int);
    if hi - lo != tok.len() {
        assert(t.len() != tok@.len());
        return false;
    }
    let n: usize = tok.len();
    let mut i: usize = 0;
    while i < n
        invariant
            lo <= hi <= b@.len(),
            n == tok@.len() == hi - lo,
            0 <= i <= n,
            t == b@.subrange(lo as int, hi as int),
            forall|j: int| 0 <= j < i ==> t[j] == tok@[j],
        decreases n - i,
    {
        if b[lo + i] != tok[i] {
            assert(t[i as int] != tok@[i as int]);
            return false;
        }
        i += 1;
    }
    assert(t =~= tok@);
    true
}

pub fn parse_palette(s: &str) -> (r: Option<Palette>)
    ensures
        r == spec_parse_palette(bytes_of(s@)),
{
    let b = s.as_bytes();
    let (lo, hi) = trim_range(b);
    proof {
        assert([56u8]@ =~= seq![56u8]);
        assert([49u8, 54u8]@ =~= seq![49u8, 54u8]);
        assert([50u8, 53u8, 54u8]@ =~= seq![50u8, 53u8, 54u8]);
        assert([97u8, 108u8, 108u8]@ =~= seq![97u8, 108u8, 108u8]);
        assert([111u8, 102u8, 102u8]@ =~= seq![111u8, 102u8, 102u8]);
    }
    if token_eq(b, lo, hi, &[56u8]) {
        Some(Palette::Ansi8)
    } else if token_eq(b, lo, hi, &[49u8, 54u8]) {
        Some(Palette::Ansi16)
    } else if token_eq(b, lo, hi, &[50u8, 53u8, 54u8]) {
        Some(Palette::Ansi256)
    } else if token_eq(b, lo, hi, &[97u8, 108u8, 108u8]) {
        Some(Palette::All)
    } else if token_eq(b, lo, hi, &[111u8, 102u8, 102u8]) {
        Some(Palette::NoColors)
    } else {
        None
    }
}

/// `truecolor` and `24bit` request 24-bit color, any case, with surrounding
/// whitespace ignored.
pub open spec fn spec_parse_true_color(s: Seq<u8>) -> bool {
    spec_eq_ignore_case(spec_trim(s), seq![116u8, 114u8, 117u8, 101u8, 99u8, 111u8, 108u8, 111u8, 114u8])
        || spec_eq_ignore_case(spec_trim(s), seq![50u8, 52u8, 98u8, 105u8, 116u8])
}

pub fn parse_true_color(s: &str) -> (r: bool)
    ensures
        r == spec_parse_true_color(bytes_of(s@)),
{
    let b = s.as_bytes();
    let (lo, hi) = trim_range(b);
    let t = vstd::slice::slice_subrange(b, lo, hi);
    let r1 = eq_ignore_case(t, &[116u8, 114u8, 117u8, 101u8, 99u8, 111u8, 108u8, 111u8, 114u8]);
    let r2 = eq_ignore_case(t, &[50u8, 52u8, 98u8, 105u8, 116u8]);
    proof {
        assert(seq![116u8, 114u8, 117u8, 101u8, 99u8, 111u8, 108u8, 111u8, 114u8] =~= [
            116,
            114,
            117,
            101,
            99,
            111,
            108,
            111,
            114,
        ]@);
        assert(seq![50u8, 52u8, 98u8, 105u8, 116u8] =~= [50u8, 52u8, 98u8, 105u8, 116u8]@);
    }
    r1 || r2
}


// ===== view options =====

/// Per-element color toggles, each tri-state: unset, enabled or disabled.
#[derive(Clone, Copy, Debug)]
pub struct ColorToggles {
    pub color_durations: Option<bool>,
    pub color_terminated: Option<bool>,
}

/// Options controlling how the console client draws its views.
#[derive(Clone, Debug)]
pub struct ViewOptions {
    pub no_colors: Option<bool>,
    pub lang: Option<String>,
    pub ascii_only: Option<bool>,
    pub truecolor: Option<bool>,
    pub palette: Option<Palette>,
    pub toggles: ColorToggles,
}

/// The last five bytes of `s` spell `UTF-8`.
pub open spec fn spec_is_utf8_lang(s: Seq<u8>) -> bool {
    s.len() >= 5 && s.subrange(s.len() - 5, s.len() as int) == seq![85u8, 84u8, 70u8, 45u8, 56u8]
}

impl ViewOptions {
    /// The language setting asks for UTF-8 and ASCII-only output is switched
    /// off explicitly.
    pub open spec fn spec_is_utf8(self) -> bool {
        match self.lang {
            Some(l) => spec_is_utf8_lang(bytes_of(l@)) && self.ascii_only == Some(false),
            None => false,
        }
    }

    pub fn is_utf8(&self) -> (r: bool)
        ensures
            r == self.spec_is_utf8(),
    {
        let lang_utf8: bool = match &self.lang {
            Some(l) => {
                let b = l.as_str().as_bytes();
                let n: usize = b.len();
                if n >= 5 {
                    proof {
                        assert([85u8, 84u8, 70u8, 45u8, 56u8]@ =~= seq![
                            85u8,
                            84u8,
                            70u8,
                            45u8,
                            56u8,
                        ]);
                    }
                    token_eq(b, n - 5, n, &[85u8, 84u8, 70u8, 45u8, 56u8])
                } else {
                    false
                }
            },
            None => false,
        };
        let not_ascii: bool = matches!(self.ascii_only, Some(false));
        lang_utf8 && not_ascii
    }

    /// The palette the client settles on: an explicit `--no-colors` (or no
    /// stated preference at all) disables colors; an explicit palette wins
    /// next; then advertised truecolor support; finally whatever the
    /// terminal's `tput colors` reported, if it was handed in.
    pub open spec fn spec_determine_palette(self, tput: Option<Seq<char>>) -> Palette {
        if !(self.no_colors == Some(false)) {
            Palette::NoColors
        } else if self.palette is Some {
            self.palette->0
        } else if self.truecolor == Some(true) {
            Palette::All
        } else {
            match tput {
                Some(out) => match spec_parse_palette(bytes_of(out)) {
                    Some(p) => p,
                    None => Palette::NoColors,
                },
                None => Palette::NoColors,
            }
        }
    }

    pub fn determine_palette_from(&self, tput: Option<&str>) -> (r: Palette)
        ensures
            r == self.spec_determine_palette(
                match tput {
                    Some(t) => Some(t@),
                    None => None::<Seq<char>>,
                },
            ),
    {
        if !matches!(self.no_colors, Some(false)) {
            return Palette::NoColors;
        }
        if let Some(p) = self.palette {
            return p;
        }
        if matches!(self.truecolor, Some(true)) {
            return Palette::All;
        }
        match tput {
            Some(out) => match parse_palette(out) {
                Some(p) => p,
                None => Palette::NoColors,
            },
            None => Palette::NoColors,
        }
    }

    pub fn toggles(&self) -> (r: ColorToggles)
        ensures
            r == self.toggles,
    {
        self.toggles
    }

    /// Overlay explicitly given command-line options onto these options.
    pub fn merge_with(&mut self, command_line: ViewOptions)
        ensures
            final(self).no_colors == if command_line.no_colors is Some {
                command_line.no_colors
            } else {
                old(self).no_colors
            },
            final(self).lang == if command_line.lang is Some {
                command_line.lang
            } else {
                old(self).lang
            },
            final(self).ascii_only == if command_line.ascii_only is Some {
                command_line.ascii_only
            } else {
                old(self).ascii_only
            },
            final(self).truecolor == if command_line.truecolor is Some {
                command_line.truecolor
            } else {
                old(self).truecolor
            },
            final(self).palette == if command_line.palette is Some {
                command_line.palette
            } else {
                old(self).palette
            },
            final(self).toggles.color_durations == if command_line.toggles.color_durations
                is Some {
                command_line.toggles.color_durations
            } else {
                old(self).toggles.color_durations
            },
            final(self).toggles.color_terminated == if command_line.toggles.color_terminated
                is Some {
                command_line.toggles.color_terminated
            } else {
                old(self).toggles.color_terminated
            },
    {
        if command_line.no_colors.is_some() {
            self.no_colors = command_line.no_colors;
        }
        match command_line.lang {
            Some(l) => {
                self.lang = Some(l);
            },
            None => {},
        }
        if command_line.ascii_only.is_some() {
            self.ascii_only = command_line.ascii_only;
        }
        if command_line.truecolor.is_some() {
            self.truecolor = command_line.truecolor;
        }
        if command_line.palette.is_some() {
            self.palette = command_line.palette;
        }
        if command_line.toggles.color_durations.is_some() {
            self.toggles.color_durations = command_line.toggles.color_durations;
        }
        if command_line.toggles.color_terminated.is_some() {
            self.toggles.color_terminated = command_line.toggles.color_terminated;
        }
    }
}

impl ColorToggles {
    /// Duration units are color-coded unless that was switched off.
    pub fn color_durations(&self) -> (r: bool)
        ensures
            r == !(self.color_durations == Some(true)),
    {
        !matches!(self.color_durations, Some(true))
    }

    /// Terminated tasks are color-coded unless that was switched off.
    pub fn color_terminated(&self) -> (r: bool)
        ensures
            r == !(self.color_terminated == Some(true)),
    {
        !matches!(self.color_terminated, Some(true))
    }
}

// ===== the configuration file =====

/// Character-set section of the configuration file.
#[derive(Clone, Debug)]
pub struct CharsetConfig {
    pub lang: String,
    pub ascii_only: bool,
}

/// Which UI elements keep their color coding.
#[derive(Clone, Copy, Debug)]
pub struct ColorsEnable {
    pub durations: bool,
    pub terminated: bool,
}

/// Colors section of the configuration file.
#[derive(Clone, Debug)]
pub struct ColorsConfig {
    pub enabled: bool,
    pub truecolor: bool,
    pub palette: Palette,
    pub enable: ColorsEnable,
}

/// A parsed configuration file.
#[derive(Clone, Debug)]
pub struct ConfigFile {
    pub charset: Option<CharsetConfig>,
    pub colors: Option<ColorsConfig>,
}

impl ConfigFile {
    /// The view options this file asks for, each section mapped to the
    /// tri-state option it feeds.
    pub fn into_view_options(self) -> (r: ViewOptions)
        ensures
            r.no_colors == match self.colors {
                Some(c) => Some(!c.enabled),
                None => None::<bool>,
            },
            r.lang == match self.charset {
                Some(c) => Some(c.lang),
                None => None::<String>,
            },
            r.ascii_only == match self.charset {
                Some(c) => Some(c.ascii_only),
                None => None::<bool>,
            },
            r.truecolor == match self.colors {
                Some(c) => Some(c.truecolor),
                None => None::<bool>,
            },
            r.palette == match self.colors {
                Some(c) => Some(c.palette),
                None => None::<Palette>,
            },
            r.toggles.color_durations == match self.colors {
                Some(c) => Some(!c.enable.durations),
                None => None::<bool>,
            },
            r.toggles.color_terminated == match self.colors {
                Some(c) => Some(!c.enable.terminated),
                None => None::<bool>,
            },
    {
        let (no_colors, truecolor, palette, durations, terminated): (
            Option<bool>,
            Option<bool>,
            Option<Palette>,
            Option<bool>,
            Option<bool>,
        ) = match &self.colors {
            Some(c) => (
                Some(!c.enabled),
                Some(c.truecolor),
                Some(c.palette),
                Some(!c.enable.durations),
                Some(!c.enable.terminated),
            ),
            None => (None, None, None, None, None),
        };
        let (lang, ascii_only): (Option<String>, Option<bool>) = match self.charset {
            Some(c) => (Some(c.lang), Some(c.ascii_only)),
            None => (None, None),
        };
        ViewOptions {
            no_colors,
            lang,
            ascii_only,
            truecolor,
            palette,
            toggles: ColorToggles { color_durations: durations, color_terminated: terminated },
        }
    }
}

/// Merge two optional configuration files; sections of `after` win.
pub open spec fn spec_merge_config_file(
    before: Option<ConfigFile>,
    after: Option<ConfigFile>,
) -> Option<ConfigFile> {
    match (before, after) {
        (None, None) => None,
        (Some(b), None) => Some(b),
        (None, Some(a)) => Some(a),
        (Some(b), Some(a)) => Some(
            ConfigFile {
                charset: if a.charset is Some {
                    a.charset
                } else {
                    b.charset
                },
                colors: if a.colors is Some {
                    a.colors
                } else {
                    b.colors
                },
            },
        ),
    }
}

pub fn merge_config_file(before: Option<ConfigFile>, after: Option<ConfigFile>) -> (r: Option<
    ConfigFile,
>)
    ensures
        r == spec_merge_config_file(before, after),
{
    match (before, after) {
        (None, None) => None,
        (Some(b), None) => Some(b),
        (None, Some(a)) => Some(a),
        (Some(b), Some(a)) => {
            let charset: Option<CharsetConfig> = match a.charset {
                Some(c) => Some(c),
                None => b.charset,
            };
            let colors: Option<ColorsConfig> = match a.colors {
                Some(c) => Some(c),
                None => b.colors,
            };
            Some(ConfigFile { charset, colors })
        },
    }
}

// ===== retention argument =====

/// How long the client keeps completed tasks: a duration, or `none` to keep
/// them forever. Stored as whole nanoseconds.
#[derive(Clone, Copy, Debug)]
pub struct RetainFor(pub Option<u128>);

/// The retention argument could not be parsed as `none` or as a duration.
#[derive(Clone, Copy, Debug)]
pub struct RetainForParseError;

/// The duration a string denotes in `humantime`'s format, as whole seconds
/// and subsecond nanoseconds, or `None` where the string is not a duration.
pub uninterp spec fn parsed_duration(s: Seq<char>) -> Option<(u64, u32)>;

/// Whether a byte is an ASCII decimal digit.
pub open spec fn spec_is_digit(b: u8) -> bool {
    48 <= b && b <= 57
}

/// How many ASCII decimal digits a byte string holds.
pub open spec fn spec_digit_count(s: Seq<u8>) -> int
    decreases s.len(),
{
    if s.len() == 0 {
        0int
    } else {
        spec_digit_count(s.drop_last()) + if spec_is_digit(s.last()) {
            1int
        } else {
            0int
        }
    }
}

fn digit_count(s: &[u8]) -> (n: usize)
    ensures
        n == spec_digit_count(s@),
        n <= s@.len(),
{
    let len: usize = s.len();
    let mut n: usize = 0;
    let mut i: usize = 0;
    while i < len
        invariant
            len == s@.len(),
            0 <= i <= len,
            n <= i,
            n == spec_digit_count(s@.take(i as int)),
        decreases len - i,
    {
        if 48 <= s[i] && s[i] <= 57 {
            n += 1;
        }
        proof {
            assert(s@.take(i + 1).drop_last() =~= s@.take(i as int));
            assert(s@.take(i + 1).last() == s@[i as int]);
        }
        i += 1;
    }
    proof {
        assert(s@.take(len as int) =~= s@);
    }
    n
}

/// Relies on humantime::parse_duration: parses a duration written as time
/// spans such as `5days 2min 2s`; the result depends on the characters
/// alone. Its arithmetic is checked except for one corner: it panics when
/// the accumulated seconds land exactly on u64::MAX just as the pending
/// nanoseconds reach one full second. Reaching a full second of pending
/// nanoseconds takes at least four digits of subsecond terms, and the
/// eleven digits then left cannot raise the seconds to u64::MAX (a year,
/// the largest unit, is about 3.2 * 10^7 seconds, so eleven digits of
/// years stay below 4 * 10^18), so strings of at most fifteen digits stay
/// clear of the corner.
#[verifier::external_body]
fn parse_humantime(s: &str) -> (r: Option<(u64, u32)>)
    requires
        spec_digit_count(bytes_of(s@)) <= 15,
    ensures
        r == parsed_duration(s@),
{
    match humantime::parse_duration(s) {
        Ok(d) => Some((d.as_secs(), d.subsec_nanos())),
        Err(_) => None,
    }
}

/// What `parse_retain_for` owes: `none` (any case) disables retention;
/// otherwise the string must denote a duration, taken as nanoseconds. A
/// string of more than fifteen digits is rejected outright: no duration a
/// retention window could want needs more, and the bound keeps the parser
/// away from an overflow corner of its own.
pub open spec fn spec_retain_for(s: Seq<char>) -> Option<Option<u128>> {
    if spec_eq_ignore_case(bytes_of(s), seq![110u8, 111u8, 110u8, 101u8]) {
        Some(None)
    } else if spec_digit_count(bytes_of(s)) > 15 {
        None
    } else {
        match parsed_duration(s) {
            Some(d) => Some(Some(((d.0 * 1000000000 + d.1) as u128))),
            None => None,
        }
    }
}

pub fn parse_retain_for(s: &str) -> (r: Result<RetainFor, RetainForParseError>)
    ensures
        match r {
            Ok(rf) => spec_retain_for(s@) == Some(rf.0),
            Err(_) => spec_retain_for(s@) is None,
        },
{
    proof {
        assert([110u8, 111u8, 110u8, 101u8]@ =~= seq![110u8, 111u8, 110u8, 101u8]);
    }
    if eq_ignore_case(s.as_bytes(), &[110u8, 111u8, 110u8, 101u8]) {
        return Ok(RetainFor(None));
    }
    if digit_count(s.as_bytes()) > 15 {
        return Err(RetainForParseError);
    }
    match parse_humantime(s) {
        Some((secs, nanos)) => {
            let total: u128 = (secs as u128) * 1000000000u128 + (nanos as u128);
            Ok(RetainFor(Some(total)))
        },
        None => Err(RetainForParseError),
    }
}


} // verus!
