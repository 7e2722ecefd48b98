//! Text styles and their ANSI escape sequences.
use vstd::prelude::*;

verus! {

/// Color setting for text and background.
#[derive(Debug, Clone, Copy, PartialEq, Eq, Structural)]
#[non_exhaustive]
pub enum Color {
    Default,
    Black,
    Red,
    Green,
    Yellow,
    Blue,
    Magenta,
    Cyan,
    White,
    BrightBlack,
    BrightRed,
    BrightGreen,
    BrightYellow,
    BrightBlue,
    BrightMagenta,
    BrightCyan,
    BrightWhite,
}

/// The ANSI code that sets a foreground color.
pub open spec fn color_fg_code(c: Color) -> Seq<char> {
    match c {
        Color::Default => "39"@,
        Color::Black => "30"@,
        Color::Red => "31"@,
        Color::Green => "32"@,
        Color::Yellow => "33"@,
        Color::Blue => "34"@,
        Color::Magenta => "35"@,
        Color::Cyan => "36"@,
        Color::White => "37"@,
        Color::BrightBlack => "90"@,
        Color::BrightRed => "91"@,
        Color::BrightGreen => "92"@,
        Color::BrightYellow => "93"@,
        Color::BrightBlue => "94"@,
        Color::BrightMagenta => "95"@,
        Color::BrightCyan => "96"@,
        Color::BrightWhite => "97"@,
    }
}

/// The ANSI code that sets a background color.
pub open spec fn color_bg_code(c: Color) -> Seq<char> {
    match c {
        Color::Default => "49"@,
        Color::Black => "40"@,
        Color::Red => "41"@,
        Color::Green => "42"@,
        Color::Yellow => "43"@,
        Color::Blue => "44"@,
        Color::Magenta => "45"@,
        Color::Cyan => "46"@,
        Color::White => "47"@,
        Color::BrightBlack => "100"@,
        Color::BrightRed => "101"@,
        Color::BrightGreen => "102"@,
        Color::BrightYellow => "103"@,
        Color::BrightBlue => "104"@,
        Color::BrightMagenta => "105"@,
        Color::BrightCyan => "106"@,
        Color::BrightWhite => "107"@,
    }
}

impl Default for Color {
    fn default() -> (r: Self)
        ensures
            r == Color::Default,
    {
        Color::Default
    }
}

impl Color {
    fn fg(self) -> (r: &'static str)
        ensures
            r@ == color_fg_code(self),
    {
        match self {
            Color::Default => "39",
            Color::Black => "30",
            Color::Red => "31",
            Color::Green => "32",
            Color::Yellow => "33",
            Color::Blue => "34",
            Color::Magenta => "35",
            Color::Cyan => "36",
            Color::White => "37",
            Color::BrightBlack => "90",
            Color::BrightRed => "91",
            Color::BrightGreen => "92",
            Color::BrightYellow => "93",
            Color::BrightBlue => "94",
            Color::BrightMagenta => "95",
            Color::BrightCyan => "96",
            Color::BrightWhite => "97",
        }
    }

    fn bg(self) -> (r: &'static str)
        ensures
            r@ == color_bg_code(self),
    {
        match self {
            Color::Default => "49",
            Color::Black => "40",
            Color::Red => "41",
            Color::Green => "42",
            Color::Yellow => "43",
            Color::Blue => "44",
            Color::Magenta => "45",
            Color::Cyan => "46",
            Color::White => "47",
            Color::BrightBlack => "100",
            Color::BrightRed => "101",
            Color::BrightGreen => "102",
            Color::BrightYellow => "103",
            Color::BrightBlue => "104",
            Color::BrightMagenta => "105",
            Color::BrightCyan => "106",
            Color::BrightWhite => "107",
        }
    }
}

/// Effect setting for text.
#[derive(Debug, Clone, Copy, PartialEq, Eq, Structural)]
#[non_exhaustive]
pub enum Effect {
    Bold,
    Dimmed,
    Italic,
    Underline,
    Blink,
    BlinkFast,
    Reversed,
    Hidden,
    Strikethrough,
}

/// The ANSI number of an effect, which is also its bit in [`Effects`].
pub open spec fn effect_code(e: Effect) -> u16 {
    match e {
        Effect::Bold => 1,
        Effect::Dimmed => 2,
        Effect::Italic => 3,
        Effect::Underline => 4,
        Effect::Blink => 5,
        Effect::BlinkFast => 6,
        Effect::Reversed => 7,
        Effect::Hidden => 8,
        Effect::Strikethrough => 9,
    }
}

/// The effects in the order in which their codes are written.
pub open spec fn effect_at(k: int) -> Effect {
    if k == 0 {
        Effect::Bold
    } else if k == 1 {
        Effect::Dimmed
    } else if k == 2 {
        Effect::Italic
    } else if k == 3 {
        Effect::Underline
    } else if k == 4 {
        Effect::Blink
    } else if k == 5 {
        Effect::BlinkFast
    } else if k == 6 {
        Effect::Reversed
    } else if k == 7 {
        Effect::Hidden
    } else {
        Effect::Strikethrough
    }
}

/// The ANSI code of an effect, in decimal.
pub open spec fn effect_ansi(e: Effect) -> Seq<char> {
    match e {
        Effect::Bold => "1"@,
        Effect::Dimmed => "2"@,
        Effect::Italic => "3"@,
        Effect::Underline => "4"@,
        Effect::Blink => "5"@,
        Effect::BlinkFast => "6"@,
        Effect::Reversed => "7"@,
        Effect::Hidden => "8"@,
        Effect::Strikethrough => "9"@,
    }
}

impl Effect {
    fn code(self) -> (r: u16)
        ensures
            r == effect_code(self),
            1 <= r <= 9,
    {
        match self {
            Effect::Bold => 1,
            Effect::Dimmed => 2,
            Effect::Italic => 3,
            Effect::Underline => 4,
            Effect::Blink => 5,
            Effect::BlinkFast => 6,
            Effect::Reversed => 7,
            Effect::Hidden => 8,
            Effect::Strikethrough => 9,
        }
    }

    fn ansi(self) -> (r: &'static str)
        ensures
            r@ == effect_ansi(self),
    {
        match self {
            Effect::Bold => "1",
            Effect::Dimmed => "2",
            Effect::Italic => "3",
            Effect::Underline => "4",
            Effect::Blink => "5",
            Effect::BlinkFast => "6",
            Effect::Reversed => "7",
            Effect::Hidden => "8",
            Effect::Strikethrough => "9",
        }
    }

    fn at(k: usize) -> (r: Effect)
        requires
            k < 9,
        ensures
            r == effect_at(k as int),
    {
        match k {
            0 => Effect::Bold,
            1 => Effect::Dimmed,
            2 => Effect::Italic,
            3 => Effect::Underline,
            4 => Effect::Blink,
            5 => Effect::BlinkFast,
            6 => Effect::Reversed,
            7 => Effect::Hidden,
            _ => Effect::Strikethrough,
        }
    }
}

/// Foreground and background colors, each optional.
#[derive(Debug, Clone, Copy)]
pub struct Colors {
    pub fg: Option<Color>,
    pub bg: Option<Color>,
}

impl Colors {
    pub fn new() -> (r: Colors)
        ensures
            r.fg is None,
            r.bg is None,
    {
        Colors { fg: None, bg: None }
    }

    pub fn fg(self, color: Color) -> (r: Colors)
        ensures
            r.fg == Some(color),
            r.bg == self.bg,
    {
        Colors { fg: Some(color), bg: self.bg }
    }

    pub fn bg(self, color: Color) -> (r: Colors)
        ensures
            r.fg == self.fg,
            r.bg == Some(color),
    {
        Colors { fg: self.fg, bg: Some(color) }
    }
}

/// A set of effects, one bit per effect at the position of its ANSI number.
#[derive(Debug, Clone, Copy)]
pub struct Effects {
    pub bytes: u16,
}

pub open spec fn has_effect(e: Effects, x: Effect) -> bool {
    (e.bytes >> effect_code(x)) & 1 == 1
}

proof fn lemma_codes_distinct(x: Effect, y: Effect)
    ensures
        (effect_code(x) == effect_code(y)) == (x == y),
{
}

impl Effects {
    pub fn new() -> (r: Effects)
        ensures
            r.bytes == 0,
            forall|x: Effect| !has_effect(r, x),
    {
        let r = Effects { bytes: 0 };
        assert forall|x: Effect| !has_effect(r, x) by {
            let k = effect_code(x);
            assert((0u16 >> k) & 1 == 0) by (bit_vector);
        }
        r
    }

    pub fn set(self, effect: Effect) -> (r: Effects)
        ensures
            forall|x: Effect| has_effect(r, x) == (x == effect || has_effect(self, x)),
    {
        let c = effect.code();
        let r = Effects { bytes: self.bytes | (1u16 << c) };
        assert forall|x: Effect| has_effect(r, x) == (x == effect || has_effect(self, x)) by {
            let k = effect_code(x);
            let b = self.bytes;
            lemma_codes_distinct(x, effect);
            assert((((b | (1u16 << c)) >> k) & 1 == 1) == (k == c || (b >> k) & 1 == 1))
                by (bit_vector)
                requires
                    c < 16,
                    k < 16,
            ;
        }
        r
    }

    pub fn unset(self, effect: Effect) -> (r: Effects)
        ensures
            forall|x: Effect| has_effect(r, x) == (x != effect && has_effect(self, x)),
    {
        let c = effect.code();
        let r = Effects { bytes: self.bytes & !(1u16 << c) };
        assert forall|x: Effect| has_effect(r, x) == (x != effect && has_effect(self, x)) by {
            let k = effect_code(x);
            let b = self.bytes;
            lemma_codes_distinct(x, effect);
            assert((((b & !(1u16 << c)) >> k) & 1 == 1) == (k != c && (b >> k) & 1 == 1))
                by (bit_vector)
                requires
                    c < 16,
                    k < 16,
            ;
        }
        r
    }

    pub fn get(self, effect: Effect) -> (r: Option<Effect>)
        ensures
            r == (if has_effect(self, effect) {
                Some(effect)
            } else {
                None
            }),
    {
        let c = effect.code();
        if (self.bytes >> c) & 1 == 1 {
            Some(effect)
        } else {
            None
        }
    }
}

/// Appearance setting for text.
#[derive(Debug, Clone, Copy)]
pub struct Style {
    pub colors: Colors,
    pub effects: Effects,
}

/// The codes of the effects among the first `n`, in order.
pub open spec fn effect_codes(e: Effects, n: nat) -> Seq<Seq<char>>
    decreases n,
{
    if n == 0 {
        Seq::empty()
    } else {
        effect_codes(e, (n - 1) as nat) + if has_effect(e, effect_at(n - 1)) {
            seq![effect_ansi(effect_at(n - 1))]
        } else {
            Seq::empty()
        }
    }
}

/// The ANSI codes of a style: foreground, background, then effects.
pub open spec fn style_codes(s: Style) -> Seq<Seq<char>> {
    (if s.colors.fg is Some {
        seq![color_fg_code(s.colors.fg->0)]
    } else {
        Seq::empty()
    }) + (if s.colors.bg is Some {
        seq![color_bg_code(s.colors.bg->0)]
    } else {
        Seq::empty()
    }) + effect_codes(s.effects, 9)
}

/// The codes joined with `';'`.
pub open spec fn join_codes(c: Seq<Seq<char>>) -> Seq<char>
    decreases c.len(),
{
    if c.len() == 0 {
        Seq::empty()
    } else if c.len() == 1 {
        c[0]
    } else {
        join_codes(c.drop_last()) + ";"@ + c.last()
    }
}

/// Whether a style writes any code: a color, or one of the effects.
pub open spec fn has_meta(s: Style) -> bool {
    style_codes(s).len() > 0
}

proof fn lemma_no_effect_codes(e: Effects, n: nat)
    requires
        forall|x: Effect| !has_effect(e, x),
    ensures
        effect_codes(e, n).len() == 0,
    decreases n,
{
    if n > 0 {
        lemma_no_effect_codes(e, (n - 1) as nat);
        assert(!has_effect(e, effect_at(n - 1)));
    }
}

/// `text` as a style renders it: between the style's escape sequence and a
/// reset, or unchanged when the style is empty.
pub open spec fn styled(s: Style, text: Seq<char>) -> Seq<char> {
    if has_meta(s) {
        "\x1b["@ + join_codes(style_codes(s)) + "m"@ + text + "\x1b[0m"@
    } else {
        text
    }
}

impl Style {
    /// Creates new empty style.
    pub fn new() -> (r: Style)
        ensures
            r.colors.fg is None,
            r.colors.bg is None,
            r.effects.bytes == 0,
            !has_meta(r),
    {
        let r = Style { colors: Colors::new(), effects: Effects::new() };
        proof {
            lemma_no_effect_codes(r.effects, 9);
        }
        r
    }

    /// Sets foreground [`Color`].
    pub fn fg(self, color: Color) -> (r: Style)
        ensures
            r.colors.fg == Some(color),
            r.colors.bg == self.colors.bg,
            r.effects == self.effects,
    {
        Style { colors: self.colors.fg(color), effects: self.effects }
    }

    /// Sets background [`Color`].
    pub fn bg(self, color: Color) -> (r: Style)
        ensures
            r.colors.fg == self.colors.fg,
            r.colors.bg == Some(color),
            r.effects == self.effects,
    {
        Style { colors: self.colors.bg(color), effects: self.effects }
    }

    /// Adds [`Effect`].
    pub fn set(self, effect: Effect) -> (r: Style)
        ensures
            r.colors == self.colors,
            forall|x: Effect| has_effect(r.effects, x) == (x == effect || has_effect(self.effects, x)),
    {
        Style { colors: self.colors, effects: self.effects.set(effect) }
    }

    /// Removes [`Effect`].
    pub fn unset(self, effect: Effect) -> (r: Style)
        ensures
            r.colors == self.colors,
            forall|x: Effect| has_effect(r.effects, x) == (x != effect && has_effect(self.effects, x)),
    {
        Style { colors: self.colors, effects: self.effects.unset(effect) }
    }

    fn codes(self) -> (r: Vec<&'static str>)
        ensures
            r@.map_values(|s: &str| s@) == style_codes(self),
    {
        let mut r: Vec<&'static str> = Vec::new();
        if let Some(c) = self.colors.fg {
            r.push(c.fg());
        }
        if let Some(c) = self.colors.bg {
            r.push(c.bg());
        }
        let ghost colors = r@.map_values(|s: &str| s@);
        assert(colors =~= style_codes(self).take(colors.len() as int));
        let mut k: usize = 0;
        while k < 9
            invariant
                k <= 9,
                r@.map_values(|s: &str| s@) == colors + effect_codes(self.effects, k as nat),
                colors + effect_codes(self.effects, 9) == style_codes(self),
            decreases 9 - k,
        {
            let e = Effect::at(k);
            let ghost before = r@;
            assert(effect_codes(self.effects, (k + 1) as nat) == effect_codes(self.effects, k as nat)
                + if has_effect(self.effects, e) {
                seq![effect_ansi(e)]
            } else {
                Seq::<Seq<char>>::empty()
            });
            if self.effects.get(e).is_some() {
                r.push(e.ansi());
                assert(r@.map_values(|s: &str| s@) =~= before.map_values(|s: &str| s@).push(
                    effect_ansi(e),
                ));
            }
            assert(r@.map_values(|s: &str| s@) =~= colors + effect_codes(self.effects, (k + 1) as nat));
            k = k + 1;
        }
        r
    }

    /// `text` in this style.
    pub fn style(self, text: &str) -> (r: String)
        ensures
            r@ == styled(self, text@),
    {
        let codes = self.codes();
        if codes.len() == 0 {
            return String::from_str(text);
        }
        let ghost cs = codes@.map_values(|s: &str| s@);
        let mut out = String::from_str("\x1b[");
        let ghost start = out@;
        let mut i: usize = 0;
        while i < codes.len()
            invariant
                i <= codes@.len(),
                cs == codes@.map_values(|s: &str| s@),
                out@ == start + join_codes(cs.take(i as int)),
            decreases codes@.len() - i,
        {
            if i != 0 {
                out.append(";");
            }
            out.append(codes[i]);
            proof {
                let t = cs.take(i + 1);
                assert(t.drop_last() =~= cs.take(i as int));
                assert(t.last() == codes@[i as int]@);
                if i == 0 {
                    assert(cs.take(0) =~= Seq::<Seq<char>>::empty());
                }
            }
            i = i + 1;
            assert(out@ =~= start + join_codes(cs.take(i as int)));
        }
        assert(cs.take(codes@.len() as int) =~= cs);
        out.append("m");
        out.append(text);
        out.append("\x1b[0m");
        assert(out@ =~= styled(self, text@));
        out
    }
}

/// Setting for appearance of the messages that this library writes.
#[derive(Debug, Clone, Copy)]
pub struct Theme {
    /// Styles printed paths.
    pub file: Style,
    /// Styles the line number of a file.
    pub line: Style,
    /// Styles errors printed by the error report.
    pub error: Style,
    /// Styles code that is not part of your crate.
    pub dependency: Style,
    /// Styles code that's in your crate.
    pub package: Style,
    /// Styles the hash after dependency and crate code.
    pub hash: Style,
    /// Styles the header of a panic.
    pub header: Style,
    /// Styles the message of a panic.
    pub message: Style,
    /// Styles the "N frames hidden" message.
    pub hidden: Style,
}

impl Theme {
    /// Styles printed paths.
    pub fn file(self, style: Style) -> (r: Theme)
        ensures
            r.file == style,
            r.line == self.line,
            r.error == self.error,
            r.dependency == self.dependency,
            r.package == self.package,
            r.hash == self.hash,
            r.header == self.header,
            r.message == self.message,
            r.hidden == self.hidden,
    {
        Theme { file: style, ..self }
    }

    /// Styles the line number of a file.
    pub fn line(self, style: Style) -> (r: Theme)
        ensures
            r.line == style,
            r.file == self.file,
            r.error == self.error,
            r.dependency == self.dependency,
            r.package == self.package,
            r.hash == self.hash,
            r.header == self.header,
            r.message == self.message,
            r.hidden == self.hidden,
    {
        Theme { line: style, ..self }
    }

    /// Styles errors printed by the error report.
    pub fn error(self, style: Style) -> (r: Theme)
        ensures
            r.error == style,
            r.file == self.file,
            r.line == self.line,
            r.dependency == self.dependency,
            r.package == self.package,
            r.hash == self.hash,
            r.header == self.header,
            r.message == self.message,
            r.hidden == self.hidden,
    {
        Theme { error: style, ..self }
    }

    /// Styles code that is not part of your crate.
    pub fn dependency(self, style: Style) -> (r: Theme)
        ensures
            r.dependency == style,
            r.file == self.file,
            r.line == self.line,
            r.error == self.error,
            r.package == self.package,
            r.hash == self.hash,
            r.header == self.header,
            r.message == self.message,
            r.hidden == self.hidden,
    {
        Theme { dependency: style, ..self }
    }

    /// Styles code that's in your crate.
    pub fn package(self, style: Style) -> (r: Theme)
        ensures
            r.package == style,
            r.file == self.file,
            r.line == self.line,
            r.error == self.error,
            r.dependency == self.dependency,
            r.hash == self.hash,
            r.header == self.header,
            r.message == self.message,
            r.hidden == self.hidden,
    {
        Theme { package: style, ..self }
    }

    /// Styles the hash after dependency and crate code.
    pub fn hash(self, style: Style) -> (r: Theme)
        ensures
            r.hash == style,
            r.file == self.file,
            r.line == self.line,
            r.error == self.error,
            r.dependency == self.dependency,
            r.package == self.package,
            r.header == self.header,
            r.message == self.message,
            r.hidden == self.hidden,
    {
        Theme { hash: style, ..self }
    }

    /// Styles the header of a panic.
    pub fn header(self, style: Style) -> (r: Theme)
        ensures
            r.header == style,
            r.file == self.file,
            r.line == self.line,
            r.error == self.error,
            r.dependency == self.dependency,
            r.package == self.package,
            r.hash == self.hash,
            r.message == self.message,
            r.hidden == self.hidden,
    {
        Theme { header: style, ..self }
    }

    /// Styles the message of a panic.
    pub fn message(self, style: Style) -> (r: Theme)
        ensures
            r.message == style,
            r.file == self.file,
            r.line == self.line,
            r.error == self.error,
            r.dependency == self.dependency,
            r.package == self.package,
            r.hash == self.hash,
            r.header == self.header,
            r.hidden == self.hidden,
    {
        Theme { message: style, ..self }
    }

    /// Styles the "N frames hidden" message.
    pub fn hidden(self, style: Style) -> (r: Theme)
        ensures
            r.hidden == style,
            r.file == self.file,
            r.line == self.line,
            r.error == self.error,
            r.dependency == self.dependency,
            r.package == self.package,
            r.hash == self.hash,
            r.header == self.header,
            r.message == self.message,
    {
        Theme { hidden: style, ..self }
    }

    /// Creates a theme where every style is empty.
    pub fn blank() -> (r: Theme)
        ensures
            r == blank_theme(),
    {
        Theme {
            file: Style::new(),
            line: Style::new(),
            error: Style::new(),
            dependency: Style::new(),
            package: Style::new(),
            hash: Style::new(),
            header: Style::new(),
            message: Style::new(),
            hidden: Style::new(),
        }
    }

    /// Creates the default theme, the one for dark backgrounds.
    pub fn new() -> (r: Theme)
        ensures
            r == dark_theme(),
    {
        Theme::dark()
    }

    /// Returns a theme for dark backgrounds. This is the default.
    pub fn dark() -> (r: Theme)
        ensures
            r == dark_theme(),
    {
        Theme {
            file: Style::new().fg(Color::Magenta),
            line: Style::new().fg(Color::Magenta),
            error: Style::new().fg(Color::BrightRed),
            dependency: Style::new().fg(Color::Green),
            package: Style::new().fg(Color::BrightRed),
            hash: Style::new().fg(Color::BrightBlack),
            header: Style::new().fg(Color::Red),
            message: Style::new().fg(Color::Cyan),
            hidden: Style::new().fg(Color::BrightCyan),
        }
    }

    /// Returns a theme for light backgrounds.
    pub fn light() -> (r: Theme)
        ensures
            r == light_theme(),
    {
        Theme {
            file: Style::new().fg(Color::Magenta),
            line: Style::new().fg(Color::Magenta),
            error: Style::new().fg(Color::Red),
            dependency: Style::new().fg(Color::Green),
            package: Style::new().fg(Color::Red),
            hash: Style::new().fg(Color::BrightBlack),
            header: Style::new().fg(Color::Red),
            message: Style::new().fg(Color::Blue),
            hidden: Style::new().fg(Color::Blue),
        }
    }
}

/// A style that changes nothing.
pub open spec fn empty_style() -> Style {
    Style { colors: Colors { fg: None, bg: None }, effects: Effects { bytes: 0 } }
}

pub open spec fn blank_theme() -> Theme {
    Theme {
        file: empty_style(),
        line: empty_style(),
        error: empty_style(),
        dependency: empty_style(),
        package: empty_style(),
        hash: empty_style(),
        header: empty_style(),
        message: empty_style(),
        hidden: empty_style(),
    }
}

/// A style with only a foreground color.
pub open spec fn fg_only(c: Color) -> Style {
    Style { colors: Colors { fg: Some(c), bg: None }, effects: Effects { bytes: 0 } }
}

pub open spec fn dark_theme() -> Theme {
    Theme {
        file: fg_only(Color::Magenta),
        line: fg_only(Color::Magenta),
        error: fg_only(Color::BrightRed),
        dependency: fg_only(Color::Green),
        package: fg_only(Color::BrightRed),
        hash: fg_only(Color::BrightBlack),
        header: fg_only(Color::Red),
        message: fg_only(Color::Cyan),
        hidden: fg_only(Color::BrightCyan),
    }
}

pub open spec fn light_theme() -> Theme {
    Theme {
        file: fg_only(Color::Magenta),
        line: fg_only(Color::Magenta),
        error: fg_only(Color::Red),
        dependency: fg_only(Color::Green),
        package: fg_only(Color::Red),
        hash: fg_only(Color::BrightBlack),
        header: fg_only(Color::Red),
        message: fg_only(Color::Blue),
        hidden: fg_only(Color::Blue),
    }
}

} // verus!
