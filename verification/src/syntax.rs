//! Syntax highlighting of code lines with `syntect`: the language table, the fallbacks
//! to plain text, the translation of `syntect` styles, and the slicing of styled spans to
//! the chunks of a wrapped line.

use vstd::prelude::*;

use crate::chars::{lowercase, push_char, push_chars, str_chars, string_of, to_lowercase, trim, trimmed_string};

verus! {

broadcast use vstd::string::group_string_axioms;

#[verifier::external_type_specification]
#[verifier::external_body]
pub struct ExSyntaxSet(syntect::parsing::SyntaxSet);

#[verifier::external_type_specification]
#[verifier::external_body]
pub struct ExThemeSet(syntect::highlighting::ThemeSet);

/// A colour by its red, green and blue components.
#[derive(Debug, Clone, Copy, PartialEq, Eq, Structural)]
pub struct Rgb {
    pub r: u8,
    pub g: u8,
    pub b: u8,
}

/// The colour of highlighted code text.
#[derive(Debug, Clone, Copy, PartialEq, Eq, Structural)]
pub enum CodeColour {
    Rgb(u8, u8, u8),
    /// The secondary accent colour (code without a colour of its own).
    Secondary,
}

/// The style of a run of highlighted code.
#[derive(Debug, Clone, Copy, PartialEq, Eq, Structural)]
pub struct CodeStyle {
    pub fg: CodeColour,
    pub bg: Option<Rgb>,
    pub bold: bool,
    pub italic: bool,
    pub underlined: bool,
}

/// The style of code shown without highlighting.
pub open spec fn plain_code_style() -> CodeStyle {
    CodeStyle { fg: CodeColour::Secondary, bg: None, bold: false, italic: false, underlined: false }
}

/// A run of code text with its style.
pub struct CodeSpan {
    pub content: String,
    pub style: CodeStyle,
}

impl View for CodeSpan {
    type V = (Seq<char>, CodeStyle);

    open spec fn view(&self) -> (Seq<char>, CodeStyle) {
        (self.content@, self.style)
    }
}

/// The views of a list of code spans.
pub open spec fn code_spans_view(v: Seq<CodeSpan>) -> Seq<(Seq<char>, CodeStyle)> {
    v.map_values(|s: CodeSpan| s@)
}

/// A region of a highlighted line as `syntect` returns it: foreground and background
/// colours (red, green, blue, alpha), the font style's bits, and the text.
pub struct RawSegment {
    pub foreground: (u8, u8, u8, u8),
    pub background: (u8, u8, u8, u8),
    pub font_bits: u8,
    pub text: String,
}

/// A `syntect` colour: transparent (alpha 0) means none.
pub open spec fn colour_of(c: (u8, u8, u8, u8)) -> Option<Rgb> {
    if c.3 > 0 {
        Some(Rgb { r: c.0, g: c.1, b: c.2 })
    } else {
        None
    }
}

/// Convert syntect Color to a colour. Alpha 0 => None (colourless).
pub fn translate_colour(c: (u8, u8, u8, u8)) -> (r: Option<Rgb>)
    ensures
        r == colour_of(c),
{
    let (red, green, blue, alpha) = c;
    if alpha > 0 {
        Some(Rgb { r: red, g: green, b: blue })
    } else {
        None
    }
}

/// The modifiers of a `syntect` font style: bold (bit 1), underline (bit 2), italic
/// (bit 4).
pub open spec fn font_flags(bits: u8) -> (bool, bool, bool) {
    (bits % 2 == 1, (bits / 4) % 2 == 1, (bits / 2) % 2 == 1)
}

/// Convert a syntect FontStyle (its bits) to (bold, italic, underlined).
pub fn translate_font_style(bits: u8) -> (r: (bool, bool, bool))
    ensures
        r == font_flags(bits),
{
    if bits == 0 {
        return (false, false, false);
    }
    (bits % 2 == 1, (bits / 4) % 2 == 1, (bits / 2) % 2 == 1)
}

/// The style of a highlighted region: its foreground (the secondary accent when
/// transparent), its background when not transparent, and its font modifiers.
pub open spec fn style_of(fg: (u8, u8, u8, u8), bg: (u8, u8, u8, u8), bits: u8) -> CodeStyle {
    let (bold, italic, underlined) = font_flags(bits);
    CodeStyle {
        fg: match colour_of(fg) {
            Some(c) => CodeColour::Rgb(c.r, c.g, c.b),
            None => CodeColour::Secondary,
        },
        bg: colour_of(bg),
        bold,
        italic,
        underlined,
    }
}

/// Convert a syntect Style to a code style.
pub fn translate_style(fg: (u8, u8, u8, u8), bg: (u8, u8, u8, u8), bits: u8) -> (r: CodeStyle)
    ensures
        r == style_of(fg, bg, bits),
{
    let (bold, italic, underlined) = translate_font_style(bits);
    let fg = match translate_colour(fg) {
        Some(c) => CodeColour::Rgb(c.r, c.g, c.b),
        None => CodeColour::Secondary,
    };
    CodeStyle { fg, bg: translate_colour(bg), bold, italic, underlined }
}

/// The extension `syntect` knows a fenced-code language by (after trimming and
/// lowercasing the label), or `plain` for languages that are not highlighted.
pub open spec fn extension_of(lang: Seq<char>) -> Seq<char> {
    if lang == "rs"@ || lang == "rust"@ {
        "rs"@
    } else if lang == "py"@ || lang == "python"@ {
        "py"@
    } else if lang == "js"@ || lang == "javascript"@ {
        "js"@
    } else if lang == "ts"@ || lang == "typescript"@ {
        "ts"@
    } else if lang == "go"@ || lang == "golang"@ {
        "go"@
    } else if lang == "rb"@ || lang == "ruby"@ {
        "rb"@
    } else if lang == "sh"@ || lang == "bash"@ || lang == "zsh"@ {
        "sh"@
    } else if lang == "sql"@ {
        "sql"@
    } else if lang == "json"@ {
        "json"@
    } else if lang == "yaml"@ || lang == "yml"@ {
        "yml"@
    } else if lang == "toml"@ {
        "toml"@
    } else if lang == "md"@ || lang == "markdown"@ {
        "md"@
    } else if lang == "html"@ {
        "html"@
    } else if lang == "css"@ {
        "css"@
    } else if lang == "c"@ || lang == "h"@ {
        "c"@
    } else if lang == "cpp"@ || lang == "cc"@ || lang == "cxx"@ || lang == "hpp"@ {
        "cpp"@
    } else {
        "plain"@
    }
}

/// Map language identifier from markdown (e.g. "rust", "python") to syntect extension.
pub fn lang_to_extension(lang: &str) -> (r: &'static str)
    ensures
        r@ == extension_of(lowercase(trim(lang@))),
{
    let t = trimmed_string(lang);
    let l = to_lowercase(&t);
    let s: &str = &l;
    let eq = |w: &str| -> (b: bool)
        ensures
            b == (s@ == w@),
        { crate::chars::same_text(s, w) };
    if eq("rs") || eq("rust") {
        "rs"
    } else if eq("py") || eq("python") {
        "py"
    } else if eq("js") || eq("javascript") {
        "js"
    } else if eq("ts") || eq("typescript") {
        "ts"
    } else if eq("go") || eq("golang") {
        "go"
    } else if eq("rb") || eq("ruby") {
        "rb"
    } else if eq("sh") || eq("bash") || eq("zsh") {
        "sh"
    } else if eq("sql") {
        "sql"
    } else if eq("json") {
        "json"
    } else if eq("yaml") || eq("yml") {
        "yml"
    } else if eq("toml") {
        "toml"
    } else if eq("md") || eq("markdown") {
        "md"
    } else if eq("html") {
        "html"
    } else if eq("css") {
        "css"
    } else if eq("c") || eq("h") {
        "c"
    } else if eq("cpp") || eq("cc") || eq("cxx") || eq("hpp") {
        "cpp"
    } else {
        "plain"
    }
}

/// `syntect`'s bundled syntaxes and themes, and nothing else: a value of this type is only
/// made by `load`.
pub struct DefaultSets {
    syntaxes: syntect::parsing::SyntaxSet,
    themes: syntect::highlighting::ThemeSet,
}

/// `SyntaxSet::load_defaults_newlines`: the syntaxes bundled with `syntect`.
#[verifier::external_body]
fn default_syntaxes() -> syntect::parsing::SyntaxSet {
    syntect::parsing::SyntaxSet::load_defaults_newlines()
}

/// `ThemeSet::load_defaults`: the themes bundled with `syntect`.
#[verifier::external_body]
fn default_themes() -> syntect::highlighting::ThemeSet {
    syntect::highlighting::ThemeSet::load_defaults()
}

impl DefaultSets {
    /// Load `syntect`'s bundled syntaxes (with line endings) and themes.
    pub fn load() -> (r: DefaultSets) {
        DefaultSets { syntaxes: default_syntaxes(), themes: default_themes() }
    }
}

/// A highlighted region as plain values: foreground and background colours (red, green,
/// blue, alpha), the font style's bits, and the text.
impl View for RawSegment {
    type V = ((u8, u8, u8, u8), (u8, u8, u8, u8), u8, Seq<char>);

    open spec fn view(&self) -> ((u8, u8, u8, u8), (u8, u8, u8, u8), u8, Seq<char>) {
        (self.foreground, self.background, self.font_bits, self.text@)
    }
}

/// The views of a list of regions.
pub open spec fn regions_view(v: Seq<RawSegment>) -> Seq<((u8, u8, u8, u8), (u8, u8, u8, u8), u8, Seq<char>)> {
    v.map_values(|g: RawSegment| g@)
}

/// What `syntect` gives, with its bundled syntaxes and themes, for `line` highlighted by
/// a fresh `HighlightLines` with the syntax of extension `ext` and the theme named
/// `theme`: the regions, or none when there is no such syntax or theme or when
/// highlighting fails.
pub uninterp spec fn default_highlight(ext: Seq<char>, theme: Seq<char>, line: Seq<char>) -> Option<
    Seq<((u8, u8, u8, u8), (u8, u8, u8, u8), u8, Seq<char>)>,
>;

/// The text of regions, one after the other.
pub open spec fn regions_text(regions: Seq<((u8, u8, u8, u8), (u8, u8, u8, u8), u8, Seq<char>)>) -> Seq<
    char,
>
    decreases regions.len(),
{
    if regions.len() == 0 {
        Seq::empty()
    } else {
        regions_text(regions.drop_last()) + regions.last().3
    }
}

/// `SyntaxSet::find_syntax_by_extension`, `ThemeSet::themes.get`, `HighlightLines::new`
/// and `HighlightLines::highlight_line` on the bundled sets. The regions are named by
/// `default_highlight`: the sets are always the bundled ones and the highlighter is
/// fresh, so they depend on the extension, the theme name and the line alone. Also
/// stated: the regions' texts, one after the other, make the line (as `syntect` documents
/// for its highlight iterator).
#[verifier::external_body]
fn highlight_with_defaults(sets: &DefaultSets, ext: &str, theme: &str, line: &str) -> (r: Option<Vec<RawSegment>>)
    ensures
        match r {
            Some(rs) => default_highlight(ext@, theme@, line@) == Some(regions_view(rs@)),
            None => default_highlight(ext@, theme@, line@) is None,
        },
        r matches Some(rs) ==> regions_text(regions_view(rs@)) == line@,
{
    let syntax = sets.syntaxes.find_syntax_by_extension(ext)?;
    let mut h = syntect::easy::HighlightLines::new(syntax, sets.themes.themes.get(theme)?);
    let regions = h.highlight_line(line, &sets.syntaxes).ok()?;
    Some(regions.into_iter().map(|(s, text)| RawSegment {
        foreground: (s.foreground.r, s.foreground.g, s.foreground.b, s.foreground.a),
        background: (s.background.r, s.background.g, s.background.b, s.background.a),
        font_bits: s.font_style.bits(),
        text: text.to_string(),
    }).collect())
}

/// The spans of highlighted regions: each non-empty region with its translated style.
pub open spec fn spans_of_regions(regions: Seq<((u8, u8, u8, u8), (u8, u8, u8, u8), u8, Seq<char>)>) -> Seq<
    (Seq<char>, CodeStyle),
>
    decreases regions.len(),
{
    if regions.len() == 0 {
        Seq::empty()
    } else {
        let sub = spans_of_regions(regions.drop_last());
        let g = regions.last();
        if g.3.len() == 0 {
            sub
        } else {
            sub.push((g.3, style_of(g.0, g.1, g.2)))
        }
    }
}

/// The text of spans, one after the other.
pub open spec fn code_text(spans: Seq<(Seq<char>, CodeStyle)>) -> Seq<char>
    decreases spans.len(),
{
    if spans.len() == 0 {
        Seq::empty()
    } else {
        code_text(spans.drop_last()) + spans.last().0
    }
}

/// Dropping empty regions keeps the text.
pub proof fn lemma_spans_keep_text(regions: Seq<((u8, u8, u8, u8), (u8, u8, u8, u8), u8, Seq<char>)>)
    ensures
        code_text(spans_of_regions(regions)) == regions_text(regions),
    decreases regions.len(),
{
    if regions.len() > 0 {
        lemma_spans_keep_text(regions.drop_last());
        let g = regions.last();
        let sub = spans_of_regions(regions.drop_last());
        if g.3.len() == 0 {
            assert(regions_text(regions) =~= regions_text(regions.drop_last()));
        } else {
            assert(sub.push((g.3, style_of(g.0, g.1, g.2))).drop_last() == sub);
        }
    }
}

/// A line as `syntect` is given it: with a line ending added where it has none.
pub open spec fn with_newline(line: Seq<char>) -> Seq<char> {
    if line.len() > 0 && line.last() == '\n' {
        line
    } else {
        line.push('\n')
    }
}

/// Turn highlighted regions into styled spans, dropping empty ones.
pub fn spans_from_regions(regions: Vec<RawSegment>) -> (r: Vec<CodeSpan>)
    ensures
        code_spans_view(r@) == spans_of_regions(regions_view(regions@)),
{
    let ghost rv = regions_view(regions@);
    let mut r: Vec<CodeSpan> = Vec::new();
    let mut i: usize = 0;
    while i < regions.len()
        invariant
            i <= regions@.len(),
            rv == regions_view(regions@),
            code_spans_view(r@) == spans_of_regions(rv.take(i as int)),
        decreases regions@.len() - i,
    {
        let g = &regions[i];
        assert(rv.take(i + 1).drop_last() == rv.take(i as int));
        assert(rv.take(i + 1).last() == rv[i as int]);
        assert(rv[i as int] == g@);
        if str_chars(&g.text).len() > 0 {
            let style = translate_style(g.foreground, g.background, g.font_bits);
            r.push(CodeSpan { content: g.text.clone(), style });
            assert(code_spans_view(r@) =~= spans_of_regions(rv.take(i as int)).push(
                (g.text@, style_of(g.foreground, g.background, g.font_bits)),
            ));
        }
        i = i + 1;
    }
    assert(rv.take(rv.len() as int) == rv);
    r
}

/// The line as one span in the plain code style.
pub open spec fn plain_line(line: Seq<char>) -> Seq<(Seq<char>, CodeStyle)> {
    seq![(line, plain_code_style())]
}

fn plain_spans(line: &str) -> (r: Vec<CodeSpan>)
    ensures
        code_spans_view(r@) == plain_line(line@),
{
    let r = vec![
        CodeSpan {
            content: line.to_string(),
            style: CodeStyle {
                fg: CodeColour::Secondary,
                bg: None,
                bold: false,
                italic: false,
                underlined: false,
            },
        },
    ];
    assert(code_spans_view(r@) =~= plain_line(line@));
    r
}

/// The theme code is highlighted with.
pub open spec fn code_theme() -> Seq<char> {
    "base16-ocean.dark"@
}

/// The spans of a code line in language `lang`: one plain span for an empty or unknown
/// language, or when `syntect` has no syntax for it or cannot highlight the line;
/// otherwise the highlighted regions of the line (with a line ending added) as spans.
pub open spec fn highlighted_line(lang: Seq<char>, line: Seq<char>) -> Seq<(Seq<char>, CodeStyle)> {
    let ext = extension_of(lowercase(trim(lang)));
    if trim(lang).len() == 0 || ext == "plain"@ {
        plain_line(line)
    } else {
        match default_highlight(ext, code_theme(), with_newline(line)) {
            Some(rs) => spans_of_regions(rs),
            None => plain_line(line),
        }
    }
}

/// Highlight a single line of code. Returns styled spans, or a plain span on error/unknown
/// lang. The spans' text is the line (with the line ending added when highlighted), and
/// highlighted spans are never empty.
pub fn highlight_code_line(sets: &DefaultSets, lang: &str, line: &str) -> (r: Vec<CodeSpan>)
    ensures
        code_spans_view(r@) == highlighted_line(lang@, line@),
        code_spans_view(r@) == plain_line(line@) || forall|i: int|
            0 <= i < r@.len() ==> (#[trigger] r@[i]).content@.len() > 0,
        code_text(code_spans_view(r@)) == line@ || code_text(code_spans_view(r@)) == with_newline(line@),
{
    proof {
        lemma_plain_text(line@);
    }
    let ext = lang_to_extension(lang);
    if str_chars(&trimmed_string(lang)).len() == 0 || crate::chars::same_text(ext, "plain") {
        proof {
            reveal_strlit("plain");
        }
        return plain_spans(line);
    }
    let v = str_chars(line);
    let mut text = string_of(&v, 0, v.len());
    assert(v@.subrange(0, v@.len() as int) == v@);
    if !(v.len() > 0 && v[v.len() - 1] == '\n') {
        push_char(&mut text, '\n');
    }
    assert(text@ == with_newline(line@));
    let theme = "base16-ocean.dark";
    proof {
        reveal_strlit("base16-ocean.dark");
        reveal_strlit("plain");
    }
    match highlight_with_defaults(sets, ext, theme, &text) {
        Some(regions) => {
            let ghost rs = regions_view(regions@);
            let r = spans_from_regions(regions);
            proof {
                lemma_regions_nonempty(rs);
                lemma_spans_keep_text(rs);
                assert forall|i: int| 0 <= i < r@.len() implies (#[trigger] r@[i]).content@.len() > 0 by {
                    assert(code_spans_view(r@)[i] == r@[i]@);
                }
            }
            r
        },
        None => plain_spans(line),
    }
}

/// The plain span of a line holds the line.
pub proof fn lemma_plain_text(line: Seq<char>)
    ensures
        code_text(plain_line(line)) == line,
{
    let e = Seq::<(Seq<char>, CodeStyle)>::empty();
    assert(plain_line(line).drop_last() =~= e);
    assert(code_text(e) == Seq::<char>::empty());
    assert(plain_line(line).last().0 == line);
    assert(Seq::<char>::empty() + line =~= line);
}

/// The spans of regions have text.
pub proof fn lemma_regions_nonempty(regions: Seq<((u8, u8, u8, u8), (u8, u8, u8, u8), u8, Seq<char>)>)
    ensures
        forall|i: int|
            0 <= i < spans_of_regions(regions).len() ==> (#[trigger] spans_of_regions(regions)[i]).0.len()
                > 0,
    decreases regions.len(),
{
    if regions.len() > 0 {
        lemma_regions_nonempty(regions.drop_last());
        let sub = spans_of_regions(regions.drop_last());
        assert forall|i: int|
            0 <= i < spans_of_regions(regions).len() implies (#[trigger] spans_of_regions(
            regions,
        )[i]).0.len() > 0 by {
            if i < sub.len() {
                assert(spans_of_regions(regions)[i] == sub[i]);
            }
        }
    }
}

/// The parts of `spans` that fall in the character range `start..end`, from character
/// position `pos` on (the first span starts at `pos`).
pub open spec fn sliced(spans: Seq<(Seq<char>, CodeStyle)>, start: int, end: int, pos: int) -> Seq<
    (Seq<char>, CodeStyle),
>
    decreases spans.len(),
{
    if spans.len() == 0 {
        Seq::empty()
    } else {
        let (s, style) = spans[0];
        let len = s.len() as int;
        let span_end = pos + len;
        let rest = sliced(spans.drop_first(), start, end, span_end);
        if span_end <= start || pos >= end {
            rest
        } else {
            let a = if start > pos { start - pos } else { 0 };
            let b = if end - pos < len { end - pos } else { len };
            if a < b {
                seq![(s.subrange(a, b), style)] + rest
            } else {
                rest
            }
        }
    }
}

/// Slice spans to cover only the character range [range_start, range_end).
/// Used when wrapping code lines: each wrap chunk gets the spans for its character slice.
pub fn slice_spans_by_range(spans: &[CodeSpan], range_start: usize, range_end: usize) -> (r: Vec<CodeSpan>)
    ensures
        code_spans_view(r@) == sliced(code_spans_view(spans@), range_start as int, range_end as int, 0),
{
    let ghost all = code_spans_view(spans@);
    let mut result: Vec<CodeSpan> = Vec::new();
    let mut pos: u128 = 0;
    let mut i: usize = 0;
    let n = spans.len();
    assert(all.skip(0) == all);
    while i < spans.len()
        invariant
            i <= spans@.len(),
            all == code_spans_view(spans@),
            pos as int <= i as int * 0x1_0000_0000_0000_0000,
            n == spans@.len(),
            sliced(all, range_start as int, range_end as int, 0) == code_spans_view(result@) + sliced(
                all.skip(i as int),
                range_start as int,
                range_end as int,
                pos as int,
            ),
        decreases spans@.len() - i,
    {
        let span = &spans[i];
        let v = str_chars(&span.content);
        let len = v.len();
        let span_end: u128 = pos + len as u128;
        let ghost t = all.skip(i as int);
        assert(t[0] == span@);
        assert(t.drop_first() == all.skip(i + 1));
        if span_end <= range_start as u128 || pos >= range_end as u128 {
            pos = span_end;
            i = i + 1;
            continue;
        }
        let take_start: usize = if range_start as u128 > pos {
            (range_start as u128 - pos) as usize
        } else {
            0
        };
        let take_end: usize = if (range_end as u128 - pos) < len as u128 {
            (range_end as u128 - pos) as usize
        } else {
            len
        };
        if take_start < take_end {
            let piece = string_of(&v, take_start, take_end);
            let ghost before = code_spans_view(result@);
            result.push(CodeSpan { content: piece, style: span.style });
            assert(code_spans_view(result@) =~= before.push((v@.subrange(take_start as int, take_end as int), span.style)));
        }
        pos = span_end;
        i = i + 1;
    }
    assert(all.skip(i as int).len() == 0);
    result
}

} // verus!
