//! The terminal screens: colours as ANSI codes, the workspace trust prompt and its key
//! handling, and the welcome screen, all as text for the terminal to print.
use vstd::prelude::*;
use crate::text::{chars_of, decimal, owned, push_char, push_decimal, push_str};

verus! {

/// A terminal colour: a 24-bit colour, bright white, or the default grey.
#[derive(Debug, Clone, Copy, PartialEq, Eq)]
pub enum TermColor {
    Rgb(u8, u8, u8),
    White,
    Grey,
}

/// The ANSI foreground code of a colour.
pub open spec fn color_code(c: TermColor) -> Seq<char> {
    match c {
        TermColor::Rgb(r, g, b) => "38;2;"@ + decimal(r as nat) + ";"@ + decimal(g as nat) + ";"@ + decimal(b as nat),
        TermColor::White => "97"@,
        TermColor::Grey => "37"@,
    }
}

/// The ANSI foreground code of a colour.
pub fn rgb(c: TermColor) -> (r: String)
    ensures
        r@ == color_code(c),
{
    match c {
        TermColor::Rgb(r, g, b) => {
            let mut s = owned("38;2;");
            push_decimal(&mut s, r as u64);
            push_char(&mut s, ';');
            push_decimal(&mut s, g as u64);
            push_char(&mut s, ';');
            push_decimal(&mut s, b as u64);
            proof {
                reveal_strlit(";");
                assert(s@ =~= color_code(c));
            }
            s
        },
        TermColor::White => owned("97"),
        TermColor::Grey => owned("37"),
    }
}

/// Dark body purple.
pub open spec fn purple_deep() -> TermColor { TermColor::Rgb(75, 55, 175) }
/// Main body purple.
pub open spec fn purple_mid() -> TermColor { TermColor::Rgb(108, 87, 210) }
/// Wing-tip purple.
pub open spec fn purple_lite() -> TermColor { TermColor::Rgb(160, 148, 230) }
/// Wing gold.
pub open spec fn gold() -> TermColor { TermColor::Rgb(245, 180, 45) }
/// Bright wing gold.
pub open spec fn gold_lite() -> TermColor { TermColor::Rgb(252, 210, 80) }
/// Border purple.
pub open spec fn border_pur() -> TermColor { TermColor::Rgb(124, 58, 237) }
/// Interface gold.
pub open spec fn gold_ui() -> TermColor { TermColor::Rgb(245, 158, 11) }
/// Bright interface gold.
pub open spec fn gold_bright() -> TermColor { TermColor::Rgb(252, 211, 77) }
/// Teal.
pub open spec fn teal() -> TermColor { TermColor::Rgb(20, 184, 166) }
/// Near white.
pub open spec fn white() -> TermColor { TermColor::Rgb(240, 240, 250) }
/// Dim grey.
pub open spec fn dim() -> TermColor { TermColor::Rgb(148, 148, 163) }

/// The palette, for code.
pub fn palette_border() -> (r: TermColor) ensures r == border_pur() { TermColor::Rgb(124, 58, 237) }
/// The palette, for code.
pub fn palette_gold_ui() -> (r: TermColor) ensures r == gold_ui() { TermColor::Rgb(245, 158, 11) }
/// The palette, for code.
pub fn palette_gold_bright() -> (r: TermColor) ensures r == gold_bright() { TermColor::Rgb(252, 211, 77) }
/// The palette, for code.
pub fn palette_teal() -> (r: TermColor) ensures r == teal() { TermColor::Rgb(20, 184, 166) }
/// The palette, for code.
pub fn palette_white() -> (r: TermColor) ensures r == white() { TermColor::Rgb(240, 240, 250) }
/// The palette, for code.
pub fn palette_dim() -> (r: TermColor) ensures r == dim() { TermColor::Rgb(148, 148, 163) }

/// `text` in the colour with the code `code`, then the reset code.
pub open spec fn ansi_spec(code: Seq<char>, text: Seq<char>) -> Seq<char> {
    "\x1b["@ + code + "m"@ + text + "\x1b[0m"@
}

/// Colours a text with an ANSI code (what is written to the terminal).
pub fn ansi_write(code: &str, text: &str) -> (r: String)
    ensures
        r@ == ansi_spec(code@, text@),
{
    let mut s = owned("\x1b[");
    push_str(&mut s, code);
    push_char(&mut s, 'm');
    push_str(&mut s, text);
    push_str(&mut s, "\x1b[0m");
    proof {
        reveal_strlit("m");
        assert(s@ =~= ansi_spec(code@, text@));
    }
    s
}

/// `n` spaces.
pub open spec fn spaces(n: nat) -> Seq<char> {
    Seq::new(n, |i: int| ' ')
}

/// `s` padded on the right with spaces to at least `width` characters (as `{:<width$}`).
pub open spec fn pad_spec(s: Seq<char>, width: nat) -> Seq<char> {
    if s.len() < width {
        s + spaces((width - s.len()) as nat)
    } else {
        s
    }
}

/// `s` repeated `n` times.
pub open spec fn repeat_spec(s: Seq<char>, n: nat) -> Seq<char>
    decreases n,
{
    if n == 0 {
        seq![]
    } else {
        repeat_spec(s, (n - 1) as nat) + s
    }
}

fn push_spaces(out: &mut String, n: usize)
    ensures
        final(out)@ == old(out)@ + spaces(n as nat),
{
    let mut i: usize = 0;
    while i < n
        invariant
            i <= n,
            out@ == old(out)@ + spaces(i as nat),
        decreases n - i,
    {
        push_char(out, ' ');
        assert(out@ =~= old(out)@ + spaces((i + 1) as nat));
        i = i + 1;
    }
}

/// Pads `s` on the right with spaces to at least `width` characters.
pub fn pad_right(s: &str, width: usize) -> (r: String)
    ensures
        r@ == pad_spec(s@, width as nat),
{
    let n = chars_of(s).len();
    let mut r = owned(s);
    if n < width {
        push_spaces(&mut r, width - n);
    }
    r
}

/// Repeats `s` `n` times (as `str::repeat`).
pub fn repeat_str(s: &str, n: usize) -> (r: String)
    ensures
        r@ == repeat_spec(s@, n as nat),
{
    let mut r = String::new();
    let mut i: usize = 0;
    while i < n
        invariant
            i <= n,
            r@ == repeat_spec(s@, i as nat),
        decreases n - i,
    {
        push_str(&mut r, s);
        i = i + 1;
    }
    r
}

/// The bold code when `bold`, else nothing.
pub open spec fn bold_spec(bold: bool) -> Seq<char> {
    if bold {
        "\x1b[1m"@
    } else {
        seq![]
    }
}

/// The opening of a coloured span.
pub open spec fn open_spec(c: TermColor) -> Seq<char> {
    "\x1b["@ + color_code(c) + "m"@
}

fn push_open(out: &mut String, c: TermColor)
    ensures
        final(out)@ == old(out)@ + open_spec(c),
{
    push_str(out, "\x1b[");
    let code = rgb(c);
    push_str(out, code.as_str());
    push_char(out, 'm');
    proof {
        reveal_strlit("m");
        assert(out@ =~= old(out)@ + open_spec(c));
    }
}

/// A border character in the border colour.
pub open spec fn border_char(ch: Seq<char>) -> Seq<char> {
    open_spec(border_pur()) + ch + "\x1b[0m"@
}

/// One row of a box `w` wide: borders, then the text padded to the inside width, in its
/// colour, bold if asked.
pub open spec fn box_row_spec(w: nat, text: Seq<char>, color: TermColor, bold: bool) -> Seq<char> {
    border_char("\u{2551}"@) + bold_spec(bold) + open_spec(color) + pad_spec(text, (w - 2) as nat) + "\x1b[0m"@
        + border_char("\u{2551}"@) + "\n"@
}

/// One row of a box `w` wide (at least 2).
pub fn box_row(w: usize, text: &str, color: TermColor, bold: bool) -> (r: String)
    requires
        w >= 2,
    ensures
        r@ == box_row_spec(w as nat, text@, color, bold),
{
    let inner = w - 2;
    let mut s = String::new();
    push_open(&mut s, palette_border());
    push_str(&mut s, "\u{2551}\x1b[0m");
    if bold {
        push_str(&mut s, "\x1b[1m");
    }
    push_open(&mut s, color);
    let padded = pad_right(text, inner);
    push_str(&mut s, padded.as_str());
    push_str(&mut s, "\x1b[0m");
    push_open(&mut s, palette_border());
    push_str(&mut s, "\u{2551}\x1b[0m\n");
    proof {
        reveal_strlit("\u{2551}\x1b[0m");
        reveal_strlit("\u{2551}\x1b[0m\n");
        reveal_strlit("\u{2551}");
        reveal_strlit("\x1b[0m");
        reveal_strlit("\n");
        assert(s@ =~= box_row_spec(w as nat, text@, color, bold));
    }
    s
}

/// One row of the two-column welcome box: left text in its colour (bold if asked) padded to
/// `lw`, a divider, right text in its colour padded to `rw`.
pub open spec fn two_col_spec(lw: nat, rw: nat, left: Seq<char>, lc: TermColor, bold: bool, right: Seq<char>, rc: TermColor) -> Seq<char> {
    border_char("\u{2551}"@) + bold_spec(bold) + open_spec(lc) + pad_spec(left, lw) + "\x1b[0m"@ + open_spec(border_pur())
        + "\u{2502}"@ + open_spec(rc) + pad_spec(right, rw) + "\x1b[0m"@ + border_char("\u{2551}"@) + "\n"@
}

/// One row of the two-column welcome box.
pub fn two_col(lw: usize, rw: usize, left: &str, lc: TermColor, bold: bool, right: &str, rc: TermColor) -> (r: String)
    ensures
        r@ == two_col_spec(lw as nat, rw as nat, left@, lc, bold, right@, rc),
{
    let l = pad_right(left, lw);
    let rr = pad_right(right, rw);
    let mut s = String::new();
    push_open(&mut s, palette_border());
    push_str(&mut s, "\u{2551}\x1b[0m");
    if bold {
        push_str(&mut s, "\x1b[1m");
    }
    push_open(&mut s, lc);
    push_str(&mut s, l.as_str());
    push_str(&mut s, "\x1b[0m");
    push_open(&mut s, palette_border());
    push_str(&mut s, "\u{2502}");
    push_open(&mut s, rc);
    push_str(&mut s, rr.as_str());
    push_str(&mut s, "\x1b[0m");
    push_open(&mut s, palette_border());
    push_str(&mut s, "\u{2551}\x1b[0m\n");
    proof {
        reveal_strlit("\u{2551}\x1b[0m");
        reveal_strlit("\u{2551}\x1b[0m\n");
        reveal_strlit("\u{2551}");
        reveal_strlit("\x1b[0m");
        reveal_strlit("\n");
        assert(s@ =~= two_col_spec(lw as nat, rw as nat, left@, lc, bold, right@, rc));
    }
    s
}

/// A horizontal border line: `left`, `w - 2` double bars, `right`, a newline, in the
/// border colour.
pub open spec fn border_line_spec(left: Seq<char>, w: nat, right: Seq<char>) -> Seq<char> {
    ansi_spec(color_code(border_pur()), left + repeat_spec("\u{2550}"@, (w - 2) as nat) + right + "\n"@)
}

fn border_line(left: &str, w: usize, right: &str) -> (r: String)
    requires
        w >= 2,
    ensures
        r@ == border_line_spec(left@, w as nat, right@),
{
    let mut inner = owned(left);
    let bars = repeat_str("\u{2550}", w - 2);
    push_str(&mut inner, bars.as_str());
    push_str(&mut inner, right);
    push_char(&mut inner, '\n');
    let code = rgb(palette_border());
    proof {
        reveal_strlit("\n");
        assert(inner@ =~= left@ + repeat_spec("\u{2550}"@, (w - 2) as nat) + right@ + "\n"@);
    }
    ansi_write(code.as_str(), inner.as_str())
}

// ---------------------------------------------------------------------------------------------
// The trust prompt
// ---------------------------------------------------------------------------------------------

/// The width of the trust box: the terminal's width (80 when unknown), at most 76.
pub fn trust_width(term_width: Option<usize>) -> (r: usize)
    ensures
        r == (match term_width {
            Some(w) => if w < 76 { w } else { 76 },
            None => 76,
        }),
{
    let w = match term_width {
        Some(w) => w,
        None => 80,
    };
    if w < 76 { w } else { 76 }
}

/// The text of the trust box above its options, `w` wide.
pub open spec fn trust_header_spec(dir: Seq<char>, w: nat) -> Seq<char> {
    border_line_spec("\u{2554}"@, w, "\u{2557}"@) + box_row_spec(w, seq![], dim(), false) + box_row_spec(
        w,
        "  Accessing workspace:"@,
        gold_ui(),
        true,
    ) + box_row_spec(w, seq![], dim(), false) + box_row_spec(w, "  "@ + dir, white(), false) + box_row_spec(
        w,
        seq![],
        dim(),
        false,
    ) + box_row_spec(w, "  Quick safety check: Is this a project you created or one you trust?"@, dim(), false)
        + box_row_spec(w, "  (Like your own code, a well-known open source project, or team work.)"@, dim(), false)
        + box_row_spec(w, "  If not, take a moment to review what's in this folder first."@, dim(), false)
        + box_row_spec(w, seq![], dim(), false) + box_row_spec(
        w,
        "  Hummingbird will be able to read, edit, and execute files here."@,
        white(),
        false,
    ) + box_row_spec(w, seq![], dim(), false) + border_line_spec("\u{2560}"@, w, "\u{2563}"@)
}

/// The text of the trust box above its options.
pub fn trust_header(dir: &str, w: usize) -> (r: String)
    requires
        w >= 2,
    ensures
        r@ == trust_header_spec(dir@, w as nat),
{
    let d = palette_dim();
    let mut s = border_line("\u{2554}", w, "\u{2557}");
    let dir_line = crate::text::concat2("  ", dir);
    let r1 = box_row(w, "", d, false);
    push_str(&mut s, r1.as_str());
    let r2 = box_row(w, "  Accessing workspace:", palette_gold_ui(), true);
    push_str(&mut s, r2.as_str());
    let r3 = box_row(w, "", d, false);
    push_str(&mut s, r3.as_str());
    let r4 = box_row(w, dir_line.as_str(), palette_white(), false);
    push_str(&mut s, r4.as_str());
    let r5 = box_row(w, "", d, false);
    push_str(&mut s, r5.as_str());
    let r6 = box_row(w, "  Quick safety check: Is this a project you created or one you trust?", d, false);
    push_str(&mut s, r6.as_str());
    let r7 = box_row(w, "  (Like your own code, a well-known open source project, or team work.)", d, false);
    push_str(&mut s, r7.as_str());
    let r8 = box_row(w, "  If not, take a moment to review what's in this folder first.", d, false);
    push_str(&mut s, r8.as_str());
    let r9 = box_row(w, "", d, false);
    push_str(&mut s, r9.as_str());
    let r10 = box_row(w, "  Hummingbird will be able to read, edit, and execute files here.", palette_white(), false);
    push_str(&mut s, r10.as_str());
    let r11 = box_row(w, "", d, false);
    push_str(&mut s, r11.as_str());
    let r12 = border_line("\u{2560}", w, "\u{2563}");
    push_str(&mut s, r12.as_str());
    proof {
        reveal_strlit("");
        assert(""@ =~= seq![]);
        assert(s@ =~= trust_header_spec(dir@, w as nat));
    }
    s
}

/// The choices of the trust prompt.
pub open spec fn trust_option_text(i: nat) -> Seq<char> {
    if i == 0 {
        "  \u{25b6}  Yes, I trust this folder"@
    } else {
        "  \u{25b6}  No, exit"@
    }
}

/// The row of choice `i` (0 or 1) when `selected` is highlighted, in a box `w` wide.
pub open spec fn trust_option_row_spec(i: nat, selected: nat, w: nat) -> Seq<char> {
    border_char("\u{2551}"@) + (if i == selected {
        "\x1b[1m"@ + open_spec(gold_ui()) + pad_spec(trust_option_text(i), (w - 2) as nat) + "\x1b[0m"@
    } else {
        open_spec(dim()) + pad_spec(trust_option_text(i), (w - 2) as nat) + "\x1b[0m"@
    }) + border_char("\u{2551}"@) + "\n"@
}

/// The row of one choice of the trust prompt.
#[verifier::rlimit(40)]
pub fn trust_option_row(i: usize, selected: usize, w: usize) -> (r: String)
    requires
        i < 2,
        w >= 2,
    ensures
        r@ == trust_option_row_spec(i as nat, selected as nat, w as nat),
{
    let text = if i == 0 {
        "  \u{25b6}  Yes, I trust this folder"
    } else {
        "  \u{25b6}  No, exit"
    };
    let mut s = String::new();
    push_open(&mut s, palette_border());
    push_str(&mut s, "\u{2551}\x1b[0m");
    if i == selected {
        push_str(&mut s, "\x1b[1m");
        push_open(&mut s, palette_gold_ui());
    } else {
        push_open(&mut s, palette_dim());
    }
    let padded = pad_right(text, w - 2);
    push_str(&mut s, padded.as_str());
    push_str(&mut s, "\x1b[0m");
    push_open(&mut s, palette_border());
    push_str(&mut s, "\u{2551}\x1b[0m\n");
    proof {
        reveal_strlit("\u{2551}\x1b[0m");
        reveal_strlit("\u{2551}\x1b[0m\n");
        reveal_strlit("\u{2551}");
        reveal_strlit("\x1b[0m");
        reveal_strlit("\n");
        assert(s@ =~= trust_option_row_spec(i as nat, selected as nat, w as nat));
    }
    s
}

/// The rows under the choices: a divider, the key hint, the bottom border.
pub open spec fn trust_footer_spec(w: nat) -> Seq<char> {
    border_line_spec("\u{2560}"@, w, "\u{2563}"@) + open_spec(border_pur()) + "\u{2551}"@ + open_spec(dim()) + pad_spec(
        "  Enter to confirm  \u{b7}  \u{2191}\u{2193} to move  \u{b7}  Esc to cancel"@,
        (w - 2) as nat,
    ) + "\x1b[0m"@ + border_char("\u{2551}"@) + "\n"@ + border_line_spec("\u{255a}"@, w, "\u{255d}"@)
}

/// The rows under the choices.
pub fn trust_footer(w: usize) -> (r: String)
    requires
        w >= 2,
    ensures
        r@ == trust_footer_spec(w as nat),
{
    let mut s = border_line("\u{2560}", w, "\u{2563}");
    push_open(&mut s, palette_border());
    push_str(&mut s, "\u{2551}");
    push_open(&mut s, palette_dim());
    let padded = pad_right("  Enter to confirm  \u{b7}  \u{2191}\u{2193} to move  \u{b7}  Esc to cancel", w - 2);
    push_str(&mut s, padded.as_str());
    push_str(&mut s, "\x1b[0m");
    push_open(&mut s, palette_border());
    push_str(&mut s, "\u{2551}\x1b[0m\n");
    let bottom = border_line("\u{255a}", w, "\u{255d}");
    push_str(&mut s, bottom.as_str());
    proof {
        reveal_strlit("\u{2551}\x1b[0m");
        reveal_strlit("\u{2551}\x1b[0m\n");
        reveal_strlit("\u{2551}");
        reveal_strlit("\x1b[0m");
        reveal_strlit("\n");
        assert(s@ =~= trust_footer_spec(w as nat));
    }
    s
}

/// A key pressed at the trust prompt.
#[derive(Debug, Clone, Copy, PartialEq, Eq)]
pub enum TrustKey {
    Up,
    Down,
    Enter,
    Escape,
    Char(char),
    Other,
}

/// What the trust prompt does after a key.
#[derive(Debug, Clone, Copy, PartialEq, Eq)]
pub enum TrustAction {
    /// Draw the choices again and wait for the next key.
    Redraw,
    /// The prompt ends with this answer (trusted or not).
    Decided(bool),
}

/// The trust prompt's state: which of its two choices is highlighted.
#[derive(Debug)]
pub struct TrustPrompt {
    pub selected: usize,
}

impl TrustPrompt {
    /// The first choice ("yes") highlighted.
    pub fn new() -> (r: TrustPrompt)
        ensures
            r.selected == 0,
    {
        TrustPrompt { selected: 0 }
    }

    /// Handles a key: up (or `k`) and down (or `j`) move the highlight within the two
    /// choices; Enter answers "trusted" exactly when the first choice is highlighted; Esc (or
    /// `q`) answers "not trusted"; other keys change nothing.
    pub fn on_key(&mut self, key: TrustKey) -> (r: TrustAction)
        requires
            old(self).selected < 2,
        ensures
            final(self).selected < 2,
            match key {
                TrustKey::Up | TrustKey::Char('k') => r == TrustAction::Redraw && final(self).selected == (if old(
                    self,
                ).selected > 0 {
                    old(self).selected - 1
                } else {
                    0
                }),
                TrustKey::Down | TrustKey::Char('j') => r == TrustAction::Redraw && final(self).selected == 1,
                TrustKey::Enter => r == TrustAction::Decided(old(self).selected == 0) && final(self).selected == old(self).selected,
                TrustKey::Escape | TrustKey::Char('q') => r == TrustAction::Decided(false) && final(self).selected == old(self).selected,
                _ => r == TrustAction::Redraw && final(self).selected == old(self).selected,
            },
    {
        match key {
            TrustKey::Up | TrustKey::Char('k') => {
                self.selected = self.selected.saturating_sub(1);
                TrustAction::Redraw
            },
            TrustKey::Down | TrustKey::Char('j') => {
                let next = self.selected + 1;
                self.selected = if next < 1 { next } else { 1 };
                TrustAction::Redraw
            },
            TrustKey::Enter => TrustAction::Decided(self.selected == 0),
            TrustKey::Escape | TrustKey::Char('q') => TrustAction::Decided(false),
            _ => TrustAction::Redraw,
        }
    }
}

// ---------------------------------------------------------------------------------------------
// The welcome screen
// ---------------------------------------------------------------------------------------------

/// What is new, listed on the welcome screen.
pub open spec fn changelog_spec() -> Seq<Seq<char>> {
    seq![
        "Forge work orders drive agent tasks"@,
        "Multi-provider: Ollama / OpenAI / Anthropic"@,
        "Session persistence across conversations"@,
        "Diff-based code edits with full undo"@,
        "Sandboxed shell execution with blocklist"@,
        "Global config via ~/.hummingbird.toml"@,
    ]
}

/// What is new, listed on the welcome screen.
pub fn changelog() -> (r: Vec<String>)
    ensures
        crate::text::strs(r@) == changelog_spec(),
{
    let r = crate::context::strings_of(
        &[
            "Forge work orders drive agent tasks",
            "Multi-provider: Ollama / OpenAI / Anthropic",
            "Session persistence across conversations",
            "Diff-based code edits with full undo",
            "Sandboxed shell execution with blocklist",
            "Global config via ~/.hummingbird.toml",
        ],
    );
    assert(crate::text::strs(r@) =~= changelog_spec());
    r
}

/// The widths of the welcome screen's two columns for a terminal `term_w` wide: 58 on the
/// left, and what remains after the borders (at most 50) on the right.
pub fn welcome_widths(term_w: u16) -> (r: (usize, usize))
    ensures
        r.0 == 58,
        r.1 == (if term_w >= 61 { if term_w - 61 < 50 { term_w - 61 } else { 50 } } else { 0 }),
{
    let lw: usize = 58;
    let rest: usize = (term_w as usize).saturating_sub(lw + 3);
    let rw = if rest < 50 { rest } else { 50 };
    (lw, rw)
}

/// The right-hand cell of row `i` of the welcome screen: nothing on the first row, then
/// one changelog entry per row.
pub open spec fn changelog_cell_spec(i: nat) -> Seq<char> {
    if i >= 1 && i - 1 < changelog_spec().len() {
        "  \u{25b8} "@ + changelog_spec()[i - 1]
    } else {
        seq![]
    }
}

/// The right-hand cell of row `i` of the welcome screen.
pub fn changelog_cell(i: usize) -> (r: String)
    ensures
        r@ == changelog_cell_spec(i as nat),
{
    let entries = changelog();
    if i == 0 {
        return String::new();
    }
    if i - 1 < entries.len() {
        proof {
            assert(crate::text::strs(entries@)[i - 1] == entries@[i - 1]@);
        }
        crate::text::concat2("  \u{25b8} ", entries[i - 1].as_str())
    } else {
        String::new()
    }
}

/// How many art rows the welcome screen shows: enough for the logo and for the changelog
/// below its header.
pub fn welcome_row_count(logo_rows: usize) -> (r: usize)
    ensures
        r as int == (if logo_rows > changelog_spec().len() + 1 { logo_rows as int } else { (changelog_spec().len() + 1) as int }),
{
    let entries = changelog();
    let c = entries.len() + 1;
    if logo_rows > c { logo_rows } else { c }
}

/// One art row of the welcome screen: the border, the logo's coloured segments, spaces up
/// to the left width, the divider, the right cell padded to the right width, the border.
pub open spec fn art_row_spec(segments: Seq<(Seq<char>, TermColor)>, lw: nat, rw: nat, right: Seq<char>) -> Seq<char> {
    let left = segments_spec(segments);
    let width = segments_width(segments);
    border_char("\u{2551}"@) + left + (if width < lw { spaces((lw - width) as nat) } else { seq![] }) + open_spec(
        border_pur(),
    ) + "\u{2502}"@ + open_spec(dim()) + pad_spec(right, rw) + "\x1b[0m"@ + border_char("\u{2551}"@) + "\n"@
}

/// The coloured segments, each followed by the reset code.
pub open spec fn segments_spec(segments: Seq<(Seq<char>, TermColor)>) -> Seq<char>
    decreases segments.len(),
{
    if segments.len() == 0 {
        seq![]
    } else {
        segments_spec(segments.drop_last()) + open_spec(segments.last().1) + segments.last().0 + "\x1b[0m"@
    }
}

/// The number of characters of the segments' texts.
pub open spec fn segments_width(segments: Seq<(Seq<char>, TermColor)>) -> nat
    decreases segments.len(),
{
    if segments.len() == 0 {
        0
    } else {
        segments_width(segments.drop_last()) + segments.last().0.len()
    }
}

/// A coloured piece of the logo.
#[derive(Debug)]
pub struct Segment {
    pub text: String,
    pub color: TermColor,
}

/// Segments as data.
pub open spec fn segs(s: Seq<Segment>) -> Seq<(Seq<char>, TermColor)> {
    s.map_values(|x: Segment| (x.text@, x.color))
}

/// One art row of the welcome screen.
pub fn art_row(segments: &[Segment], lw: usize, rw: usize, right: &str) -> (r: String)
    ensures
        r@ == art_row_spec(segs(segments@), lw as nat, rw as nat, right@),
{
    let mut s = String::new();
    push_open(&mut s, palette_border());
    push_str(&mut s, "\u{2551}\x1b[0m");
    let mut left = String::new();
    let n = segments.len();
    let mut i: usize = 0;
    while i < n
        invariant
            n == segments@.len(),
            i <= n,
            left@ == segments_spec(segs(segments@).take(i as int)),
        decreases n - i,
    {
        assert(segs(segments@).take(i + 1).drop_last() =~= segs(segments@).take(i as int));
        push_open(&mut left, segments[i].color);
        push_str(&mut left, segments[i].text.as_str());
        push_str(&mut left, "\x1b[0m");
        i = i + 1;
    }
    assert(segs(segments@).take(n as int) =~= segs(segments@));
    push_str(&mut s, left.as_str());
    // The width of the texts alone, without the colour codes.
    let mut plain = String::new();
    let mut k: usize = 0;
    while k < n
        invariant
            n == segments@.len(),
            k <= n,
            plain@.len() == segments_width(segs(segments@).take(k as int)),
        decreases n - k,
    {
        assert(segs(segments@).take(k + 1).drop_last() =~= segs(segments@).take(k as int));
        push_str(&mut plain, segments[k].text.as_str());
        k = k + 1;
    }
    assert(segs(segments@).take(n as int) =~= segs(segments@));
    let width = chars_of(plain.as_str()).len();
    if width < lw {
        push_spaces(&mut s, lw - width);
    }
    push_open(&mut s, palette_border());
    push_str(&mut s, "\u{2502}");
    push_open(&mut s, palette_dim());
    let padded = pad_right(right, rw);
    push_str(&mut s, padded.as_str());
    push_str(&mut s, "\x1b[0m");
    push_open(&mut s, palette_border());
    push_str(&mut s, "\u{2551}\x1b[0m\n");
    proof {
        reveal_strlit("\u{2551}\x1b[0m");
        reveal_strlit("\u{2551}\x1b[0m\n");
        reveal_strlit("\u{2551}");
        reveal_strlit("\x1b[0m");
        reveal_strlit("\n");
        assert(s@ =~= art_row_spec(segs(segments@), lw as nat, rw as nat, right@));
    }
    s
}

/// The logo: rows of coloured segments, top to bottom.
pub open spec fn bird_spec() -> Seq<Seq<(Seq<char>, TermColor)>> {
    seq![
        seq![("                 ◢▲▲▲▲▲▲▲▲▲▲▲▲▲▲▲▲▲▲▲"@, gold_lite())],
        seq![("              ◢▓▓▓▓▓▓▓▓▓▓▓▓▓▓▓▓▓▓▓▓▓▓▓▓◣"@, gold())],
        seq![("           ◢▓▓▓▓▓▓▓▓▓▓▓▓▓▓▓▓▓▓▓▓▓▓▓▓▓▓▓▓◣"@, gold())],
        seq![("        ◢▓▓▓▓▓▓▓▓▓▓▓▓▓▓▓▓▓▓"@, gold()), ("████████████▓▓▓◣  "@, purple_mid())],
        seq![("      ◢▓▓▓▓▓▓▓▓▓▓▓▓▓▓▓▓▓▓"@, gold()), ("██████████████████◣"@, purple_deep()), ("──────►"@, gold_lite())],
        seq![("      ▓▓▓▓▓▓▓▓▓▓▓▓▓▓▓▓▓"@, gold()), ("██████████████████████"@, purple_deep())],
        seq![("       ◥▓▓▓▓▓▓▓▓▓▓▓▓▓◤"@, gold()), ("████████████████████████ "@, purple_mid())],
        seq![("              "@, dim()), ("████████████████████████████████"@, purple_mid())],
        seq![("               "@, dim()), ("██████████████████████████████"@, purple_mid())],
        seq![("                "@, dim()), ("████████████████████████████"@, purple_mid())],
        seq![("                  "@, dim()), ("████████████████████████"@, purple_lite())],
        seq![("                    "@, dim()), ("████████████████████"@, purple_lite())],
        seq![("                      "@, dim()), ("████████████████"@, purple_lite())],
        seq![("                       "@, dim()), ("██████"@, purple_lite()), ("    "@, dim()), ("██████"@, purple_deep())],
        seq![("                      "@, dim()), ("█████"@, purple_lite()), ("      "@, dim()), ("█████"@, purple_deep())],
        seq![("                     "@, dim()), ("████"@, purple_lite()), ("        "@, dim()), ("████"@, purple_deep())],
    ]
}

/// The logo: rows of coloured segments, top to bottom.
pub fn bird_rows() -> (r: Vec<Vec<Segment>>)
    ensures
        r@.map_values(|row: Vec<Segment>| segs(row@)) == bird_spec(),
{
    let mut rows: Vec<Vec<Segment>> = Vec::new();
    let mut row: Vec<Segment> = Vec::new();
    row.push(Segment { text: owned("                 ◢▲▲▲▲▲▲▲▲▲▲▲▲▲▲▲▲▲▲▲"), color: TermColor::Rgb(252, 210, 80) });
    proof {
        assert(segs(row@) =~= bird_spec()[0]);
    }
    rows.push(row);
    let mut row: Vec<Segment> = Vec::new();
    row.push(Segment { text: owned("              ◢▓▓▓▓▓▓▓▓▓▓▓▓▓▓▓▓▓▓▓▓▓▓▓▓◣"), color: TermColor::Rgb(245, 180, 45) });
    proof {
        assert(segs(row@) =~= bird_spec()[1]);
    }
    rows.push(row);
    let mut row: Vec<Segment> = Vec::new();
    row.push(Segment { text: owned("           ◢▓▓▓▓▓▓▓▓▓▓▓▓▓▓▓▓▓▓▓▓▓▓▓▓▓▓▓▓◣"), color: TermColor::Rgb(245, 180, 45) });
    proof {
        assert(segs(row@) =~= bird_spec()[2]);
    }
    rows.push(row);
    let mut row: Vec<Segment> = Vec::new();
    row.push(Segment { text: owned("        ◢▓▓▓▓▓▓▓▓▓▓▓▓▓▓▓▓▓▓"), color: TermColor::Rgb(245, 180, 45) });
    row.push(Segment { text: owned("████████████▓▓▓◣  "), color: TermColor::Rgb(108, 87, 210) });
    proof {
        assert(segs(row@) =~= bird_spec()[3]);
    }
    rows.push(row);
    let mut row: Vec<Segment> = Vec::new();
    row.push(Segment { text: owned("      ◢▓▓▓▓▓▓▓▓▓▓▓▓▓▓▓▓▓▓"), color: TermColor::Rgb(245, 180, 45) });
    row.push(Segment { text: owned("██████████████████◣"), color: TermColor::Rgb(75, 55, 175) });
    row.push(Segment { text: owned("──────►"), color: TermColor::Rgb(252, 210, 80) });
    proof {
        assert(segs(row@) =~= bird_spec()[4]);
    }
    rows.push(row);
    let mut row: Vec<Segment> = Vec::new();
    row.push(Segment { text: owned("      ▓▓▓▓▓▓▓▓▓▓▓▓▓▓▓▓▓"), color: TermColor::Rgb(245, 180, 45) });
    row.push(Segment { text: owned("██████████████████████"), color: TermColor::Rgb(75, 55, 175) });
    proof {
        assert(segs(row@) =~= bird_spec()[5]);
    }
    rows.push(row);
    let mut row: Vec<Segment> = Vec::new();
    row.push(Segment { text: owned("       ◥▓▓▓▓▓▓▓▓▓▓▓▓▓◤"), color: TermColor::Rgb(245, 180, 45) });
    row.push(Segment { text: owned("████████████████████████ "), color: TermColor::Rgb(108, 87, 210) });
    proof {
        assert(segs(row@) =~= bird_spec()[6]);
    }
    rows.push(row);
    let mut row: Vec<Segment> = Vec::new();
    row.push(Segment { text: owned("              "), color: TermColor::Rgb(148, 148, 163) });
    row.push(Segment { text: owned("████████████████████████████████"), color: TermColor::Rgb(108, 87, 210) });
    proof {
        assert(segs(row@) =~= bird_spec()[7]);
    }
    rows.push(row);
    let mut row: Vec<Segment> = Vec::new();
    row.push(Segment { text: owned("               "), color: TermColor::Rgb(148, 148, 163) });
    row.push(Segment { text: owned("██████████████████████████████"), color: TermColor::Rgb(108, 87, 210) });
    proof {
        assert(segs(row@) =~= bird_spec()[8]);
    }
    rows.push(row);
    let mut row: Vec<Segment> = Vec::new();
    row.push(Segment { text: owned("                "), color: TermColor::Rgb(148, 148, 163) });
    row.push(Segment { text: owned("████████████████████████████"), color: TermColor::Rgb(108, 87, 210) });
    proof {
        assert(segs(row@) =~= bird_spec()[9]);
    }
    rows.push(row);
    let mut row: Vec<Segment> = Vec::new();
    row.push(Segment { text: owned("                  "), color: TermColor::Rgb(148, 148, 163) });
    row.push(Segment { text: owned("████████████████████████"), color: TermColor::Rgb(160, 148, 230) });
    proof {
        assert(segs(row@) =~= bird_spec()[10]);
    }
    rows.push(row);
    let mut row: Vec<Segment> = Vec::new();
    row.push(Segment { text: owned("                    "), color: TermColor::Rgb(148, 148, 163) });
    row.push(Segment { text: owned("████████████████████"), color: TermColor::Rgb(160, 148, 230) });
    proof {
        assert(segs(row@) =~= bird_spec()[11]);
    }
    rows.push(row);
    let mut row: Vec<Segment> = Vec::new();
    row.push(Segment { text: owned("                      "), color: TermColor::Rgb(148, 148, 163) });
    row.push(Segment { text: owned("████████████████"), color: TermColor::Rgb(160, 148, 230) });
    proof {
        assert(segs(row@) =~= bird_spec()[12]);
    }
    rows.push(row);
    let mut row: Vec<Segment> = Vec::new();
    row.push(Segment { text: owned("                       "), color: TermColor::Rgb(148, 148, 163) });
    row.push(Segment { text: owned("██████"), color: TermColor::Rgb(160, 148, 230) });
    row.push(Segment { text: owned("    "), color: TermColor::Rgb(148, 148, 163) });
    row.push(Segment { text: owned("██████"), color: TermColor::Rgb(75, 55, 175) });
    proof {
        assert(segs(row@) =~= bird_spec()[13]);
    }
    rows.push(row);
    let mut row: Vec<Segment> = Vec::new();
    row.push(Segment { text: owned("                      "), color: TermColor::Rgb(148, 148, 163) });
    row.push(Segment { text: owned("█████"), color: TermColor::Rgb(160, 148, 230) });
    row.push(Segment { text: owned("      "), color: TermColor::Rgb(148, 148, 163) });
    row.push(Segment { text: owned("█████"), color: TermColor::Rgb(75, 55, 175) });
    proof {
        assert(segs(row@) =~= bird_spec()[14]);
    }
    rows.push(row);
    let mut row: Vec<Segment> = Vec::new();
    row.push(Segment { text: owned("                     "), color: TermColor::Rgb(148, 148, 163) });
    row.push(Segment { text: owned("████"), color: TermColor::Rgb(160, 148, 230) });
    row.push(Segment { text: owned("        "), color: TermColor::Rgb(148, 148, 163) });
    row.push(Segment { text: owned("████"), color: TermColor::Rgb(75, 55, 175) });
    proof {
        assert(segs(row@) =~= bird_spec()[15]);
    }
    rows.push(row);
    assert(rows@.map_values(|row: Vec<Segment>| segs(row@)) =~= bird_spec());
    rows
}

/// A horizontal border of the welcome screen: `left`, `lw` bars, `mid`, `rw` bars,
/// `right`, then `tail`, in the border colour.
pub open spec fn welcome_border_spec(left: Seq<char>, lw: nat, mid: Seq<char>, rw: nat, right: Seq<char>, tail: Seq<char>) -> Seq<char> {
    ansi_spec(color_code(border_pur()), left + repeat_spec("\u{2550}"@, lw) + mid + repeat_spec("\u{2550}"@, rw) + right + tail)
}

/// A horizontal border of the welcome screen.
pub fn welcome_border(left: &str, lw: usize, mid: &str, rw: usize, right: &str, tail: &str) -> (r: String)
    ensures
        r@ == welcome_border_spec(left@, lw as nat, mid@, rw as nat, right@, tail@),
{
    let mut inner = owned(left);
    let a = repeat_str("\u{2550}", lw);
    push_str(&mut inner, a.as_str());
    push_str(&mut inner, mid);
    let b = repeat_str("\u{2550}", rw);
    push_str(&mut inner, b.as_str());
    push_str(&mut inner, right);
    push_str(&mut inner, tail);
    let code = rgb(palette_border());
    ansi_write(code.as_str(), inner.as_str())
}

/// The hint under the welcome screen.
pub open spec fn prompt_hint_spec() -> Seq<char> {
    open_spec(gold_ui()) + "\u{25b6} \x1b[0m\x1b[1m"@ + open_spec(border_pur()) + "auto mode on\x1b[0m  "@ + open_spec(dim())
        + "\u{b7}  type a task or /help\x1b[0m\n\n"@
}

/// The hint under the welcome screen.
pub fn prompt_hint() -> (r: String)
    ensures
        r@ == prompt_hint_spec(),
{
    let mut s = String::new();
    push_open(&mut s, palette_gold_ui());
    push_str(&mut s, "\u{25b6} \x1b[0m\x1b[1m");
    push_open(&mut s, palette_border());
    push_str(&mut s, "auto mode on\x1b[0m  ");
    push_open(&mut s, palette_dim());
    push_str(&mut s, "\u{b7}  type a task or /help\x1b[0m\n\n");
    s
}

/// The art rows from `from` on: row `i` shows logo row `i` (if any) and changelog cell `i`.
pub open spec fn art_rows_spec(logo: Seq<Seq<(Seq<char>, TermColor)>>, lw: nat, rw: nat, total: nat) -> Seq<char>
    decreases total,
{
    if total == 0 {
        seq![]
    } else {
        let i = (total - 1) as nat;
        art_rows_spec(logo, lw, rw, i) + art_row_spec(
            if i < logo.len() { logo[i as int] } else { seq![] },
            lw,
            rw,
            changelog_cell_spec(i),
        )
    }
}

/// The whole welcome screen, for a terminal `term_w` wide.
pub open spec fn welcome_spec(
    username: Seq<char>,
    model: Seq<char>,
    provider: Seq<char>,
    dir: Seq<char>,
    version: Seq<char>,
    logo: Seq<Seq<(Seq<char>, TermColor)>>,
    lw: nat,
    rw: nat,
) -> Seq<char> {
    let total = if logo.len() > changelog_spec().len() + 1 { logo.len() } else { (changelog_spec().len() + 1) as nat };
    welcome_border_spec("\u{2554}"@, lw, "\u{2564}"@, rw, "\u{2557}"@, "\n"@)
        + two_col_spec(lw, rw, "  Hummingbird "@ + version, gold_bright(), true, "  What's new"@, gold_ui())
        + welcome_border_spec("\u{2560}"@, lw, "\u{256a}"@, rw, "\u{2563}"@, "\n"@)
        + two_col_spec(lw, rw, "  Welcome back, "@ + username + "!"@, white(), true, seq![], dim())
        + two_col_spec(lw, rw, seq![], dim(), false, seq![], dim())
        + art_rows_spec(logo, lw, rw, total)
        + two_col_spec(lw, rw, seq![], dim(), false, seq![], dim())
        + two_col_spec(lw, rw, "  Powered by  O P S E R A"@, gold_bright(), true, seq![], dim())
        + two_col_spec(lw, rw, "  Model  \u{b7}  "@ + model + " via "@ + provider, teal(), false, seq![], dim())
        + two_col_spec(lw, rw, "  Dir    \u{b7}  "@ + dir, dim(), false, seq![], dim())
        + two_col_spec(lw, rw, seq![], dim(), false, seq![], dim())
        + welcome_border_spec("\u{255a}"@, lw, "\u{2567}"@, rw, "\u{255d}"@, "\n\n"@)
        + prompt_hint_spec()
}

/// The whole welcome screen, with the logo, for a terminal `term_w` wide.
#[verifier::rlimit(40)]
pub fn welcome_screen(username: &str, model: &str, provider: &str, dir: &str, version: &str, term_w: u16) -> (r: String)
    ensures
        r@ == welcome_spec(
            username@,
            model@,
            provider@,
            dir@,
            version@,
            bird_spec(),
            58,
            (if term_w >= 61 { if term_w - 61 < 50 { term_w - 61 } else { 50 } } else { 0 }) as nat,
        ),
{
    let (lw, rw) = welcome_widths(term_w);
    let bird = bird_rows();
    proof {
        assert(bird@.map_values(|row: Vec<Segment>| segs(row@)).len() == bird@.len());
        assert(bird_spec().len() == 16);
    }
    let ghost logo = bird@.map_values(|row: Vec<Segment>| segs(row@));
    let mut s = welcome_border("\u{2554}", lw, "\u{2564}", rw, "\u{2557}", "\n");
    let t = crate::text::concat2("  Hummingbird ", version);
    let x = two_col(lw, rw, t.as_str(), palette_gold_bright(), true, "  What's new", palette_gold_ui());
    push_str(&mut s, x.as_str());
    let x = welcome_border("\u{2560}", lw, "\u{256a}", rw, "\u{2563}", "\n");
    push_str(&mut s, x.as_str());
    let t = crate::text::concat3("  Welcome back, ", username, "!");
    let x = two_col(lw, rw, t.as_str(), palette_white(), true, "", palette_dim());
    push_str(&mut s, x.as_str());
    let x = two_col(lw, rw, "", palette_dim(), false, "", palette_dim());
    push_str(&mut s, x.as_str());
    let total = welcome_row_count(bird.len());
    let ghost head = s@;
    let mut i: usize = 0;
    let empty: Vec<Segment> = Vec::new();
    while i < total
        invariant
            i <= total,
            bird@.len() == 16,
            logo == bird_spec(),
            logo == bird@.map_values(|row: Vec<Segment>| segs(row@)),
            total as int == (if logo.len() > changelog_spec().len() + 1 { logo.len() as int } else { (changelog_spec().len() + 1) as int }),
            empty@.len() == 0,
            s@ == head + art_rows_spec(logo, lw as nat, rw as nat, i as nat),
        decreases total - i,
    {
        let cell = changelog_cell(i);
        let row = if i < bird.len() {
            &bird[i]
        } else {
            &empty
        };
        proof {
            if i < bird@.len() {
                assert(logo[i as int] == segs(bird@[i as int]@));
            } else {
                assert(segs(empty@) =~= seq![]);
            }
        }
        let x = art_row(row.as_slice(), lw, rw, cell.as_str());
        push_str(&mut s, x.as_str());
        i = i + 1;
    }
    let x = two_col(lw, rw, "", palette_dim(), false, "", palette_dim());
    push_str(&mut s, x.as_str());
    let x = two_col(lw, rw, "  Powered by  O P S E R A", palette_gold_bright(), true, "", palette_dim());
    push_str(&mut s, x.as_str());
    let mut t = crate::text::concat3("  Model  \u{b7}  ", model, " via ");
    push_str(&mut t, provider);
    let x = two_col(lw, rw, t.as_str(), palette_teal(), false, "", palette_dim());
    push_str(&mut s, x.as_str());
    let t = crate::text::concat2("  Dir    \u{b7}  ", dir);
    let x = two_col(lw, rw, t.as_str(), palette_dim(), false, "", palette_dim());
    push_str(&mut s, x.as_str());
    let x = two_col(lw, rw, "", palette_dim(), false, "", palette_dim());
    push_str(&mut s, x.as_str());
    let x = welcome_border("\u{255a}", lw, "\u{2567}", rw, "\u{255d}", "\n\n");
    push_str(&mut s, x.as_str());
    let x = prompt_hint();
    push_str(&mut s, x.as_str());
    proof {
        reveal_strlit("");
        assert(""@ =~= seq![]);
        assert(s@ =~= welcome_spec(username@, model@, provider@, dir@, version@, logo, lw as nat, rw as nat));
    }
    s
}

} // verus!
