//! Output formatting: the fixed self-printing template and its one-line and
//! multi-line renderings.

use crate::escape::EscapeStrategy;
use crate::text::{
    byte_len, ends_with_newline, lemma_utf8_len_bounds_chars, push_repeated, repeat,
    str_ends_with_newline,
};
use vstd::prelude::*;

verus! {

/// Output format selection.
#[derive(Debug, Clone, Copy, PartialEq, Eq, Structural)]
pub enum OutputFormat {
    /// Single line output, no line breaks.
    OneLine,
    /// Formatted with line breaks and indentation.
    MultiLine,
    /// Both formats.
    Both,
}

impl Default for OutputFormat {
    fn default() -> (r: Self)
        ensures
            r == OutputFormat::MultiLine,
    {
        OutputFormat::MultiLine
    }
}

/// Configuration options for quine formatting.
#[derive(Debug)]
pub struct FormatOptions {
    /// The escape strategy to use.
    pub escape_strategy: EscapeStrategy,
    /// Indentation string for multi-line output.
    pub indent: String,
    /// Maximum line length for multi-line output (0 = no limit). Kept for
    /// callers; neither rendering consults it.
    pub max_line_length: usize,
    /// Whether to include a trailing newline.
    pub trailing_newline: bool,
    /// Output format selection.
    pub output_format: OutputFormat,
}

/// What a `FormatOptions` value holds, with the indent as a sequence of
/// characters.
pub struct FormatOptionsView {
    pub escape_strategy: EscapeStrategy,
    pub indent: Seq<char>,
    pub max_line_length: usize,
    pub trailing_newline: bool,
    pub output_format: OutputFormat,
}

impl View for FormatOptions {
    type V = FormatOptionsView;

    open spec fn view(&self) -> FormatOptionsView {
        FormatOptionsView {
            escape_strategy: self.escape_strategy,
            indent: self.indent@,
            max_line_length: self.max_line_length,
            trailing_newline: self.trailing_newline,
            output_format: self.output_format,
        }
    }
}

/// The options a caller gets without choosing any: standard escaping, four
/// spaces of indent, a line length of 80, a trailing newline, both formats.
pub open spec fn default_options() -> FormatOptionsView {
    FormatOptionsView {
        escape_strategy: EscapeStrategy::Standard,
        indent: seq![' ', ' ', ' ', ' '],
        max_line_length: 80,
        trailing_newline: true,
        output_format: OutputFormat::Both,
    }
}

impl Default for FormatOptions {
    fn default() -> (r: Self)
        ensures
            r@ == default_options(),
    {
        let indent = "    ".to_owned();
        proof {
            reveal_strlit("    ");
            assert(indent@ =~= seq![' ', ' ', ' ', ' ']);
        }
        Self {
            escape_strategy: EscapeStrategy::Standard,
            indent,
            max_line_length: 80,
            trailing_newline: true,
            output_format: OutputFormat::Both,
        }
    }
}

impl Clone for FormatOptions {
    fn clone(&self) -> (r: Self)
        ensures
            r@ == self@,
    {
        Self {
            escape_strategy: self.escape_strategy,
            indent: self.indent.clone(),
            max_line_length: self.max_line_length,
            trailing_newline: self.trailing_newline,
            output_format: self.output_format,
        }
    }
}

impl FormatOptions {
    /// Create options for one-line output.
    pub fn one_line() -> (r: Self)
        ensures
            r@ == (FormatOptionsView { output_format: OutputFormat::OneLine, ..default_options() }),
    {
        Self { output_format: OutputFormat::OneLine, ..Default::default() }
    }

    /// Create options for multi-line output.
    pub fn multi_line() -> (r: Self)
        ensures
            r@ == (FormatOptionsView { output_format: OutputFormat::MultiLine, ..default_options() }),
    {
        Self { output_format: OutputFormat::MultiLine, ..Default::default() }
    }

    /// Set the escape strategy.
    pub fn with_escape_strategy(self, strategy: EscapeStrategy) -> (r: Self)
        ensures
            r@ == (FormatOptionsView { escape_strategy: strategy, ..self@ }),
    {
        let mut options = self;
        options.escape_strategy = strategy;
        options
    }

    /// Set the indentation string.
    pub fn with_indent(self, indent: &str) -> (r: Self)
        ensures
            r@ == (FormatOptionsView { indent: indent@, ..self@ }),
    {
        let mut options = self;
        options.indent = indent.to_owned();
        options
    }

    /// Set the maximum line length.
    pub fn with_max_line_length(self, length: usize) -> (r: Self)
        ensures
            r@ == (FormatOptionsView { max_line_length: length, ..self@ }),
    {
        let mut options = self;
        options.max_line_length = length;
        options
    }
}

/// The part of the template that stands before the embedded text: the
/// program's opening and the declaration of the data variable, up to and
/// including the opening quote.
pub const TEMPLATE_HEAD: &'static str = "(function(){var d=\"";

/// The part of the template that stands after the embedded text: the closing
/// quote and the statement that prints the program's own source.
pub const TEMPLATE_TAIL: &'static str =
    "\";var q=String.fromCharCode(34);console.log(\"(function(){var d=\"+q+d+q+\";\"+d.slice(d.indexOf(\"var q\")))})()";

/// The self-printing program with `escaped` embedded as its string literal.
pub open spec fn quine_template(escaped: Seq<char>) -> Seq<char> {
    TEMPLATE_HEAD@ + escaped + TEMPLATE_TAIL@
}

/// `code` with every newline character removed.
pub open spec fn without_newlines(code: Seq<char>) -> Seq<char> {
    code.filter(|c: char| c != '\n')
}

/// `code` after one pass, from the left, that replaces each pair of
/// consecutive spaces by a single space. A replaced pair is not looked at
/// again, so a run of more than two spaces is shortened but not reduced to
/// one.
pub open spec fn space_pairs_halved(code: Seq<char>) -> Seq<char>
    decreases code.len(),
{
    if code.len() == 0 {
        code
    } else if code.len() >= 2 && code[0] == ' ' && code[1] == ' ' {
        seq![' '] + space_pairs_halved(code.skip(2))
    } else {
        seq![code[0]] + space_pairs_halved(code.skip(1))
    }
}

/// The one-line rendering of `code`: newlines removed, then pairs of spaces
/// halved.
pub open spec fn one_line_of(code: Seq<char>) -> Seq<char> {
    space_pairs_halved(without_newlines(code))
}

/// State of the multi-line scan after some prefix of the code.
pub struct ScanState {
    /// What has been emitted so far.
    pub out: Seq<char>,
    /// Brace-nesting depth.
    pub depth: nat,
    /// Whether the scan is inside a double-quoted string literal.
    pub in_string: bool,
    /// Whether the next character is copied without being looked at.
    pub escape_next: bool,
}

/// The state before any character has been read.
pub open spec fn scan_start() -> ScanState {
    ScanState { out: Seq::empty(), depth: 0, in_string: false, escape_next: false }
}

/// A line break followed by the indentation for `depth`.
pub open spec fn line_break(indent: Seq<char>, depth: nat) -> Seq<char> {
    seq!['\n'] + repeat(indent, depth)
}

/// The state after reading `ch` in state `st`.
pub open spec fn scan_step(st: ScanState, ch: char, indent: Seq<char>) -> ScanState {
    if st.escape_next {
        ScanState { out: st.out.push(ch), escape_next: false, ..st }
    } else if ch == '\\' && st.in_string {
        ScanState { out: st.out.push(ch), escape_next: true, ..st }
    } else if ch == '"' {
        ScanState { out: st.out.push(ch), in_string: !st.in_string, ..st }
    } else if ch == '{' && !st.in_string {
        ScanState {
            out: st.out.push(ch) + line_break(indent, st.depth + 1),
            depth: st.depth + 1,
            ..st
        }
    } else if ch == '}' && !st.in_string {
        let depth: nat = if st.depth > 0 { (st.depth - 1) as nat } else { 0 };
        ScanState { out: (st.out + line_break(indent, depth)).push(ch), depth: depth, ..st }
    } else if ch == ';' && !st.in_string {
        ScanState { out: st.out.push(ch) + line_break(indent, st.depth), ..st }
    } else {
        ScanState { out: st.out.push(ch), ..st }
    }
}

/// The state after reading all of `code`, character by character from the
/// left.
pub open spec fn scan(code: Seq<char>, indent: Seq<char>) -> ScanState
    decreases code.len(),
{
    if code.len() == 0 {
        scan_start()
    } else {
        scan_step(scan(code.drop_last(), indent), code.last(), indent)
    }
}

/// The multi-line rendering of `code`: what the scan emits, with a newline
/// appended if one is asked for and the text does not end with one already.
pub open spec fn multi_line_of(code: Seq<char>, indent: Seq<char>, trailing_newline: bool) -> Seq<
    char,
> {
    let body = scan(code, indent).out;
    if trailing_newline && !ends_with_newline(body) {
        body.push('\n')
    } else {
        body
    }
}

/// Removing newlines from a text extended by one character: the character is
/// kept unless it is a newline.
pub proof fn lemma_without_newlines_push(code: Seq<char>, c: char)
    ensures
        without_newlines(code.push(c)) == if c != '\n' {
            without_newlines(code).push(c)
        } else {
            without_newlines(code)
        },
{
    code.lemma_filter_push(c, |c: char| c != '\n');
}

/// A text from which the newlines were removed holds none.
pub proof fn lemma_without_newlines_has_none(code: Seq<char>)
    ensures
        !without_newlines(code).contains('\n'),
{
    let pred = |c: char| c != '\n';
    assert forall|i: int| 0 <= i < code.filter(pred).len() implies code.filter(pred)[i]
        != '\n' by {
        code.lemma_filter_pred(pred, i);
    }
}

/// Halving a text that starts with two spaces emits one space and goes on
/// after the pair.
pub proof fn lemma_halved_pair(rest: Seq<char>)
    ensures
        space_pairs_halved(seq![' ', ' '] + rest) == seq![' '] + space_pairs_halved(rest),
{
    assert((seq![' ', ' '] + rest).skip(2) =~= rest);
}

/// Halving a text that does not start with two spaces emits its first
/// character and goes on after it.
pub proof fn lemma_halved_single(c: char, rest: Seq<char>)
    requires
        !(c == ' ' && rest.len() > 0 && rest[0] == ' '),
    ensures
        space_pairs_halved(seq![c] + rest) == seq![c] + space_pairs_halved(rest),
{
    assert((seq![c] + rest).skip(1) =~= rest);
}

/// Halving pairs of spaces brings in no character that was not there: in
/// particular a text without newlines stays without newlines.
pub proof fn lemma_halved_has_no_newline(code: Seq<char>)
    requires
        !code.contains('\n'),
    ensures
        !space_pairs_halved(code).contains('\n'),
    decreases code.len(),
{
    if code.len() > 0 {
        let step: int = if code.len() >= 2 && code[0] == ' ' && code[1] == ' ' {
            2
        } else {
            1
        };
        let rest = code.skip(step);
        assert forall|i: int| 0 <= i < rest.len() implies rest[i] != '\n' by {
            assert(code.contains(code[i + step]));
        }
        lemma_halved_has_no_newline(rest);
        let halved = space_pairs_halved(code);
        assert(code.contains(code[0]));
        assert forall|i: int| 0 <= i < halved.len() implies halved[i] != '\n' by {
            if i > 0 {
                assert(space_pairs_halved(rest).contains(space_pairs_halved(rest)[i - 1]));
            }
        }
    }
}

/// The one-line rendering holds no newline, whatever the code.
pub proof fn lemma_one_line_has_no_newline(code: Seq<char>)
    ensures
        !one_line_of(code).contains('\n'),
{
    lemma_without_newlines_has_none(code);
    lemma_halved_has_no_newline(without_newlines(code));
}

/// `code` with every newline character removed.
pub fn remove_newlines(code: &str) -> (out: String)
    ensures
        out@ == without_newlines(code@),
{
    let mut out = String::new();
    proof {
        reveal(Seq::filter);
        assert(code@.take(0) =~= Seq::<char>::empty());
    }
    for ch in it: code.chars()
        invariant
            it.seq() == code@,
            out@ == without_newlines(code@.take(it.index())),
    {
        proof {
            lemma_without_newlines_push(code@.take(it.index()), ch);
            assert(code@.take(it.index() + 1) =~= code@.take(it.index()).push(ch));
        }
        if ch != '\n' {
            out.push(ch);
        }
    }
    assert(code@.take(code@.len() as int) =~= code@);
    out
}

/// A space that was read and not yet written, if one is held back.
pub open spec fn held_space(held: bool) -> Seq<char> {
    if held {
        seq![' ']
    } else {
        Seq::empty()
    }
}

/// `code` after one pass that replaces each pair of consecutive spaces by a
/// single space.
pub fn halve_space_pairs(code: &str) -> (out: String)
    ensures
        out@ == space_pairs_halved(code@),
{
    let mut out = String::new();
    // A space is held back until the next character shows whether it is the
    // first of a pair.
    let mut held = false;
    proof {
        assert(held_space(false) + code@.skip(0) =~= code@);
    }
    for ch in it: code.chars()
        invariant
            it.seq() == code@,
            space_pairs_halved(code@) == out@ + space_pairs_halved(
                held_space(held) + code@.skip(it.index()),
            ),
    {
        let ghost rest = code@.skip(it.index() + 1);
        let ghost before = out@;
        proof {
            assert(code@.skip(it.index()) =~= seq![ch] + rest);
            assert(held_space(false) + rest =~= rest);
        }
        if held {
            if ch == ' ' {
                out.push(' ');
                proof {
                    assert(held_space(true) + (seq![ch] + rest) =~= seq![' ', ' '] + rest);
                    lemma_halved_pair(rest);
                    assert(before + (seq![' '] + space_pairs_halved(rest)) =~= out@
                        + space_pairs_halved(rest));
                }
            } else {
                out.push(' ');
                out.push(ch);
                proof {
                    lemma_halved_single(' ', seq![ch] + rest);
                    lemma_halved_single(ch, rest);
                    assert(before + (seq![' '] + (seq![ch] + space_pairs_halved(rest))) =~= out@
                        + space_pairs_halved(rest));
                }
            }
            held = false;
        } else if ch == ' ' {
            held = true;
            proof {
                assert(held_space(false) + (seq![ch] + rest) =~= held_space(true) + rest);
            }
        } else {
            out.push(ch);
            proof {
                assert(held_space(false) + (seq![ch] + rest) =~= seq![ch] + rest);
                lemma_halved_single(ch, rest);
                assert(before + (seq![ch] + space_pairs_halved(rest)) =~= out@
                    + space_pairs_halved(rest));
            }
        }
    }
    let ghost before = out@;
    proof {
        assert(held_space(held) + code@.skip(code@.len() as int) =~= held_space(held));
    }
    if held {
        out.push(' ');
        proof {
            assert(seq![' '] + Seq::<char>::empty() =~= held_space(true));
            lemma_halved_single(' ', Seq::empty());
            assert(before + (seq![' '] + Seq::<char>::empty()) =~= out@);
        }
    } else {
        assert(before + Seq::<char>::empty() =~= before);
    }
    out
}

/// Whether `s` ends with a newline that no other newline stands directly
/// before.
pub open spec fn ends_with_single_newline(s: Seq<char>) -> bool {
    &&& ends_with_newline(s)
    &&& s.len() >= 2 ==> s[s.len() - 2] != '\n'
}

/// What the scan has emitted for a non-empty code ends with the code's last
/// character, unless that character is an opening brace or a semicolon,
/// which a line break may follow.
pub proof fn lemma_scan_keeps_plain_last(code: Seq<char>, indent: Seq<char>)
    requires
        code.len() > 0,
        code.last() != '{',
        code.last() != ';',
    ensures
        scan(code, indent).out.len() > 0,
        scan(code, indent).out.last() == code.last(),
{
}

/// The template starts with an opening parenthesis and ends with a closing
/// one, whatever text is embedded.
pub proof fn lemma_template_ends(escaped: Seq<char>)
    ensures
        quine_template(escaped).len() > 0,
        quine_template(escaped).first() == '(',
        quine_template(escaped).last() == ')',
{
    reveal_strlit("(function(){var d=\"");
    reveal_strlit(
        "\";var q=String.fromCharCode(34);console.log(\"(function(){var d=\"+q+d+q+\";\"+d.slice(d.indexOf(\"var q\")))})()",
    );
}

/// The one-line rendering of the template is never empty.
pub proof fn lemma_one_line_of_template_nonempty(escaped: Seq<char>)
    ensures
        one_line_of(quine_template(escaped)).len() > 0,
{
    let code = quine_template(escaped);
    lemma_template_ends(escaped);
    code.lemma_filter_contains(|c: char| c != '\n', 0);
    assert(without_newlines(code).len() > 0);
}

/// The multi-line rendering of the template is never empty, and with a
/// trailing newline asked for it ends with exactly one newline.
pub proof fn lemma_multi_line_of_template(
    escaped: Seq<char>,
    indent: Seq<char>,
    trailing_newline: bool,
)
    ensures
        multi_line_of(quine_template(escaped), indent, trailing_newline).len() > 0,
        trailing_newline ==> ends_with_single_newline(
            multi_line_of(quine_template(escaped), indent, trailing_newline),
        ),
{
    lemma_template_ends(escaped);
    lemma_scan_keeps_plain_last(quine_template(escaped), indent);
}

/// Formatter for quine output.
pub struct Formatter {
    options: FormatOptions,
}

impl View for Formatter {
    type V = FormatOptionsView;

    /// The options the formatter was made with.
    closed spec fn view(&self) -> FormatOptionsView {
        self.options@
    }
}

impl Formatter {
    /// Create a new formatter with the given options.
    pub fn new(options: FormatOptions) -> (r: Self)
        ensures
            r@ == options@,
    {
        Self { options }
    }

    /// Format the quine data as a single line.
    pub fn format_one_line(&self, _data: &str, escaped: &str) -> (out: String)
        ensures
            out@ == one_line_of(quine_template(escaped@)),
            out@.len() > 0,
            !out@.contains('\n'),
    {
        let template = self.generate_quine_template(escaped);
        let stripped = remove_newlines(template.as_str());
        proof {
            lemma_one_line_has_no_newline(quine_template(escaped@));
            lemma_one_line_of_template_nonempty(escaped@);
        }
        halve_space_pairs(stripped.as_str())
    }

    /// Format the quine data with line breaks and indentation.
    pub fn format_multi_line(&self, _data: &str, escaped: &str) -> (out: String)
        ensures
            out@ == multi_line_of(quine_template(escaped@), self@.indent, self@.trailing_newline),
            out@.len() > 0,
            self@.trailing_newline ==> ends_with_single_newline(out@),
    {
        let template = self.generate_quine_template(escaped);
        proof {
            lemma_multi_line_of_template(escaped@, self@.indent, self@.trailing_newline);
        }
        self.apply_formatting(template.as_str())
    }

    /// Generate the core quine template: the data is defined first, then
    /// used to print both the code and the data.
    pub fn generate_quine_template(&self, escaped_data: &str) -> (out: String)
        ensures
            out@ == quine_template(escaped_data@),
    {
        let mut out = String::new();
        out.append(TEMPLATE_HEAD);
        out.append(escaped_data);
        out.append(TEMPLATE_TAIL);
        assert(out@ =~= quine_template(escaped_data@));
        out
    }

    /// Break `code` into lines at braces and semicolons that stand outside
    /// string literals, indenting by nesting depth.
    pub fn apply_formatting(&self, code: &str) -> (out: String)
        ensures
            out@ == multi_line_of(code@, self@.indent, self@.trailing_newline),
            self@.trailing_newline ==> ends_with_newline(out@),
    {
        let indent = self.options.indent.as_str();
        let mut result = String::new();
        let mut depth: usize = 0;
        let mut in_string = false;
        let mut escape_next = false;

        // The depth never exceeds the number of characters read, and a text
        // has no more characters than bytes.
        let bytes = byte_len(code);
        proof {
            lemma_utf8_len_bounds_chars(code@);
            assert(code@.take(0) =~= Seq::<char>::empty());
        }

        for ch in it: code.chars()
            invariant
                it.seq() == code@,
                code@.len() <= bytes,
                depth <= it.index(),
                scan(code@.take(it.index()), indent@) == (ScanState {
                    out: result@,
                    depth: depth as nat,
                    in_string,
                    escape_next,
                }),
        {
            let ghost before = result@;
            proof {
                let next = code@.take(it.index() + 1);
                assert(next.drop_last() =~= code@.take(it.index()));
                assert(next.last() == ch);
            }
            if escape_next {
                result.push(ch);
                escape_next = false;
            } else if ch == '\\' && in_string {
                result.push(ch);
                escape_next = true;
            } else if ch == '"' {
                result.push(ch);
                in_string = !in_string;
            } else if ch == '{' && !in_string {
                depth += 1;
                result.push(ch);
                result.push('\n');
                push_repeated(&mut result, indent, depth);
                assert(result@ =~= before.push(ch) + line_break(indent@, depth as nat));
            } else if ch == '}' && !in_string {
                depth = depth.saturating_sub(1);
                result.push('\n');
                push_repeated(&mut result, indent, depth);
                result.push(ch);
                assert(result@ =~= (before + line_break(indent@, depth as nat)).push(ch));
            } else if ch == ';' && !in_string {
                result.push(ch);
                result.push('\n');
                push_repeated(&mut result, indent, depth);
                assert(result@ =~= before.push(ch) + line_break(indent@, depth as nat));
            } else {
                result.push(ch);
            }
        }
        assert(code@.take(code@.len() as int) =~= code@);

        if self.options.trailing_newline && !str_ends_with_newline(result.as_str()) {
            result.push('\n');
        }

        result
    }
}

} // verus!
