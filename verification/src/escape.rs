//! Escape strategies: how arbitrary text is made safe to stand inside a
//! double-quoted string literal.

use crate::text::{hex_digits, push_hex, str_eq};
use vstd::prelude::*;

verus! {

/// Strategy for escaping special characters in quine output.
#[derive(Debug, Clone, Copy, PartialEq, Eq, Structural)]
pub enum EscapeStrategy {
    /// Standard escape sequences (`\n`, `\t`, `\"`, ...).
    Standard,
    /// Unicode escape sequences (`\u{XXXX}`).
    Unicode,
    /// Hexadecimal escape sequences (`\xXX`).
    Hexadecimal,
    /// Raw string literals where possible.
    Raw,
}

impl Default for EscapeStrategy {
    fn default() -> (r: Self)
        ensures
            r == EscapeStrategy::Standard,
    {
        EscapeStrategy::Standard
    }
}

/// Control characters: the code points U+0000..=U+001F and U+007F..=U+009F.
pub open spec fn is_control(c: char) -> bool {
    c as u32 <= 0x1f || 0x7f <= c as u32 <= 0x9f
}

/// Printable ASCII: the graphic characters U+0021..=U+007E and the space.
pub open spec fn is_ascii_printable(c: char) -> bool {
    0x20 <= c as u32 <= 0x7e
}

/// A backslash followed by `c`.
pub open spec fn backslashed(c: char) -> Seq<char> {
    seq!['\\', c]
}

/// `\xHH`: the code point in lowercase hexadecimal, two digits wide for every
/// code point up to U+00FF.
pub open spec fn hex_escape(c: char) -> Seq<char> {
    seq!['\\', 'x'] + hex_digits(c as nat, 2)
}

/// `\u{HHHH}`: the code point in lowercase hexadecimal, at least four digits.
pub open spec fn unicode_escape(c: char) -> Seq<char> {
    seq!['\\', 'u', '{'] + hex_digits(c as nat, 4) + seq!['}']
}

/// What one character becomes under the standard strategy.
pub open spec fn escape_char_standard(c: char) -> Seq<char> {
    if c == '\\' {
        backslashed('\\')
    } else if c == '"' {
        backslashed('"')
    } else if c == '\'' {
        backslashed('\'')
    } else if c == '\n' {
        backslashed('n')
    } else if c == '\r' {
        backslashed('r')
    } else if c == '\t' {
        backslashed('t')
    } else if c == '\0' {
        backslashed('0')
    } else if is_control(c) {
        hex_escape(c)
    } else {
        seq![c]
    }
}

/// What one character becomes under the Unicode strategy.
pub open spec fn escape_char_unicode(c: char) -> Seq<char> {
    if c == '\\' {
        backslashed('\\')
    } else if c == '"' {
        backslashed('"')
    } else if is_ascii_printable(c) {
        seq![c]
    } else {
        unicode_escape(c)
    }
}

/// What one character becomes under the hexadecimal strategy.
pub open spec fn escape_char_hex(c: char) -> Seq<char> {
    if c == '\\' {
        backslashed('\\')
    } else if c == '"' {
        backslashed('"')
    } else if is_ascii_printable(c) {
        seq![c]
    } else if c as u32 <= 0xff {
        hex_escape(c)
    } else {
        unicode_escape(c)
    }
}

/// What one character becomes under `strategy`. The raw strategy escapes
/// exactly as the standard one does.
pub open spec fn escape_char(strategy: EscapeStrategy, c: char) -> Seq<char> {
    match strategy {
        EscapeStrategy::Standard => escape_char_standard(c),
        EscapeStrategy::Unicode => escape_char_unicode(c),
        EscapeStrategy::Hexadecimal => escape_char_hex(c),
        EscapeStrategy::Raw => escape_char_standard(c),
    }
}

/// The escaped form of a whole text: the escaped forms of its characters,
/// in order, one after another.
pub open spec fn escape_text(strategy: EscapeStrategy, input: Seq<char>) -> Seq<char> {
    input.flat_map(|c: char| escape_char(strategy, c))
}

/// Escaping a text extended by one character appends that character's
/// escaped form.
pub proof fn lemma_escape_text_push(strategy: EscapeStrategy, input: Seq<char>, c: char)
    ensures
        escape_text(strategy, input.push(c)) == escape_text(strategy, input) + escape_char(
            strategy,
            c,
        ),
{
    let f = |c: char| escape_char(strategy, c);
    assert(input.push(c).map_values(f) =~= input.map_values(f).push(f(c)));
    input.map_values(f).lemma_flatten_push(f(c));
}

/// The empty text escapes to the empty text.
pub proof fn lemma_escape_text_empty(strategy: EscapeStrategy)
    ensures
        escape_text(strategy, Seq::empty()) == Seq::<char>::empty(),
{
    let f = |c: char| escape_char(strategy, c);
    assert(Seq::<char>::empty().map_values(f) =~= Seq::<Seq<char>>::empty());
}

/// A text whose characters each escape to themselves escapes to itself.
pub proof fn lemma_escape_text_of_kept_chars(strategy: EscapeStrategy, input: Seq<char>)
    requires
        forall|i: int| 0 <= i < input.len() ==> escape_char(strategy, input[i]) == seq![input[i]],
    ensures
        escape_text(strategy, input) == input,
    decreases input.len(),
{
    if input.len() == 0 {
        lemma_escape_text_empty(strategy);
        assert(input =~= Seq::<char>::empty());
    } else {
        lemma_escape_text_of_kept_chars(strategy, input.drop_last());
        lemma_escape_text_push(strategy, input.drop_last(), input.last());
        assert(input.drop_last().push(input.last()) =~= input);
        assert(input.drop_last() + seq![input.last()] =~= input);
    }
}

/// Under the Unicode strategy, printable ASCII text comes out unchanged,
/// provided it holds neither a backslash nor a double quote.
pub proof fn lemma_unicode_keeps_plain_ascii(input: Seq<char>)
    requires
        forall|i: int|
            0 <= i < input.len() ==> is_ascii_printable(#[trigger] input[i]) && input[i] != '\\'
                && input[i] != '"',
    ensures
        escape_text(EscapeStrategy::Unicode, input) == input,
{
    lemma_escape_text_of_kept_chars(EscapeStrategy::Unicode, input);
}

/// The raw strategy escapes every text exactly as the standard one does.
pub proof fn lemma_raw_is_standard(input: Seq<char>)
    ensures
        escape_text(EscapeStrategy::Raw, input) == escape_text(EscapeStrategy::Standard, input),
{
    let f = |c: char| escape_char(EscapeStrategy::Standard, c);
    let g = |c: char| escape_char(EscapeStrategy::Raw, c);
    assert(input.map_values(f) =~= input.map_values(g));
}

/// The strategy that a name on the command line selects: one of the four
/// names, exactly as written here, or no name for the standard strategy.
/// Any other name selects nothing.
pub open spec fn strategy_for_flag(name: Option<Seq<char>>) -> Option<EscapeStrategy> {
    match name {
        None => Some(EscapeStrategy::Standard),
        Some(name) => if name == "unicode"@ {
            Some(EscapeStrategy::Unicode)
        } else if name == "hex"@ {
            Some(EscapeStrategy::Hexadecimal)
        } else if name == "raw"@ {
            Some(EscapeStrategy::Raw)
        } else if name == "standard"@ {
            Some(EscapeStrategy::Standard)
        } else {
            None
        },
    }
}

fn push_backslashed(out: &mut String, c: char)
    ensures
        final(out)@ == old(out)@ + backslashed(c),
{
    out.push('\\');
    out.push(c);
    assert(out@ =~= old(out)@ + backslashed(c));
}

fn push_hex_escape(out: &mut String, c: char)
    ensures
        final(out)@ == old(out)@ + hex_escape(c),
{
    out.push('\\');
    out.push('x');
    push_hex(out, c as u32, 2);
    assert(out@ =~= old(out)@ + hex_escape(c));
}

fn push_unicode_escape(out: &mut String, c: char)
    ensures
        final(out)@ == old(out)@ + unicode_escape(c),
{
    out.push('\\');
    out.push('u');
    out.push('{');
    push_hex(out, c as u32, 4);
    out.push('}');
    assert(out@ =~= old(out)@ + unicode_escape(c));
}

/// Whether `c` is a control character.
pub fn char_is_control(c: char) -> (b: bool)
    ensures
        b == is_control(c),
{
    let v: u32 = c as u32;
    v <= 0x1f || (0x7f <= v && v <= 0x9f)
}

/// Whether `c` is an ASCII graphic character or the space.
pub fn char_is_ascii_printable(c: char) -> (b: bool)
    ensures
        b == is_ascii_printable(c),
{
    let v: u32 = c as u32;
    0x20 <= v && v <= 0x7e
}

impl EscapeStrategy {
    /// Escape a string according to the selected strategy.
    pub fn escape(&self, input: &str) -> (out: String)
        ensures
            out@ == escape_text(*self, input@),
    {
        match self {
            EscapeStrategy::Standard => Self::escape_standard(input),
            EscapeStrategy::Unicode => Self::escape_unicode(input),
            EscapeStrategy::Hexadecimal => Self::escape_hex(input),
            EscapeStrategy::Raw => Self::escape_raw(input),
        }
    }

    fn escape_standard(input: &str) -> (out: String)
        ensures
            out@ == escape_text(EscapeStrategy::Standard, input@),
    {
        let mut output = String::new();
        proof {
            lemma_escape_text_empty(EscapeStrategy::Standard);
            assert(input@.take(0) =~= Seq::<char>::empty());
        }
        for ch in it: input.chars()
            invariant
                it.seq() == input@,
                output@ == escape_text(EscapeStrategy::Standard, input@.take(it.index())),
        {
            proof {
                lemma_escape_text_push(EscapeStrategy::Standard, input@.take(it.index()), ch);
                assert(input@.take(it.index() + 1) =~= input@.take(it.index()).push(ch));
            }
            if ch == '\\' {
                push_backslashed(&mut output, '\\');
            } else if ch == '"' {
                push_backslashed(&mut output, '"');
            } else if ch == '\'' {
                push_backslashed(&mut output, '\'');
            } else if ch == '\n' {
                push_backslashed(&mut output, 'n');
            } else if ch == '\r' {
                push_backslashed(&mut output, 'r');
            } else if ch == '\t' {
                push_backslashed(&mut output, 't');
            } else if ch == '\0' {
                push_backslashed(&mut output, '0');
            } else if char_is_control(ch) {
                push_hex_escape(&mut output, ch);
            } else {
                output.push(ch);
            }
        }
        assert(input@.take(input@.len() as int) =~= input@);
        output
    }

    fn escape_unicode(input: &str) -> (out: String)
        ensures
            out@ == escape_text(EscapeStrategy::Unicode, input@),
    {
        let mut output = String::new();
        proof {
            lemma_escape_text_empty(EscapeStrategy::Unicode);
            assert(input@.take(0) =~= Seq::<char>::empty());
        }
        for ch in it: input.chars()
            invariant
                it.seq() == input@,
                output@ == escape_text(EscapeStrategy::Unicode, input@.take(it.index())),
        {
            proof {
                lemma_escape_text_push(EscapeStrategy::Unicode, input@.take(it.index()), ch);
                assert(input@.take(it.index() + 1) =~= input@.take(it.index()).push(ch));
            }
            if ch == '\\' {
                push_backslashed(&mut output, '\\');
            } else if ch == '"' {
                push_backslashed(&mut output, '"');
            } else if char_is_ascii_printable(ch) {
                output.push(ch);
            } else {
                push_unicode_escape(&mut output, ch);
            }
        }
        assert(input@.take(input@.len() as int) =~= input@);
        output
    }

    fn escape_hex(input: &str) -> (out: String)
        ensures
            out@ == escape_text(EscapeStrategy::Hexadecimal, input@),
    {
        let mut output = String::new();
        proof {
            lemma_escape_text_empty(EscapeStrategy::Hexadecimal);
            assert(input@.take(0) =~= Seq::<char>::empty());
        }
        for ch in it: input.chars()
            invariant
                it.seq() == input@,
                output@ == escape_text(EscapeStrategy::Hexadecimal, input@.take(it.index())),
        {
            proof {
                lemma_escape_text_push(EscapeStrategy::Hexadecimal, input@.take(it.index()), ch);
                assert(input@.take(it.index() + 1) =~= input@.take(it.index()).push(ch));
            }
            if ch == '\\' {
                push_backslashed(&mut output, '\\');
            } else if ch == '"' {
                push_backslashed(&mut output, '"');
            } else if char_is_ascii_printable(ch) {
                output.push(ch);
            } else if ch as u32 <= 0xff {
                push_hex_escape(&mut output, ch);
            } else {
                push_unicode_escape(&mut output, ch);
            }
        }
        assert(input@.take(input@.len() as int) =~= input@);
        output
    }

    fn escape_raw(input: &str) -> (out: String)
        ensures
            out@ == escape_text(EscapeStrategy::Raw, input@),
    {
        // The delimiter of a raw literal gets no treatment of its own: the
        // standard escaping stands in.
        proof {
            lemma_raw_is_standard(input@);
        }
        Self::escape_standard(input)
    }

    /// The strategy that a name on the command line selects, if any.
    pub fn from_flag(name: Option<&str>) -> (strategy: Option<EscapeStrategy>)
        ensures
            strategy == strategy_for_flag(
                match name {
                    Some(name) => Some(name@),
                    None => None,
                },
            ),
    {
        match name {
            None => Some(EscapeStrategy::Standard),
            Some(name) => {
                if str_eq(name, "unicode") {
                    Some(EscapeStrategy::Unicode)
                } else if str_eq(name, "hex") {
                    Some(EscapeStrategy::Hexadecimal)
                } else if str_eq(name, "raw") {
                    Some(EscapeStrategy::Raw)
                } else if str_eq(name, "standard") {
                    Some(EscapeStrategy::Standard)
                } else {
                    None
                }
            },
        }
    }
}

} // verus!
