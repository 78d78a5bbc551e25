use psychoquine_core::formatter::{
    halve_space_pairs, remove_newlines, Formatter, TEMPLATE_HEAD, TEMPLATE_TAIL,
};
use psychoquine_core::{EscapeStrategy, FormatOptions, OutputFormat};

fn formatted(code: &str, indent: &str, trailing_newline: bool) -> String {
    let mut options = FormatOptions::default().with_indent(indent);
    options.trailing_newline = trailing_newline;
    Formatter::new(options).apply_formatting(code)
}

fn multi(escaped: &str, indent: &str) -> String {
    Formatter::new(FormatOptions::default().with_indent(indent)).format_multi_line("", escaped)
}

#[test]
fn test_default_options() {
    let options = FormatOptions::default();
    assert_eq!(options.indent, "    ");
    assert_eq!(options.max_line_length, 80);
    assert!(options.trailing_newline);
}

#[test]
fn test_formatter_one_line() {
    let formatter = Formatter::new(FormatOptions::one_line());
    let result = formatter.format_one_line("test", "test");
    assert!(!result.contains('\n') || result.ends_with('\n') && result.matches('\n').count() == 1);
}

#[test]
fn default_options_in_full() {
    let options = FormatOptions::default();
    assert_eq!(options.escape_strategy, EscapeStrategy::Standard);
    assert_eq!(options.indent, "    ");
    assert_eq!(options.max_line_length, 80);
    assert!(options.trailing_newline);
    assert_eq!(options.output_format, OutputFormat::Both);
    assert_eq!(OutputFormat::default(), OutputFormat::MultiLine);
}

#[test]
fn one_line_and_multi_line_options_differ_from_default_in_format_only() {
    let one = FormatOptions::one_line();
    assert_eq!(one.output_format, OutputFormat::OneLine);
    assert_eq!(one.escape_strategy, EscapeStrategy::Standard);
    assert_eq!(one.indent, "    ");
    assert_eq!(one.max_line_length, 80);
    assert!(one.trailing_newline);
    let multi = FormatOptions::multi_line();
    assert_eq!(multi.output_format, OutputFormat::MultiLine);
    assert_eq!(multi.escape_strategy, EscapeStrategy::Standard);
    assert_eq!(multi.indent, "    ");
    assert_eq!(multi.max_line_length, 80);
    assert!(multi.trailing_newline);
}

#[test]
fn setters_change_one_field_each() {
    let options = FormatOptions::one_line()
        .with_escape_strategy(EscapeStrategy::Hexadecimal)
        .with_indent("\t")
        .with_max_line_length(0);
    assert_eq!(options.escape_strategy, EscapeStrategy::Hexadecimal);
    assert_eq!(options.indent, "\t");
    assert_eq!(options.max_line_length, 0);
    assert!(options.trailing_newline);
    assert_eq!(options.output_format, OutputFormat::OneLine);
    let options = options.with_indent("");
    assert_eq!(options.indent, "");
    assert_eq!(options.escape_strategy, EscapeStrategy::Hexadecimal);
}

#[test]
fn clone_keeps_every_field() {
    let mut options = FormatOptions::multi_line()
        .with_escape_strategy(EscapeStrategy::Unicode)
        .with_indent("  ")
        .with_max_line_length(120);
    options.trailing_newline = false;
    let copy = options.clone();
    assert_eq!(copy.escape_strategy, EscapeStrategy::Unicode);
    assert_eq!(copy.indent, "  ");
    assert_eq!(copy.max_line_length, 120);
    assert!(!copy.trailing_newline);
    assert_eq!(copy.output_format, OutputFormat::MultiLine);
}

#[test]
fn template_is_the_fixed_program_around_the_text() {
    let formatter = Formatter::new(FormatOptions::default());
    for escaped in ["", "X", "hello\\nworld", "é{};\"", "  "] {
        let expected = format!(
            r#"(function(){{var d="{}";var q=String.fromCharCode(34);console.log("(function(){{var d="+q+d+q+";"+d.slice(d.indexOf("var q")))}})()"#,
            escaped
        );
        assert_eq!(formatter.generate_quine_template(escaped), expected);
        assert_eq!(
            formatter.generate_quine_template(escaped),
            format!("{}{}{}", TEMPLATE_HEAD, escaped, TEMPLATE_TAIL)
        );
    }
}

#[test]
fn template_parts() {
    assert_eq!(TEMPLATE_HEAD, "(function(){var d=\"");
    assert!(TEMPLATE_TAIL.starts_with("\";var q="));
    assert!(TEMPLATE_TAIL.ends_with("})()"));
    assert_eq!(TEMPLATE_HEAD.len() + TEMPLATE_TAIL.len(), 126);
}

#[test]
fn max_line_length_changes_nothing() {
    let narrow = Formatter::new(FormatOptions::default().with_max_line_length(1));
    let wide = Formatter::new(FormatOptions::default().with_max_line_length(0));
    assert_eq!(narrow.format_one_line("", "some text"), wide.format_one_line("", "some text"));
    assert_eq!(narrow.format_multi_line("", "some text"), wide.format_multi_line("", "some text"));
}

#[test]
fn data_argument_changes_nothing() {
    let formatter = Formatter::new(FormatOptions::default());
    assert_eq!(formatter.format_one_line("one", "e"), formatter.format_one_line("two", "e"));
    assert_eq!(formatter.format_multi_line("one", "e"), formatter.format_multi_line("two", "e"));
}

#[test]
fn removing_newlines() {
    assert_eq!(remove_newlines(""), "");
    assert_eq!(remove_newlines("\n"), "");
    assert_eq!(remove_newlines("a\nb"), "ab");
    assert_eq!(remove_newlines("\n\na\n\nb\n"), "ab");
    assert_eq!(remove_newlines("a\r\nb"), "a\rb");
    assert_eq!(remove_newlines("no newline"), "no newline");
    assert_eq!(remove_newlines("é\n日"), "é日");
}

#[test]
fn halving_pairs_of_spaces() {
    assert_eq!(halve_space_pairs(""), "");
    assert_eq!(halve_space_pairs(" "), " ");
    assert_eq!(halve_space_pairs("  "), " ");
    assert_eq!(halve_space_pairs("a  b"), "a b");
    assert_eq!(halve_space_pairs(" a "), " a ");
    assert_eq!(halve_space_pairs("  a  "), " a ");
    assert_eq!(halve_space_pairs("a \n b"), "a \n b");
    assert_eq!(halve_space_pairs("\t\t"), "\t\t");
    assert_eq!(halve_space_pairs("é  日"), "é 日");
}

#[test]
fn halving_is_one_pass_and_leaves_longer_runs() {
    assert_eq!(halve_space_pairs("   "), "  ");
    assert_eq!(halve_space_pairs("    "), "  ");
    assert_eq!(halve_space_pairs("     "), "   ");
    assert_eq!(halve_space_pairs("      "), "   ");
    assert_eq!(halve_space_pairs("a   b"), "a  b");
    assert_eq!(halve_space_pairs("a  b   c    d"), "a b  c  d");
}

#[test]
fn one_line_of_plain_text_is_the_template() {
    let formatter = Formatter::new(FormatOptions::default());
    assert_eq!(
        formatter.format_one_line("", "test"),
        "(function(){var d=\"test\";var q=String.fromCharCode(34);console.log(\"(function(){var d=\"+q+d+q+\";\"+d.slice(d.indexOf(\"var q\")))})()"
    );
    assert_eq!(
        formatter.format_one_line("", "hello\\nworld"),
        "(function(){var d=\"hello\\nworld\";var q=String.fromCharCode(34);console.log(\"(function(){var d=\"+q+d+q+\";\"+d.slice(d.indexOf(\"var q\")))})()"
    );
}

#[test]
fn one_line_strips_newlines_then_halves_space_pairs() {
    let formatter = Formatter::new(FormatOptions::default());
    assert_eq!(
        formatter.format_one_line("", "a\nb"),
        "(function(){var d=\"ab\";var q=String.fromCharCode(34);console.log(\"(function(){var d=\"+q+d+q+\";\"+d.slice(d.indexOf(\"var q\")))})()"
    );
    assert_eq!(
        formatter.format_one_line("", "a  b"),
        "(function(){var d=\"a b\";var q=String.fromCharCode(34);console.log(\"(function(){var d=\"+q+d+q+\";\"+d.slice(d.indexOf(\"var q\")))})()"
    );
    assert_eq!(
        formatter.format_one_line("", "a   b"),
        "(function(){var d=\"a  b\";var q=String.fromCharCode(34);console.log(\"(function(){var d=\"+q+d+q+\";\"+d.slice(d.indexOf(\"var q\")))})()"
    );
    assert_eq!(
        formatter.format_one_line("", "a    b"),
        "(function(){var d=\"a  b\";var q=String.fromCharCode(34);console.log(\"(function(){var d=\"+q+d+q+\";\"+d.slice(d.indexOf(\"var q\")))})()"
    );
    assert_eq!(
        formatter.format_one_line("", "a     b"),
        "(function(){var d=\"a   b\";var q=String.fromCharCode(34);console.log(\"(function(){var d=\"+q+d+q+\";\"+d.slice(d.indexOf(\"var q\")))})()"
    );
    assert_eq!(
        formatter.format_one_line("", " \n "),
        "(function(){var d=\" \";var q=String.fromCharCode(34);console.log(\"(function(){var d=\"+q+d+q+\";\"+d.slice(d.indexOf(\"var q\")))})()"
    );
    assert_eq!(
        formatter.format_one_line("", "\n\n"),
        "(function(){var d=\"\";var q=String.fromCharCode(34);console.log(\"(function(){var d=\"+q+d+q+\";\"+d.slice(d.indexOf(\"var q\")))})()"
    );
    assert_eq!(
        formatter.format_one_line("", "x \n y"),
        "(function(){var d=\"x y\";var q=String.fromCharCode(34);console.log(\"(function(){var d=\"+q+d+q+\";\"+d.slice(d.indexOf(\"var q\")))})()"
    );
    assert_eq!(
        formatter.format_one_line("", "é  日"),
        "(function(){var d=\"é 日\";var q=String.fromCharCode(34);console.log(\"(function(){var d=\"+q+d+q+\";\"+d.slice(d.indexOf(\"var q\")))})()"
    );
}

#[test]
fn one_line_never_holds_a_newline() {
    let formatter = Formatter::new(FormatOptions::default());
    for escaped in ["", "\n", "a\nb\n", "\n\n\n", " \n \n ", "{\n}"] {
        let line = formatter.format_one_line("", escaped);
        assert!(!line.contains('\n'));
        assert!(!line.is_empty());
    }
}

#[test]
fn multi_line_of_the_template() {
    assert_eq!(
        multi("test", "    "),
        "(function(){\n    var d=\"test\";\n    var q=String.fromCharCode(34);\n    console.log(\"(function(){var d=\"+q+d+q+\";\"+d.slice(d.indexOf(\"var q\")))\n})()\n"
    );
    assert_eq!(
        multi("test", "  "),
        "(function(){\n  var d=\"test\";\n  var q=String.fromCharCode(34);\n  console.log(\"(function(){var d=\"+q+d+q+\";\"+d.slice(d.indexOf(\"var q\")))\n})()\n"
    );
    assert_eq!(
        multi("a{b};c", "    "),
        "(function(){\n    var d=\"a{b};c\";\n    var q=String.fromCharCode(34);\n    console.log(\"(function(){var d=\"+q+d+q+\";\"+d.slice(d.indexOf(\"var q\")))\n})()\n"
    );
    assert_eq!(
        multi("a{b};c", "  "),
        "(function(){\n  var d=\"a{b};c\";\n  var q=String.fromCharCode(34);\n  console.log(\"(function(){var d=\"+q+d+q+\";\"+d.slice(d.indexOf(\"var q\")))\n})()\n"
    );
    assert_eq!(
        multi("\\\"", "    "),
        "(function(){\n    var d=\"\\\"\";\n    var q=String.fromCharCode(34);\n    console.log(\"(function(){var d=\"+q+d+q+\";\"+d.slice(d.indexOf(\"var q\")))\n})()\n"
    );
    assert_eq!(
        multi("\\\"", "  "),
        "(function(){\n  var d=\"\\\"\";\n  var q=String.fromCharCode(34);\n  console.log(\"(function(){var d=\"+q+d+q+\";\"+d.slice(d.indexOf(\"var q\")))\n})()\n"
    );
}

#[test]
fn multi_line_when_the_text_closes_the_literal() {
    assert_eq!(
        multi("a\";{b;}//", "    "),
        "(function(){\n    var d=\"a\";\n    {\n        b;\n        \n    }//\";var q=String.fromCharCode(34);console.log(\"(function(){\n        var d=\"+q+d+q+\";\n        \"+d.slice(d.indexOf(\"var q\")))})()\n"
    );
    assert_eq!(
        multi("x\\", "    "),
        "(function(){\n    var d=\"x\\\";var q=String.fromCharCode(34);console.log(\"(function(){\n        var d=\"+q+d+q+\";\n        \"+d.slice(d.indexOf(\"var q\")))})()\n"
    );
    assert_eq!(
        multi("\";}}}{{\"", "    "),
        "(function(){\n    var d=\"\";\n    \n}\n}\n}{\n    {\n        \"\";\n        var q=String.fromCharCode(34);\n        console.log(\"(function(){var d=\"+q+d+q+\";\"+d.slice(d.indexOf(\"var q\")))\n    })()\n"
    );
}

#[test]
fn multi_line_ends_with_exactly_one_newline() {
    for escaped in ["", "test", "a;", "{", "}", "\n", "x\\", "\"", "\";}}}{{\""] {
        for indent in ["", "    ", "\n", "\t"] {
            let text = multi(escaped, indent);
            assert!(text.ends_with(")\n"));
            assert!(!text.ends_with("\n\n"));
        }
    }
}

#[test]
fn multi_line_without_trailing_newline() {
    let mut options = FormatOptions::default();
    options.trailing_newline = false;
    let text = Formatter::new(options).format_multi_line("", "test");
    assert_eq!(
        text,
        "(function(){\n    var d=\"test\";\n    var q=String.fromCharCode(34);\n    console.log(\"(function(){var d=\"+q+d+q+\";\"+d.slice(d.indexOf(\"var q\")))\n})()"
    );
}

#[test]
fn scan_of_plain_code() {
    assert_eq!(formatted("", "    ", true), "\n");
    assert_eq!(formatted("a", "    ", true), "a\n");
    assert_eq!(formatted("abc", "    ", true), "abc\n");
    assert_eq!(formatted("a\n", "    ", true), "a\n");
}

#[test]
fn scan_breaks_lines_at_braces_and_semicolons() {
    assert_eq!(formatted("{", "    ", true), "{\n    \n");
    assert_eq!(formatted("}", "    ", true), "\n}\n");
    assert_eq!(formatted(";", "    ", true), ";\n");
    assert_eq!(formatted("{}", "    ", true), "{\n    \n}\n");
    assert_eq!(formatted("{{}}", "    ", true), "{\n    {\n        \n    }\n}\n");
    assert_eq!(formatted("a{b;c}d", "    ", true), "a{\n    b;\n    c\n}d\n");
    assert_eq!(formatted("f(){g(){x;}}", "    ", true), "f(){\n    g(){\n        x;\n        \n    }\n}\n");
    assert_eq!(formatted("é{日;}", "    ", true), "é{\n    日;\n    \n}\n");
}

#[test]
fn scan_depth_stops_at_zero() {
    assert_eq!(formatted("}", "    ", true), "\n}\n");
    assert_eq!(formatted("}}}{", "    ", true), "\n}\n}\n}{\n    \n");
    assert_eq!(formatted("}a{b}}c{", "    ", true), "\n}a{\n    b\n}\n}c{\n    \n");
}

#[test]
fn scan_leaves_string_literals_alone() {
    assert_eq!(formatted("\"{;}\"", "    ", true), "\"{;}\"\n");
    assert_eq!(formatted("{\"}\"}", "    ", true), "{\n    \"}\"\n}\n");
    assert_eq!(formatted("\"", "    ", true), "\"\n");
}

#[test]
fn scan_copies_the_character_after_a_backslash_in_a_literal() {
    assert_eq!(formatted("\"a\\\"{\"{", "    ", true), "\"a\\\"{\"{\n    \n");
    assert_eq!(formatted("\"\\\\\"{", "    ", true), "\"\\\\\"{\n    \n");
    assert_eq!(formatted("\"\\", "    ", true), "\"\\\n");
    assert_eq!(formatted("\"\\{\"{", "    ", true), "\"\\{\"{\n    \n");
}

#[test]
fn scan_treats_a_backslash_outside_a_literal_as_plain() {
    assert_eq!(formatted("\\\"{", "    ", true), "\\\"{\n");
    assert_eq!(formatted("\\{", "    ", true), "\\{\n    \n");
    assert_eq!(formatted("\\;\\}", "    ", true), "\\;\n\\\n}\n");
}

#[test]
fn trailing_newline_is_added_only_when_missing() {
    assert_eq!(formatted("", "    ", true), "\n");
    assert_eq!(formatted("a", "    ", true), "a\n");
    assert_eq!(formatted("a\n", "    ", true), "a\n");
    assert_eq!(formatted("\n\n", "    ", true), "\n\n");
    assert_eq!(formatted("a;\n", "    ", true), "a;\n\n");
    assert_eq!(formatted(";", "    ", true), ";\n");
}

#[test]
fn no_trailing_newline_when_not_asked_for() {
    assert_eq!(formatted("", "    ", false), "");
    assert_eq!(formatted("a", "    ", false), "a");
    assert_eq!(formatted("a;", "    ", false), "a;\n");
    assert_eq!(formatted("{", "    ", false), "{\n    ");
    assert_eq!(formatted("a\n", "    ", false), "a\n");
    assert_eq!(formatted("{}", "    ", false), "{\n    \n}");
}

#[test]
fn indent_unit_is_repeated_by_depth() {
    assert_eq!(formatted("{a;{b;}}", "", true), "{\na;\n{\nb;\n\n}\n}\n");
    assert_eq!(formatted(";", "", true), ";\n");
    assert_eq!(formatted("{", "", true), "{\n");
    assert_eq!(formatted("{a;{b;}}", " ", true), "{\n a;\n {\n  b;\n  \n }\n}\n");
    assert_eq!(formatted(";", " ", true), ";\n");
    assert_eq!(formatted("{", " ", true), "{\n \n");
    assert_eq!(formatted("{a;{b;}}", "\t", true), "{\n\ta;\n\t{\n\t\tb;\n\t\t\n\t}\n}\n");
    assert_eq!(formatted(";", "\t", true), ";\n");
    assert_eq!(formatted("{", "\t", true), "{\n\t\n");
    assert_eq!(formatted("{a;{b;}}", "--", true), "{\n--a;\n--{\n----b;\n----\n--}\n}\n");
    assert_eq!(formatted(";", "--", true), ";\n");
    assert_eq!(formatted("{", "--", true), "{\n--\n");
    assert_eq!(formatted("{a;{b;}}", "\n", true), "{\n\na;\n\n{\n\n\nb;\n\n\n\n\n}\n}\n");
    assert_eq!(formatted(";", "\n", true), ";\n");
    assert_eq!(formatted("{", "\n", true), "{\n\n");
}
