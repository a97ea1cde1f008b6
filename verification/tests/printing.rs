//! Tests for the value layout engine.

use jl_proc::StructuredValue;
use jl_proc::ValuePrinter;
use jl_proc::ValuePrinterConfig;

fn num(s: &str) -> StructuredValue {
    StructuredValue::Number(s.to_string())
}

fn text(s: &str) -> StructuredValue {
    StructuredValue::Text(s.to_string())
}

#[test]
fn test_simple_values() {
    let printer = ValuePrinter::new(ValuePrinterConfig::default());
    let mut output = String::new();

    printer.print(&mut output, &StructuredValue::Null);
    assert_eq!(output, "null");
    output.clear();

    printer.print(&mut output, &StructuredValue::Boolean(true));
    assert_eq!(output, "true");
    output.clear();

    printer.print(&mut output, &num("42"));
    assert_eq!(output, "42");
    output.clear();

    printer.print(&mut output, &text("hello"));
    assert_eq!(output, "\"hello\"");
}

#[test]
fn test_simple_array() {
    let printer = ValuePrinter::new(ValuePrinterConfig::default());
    let mut output = String::new();

    let arr = StructuredValue::Array(vec![num("1"), num("2"), num("3")]);
    printer.print(&mut output, &arr);
    assert_eq!(output, "[1, 2, 3]");
}

#[test]
fn test_simple_object() {
    let printer = ValuePrinter::new(ValuePrinterConfig::default());
    let mut output = String::new();

    let obj = StructuredValue::Object(vec![
        ("a".to_string(), num("1")),
        ("b".to_string(), num("2")),
    ]);
    printer.print(&mut output, &obj);
    assert!(output == "{a: 1, b: 2}" || output == "{b: 2, a: 1}");
}

#[test]
fn test_nested_structure() {
    let printer = ValuePrinter::new(ValuePrinterConfig::default());
    let mut output = String::new();

    let alice = StructuredValue::Object(vec![
        ("name".to_string(), text("Alice")),
        ("age".to_string(), num("30")),
    ]);
    let bob = StructuredValue::Object(vec![
        ("name".to_string(), text("Bob")),
        ("age".to_string(), num("25")),
    ]);
    let nested = StructuredValue::Object(vec![
        ("users".to_string(), StructuredValue::Array(vec![alice, bob])),
        ("count".to_string(), num("2")),
    ]);

    printer.print(&mut output, &nested);
    assert!(output.contains('\n'));
    assert!(output.contains("users"));
    assert!(output.contains("Alice"));
}

#[test]
fn test_object_contents_without_braces() {
    let printer = ValuePrinter::new(ValuePrinterConfig::default());
    let mut output = String::new();

    let obj = vec![
        ("key1".to_string(), text("value1")),
        ("key2".to_string(), num("42")),
    ];
    printer.print_object_contents(&mut output, &obj, 2);

    assert!(!output.contains('{'));
    assert!(!output.contains('}'));
    assert!(output.starts_with("    "));
    assert!(output.contains("key1"));
    assert!(output.contains("value1"));
    assert!(output.contains("key2"));
    assert!(output.contains("42"));
}

#[test]
fn compact_array_of_scalars_stays_on_one_line() {
    let printer = ValuePrinter::new(ValuePrinterConfig::default());
    let mut output = String::new();
    let arr = StructuredValue::Array(vec![
        num("1"),
        text("two"),
        StructuredValue::Boolean(false),
        StructuredValue::Null,
        num("5"),
        num("6"),
        num("7"),
        num("8"),
        num("9"),
        num("10"),
    ]);
    printer.print(&mut output, &arr);
    assert_eq!(output, "[1, \"two\", false, null, 5, 6, 7, 8, 9, 10]");
    assert!(!output.contains('\n'));
}

#[test]
fn array_with_nested_container_expands() {
    let printer = ValuePrinter::new(ValuePrinterConfig::default());
    let mut output = String::new();
    let arr = StructuredValue::Array(vec![num("1"), StructuredValue::Array(vec![])]);
    printer.print(&mut output, &arr);
    assert_eq!(output, "[\n  1,\n  []\n]");
    assert!(output.contains('\n'));
}

#[test]
fn empty_containers_render_compact() {
    let printer = ValuePrinter::new(ValuePrinterConfig::default());
    let mut output = String::new();
    printer.print(&mut output, &StructuredValue::Array(vec![]));
    assert_eq!(output, "[]");
    output.clear();
    printer.print(&mut output, &StructuredValue::Object(vec![]));
    assert_eq!(output, "{}");
}

#[test]
fn object_compact_versus_expanded_by_width() {
    let printer = ValuePrinter::new(ValuePrinterConfig::default());
    let mut output = String::new();
    let obj = StructuredValue::Object(vec![
        ("a".to_string(), num("1")),
        ("b".to_string(), num("2")),
    ]);
    printer.print(&mut output, &obj);
    assert_eq!(output, "{a: 1, b: 2}");

    let long = "x".repeat(90);
    let wide = StructuredValue::Object(vec![
        ("a".to_string(), text(&long)),
        ("b".to_string(), num("2")),
    ]);
    output.clear();
    printer.print(&mut output, &wide);
    assert!(output.contains('\n'));
    assert!(output.starts_with("{\n  a: \"x"));
    assert!(output.ends_with("\n  b: 2\n}"));
}

#[test]
fn rendering_is_idempotent() {
    let printer = ValuePrinter::new(ValuePrinterConfig::default());
    let value = StructuredValue::Object(vec![
        ("k".to_string(), StructuredValue::Array(vec![num("1"), text("s")])),
        ("m".to_string(), StructuredValue::Null),
    ]);
    let mut first = String::new();
    printer.print(&mut first, &value);
    let mut second = String::new();
    printer.print(&mut second, &value);
    assert_eq!(first, second);
}

#[test]
fn colored_tokens_wrap_scalars() {
    let config = ValuePrinterConfig {
        use_color: true,
        indent_size: 2,
        max_width: 80,
    };
    let printer = ValuePrinter::new(config);
    let mut output = String::new();
    printer.print(&mut output, &num("7"));
    assert_eq!(output, "\x1b[38;5;11m7\x1b[m");
    output.clear();
    printer.print(&mut output, &StructuredValue::Null);
    assert_eq!(output, "\x1b[38;5;8mnull\x1b[m");
}

#[test]
fn custom_indent_size_is_honored() {
    let config = ValuePrinterConfig {
        use_color: false,
        indent_size: 4,
        max_width: 80,
    };
    let printer = ValuePrinter::new(config);
    let mut output = String::new();
    let arr = StructuredValue::Array(vec![StructuredValue::Array(vec![num("1")])]);
    printer.print(&mut output, &arr);
    assert_eq!(output, "[\n    [1]\n]");
}
