use ditto_checker::cst::{Expression, ForeignValueDeclaration, TypeDeclaration, ValueDeclaration};
use ditto_checker::fmt::declaration::{
    gen_foreign_value_declaration, gen_type_declaration, gen_value_declaration,
};
use ditto_checker::fmt::expression::gen_expression;
use ditto_checker::fmt::items::{Item, MAX_WIDTH};
use ditto_checker::fmt::measure::{is_printable, nests_within, weighs_within};
use ditto_checker::fmt::print::{print, try_print};

fn assert_fmt(source: &str, want: &str, max_width: u32) {
    let items = gen_expression(&Expression::parse(source).unwrap());
    assert!(is_printable(&items), "{:?}", source);
    assert_eq!(print(&items, max_width), want, "{:?}", source);
}

fn assert_type_fmt(source: &str, want: &str, max_width: u32) {
    let items = gen_type_declaration(&TypeDeclaration::parse(source).unwrap());
    assert!(is_printable(&items), "{:?}", source);
    assert_eq!(print(&items, max_width), want, "{:?}", source);
}

fn assert_value_fmt(source: &str, want: &str, max_width: u32) {
    let items = gen_value_declaration(&ValueDeclaration::parse(source).unwrap());
    assert!(is_printable(&items), "{:?}", source);
    assert_eq!(print(&items, max_width), want, "{:?}", source);
}

fn assert_foreign_fmt(source: &str, want: &str, max_width: u32) {
    let items = gen_foreign_value_declaration(&ForeignValueDeclaration::parse(source).unwrap());
    assert!(is_printable(&items), "{:?}", source);
    assert_eq!(print(&items, max_width), want, "{:?}", source);
}

#[test]
fn it_formats_type_declarations() {
    assert_type_fmt("type Unknown;", "type Unknown;", MAX_WIDTH);
    assert_type_fmt(
        "-- comment\ntype Unknown;  -- comment",
        "-- comment\ntype Unknown;  -- comment",
        MAX_WIDTH,
    );
    assert_type_fmt(
        "type Huh(\n\t-- comment\n\ta,\n);",
        "type Huh(\n\t-- comment\n\ta,\n);",
        MAX_WIDTH,
    );
    assert_type_fmt("type Unit = Unit;", "type Unit = Unit;", MAX_WIDTH);
    assert_type_fmt(
        "type Unit = Loooooooooooooooooooooooooooooooooooooooooong;",
        "type Unit =\n\tLoooooooooooooooooooooooooooooooooooooooooong;",
        20,
    );
    assert_type_fmt(
        "type Unit =\n\t-- comment\n\tUnit;",
        "type Unit =\n\t-- comment\n\tUnit;",
        MAX_WIDTH,
    );
    assert_type_fmt("type Unit = | Unit;", "type Unit = Unit;", MAX_WIDTH);
    assert_type_fmt("type AB = A | B;", "type AB =\n\t| A\n\t| B;", MAX_WIDTH);
    assert_type_fmt(
        "type Maybe(a) =\n\t-- comment\n\t| Just(a)\n\t-- comment\n\t| Nothing;",
        "type Maybe(a) =\n\t-- comment\n\t| Just(a)\n\t-- comment\n\t| Nothing;",
        MAX_WIDTH,
    );
}

#[test]
fn it_formats_value_declarations() {
    assert_value_fmt("foo = 5;", "foo = 5;", MAX_WIDTH);
    assert_value_fmt("foo: Int = 5;", "foo: Int = 5;", MAX_WIDTH);
    assert_value_fmt("foo: Int = 5;", "foo: Int =\n\t5;", 5);
    assert_value_fmt(
        "foo: Int =  -- comment\n\t5;",
        "foo: Int =  -- comment\n\t5;",
        MAX_WIDTH,
    );
    assert_value_fmt(
        "foo: Int =\n\t-- comment\n\t5;",
        "foo: Int =\n\t-- comment\n\t5;",
        MAX_WIDTH,
    );
    assert_value_fmt(
        "f: (a, b) -> c =\n\t-- comment\n\t[1, 2, 3, 4, 5];",
        "f: (a, b) -> c =\n\t-- comment\n\t[1, 2, 3, 4, 5];",
        MAX_WIDTH,
    );
    assert_value_fmt(
        "f: Dunno =  -- comment\n\t-- comment\n\tbody;",
        "f: Dunno =  -- comment\n\t-- comment\n\tbody;",
        MAX_WIDTH,
    );
    assert_value_fmt(
        "x = xxxxxxxxxxxxxxxxxxxxxxxxxx;",
        "x =\n\txxxxxxxxxxxxxxxxxxxxxxxxxx;",
        10,
    );
    assert_value_fmt(
        "to_string = (dunno: Unknown): Maybe(String) -> to_string_impl(\n\tdunno,\n\tJust,\n\tNothing,\n);",
        "to_string = (dunno: Unknown): Maybe(String) -> to_string_impl(\n\tdunno,\n\tJust,\n\tNothing,\n);",
        MAX_WIDTH,
    );
    assert_value_fmt(
        "xs: Array(Int) = [\n\t-- comment\n\t1,\n];",
        "xs: Array(Int) = [\n\t-- comment\n\t1,\n];",
        MAX_WIDTH,
    );
    assert_value_fmt(
        "xs: Array(Int) =  -- comment\n\t-- comment\n\t[5];",
        "xs: Array(Int) =  -- comment\n\t-- comment\n\t[5];",
        MAX_WIDTH,
    );
    assert_value_fmt(
        "whytho = looooong(looooong(loooooong(loooooong(5))));",
        "whytho =\n\tlooooong(\n\t\tlooooong(\n\t\t\tloooooong(\n\t\t\t\tloooooong(\n\t\t\t\t\t5,\n\t\t\t\t),\n\t\t\t),\n\t\t),\n\t);",
        5,
    );
}

#[test]
fn it_formats_foreign_value_declarations() {
    assert_foreign_fmt("foreign foo: Int;", "foreign foo: Int;", MAX_WIDTH);
    assert_foreign_fmt(
        "foreign  --comment\n foo: Int;",
        "foreign  --comment\n foo: Int;",
        MAX_WIDTH,
    );
    assert_foreign_fmt(
        "foreign foo: (\n\t-- comment a,\n) -> b;",
        "foreign foo: (\n\t-- comment a,\n) -> b;",
        MAX_WIDTH,
    );
}

#[test]
fn it_formats_empty_arrays() {
    assert_fmt("[]", "[]", MAX_WIDTH);
    assert_fmt("[  ]", "[]", MAX_WIDTH);
    assert_fmt("-- comment\n[]", "-- comment\n[]", MAX_WIDTH);
    assert_fmt("[\n\t-- comment\n]", "[\n\t-- comment\n]", MAX_WIDTH);
    assert_fmt("[-- comment\n  ]", "[  -- comment\n]", MAX_WIDTH);
    assert_fmt("[\n-- comment\n  ]", "[\n\t-- comment\n]", MAX_WIDTH);
}

#[test]
fn it_formats_single_line_arrays() {
    assert_fmt("[ true ]", "[true]", MAX_WIDTH);
    assert_fmt("[ true , true   ]", "[true, true]", MAX_WIDTH);
    assert_fmt("[ true,   true, true, ]", "[true, true, true]", MAX_WIDTH);
    assert_fmt("[true,true,]", "[true, true]", MAX_WIDTH);
    assert_fmt(
        "-- comment\n[ true , true   ]",
        "-- comment\n[true, true]",
        MAX_WIDTH,
    );
}

#[test]
fn it_formats_multi_line_arrays() {
    assert_fmt("[true,true]", "[\n\ttrue,\n\ttrue,\n]", 6);

    assert_fmt("[true,true]", "[\n\ttrue,\n\ttrue,\n]", 11);
    assert_fmt("[true,true]", "[true, true]", 12);

    assert_fmt(
        "[  -- comment\n\ttrue,\n]",
        "[  -- comment\n\ttrue,\n]",
        MAX_WIDTH,
    );
    assert_fmt(
        "[\n\t-- comment\n\ttrue,\n]",
        "[\n\t-- comment\n\ttrue,\n]",
        MAX_WIDTH,
    );
    assert_fmt(
        "[true, -- comment\ntrue]",
        "[\n\ttrue,  -- comment\n\ttrue,\n]",
        MAX_WIDTH,
    );
    assert_fmt(
        "[true,true, -- comment\n]",
        "[\n\ttrue,\n\ttrue,  -- comment\n]",
        MAX_WIDTH,
    );
    assert_fmt(
        "[ true,   true, true, -- comment\n ]",
        "[\n\ttrue,\n\ttrue,\n\ttrue,  -- comment\n]",
        MAX_WIDTH,
    );
}

#[test]
fn it_formats_nested_arrays() {
    assert_fmt("[[]]", "[[]]", MAX_WIDTH);
    assert_fmt(
        "[[true, true]]",
        "[\n\t[\n\t\ttrue,\n\t\ttrue,\n\t],\n]",
        13,
    );
    assert_fmt(
        "[[looooong], [\n--comment\n[[looooooong]]]]",
        "[\n\t[looooong],\n\t[\n\t\t--comment\n\t\t[[looooooong]],\n\t],\n]",
        5,
    );
}

#[test]
fn it_formats_literals() {
    assert_fmt("\"test\"", "\"test\"", MAX_WIDTH);
    assert_fmt("12345", "12345", MAX_WIDTH);
    assert_fmt("12345.00", "12345.00", MAX_WIDTH);
}

#[test]
fn it_formats_calls() {
    assert_fmt("foo()", "foo()", MAX_WIDTH);
    assert_fmt("(foo)()", "(foo)()", MAX_WIDTH);
    assert_fmt("foo()()()", "foo()()()", MAX_WIDTH);
    assert_fmt(
        "foo(\n\t-- comment\n\ta,\n)",
        "foo(\n\t-- comment\n\ta,\n)",
        MAX_WIDTH,
    );
    assert_fmt(
        "foo(aaaaa, bbbbbbb, ccccccc)",
        "foo(\n\taaaaa,\n\tbbbbbbb,\n\tccccccc,\n)",
        5,
    );
    assert_fmt(
        "foo(bar(a), baz(bbbbbbb, ccccc))",
        "foo(\n\tbar(a),\n\tbaz(\n\t\tbbbbbbb,\n\t\tccccc,\n\t),\n)",
        8,
    );
    assert_fmt(
        "foo([aaaaa, bbbbbbb, ccccccc], ddddddd)",
        "foo(\n\t[\n\t\taaaaa,\n\t\tbbbbbbb,\n\t\tccccccc,\n\t],\n\tddddddd,\n)",
        8,
    );
}

#[test]
fn it_formats_functions() {
    assert_fmt("() -> foo", "() -> foo", MAX_WIDTH);
    assert_fmt(
        "(really_long_argument) -> foo",
        "(really_long_argument) ->\n\tfoo",
        20,
    );

    assert_fmt(
        "() ->\n\t-- comment\n\tfoo",
        "() ->\n\t-- comment\n\tfoo",
        MAX_WIDTH,
    );
    assert_fmt(
        "(foo, -- comment\n) -> foo",
        "(\n\tfoo,  -- comment\n) -> foo",
        MAX_WIDTH,
    );

    assert_fmt("(): Int \n-> foo", "(): Int -> foo", MAX_WIDTH);
    assert_fmt(
        "(): Int  -- comment\n -> foo",
        "(): Int  -- comment\n -> foo",
        MAX_WIDTH,
    );

    assert_fmt("(a: Int): Int -> foo", "(a: Int): Int -> foo", MAX_WIDTH);
    assert_fmt(
        "(a: Int, b: Bool): Float -> unit",
        "(a: Int, b: Bool): Float -> unit",
        MAX_WIDTH,
    );
    assert_fmt(
        "(\n -- comment\na: Int): Int -> foo",
        "(\n\t-- comment\n\ta: Int,\n): Int -> foo",
        MAX_WIDTH,
    );
    assert_fmt(
        "() -> [\n\t-- comment\n]",
        "() -> [\n\t-- comment\n]",
        MAX_WIDTH,
    );
    assert_fmt(
        "() ->\n\t-- comment\n\t[5]",
        "() ->\n\t-- comment\n\t[5]",
        MAX_WIDTH,
    );
}

#[test]
fn it_formats_conditionals() {
    assert_fmt("if true then 5 else 5", "if true then 5 else 5", MAX_WIDTH);
    assert_fmt(
        "-- comment\nif true then 5 else 5",
        "-- comment\nif true then 5 else 5",
        MAX_WIDTH,
    );
    assert_fmt(
        "if  -- comment\n true then\n\t5\nelse\n\t5",
        "if  -- comment\n true then\n\t5\nelse\n\t5",
        MAX_WIDTH,
    );
    assert_fmt(
        "if true then\n\t--comment\n\t5\nelse\n\t5",
        "if true then\n\t--comment\n\t5\nelse\n\t5",
        MAX_WIDTH,
    );
    assert_fmt(
        "if  -- comment\n true then\n\t5\nelse\n\t5",
        "if  -- comment\n true then\n\t5\nelse\n\t5",
        MAX_WIDTH,
    );
    assert_fmt(
        "if true then loooooooooooooooooong else 5",
        "if true then\n\tloooooooooooooooooong\nelse\n\t5",
        20,
    );
}

fn nested(levels: usize, wrap: fn(Vec<Item>) -> Item) -> Vec<Item> {
    let mut items = vec![Item::Text("x".to_string())];
    for _ in 0..levels {
        items = vec![wrap(items)];
    }
    items
}

#[test]
fn a_layout_is_measured_by_its_nesting_and_its_weight() {
    let flat = vec![Item::Text("abc".to_string()), Item::NewLine];
    assert!(nests_within(&flat, false, 0));
    assert!(nests_within(&flat, true, 0));
    assert_eq!(weighs_within(&flat, 10), Some(5));
    assert_eq!(weighs_within(&flat, 5), Some(0));
    assert_eq!(weighs_within(&flat, 4), None);

    let mixed = vec![Item::Indent(vec![Item::NewLineGroup(vec![Item::IndentIfStartOfLine(
        vec![Item::Text("ab".to_string())],
    )])])];
    assert!(nests_within(&mixed, false, 2));
    assert!(!nests_within(&mixed, false, 1));
    assert!(nests_within(&mixed, true, 1));
    assert!(!nests_within(&mixed, true, 0));
    assert_eq!(weighs_within(&mixed, 6), Some(0));

    let choice = vec![Item::IfMultipleLines {
        multi: nested(3, Item::Indent),
        single: nested(1, Item::NewLineGroup),
        rest: vec![],
    }];
    assert!(nests_within(&choice, false, 3));
    assert!(!nests_within(&choice, false, 2));
    assert!(nests_within(&choice, true, 1));
    assert_eq!(weighs_within(&choice, 100), Some(100 - (1 + 5 + 3)));
}

#[test]
fn a_layout_that_nests_too_deep_is_not_written_out() {
    let deepest = nested(255, Item::Indent);
    assert!(is_printable(&deepest));
    let text = try_print(&deepest, MAX_WIDTH).unwrap();
    assert_eq!(text, format!("{}x", "\t".repeat(255)));

    let too_deep = nested(256, Item::Indent);
    assert!(!is_printable(&too_deep));
    assert_eq!(try_print(&too_deep, MAX_WIDTH), None);

    let too_deep = nested(256, Item::IndentIfStartOfLine);
    assert!(!is_printable(&too_deep));
    assert_eq!(try_print(&too_deep, MAX_WIDTH), None);

    assert!(nests_within(&nested(300, Item::NewLineGroup), true, 300));
    assert!(!nests_within(&nested(300, Item::NewLineGroup), true, 299));
    assert!(is_printable(&nested(300, Item::NewLineGroup)));
    assert_eq!(try_print(&nested(300, Item::NewLineGroup), MAX_WIDTH), Some("x".to_string()));
}
