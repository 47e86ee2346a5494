use dumpgen::emit::gen_dump_op;

fn names(fields: &[&str]) -> Vec<String> {
    fields.iter().map(|f| f.to_string()).collect()
}

fn count(text: &str, piece: &str) -> usize {
    text.matches(piece).count()
}

#[test]
fn two_fields_exact_text() {
    let text = gen_dump_op("std::ostream", "Point", "Point", &names(&["x", "y"]));
    let expected = "friend std::ostream& operator<<(std::ostream& os, const Point& obj);\n\
std::ostream& operator<<(std::ostream& os, const Point& obj) {\n\
\tos << \"Point (\"\n\
\t\t<< \"x: \" << x << \", \"\n\
\t\t<< \"y: \" << y\n\
\t<< \")\";\n\
\treturn os;\n\
}\n";
    assert_eq!(text, expected);
}

#[test]
fn one_field_has_no_separator() {
    let text = gen_dump_op("QDebug", "Widget", "Widget", &names(&["id"]));
    let expected = "friend QDebug& operator<<(QDebug& os, const Widget& obj);\n\
QDebug& operator<<(QDebug& os, const Widget& obj) {\n\
\tos << \"Widget (\"\n\
\t\t<< \"id: \" << id\n\
\t<< \")\";\n\
\treturn os;\n\
}\n";
    assert_eq!(text, expected);
}

#[test]
fn no_fields_exact_text() {
    let text = gen_dump_op("std::ostream", "Empty", "Empty", &Vec::new());
    let expected = "friend std::ostream& operator<<(std::ostream& os, const Empty& obj);\n\
std::ostream& operator<<(std::ostream& os, const Empty& obj) {\n\
\tos << \"Empty (\"\n\
\t<< \")\";\n\
\treturn os;\n\
}\n";
    assert_eq!(text, expected);
    assert_eq!(count(&text, "\", \""), 0);
    assert_eq!(count(&text, "\t\t<< "), 0);
}

#[test]
fn object_type_and_name_go_to_their_places() {
    let text = gen_dump_op("std::ostream", "geo::Point", "Point", &names(&["x"]));
    let expected = "friend std::ostream& operator<<(std::ostream& os, const geo::Point& obj);\n\
std::ostream& operator<<(std::ostream& os, const geo::Point& obj) {\n\
\tos << \"Point (\"\n\
\t\t<< \"x: \" << x\n\
\t<< \")\";\n\
\treturn os;\n\
}\n";
    assert_eq!(text, expected);
}

#[test]
fn clause_and_separator_counts() {
    for n in 1..6usize {
        let fields: Vec<String> = (0..n).map(|i| format!("f{}", i)).collect();
        let text = gen_dump_op("std::ostream", "T", "T", &fields);
        assert_eq!(count(&text, "\t\t<< \""), n);
        assert_eq!(count(&text, " << \", \"\n"), n - 1);
        let last = format!("\t\t<< \"f{}: \" << f{}\n\t<< \")\";\n", n - 1, n - 1);
        assert!(text.contains(&last));
    }
}

#[test]
fn clauses_come_in_field_order() {
    let text = gen_dump_op("std::ostream", "T", "T", &names(&["c", "a", "b"]));
    let c = text.find("\"c: \" << c << \", \"").expect("clause of c");
    let a = text.find("\"a: \" << a << \", \"").expect("clause of a");
    let b = text.find("\"b: \" << b\n").expect("clause of b");
    assert!(c < a && a < b);
}

#[test]
fn duplicate_fields_are_dumped_twice() {
    let text = gen_dump_op("std::ostream", "T", "T", &names(&["x", "x"]));
    assert_eq!(count(&text, "\"x: \" << x"), 2);
    assert_eq!(count(&text, " << \", \"\n"), 1);
}

#[test]
fn text_ends_with_closing_lines() {
    let text = gen_dump_op("std::ostream", "T", "T", &names(&["x"]));
    assert!(text.starts_with("friend std::ostream& operator<<("));
    assert!(text.ends_with("\t<< \")\";\n\treturn os;\n}\n"));
    assert_eq!(text.lines().count(), 7);
}

#[test]
fn same_arguments_same_text() {
    let fields = names(&["x", "y", "z"]);
    let first = gen_dump_op("std::ostream", "P", "P", &fields);
    let second = gen_dump_op("std::ostream", "P", "P", &fields);
    assert_eq!(first, second);
}

#[test]
fn line_count_is_fields_plus_six() {
    for n in 0..5usize {
        let fields: Vec<String> = (0..n).map(|i| format!("m{}", i)).collect();
        let text = gen_dump_op("std::ostream", "T", "T", &fields);
        let lines: Vec<&str> = text.lines().collect();
        assert_eq!(lines.len(), n + 6);
        assert!(text.ends_with('\n'));
        for (k, line) in lines.iter().enumerate() {
            assert_eq!(line.starts_with("\t\t<< "), 3 <= k && k < n + 3);
        }
        for i in 0..n {
            let dump = format!("\t\t<< \"m{}: \" << m{}", i, i);
            if i + 1 < n {
                assert_eq!(lines[3 + i], format!("{} << \", \"", dump));
            } else {
                assert_eq!(lines[3 + i], dump);
            }
        }
        assert_eq!(lines[2], "\tos << \"T (\"");
        assert_eq!(lines[n + 3], "\t<< \")\";");
        assert_eq!(lines[n + 4], "\treturn os;");
        assert_eq!(lines[n + 5], "}");
    }
}

#[test]
fn no_fields_no_separator_even_with_commas_in_the_name() {
    let text = gen_dump_op("std::ostream", "T", ", ", &Vec::new());
    assert_eq!(count(&text, "\", \""), 0);
    let text = gen_dump_op("std::pair<int, int>", "T", "", &Vec::new());
    assert_eq!(count(&text, "\", \""), 0);
}
