use scardoc::scardump::{read_global, read_scardump_lines, read_unknowns};

fn lines(v: &[&str]) -> Vec<String> {
    v.iter().map(|s| s.to_string()).collect()
}

#[test]
fn dump_sections_are_read() {
    let d = read_scardump_lines(&lines(&[
        "[ScarDoc:Functions]",
        "Util_Foo",
        "Bare",
        "[scardoc:GLOBALS]",
        "X=1=2",
        "noequals",
        "[ScarDoc:Unknowns]",
        "RED[abc]=Color(1)",
        "BLUE=Color(2)",
        "junk line",
        "ONE=Size(7)",
    ]))
    .ok()
    .unwrap();
    assert_eq!(d.categories.len(), 2);
    assert_eq!(d.categories[0].category_name, "Util");
    assert_eq!(d.categories[0].category_functions[0].name, "Util_Foo");
    assert_eq!(d.categories[1].category_name, "Other");
    assert_eq!(d.globals.len(), 1);
    assert_eq!(d.globals[0].name, "X");
    assert_eq!(d.globals[0].value, Some("1=2".to_string()));
    assert_eq!(d.enums.len(), 2);
    assert_eq!(d.enums[0].name, "Color");
    let vals: Vec<(String, Option<String>)> = d.enums[0].values.iter().map(|v| (v.name.clone(), v.value.clone())).collect();
    assert_eq!(
        vals,
        vec![
            ("RED".to_string(), Some("1".to_string())),
            ("RED".to_string(), Some("1".to_string())),
            ("BLUE".to_string(), Some("2".to_string())),
        ]
    );
    assert_eq!(d.enums[1].name, "Size");
    assert_eq!(d.enums[1].values.len(), 2);
}

#[test]
fn content_before_any_marker_is_an_error() {
    assert!(read_scardump_lines(&lines(&["Util_Foo", "[ScarDoc:Functions]"])).is_err());
    assert!(read_scardump_lines(&lines(&[])).is_ok());
}

#[test]
fn global_line_splits_at_first_equals() {
    let g = read_global("A= b =c".to_string()).unwrap();
    assert_eq!(g.name, "A");
    assert_eq!(g.value, Some(" b =c".to_string()));
    assert_eq!(g.description, None);
    assert!(read_global("nothing".to_string()).is_none());
}

#[test]
fn unknown_lines_decode_through_the_pattern() {
    let u = read_unknowns("prefix VALUE[x y]=EnumName(3) suffix").unwrap();
    assert!(u.is_enum);
    assert_eq!(u.value_name, "VALUE");
    assert_eq!(u.enum_name, "EnumName");
    assert_eq!(u.number, "3");
    assert!(read_unknowns("VALUE=EnumName(x)").is_none());
    assert!(read_unknowns("VALUE=EnumName").is_none());
}
