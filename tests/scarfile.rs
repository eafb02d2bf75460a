use scardoc::scardoc::categorise_function;
use scardoc::scarfile::{
    get_scar_function, get_scar_function_args, get_scar_function_name, get_scar_functions,
    ScarParameter,
};

fn lines(v: &[&str]) -> Vec<String> {
    v.iter().map(|s| s.to_string()).collect()
}

fn check_params(result: &Vec<ScarParameter>, expected: &[(&str, &str, bool)]) {
    assert_eq!(result.len(), expected.len());
    for i in 0..expected.len() {
        assert_eq!(result[i].arg_type, expected[i].0.to_string());
        assert_eq!(result[i].arg_name, expected[i].1.to_string());
        assert_eq!(result[i].arg_required, expected[i].2);
    }
}

#[test]
fn can_get_function_names() {
    let names = [
        ("Util_ScarPos", "function Util_ScarPos(xpos, zpos, ypos)"),
        ("Util_ScarPos", "function Util_ScarPos (xpos, zpos, ypos)"),
        ("Util_ScarPos", "function      Util_ScarPos(xpos, zpos, ypos)"),
        ("", "\t\tfunction(sgroupid, itemindex, squad)"),
    ];
    for name in names {
        let s = name.1.to_string();
        if name.0 == "" {
            assert_eq!(get_scar_function_name(s).is_none(), true)
        } else {
            assert_eq!(get_scar_function_name(s).unwrap(), name.0.to_string())
        }
    }
}

#[test]
fn can_get_function_parameters_names() {
    let args = [
        (vec![("Real", "xpos", true), ("Real", "zpos", true), ("Real", "ypos", true)], "Real xpos, Real zpos, Real ypos"),
        (vec![("Real", "xpos", true), ("Real", "zpos", true), ("Real", "ypos", false)], "Real xpos, Real zpos[, Real ypos]"),
        (vec![("LuaTable", "arg1", true)], "LuaTable"),
        (vec![("SyncWeaponID", "weapon", true), ("PlayerID", "player", false)], "SyncWeaponID weapon, [PlayerID player]"),
        (vec![("String", "race", true), ("String", "race2", false), ("Any", "...", false)], "String race[, String race2, ...]"),
    ];
    for arg in args {
        let result = get_scar_function_args(arg.1.to_string());
        assert_eq!(result.is_some(), true);
        let content = result.unwrap();
        assert_eq!(content.len(), arg.0.len());
        for i in 0..arg.0.len() {
            let result_arg = content.get(i).unwrap();
            let expected_arg = arg.0.get(i).unwrap();
            assert_eq!(result_arg.arg_type, expected_arg.0.to_string());
            assert_eq!(result_arg.arg_name, expected_arg.1.to_string());
            assert_eq!(result_arg.arg_required, expected_arg.2);
        }
    }
}

#[test]
fn unnamed_entries_are_numbered_across_both_sections() {
    let r = get_scar_function_args("LuaTable, Real x[, Integer, ...]".to_string()).unwrap();
    check_params(
        &r,
        &[("LuaTable", "arg1", true), ("Real", "x", true), ("Integer", "arg3", false), ("Any", "...", false)],
    );
}

#[test]
fn entry_numbers_past_nine_use_two_digits() {
    let r = get_scar_function_args("A, B, C, D, E, F, G, H, I, J, K, L".to_string()).unwrap();
    assert_eq!(r.len(), 12);
    assert_eq!(r[0].arg_name, "arg1");
    assert_eq!(r[11].arg_name, "arg12");
    assert_eq!(r[11].arg_type, "L");
}

#[test]
fn entries_are_trimmed_and_closing_brackets_dropped() {
    let r = get_scar_function_args("  Real x ,\tReal y  [,Real z]]]".to_string()).unwrap();
    check_params(&r, &[("Real", "x", true), ("Real", "y", true), ("Real", "z", false)]);
    assert_eq!(r[0].arg_description, None);
}

#[test]
fn declaration_without_space_before_paren_has_no_name() {
    assert!(get_scar_function_name("function (a)".to_string()).is_none());
    assert!(get_scar_function_name("function Foo".to_string()).is_none());
    assert!(get_scar_function_name("noparen".to_string()).is_none());
}

#[test]
fn directives_fill_the_function() {
    let data = lines(&[
        "@shortdesc   Short text  ",
        "@extdesc First",
        "second line",
        "third line",
        "@result Position",
        "ignored line",
        "@args Real a[, Real b]",
    ]);
    let f = get_scar_function("function Mod_Do(a, b)".to_string(), data).ok().unwrap();
    assert_eq!(f.name, "Mod_Do");
    assert_eq!(f.description_short, Some("Short text".to_string()));
    assert_eq!(f.description_extended, vec!["First".to_string(), "second line".to_string(), "third line".to_string()]);
    assert_eq!(f.return_type, Some("Position".to_string()));
    assert_eq!(f.return_description, None);
    assert_eq!(f.example, None);
    check_params(&f.parameters, &[("Real", "a", true), ("Real", "b", false)]);
    assert!(f.groups.is_empty());
}

#[test]
fn empty_extdesc_starts_continuation_without_a_line() {
    let data = lines(&["@extdesc", "only line"]);
    let f = get_scar_function("function A_B()".to_string(), data).ok().unwrap();
    assert_eq!(f.description_extended, vec!["only line".to_string()]);
}

#[test]
fn unnamed_declaration_is_an_error() {
    let data = lines(&["@shortdesc x"]);
    assert!(get_scar_function("\tfunction(a, b)".to_string(), data).is_err());
}

#[test]
fn end_to_end_source_unit() {
    let src = lines(&[
        "--? @shortdesc Converts position",
        "--? @args Real xpos, Real zpos, Real ypos",
        "function Util_ScarPos(xpos, zpos, ypos)",
    ]);
    let fs = get_scar_functions(&src, &"unit.scar".to_string());
    assert_eq!(fs.len(), 1);
    let f = &fs[0];
    assert_eq!(f.name, "Util_ScarPos");
    assert_eq!(categorise_function(f), "Util");
    assert_eq!(f.description_short, Some("Converts position".to_string()));
    assert_eq!(f.source_file, Some("unit.scar".to_string()));
    check_params(&f.parameters, &[("Real", "xpos", true), ("Real", "zpos", true), ("Real", "ypos", true)]);
}

#[test]
fn blank_line_detaches_doc_block() {
    let src = lines(&["--? @shortdesc Converts position", "", "function Util_ScarPos(xpos, zpos, ypos)"]);
    assert!(get_scar_functions(&src, &"unit.scar".to_string()).is_empty());
}

#[test]
fn declaration_without_doc_block_is_ignored() {
    let src = lines(&[
        "function Plain_One()",
        "--? @shortdesc Two",
        "  function Plain_Two()",
        "function Plain_Three()",
    ]);
    let fs = get_scar_functions(&src, &"u".to_string());
    assert_eq!(fs.len(), 1);
    // The name starts after the line's first space, here the indentation.
    assert_eq!(fs[0].name, "function Plain_Two");
    assert_eq!(fs[0].description_short, Some("Two".to_string()));
}

#[test]
fn doc_line_needs_marker_with_space() {
    let src = lines(&["--?@shortdesc Two", "function Plain_Two()"]);
    assert!(get_scar_functions(&src, &"u".to_string()).is_empty());
}
