use scardoc::scardoc::{categorise_function, categorise_functions, ScarDoc, ScarDocCategory, ScarGlobal};
use scardoc::scardocmerger::{merge_scardoc, merge_scardocs};
use scardoc::scarenum::{ScarEnum, ScarEnumValue};
use scardoc::scarfile::{ScarFunction, ScarParameter, ScarSourceFile};

fn func(name: &str) -> ScarFunction {
    ScarFunction {
        name: name.to_string(),
        description_short: None,
        description_extended: Vec::new(),
        example: None,
        return_description: None,
        return_type: None,
        parameters: Vec::new(),
        source_file: None,
        groups: Vec::new(),
    }
}

fn with_short(name: &str, short: Option<&str>) -> ScarFunction {
    let mut f = func(name);
    f.description_short = short.map(|s| s.to_string());
    f
}

fn doc_of(funcs: Vec<ScarFunction>, enums: Vec<ScarEnum>, globals: Vec<ScarGlobal>) -> ScarDoc {
    let categories = categorise_functions(vec![ScarSourceFile { source_name: "t".to_string(), functions: funcs }]);
    ScarDoc { categories, enums, globals }
}

fn enum_of(name: &str, values: &[(&str, &str)]) -> ScarEnum {
    ScarEnum {
        name: name.to_string(),
        values: values
            .iter()
            .map(|(n, v)| ScarEnumValue { name: n.to_string(), value: Some(v.to_string()) })
            .collect(),
    }
}

fn all_functions(d: &ScarDoc) -> Vec<&ScarFunction> {
    d.categories.iter().flat_map(|c| c.category_functions.iter()).collect()
}

fn find<'a>(d: &'a ScarDoc, name: &str) -> &'a ScarFunction {
    all_functions(d).into_iter().find(|f| f.name == name).unwrap()
}

#[test]
fn category_rules() {
    assert_eq!(categorise_function(&func("Util_ScarPos_Extra")), "Util");
    assert_eq!(categorise_function(&func("Game:Start")), "Game");
    assert_eq!(categorise_function(&func("A:B_C")), "A:B");
    let mut grouped = func("Plain");
    grouped.groups = vec!["Group1".to_string(), "Group2".to_string()];
    assert_eq!(categorise_function(&grouped), "Group1");
    assert_eq!(categorise_function(&func("Plain")), "Other");
    assert_eq!(categorise_function(&func("_Lead")), "");
}

#[test]
fn categories_partition_the_functions() {
    let cats = categorise_functions(vec![
        ScarSourceFile { source_name: "a".to_string(), functions: vec![func("Util_A"), func("Game_B")] },
        ScarSourceFile { source_name: "b".to_string(), functions: vec![func("Util_C"), func("Lone")] },
    ]);
    assert_eq!(cats.len(), 3);
    let names: Vec<&str> = cats.iter().map(|c: &ScarDocCategory| c.category_name.as_str()).collect();
    assert_eq!(names, vec!["Util", "Game", "Other"]);
    let util: Vec<&str> = cats[0].category_functions.iter().map(|f| f.name.as_str()).collect();
    assert_eq!(util, vec!["Util_A", "Util_C"]);
    assert!(cats.iter().all(|c| !c.category_functions.is_empty()));
}

#[test]
fn merging_a_document_with_itself_changes_nothing() {
    let mut f = with_short("Util_A", Some("A"));
    f.parameters = vec![ScarParameter {
        arg_name: "x".to_string(),
        arg_type: "Real".to_string(),
        arg_description: None,
        arg_required: true,
    }];
    let g = ScarGlobal { name: "G".to_string(), value: Some("1".to_string()), description: None, global_type: None };
    let d = doc_of(vec![f, func("Game_B")], vec![enum_of("E", &[("X", "1")])], vec![g]);
    let m = merge_scardoc(&d, &d);
    assert_eq!(m.categories.len(), d.categories.len());
    assert_eq!(all_functions(&m).len(), 2);
    let a = find(&m, "Util_A");
    assert_eq!(a.description_short, Some("A".to_string()));
    assert_eq!(a.parameters.len(), 1);
    assert_eq!(m.enums.len(), 1);
    assert_eq!(m.enums[0].values.len(), 1);
    assert_eq!(m.globals.len(), 1);
    assert_eq!(m.globals[0].value, Some("1".to_string()));
}

#[test]
fn merge_prefers_present_incoming_fields() {
    let base = doc_of(vec![with_short("Util_A", Some("A"))], vec![], vec![]);
    let none = doc_of(vec![with_short("Util_A", None)], vec![], vec![]);
    let b = doc_of(vec![with_short("Util_A", Some("B"))], vec![], vec![]);
    assert_eq!(find(&merge_scardoc(&base, &none), "Util_A").description_short, Some("A".to_string()));
    assert_eq!(find(&merge_scardoc(&base, &b), "Util_A").description_short, Some("B".to_string()));
}

#[test]
fn merge_replaces_sequences_only_when_incoming_is_nonempty() {
    let mut a = with_short("Util_A", Some("A"));
    a.description_extended = vec!["old".to_string()];
    a.source_file = Some("a.scar".to_string());
    let mut b = with_short("Util_A", None);
    b.example = Some("ex".to_string());
    let m = merge_scardoc(&doc_of(vec![a.clone()], vec![], vec![]), &doc_of(vec![b], vec![], vec![]));
    let r = find(&m, "Util_A");
    assert_eq!(r.description_extended, vec!["old".to_string()]);
    assert_eq!(r.example, Some("ex".to_string()));
    assert_eq!(r.source_file, Some("a.scar".to_string()));
    let mut c = func("Util_A");
    c.description_extended = vec!["new".to_string()];
    let m2 = merge_scardoc(&doc_of(vec![a], vec![], vec![]), &doc_of(vec![c], vec![], vec![]));
    assert_eq!(find(&m2, "Util_A").description_extended, vec!["new".to_string()]);
}

#[test]
fn merge_introduces_new_functions() {
    let m = merge_scardoc(&doc_of(vec![func("Util_A")], vec![], vec![]), &doc_of(vec![func("Game_B")], vec![], vec![]));
    assert_eq!(all_functions(&m).len(), 2);
    assert_eq!(m.categories.len(), 2);
}

#[test]
fn enum_merge_replaces_rather_than_unites() {
    let a = doc_of(vec![], vec![enum_of("E", &[("X", "1")])], vec![]);
    let b = doc_of(vec![], vec![enum_of("E", &[("Y", "2")])], vec![]);
    let m = merge_scardoc(&a, &b);
    assert_eq!(m.enums.len(), 1);
    assert_eq!(m.enums[0].values.len(), 1);
    assert_eq!(m.enums[0].values[0].name, "Y");
    assert_eq!(m.enums[0].values[0].value, Some("2".to_string()));
}

#[test]
fn enum_merge_keeps_base_when_incoming_is_empty_or_equal() {
    let a = doc_of(vec![], vec![enum_of("E", &[("X", "1"), ("Z", "3")])], vec![]);
    let empty = doc_of(vec![], vec![enum_of("E", &[])], vec![]);
    assert_eq!(merge_scardoc(&a, &empty).enums[0].values.len(), 2);
    let reordered = doc_of(vec![], vec![enum_of("E", &[("Z", "3"), ("X", "1")])], vec![]);
    assert_eq!(merge_scardoc(&a, &reordered).enums[0].values[0].name, "X");
}

#[test]
fn global_merge_prefers_present_incoming_fields() {
    let a = ScarGlobal { name: "G".to_string(), value: Some("1".to_string()), description: Some("d".to_string()), global_type: None };
    let b = ScarGlobal { name: "G".to_string(), value: Some("2".to_string()), description: None, global_type: Some("int".to_string()) };
    let n = ScarGlobal { name: "H".to_string(), value: None, description: None, global_type: None };
    let m = merge_scardoc(&doc_of(vec![], vec![], vec![a]), &doc_of(vec![], vec![], vec![b, n]));
    assert_eq!(m.globals.len(), 2);
    assert_eq!(m.globals[0].value, Some("2".to_string()));
    assert_eq!(m.globals[0].description, Some("d".to_string()));
    assert_eq!(m.globals[0].global_type, Some("int".to_string()));
    assert_eq!(m.globals[1].name, "H");
}

#[test]
fn fold_keeps_only_the_last_pairwise_merge() {
    let d1 = doc_of(vec![func("One_A")], vec![], vec![]);
    let d2 = doc_of(vec![func("Two_B")], vec![], vec![]);
    let d3 = doc_of(vec![func("Three_C")], vec![], vec![]);
    let r = merge_scardocs(&vec![d1, d2, d3]).unwrap();
    let mut names: Vec<&str> = all_functions(&r).iter().map(|f| f.name.as_str()).collect();
    names.sort();
    assert_eq!(names, vec!["Three_C", "Two_B"]);
    assert!(merge_scardocs(&vec![doc_of(vec![func("One_A")], vec![], vec![])]).is_none());
    assert!(merge_scardocs(&vec![]).is_none());
}
