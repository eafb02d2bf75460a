use vstd::prelude::*;
use vstd::string::*;
use crate::scardoc::{
    categories_view, globals_view, group_functions, group_spec, GlobalView, ScarDoc, ScarGlobal,
};
use crate::scardocmerger::{enum_key, find_enum};
use crate::scarenum::{enum_values_view, enums_view, EnumValueView, EnumView, ScarEnum, ScarEnumValue};
use crate::scarfile::{functions_view, params_view, FunctionView, ParamView, ScarFunction};
use crate::table::{index_by_key, lemma_index_by_key};
use crate::text::{eq_ignore_ascii_case, eq_ignore_ascii_case_spec, find_char, find_spec, lemma_find, opt_view, strs_view, suffix_from};

verus! {

/// The pattern of an encoded enumeration value: `VALUE[...]=EnumName(3)`.
pub const UNKNOWN_PATTERN: &'static str = "(\\w+)(\\[.*?\\])?=(\\w+)\\((\\d+)\\)";

/// What the `regex` crate captures on `text` with `pattern`: `None` where the pattern does not
/// compile or does not match; else each group's text, group 0 first.
pub uninterp spec fn regex_captures(pattern: Seq<char>, text: Seq<char>) -> Option<
    Seq<Option<Seq<char>>>,
>;

pub open spec fn captures_view(c: Option<Vec<Option<String>>>) -> Option<Seq<Option<Seq<char>>>> {
    match c {
        Some(v) => Some(v@.map_values(|o: Option<String>| opt_view(o))),
        None => None,
    }
}

/// Relies on regex::Regex::new and regex::Regex::captures: the groups of the leftmost match of
/// `pattern` in `text`, each as its text.
#[verifier::external_body]
fn captures_of(pattern: &str, text: &str) -> (r: Option<Vec<Option<String>>>)
    ensures
        captures_view(r) == regex_captures(pattern@, text@),
{
    match regex::Regex::new(pattern) {
        Err(_) => None,
        Ok(re) => re.captures(text).map(
            |c| c.iter().map(|m| m.map(|x| x.as_str().to_string())).collect(),
        ),
    }
}

/// One decoded enumeration value: its name, its enumeration's name and its number.
pub struct ScardumpUnknown {
    pub is_enum: bool,
    pub value_name: String,
    pub enum_name: String,
    pub number: String,
}

pub struct UnknownView {
    pub is_enum: bool,
    pub value_name: Seq<char>,
    pub enum_name: Seq<char>,
    pub number: Seq<char>,
}

impl View for ScardumpUnknown {
    type V = UnknownView;

    open spec fn view(&self) -> UnknownView {
        UnknownView {
            is_enum: self.is_enum,
            value_name: self.value_name@,
            enum_name: self.enum_name@,
            number: self.number@,
        }
    }
}

pub open spec fn unknowns_view(v: Seq<ScardumpUnknown>) -> Seq<UnknownView> {
    v.map_values(|u: ScardumpUnknown| u@)
}

/// The function that a line of the functions section names.
pub open spec fn dump_function_spec(l: Seq<char>) -> FunctionView {
    FunctionView {
        name: l,
        description_short: None,
        description_extended: Seq::empty(),
        example: None,
        return_description: None,
        return_type: None,
        parameters: Seq::empty(),
        source_file: None,
        groups: Seq::empty(),
    }
}

/// The global that a line of the globals section assigns, if it holds a `=`.
pub open spec fn dump_global_spec(l: Seq<char>) -> Option<GlobalView> {
    match find_spec(l, '=') {
        Some(i) => Some(
            GlobalView {
                name: l.subrange(0, i),
                value: Some(l.subrange(i + 1, l.len() as int)),
                description: None,
                global_type: None,
            },
        ),
        None => None,
    }
}

/// The value that captured groups 1, 3 and 4 decode to.
pub open spec fn unknown_spec(caps: Option<Seq<Option<Seq<char>>>>) -> Option<UnknownView> {
    match caps {
        Some(g) => if g.len() > 4 && g[1] is Some && g[3] is Some && g[4] is Some {
            Some(
                UnknownView {
                    is_enum: true,
                    value_name: g[1]->0,
                    enum_name: g[3]->0,
                    number: g[4]->0,
                },
            )
        } else {
            None
        },
        None => None,
    }
}

pub fn read_scarfunction(ln: String) -> (r: ScarFunction)
    ensures
        r@ == dump_function_spec(ln@),
{
    let r = ScarFunction {
        name: ln,
        description_short: None,
        description_extended: Vec::new(),
        example: None,
        return_description: None,
        return_type: None,
        parameters: Vec::new(),
        source_file: None,
        groups: Vec::new(),
    };
    assert(strs_view(r.description_extended@) =~= Seq::<Seq<char>>::empty());
    assert(strs_view(r.groups@) =~= Seq::<Seq<char>>::empty());
    assert(params_view(r.parameters@) =~= Seq::<ParamView>::empty());
    r
}

pub fn read_global(ln: String) -> (r: Option<ScarGlobal>)
    ensures
        match dump_global_spec(ln@) {
            Some(g) => r matches Some(x) && x@ == g,
            None => r is None,
        },
{
    let s = ln.as_str();
    let _len = s.unicode_len();
    proof {
        lemma_find(s@, '=');
    }
    match find_char(s, '=') {
        None => None,
        Some(idx) => Some(
            ScarGlobal {
                name: String::from_str(s.substring_char(0, idx)),
                value: Some(suffix_from(s, idx + 1)),
                description: None,
                global_type: None,
            },
        ),
    }
}

/// Decodes a value from the groups captured on a line.
pub fn unknown_from_captures(caps: Option<Vec<Option<String>>>) -> (r: Option<ScardumpUnknown>)
    ensures
        match unknown_spec(captures_view(caps)) {
            Some(u) => r matches Some(x) && x@ == u,
            None => r is None,
        },
{
    match caps {
        None => None,
        Some(g) => {
            let ghost gv = g@.map_values(|o: Option<String>| opt_view(o));
            if g.len() <= 4 {
                return None;
            }
            assert(gv[1] == opt_view(g@[1]) && gv[3] == opt_view(g@[3]) && gv[4] == opt_view(g@[4]));
            match (&g[1], &g[3], &g[4]) {
                (Some(v), Some(e), Some(n)) => Some(
                    ScardumpUnknown {
                        is_enum: true,
                        value_name: v.clone(),
                        enum_name: e.clone(),
                        number: n.clone(),
                    },
                ),
                _ => None,
            }
        },
    }
}

/// Decodes a line of the unknowns section.
pub fn read_unknowns(ln: &str) -> (r: Option<ScardumpUnknown>)
    ensures
        match unknown_spec(regex_captures(UNKNOWN_PATTERN@, ln@)) {
            Some(u) => r matches Some(x) && x@ == u,
            None => r is None,
        },
{
    unknown_from_captures(captures_of(UNKNOWN_PATTERN, ln))
}

/// `es` with a decoded value added to its enumeration; an enumeration seen for the first time
/// starts with that value twice.
pub open spec fn add_unknown(es: Seq<EnumView>, u: UnknownView) -> Seq<EnumView> {
    if !u.is_enum {
        es
    } else {
        let v = EnumValueView { name: u.value_name, value: Some(u.number) };
        match index_by_key(es, enum_key(), u.enum_name) {
            Some(j) => es.update(j, EnumView { name: es[j].name, values: es[j].values.push(v) }),
            None => es.push(EnumView { name: u.enum_name, values: seq![v, v] }),
        }
    }
}

/// The enumerations that decoded values make up, in order of first appearance.
pub open spec fn unknowns_to_enums(us: Seq<UnknownView>) -> Seq<EnumView>
    decreases us.len(),
{
    if us.len() == 0 {
        Seq::empty()
    } else {
        add_unknown(unknowns_to_enums(us.drop_last()), us.last())
    }
}

/// Groups decoded values by enumeration.
pub fn map_unknowns_to_enum(u: Vec<ScardumpUnknown>) -> (r: Vec<ScarEnum>)
    ensures
        enums_view(r@) == unknowns_to_enums(unknowns_view(u@)),
{
    let ghost uv = unknowns_view(u@);
    let mut es: Vec<ScarEnum> = Vec::new();
    let mut i: usize = 0;
    assert(uv.subrange(0, 0) =~= Seq::<UnknownView>::empty());
    assert(enums_view(es@) =~= Seq::<EnumView>::empty());
    while i < u.len()
        invariant
            0 <= i <= u@.len(),
            uv == unknowns_view(u@),
            enums_view(es@) == unknowns_to_enums(uv.subrange(0, i as int)),
        decreases u@.len() - i,
    {
        let entry = &u[i];
        assert(uv[i as int] == entry@);
        assert(uv.subrange(0, i + 1).drop_last() =~= uv.subrange(0, i as int));
        assert(uv.subrange(0, i + 1).last() == entry@);
        let ghost ev = enums_view(es@);
        let ghost old_es = es@;
        if entry.is_enum {
            let v = ScarEnumValue { name: entry.value_name.clone(), value: Some(entry.number.clone()) };
            let ghost vv = v@;
            proof {
                lemma_index_by_key(ev, enum_key(), entry@.enum_name);
            }
            match find_enum(&es, &entry.enum_name) {
                Some(j) => {
                    let mut e = es.remove(j);
                    assert(e == old_es[j as int]);
                    let ghost before = e.values@;
                    e.values.push(v);
                    assert(enum_values_view(e.values@) =~= enum_values_view(before).push(vv));
                    let ghost eg = e;
                    es.insert(j, e);
                    assert(es@ =~= old_es.update(j as int, eg));
                    assert(enums_view(es@) =~= ev.update(
                        j as int,
                        EnumView { name: ev[j as int].name, values: ev[j as int].values.push(vv) },
                    ));
                },
                None => {
                    let mut vals: Vec<ScarEnumValue> = Vec::new();
                    vals.push(v.duplicate());
                    vals.push(v);
                    assert(enum_values_view(vals@) =~= seq![vv, vv]);
                    es.push(ScarEnum { name: entry.enum_name.clone(), values: vals });
                    assert(enums_view(es@) =~= ev.push(
                        EnumView { name: entry@.enum_name, values: seq![vv, vv] },
                    ));
                },
            }
        }
        assert(enums_view(es@) == add_unknown(ev, entry@));
        i = i + 1;
    }
    assert(uv.subrange(0, i as int) =~= uv);
    es
}

/// The section of a dump that the lines read so far are in.
#[derive(PartialEq, Eq, Structural, Clone, Copy)]
pub enum DumpMode {
    Undefined,
    Functions,
    Globals,
    Unknowns,
}

/// What the lines of a dump read so far hold.
pub struct DumpState {
    pub mode: DumpMode,
    pub functions: Seq<FunctionView>,
    pub globals: Seq<GlobalView>,
    pub unknowns: Seq<UnknownView>,
    pub failed: bool,
}

/// The effect of one line of a dump.
pub open spec fn dump_step(st: DumpState, l: Seq<char>) -> DumpState {
    if st.failed {
        st
    } else if eq_ignore_ascii_case_spec(l, "[ScarDoc:Functions]"@) {
        DumpState { mode: DumpMode::Functions, ..st }
    } else if eq_ignore_ascii_case_spec(l, "[ScarDoc:Globals]"@) {
        DumpState { mode: DumpMode::Globals, ..st }
    } else if eq_ignore_ascii_case_spec(l, "[ScarDoc:Unknowns]"@) {
        DumpState { mode: DumpMode::Unknowns, ..st }
    } else {
        match st.mode {
            DumpMode::Functions => DumpState {
                functions: st.functions.push(dump_function_spec(l)),
                ..st
            },
            DumpMode::Globals => match dump_global_spec(l) {
                Some(g) => DumpState { globals: st.globals.push(g), ..st },
                None => st,
            },
            DumpMode::Unknowns => match unknown_spec(regex_captures(UNKNOWN_PATTERN@, l)) {
                Some(u) => DumpState { unknowns: st.unknowns.push(u), ..st },
                None => st,
            },
            DumpMode::Undefined => DumpState { failed: true, ..st },
        }
    }
}

/// The state after the lines of `ls`, read in order.
pub open spec fn dump_scan(ls: Seq<Seq<char>>) -> DumpState
    decreases ls.len(),
{
    if ls.len() == 0 {
        DumpState {
            mode: DumpMode::Undefined,
            functions: Seq::empty(),
            globals: Seq::empty(),
            unknowns: Seq::empty(),
            failed: false,
        }
    } else {
        dump_step(dump_scan(ls.drop_last()), ls.last())
    }
}

pub proof fn lemma_dump_failed(ls: Seq<Seq<char>>, k: int)
    requires
        0 <= k <= ls.len(),
        dump_scan(ls.subrange(0, k)).failed,
    ensures
        dump_scan(ls).failed,
    decreases ls.len() - k,
{
    if k < ls.len() {
        assert(ls.subrange(0, k + 1).drop_last() =~= ls.subrange(0, k));
        lemma_dump_failed(ls, k + 1);
    } else {
        assert(ls.subrange(0, k) =~= ls);
    }
}

/// Reads a dump: its functions grouped by category, its decoded enumerations and its globals.
/// A content line before any section marker is an error.
pub fn read_scardump_lines(lines: &Vec<String>) -> (r: Result<ScarDoc, String>)
    ensures
        dump_scan(strs_view(lines@)).failed <==> r is Err,
        r matches Ok(d) ==> {
            let st = dump_scan(strs_view(lines@));
            &&& categories_view(d.categories@) == group_spec(st.functions)
            &&& enums_view(d.enums@) == unknowns_to_enums(st.unknowns)
            &&& globals_view(d.globals@) == st.globals
        },
{
    let ghost ls = strs_view(lines@);
    let mut mode = DumpMode::Undefined;
    let mut funcs: Vec<ScarFunction> = Vec::new();
    let mut globals: Vec<ScarGlobal> = Vec::new();
    let mut unknowns: Vec<ScardumpUnknown> = Vec::new();
    let mut i: usize = 0;
    assert(ls.subrange(0, 0) =~= Seq::<Seq<char>>::empty());
    assert(functions_view(funcs@) =~= Seq::<FunctionView>::empty());
    assert(globals_view(globals@) =~= Seq::<GlobalView>::empty());
    assert(unknowns_view(unknowns@) =~= Seq::<UnknownView>::empty());
    while i < lines.len()
        invariant
            0 <= i <= lines@.len(),
            ls == strs_view(lines@),
            dump_scan(ls.subrange(0, i as int)) == (DumpState {
                mode,
                functions: functions_view(funcs@),
                globals: globals_view(globals@),
                unknowns: unknowns_view(unknowns@),
                failed: false,
            }),
        decreases lines@.len() - i,
    {
        let ln = lines[i].as_str();
        assert(ls.subrange(0, i + 1).drop_last() =~= ls.subrange(0, i as int));
        assert(ls.subrange(0, i + 1).last() == ln@);
        let ghost fb = funcs@;
        let ghost gb = globals@;
        let ghost ub = unknowns@;
        if eq_ignore_ascii_case(ln, "[ScarDoc:Functions]") {
            mode = DumpMode::Functions;
        } else if eq_ignore_ascii_case(ln, "[ScarDoc:Globals]") {
            mode = DumpMode::Globals;
        } else if eq_ignore_ascii_case(ln, "[ScarDoc:Unknowns]") {
            mode = DumpMode::Unknowns;
        } else {
            match mode {
                DumpMode::Functions => {
                    let f = read_scarfunction(lines[i].clone());
                    funcs.push(f);
                    assert(functions_view(funcs@) =~= functions_view(fb).push(f@));
                },
                DumpMode::Globals => {
                    match read_global(lines[i].clone()) {
                        Some(g) => {
                            globals.push(g);
                            assert(globals_view(globals@) =~= globals_view(gb).push(g@));
                        },
                        None => {},
                    }
                },
                DumpMode::Unknowns => {
                    match read_unknowns(ln) {
                        Some(u) => {
                            unknowns.push(u);
                            assert(unknowns_view(unknowns@) =~= unknowns_view(ub).push(u@));
                        },
                        None => {},
                    }
                },
                DumpMode::Undefined => {
                    proof {
                        lemma_dump_failed(ls, i + 1);
                    }
                    return Err(String::from_str("unknown mode given"));
                },
            }
        }
        i = i + 1;
    }
    assert(ls.subrange(0, i as int) =~= ls);
    let categories = group_functions(&funcs);
    let enums = map_unknowns_to_enum(unknowns);
    Ok(ScarDoc { categories, enums, globals })
}

} // verus!
