use vstd::prelude::*;
use vstd::string::*;
use crate::text::{
    clone_opt, clone_strings, eq_opt, find_char, find_spec, lemma_find, opt_view,
    same_text, starts_with, starts_with_spec, strs_view, suffix_from, trim_end_spec, trim_end_str,
    trim_spec, trim_str, decimal, usize_to_decimal,
};

verus! {

/// The functions documented in one source unit.
pub struct ScarSourceFile {
    pub source_name: String,
    pub functions: Vec<ScarFunction>,
}

/// One documented function.
#[derive(Clone)]
pub struct ScarFunction {
    pub name: String,
    pub description_short: Option<String>,
    pub description_extended: Vec<String>,
    pub example: Option<String>,
    pub return_description: Option<String>,
    pub return_type: Option<String>,
    pub parameters: Vec<ScarParameter>,
    pub source_file: Option<String>,
    pub groups: Vec<String>,
}

/// One parameter of a documented function.
#[derive(Clone)]
pub struct ScarParameter {
    pub arg_name: String,
    pub arg_type: String,
    pub arg_description: Option<String>,
    pub arg_required: bool,
}

pub struct ParamView {
    pub name: Seq<char>,
    pub ty: Seq<char>,
    pub description: Option<Seq<char>>,
    pub required: bool,
}

pub struct FunctionView {
    pub name: Seq<char>,
    pub description_short: Option<Seq<char>>,
    pub description_extended: Seq<Seq<char>>,
    pub example: Option<Seq<char>>,
    pub return_description: Option<Seq<char>>,
    pub return_type: Option<Seq<char>>,
    pub parameters: Seq<ParamView>,
    pub source_file: Option<Seq<char>>,
    pub groups: Seq<Seq<char>>,
}

impl View for ScarParameter {
    type V = ParamView;

    open spec fn view(&self) -> ParamView {
        ParamView {
            name: self.arg_name@,
            ty: self.arg_type@,
            description: opt_view(self.arg_description),
            required: self.arg_required,
        }
    }
}

pub open spec fn params_view(v: Seq<ScarParameter>) -> Seq<ParamView> {
    v.map_values(|p: ScarParameter| p@)
}

impl View for ScarFunction {
    type V = FunctionView;

    open spec fn view(&self) -> FunctionView {
        FunctionView {
            name: self.name@,
            description_short: opt_view(self.description_short),
            description_extended: strs_view(self.description_extended@),
            example: opt_view(self.example),
            return_description: opt_view(self.return_description),
            return_type: opt_view(self.return_type),
            parameters: params_view(self.parameters@),
            source_file: opt_view(self.source_file),
            groups: strs_view(self.groups@),
        }
    }
}

pub open spec fn functions_view(v: Seq<ScarFunction>) -> Seq<FunctionView> {
    v.map_values(|f: ScarFunction| f@)
}

impl ScarParameter {
    /// A copy with the same content.
    pub fn duplicate(&self) -> (r: ScarParameter)
        ensures
            r@ == self@,
    {
        ScarParameter {
            arg_name: self.arg_name.clone(),
            arg_type: self.arg_type.clone(),
            arg_description: clone_opt(&self.arg_description),
            arg_required: self.arg_required,
        }
    }

    /// Equality of name, type, description and requiredness.
    pub fn same_as(&self, other: &ScarParameter) -> (r: bool)
        ensures
            r == (self@ == other@),
    {
        self.arg_name == other.arg_name && self.arg_type == other.arg_type && eq_opt(
            &self.arg_description,
            &other.arg_description,
        ) && self.arg_required == other.arg_required
    }
}

impl ScarFunction {
    /// A copy with the same content.
    pub fn duplicate(&self) -> (r: ScarFunction)
        ensures
            r@ == self@,
    {
        ScarFunction {
            name: self.name.clone(),
            description_short: clone_opt(&self.description_short),
            description_extended: clone_strings(&self.description_extended),
            example: clone_opt(&self.example),
            return_description: clone_opt(&self.return_description),
            return_type: clone_opt(&self.return_type),
            parameters: clone_params(&self.parameters),
            source_file: clone_opt(&self.source_file),
            groups: clone_strings(&self.groups),
        }
    }
}

impl PartialEq for ScarParameter {
    fn eq(&self, other: &ScarParameter) -> (r: bool) {
        self.same_as(other)
    }
}

impl vstd::std_specs::cmp::PartialEqSpecImpl for ScarParameter {
    open spec fn obeys_eq_spec() -> bool {
        true
    }

    open spec fn eq_spec(&self, other: &ScarParameter) -> bool {
        self@ == other@
    }
}

pub fn clone_params(v: &Vec<ScarParameter>) -> (r: Vec<ScarParameter>)
    ensures
        params_view(r@) == params_view(v@),
{
    let mut r: Vec<ScarParameter> = Vec::new();
    let mut i: usize = 0;
    while i < v.len()
        invariant
            0 <= i <= v@.len(),
            r@.len() == i,
            forall|k: int| 0 <= k < i ==> r@[k]@ == v@[k]@,
        decreases v@.len() - i,
    {
        r.push(v[i].duplicate());
        i = i + 1;
    }
    assert(params_view(r@) =~= params_view(v@));
    r
}

pub fn eq_params(a: &Vec<ScarParameter>, b: &Vec<ScarParameter>) -> (r: bool)
    ensures
        r == (params_view(a@) == params_view(b@)),
{
    if a.len() != b.len() {
        assert(params_view(a@).len() != params_view(b@).len());
        return false;
    }
    let mut i: usize = 0;
    while i < a.len()
        invariant
            0 <= i <= a@.len(),
            a@.len() == b@.len(),
            forall|k: int| 0 <= k < i ==> a@[k]@ == b@[k]@,
        decreases a@.len() - i,
    {
        if !a[i].same_as(&b[i]) {
            assert(params_view(a@)[i as int] != params_view(b@)[i as int]);
            return false;
        }
        i = i + 1;
    }
    assert(params_view(a@) =~= params_view(b@));
    true
}

// ---------------------------------------------------------------------------
// Argument-list grammar
// ---------------------------------------------------------------------------

/// `s` cut at every comma.
pub open spec fn split_commas(s: Seq<char>) -> Seq<Seq<char>>
    decreases s.len(),
{
    match find_spec(s, ',') {
        Some(i) => if 0 <= i < s.len() {
            seq![s.subrange(0, i)] + split_commas(s.subrange(i + 1, s.len() as int))
        } else {
            seq![s]
        },
        None => seq![s],
    }
}

/// The parameter that one entry of a section stands for; `n` is its running number.
pub open spec fn entry_param(e: Seq<char>, n: nat, required: bool) -> ParamView {
    let t = trim_spec(e);
    match find_spec(t, ' ') {
        Some(i) => ParamView {
            name: t.subrange(i + 1, t.len() as int),
            ty: t.subrange(0, i),
            description: None,
            required,
        },
        None => if t == "..."@ {
            ParamView { name: "..."@, ty: "Any"@, description: None, required }
        } else {
            ParamView { name: "arg"@ + decimal(n), ty: t, description: None, required }
        },
    }
}

/// The parameters of a section's entries, numbered from `first` on.
pub open spec fn section_params(parts: Seq<Seq<char>>, first: nat, required: bool) -> Seq<
    ParamView,
> {
    Seq::new(parts.len(), |k: int| entry_param(parts[k], (first + k) as nat, required))
}

/// Drops one trailing comma.
pub open spec fn drop_trailing_comma(t: Seq<char>) -> Seq<char> {
    if t.len() > 0 && t.last() == ',' {
        t.drop_last()
    } else {
        t
    }
}

/// Drops one leading comma.
pub open spec fn drop_leading_comma(t: Seq<char>) -> Seq<char> {
    if t.len() > 0 && t[0] == ',' {
        t.drop_first()
    } else {
        t
    }
}

/// Length of the prefix of length `n` of `t` without its trailing `]` characters.
pub open spec fn strip_closing_len(t: Seq<char>, n: int) -> int
    decreases n,
{
    if n <= 0 {
        0
    } else if t[n - 1] == ']' {
        strip_closing_len(t, n - 1)
    } else {
        n
    }
}

/// The mandatory section of an argument list.
pub open spec fn mandatory_section(s: Seq<char>) -> Seq<char> {
    match find_spec(s, '[') {
        Some(i) => drop_trailing_comma(trim_end_spec(s.subrange(0, i))),
        None => s,
    }
}

/// The optional section of an argument list, if it has one.
pub open spec fn optional_section(s: Seq<char>) -> Option<Seq<char>> {
    match find_spec(s, '[') {
        Some(i) => {
            let rest = s.subrange(i + 1, s.len() as int);
            Some(drop_leading_comma(rest.subrange(0, strip_closing_len(rest, rest.len() as int))))
        },
        None => None,
    }
}

/// Number of entries in the optional section.
pub open spec fn optional_count(s: Seq<char>) -> nat {
    match optional_section(s) {
        Some(o) => split_commas(o).len(),
        None => 0,
    }
}

/// Number of entries of an argument list, both sections together.
pub open spec fn arg_entry_count(s: Seq<char>) -> nat {
    split_commas(mandatory_section(s)).len() + optional_count(s)
}

/// The parameters that an argument list declares.
pub open spec fn args_spec(s: Seq<char>) -> Seq<ParamView> {
    let m = split_commas(mandatory_section(s));
    match optional_section(s) {
        Some(o) => section_params(m, 1, true) + section_params(split_commas(o), 1 + m.len(), false),
        None => section_params(m, 1, true),
    }
}

/// The pieces of `s` between commas.
pub fn split_on_commas(s: &str) -> (r: Vec<String>)
    ensures
        strs_view(r@) == split_commas(s@),
{
    let mut parts: Vec<String> = Vec::new();
    let mut rest: &str = s;
    assert(strs_view(parts@) + split_commas(rest@) =~= split_commas(s@));
    loop
        invariant
            strs_view(parts@) + split_commas(rest@) == split_commas(s@),
        decreases rest@.len(),
    {
        proof {
            lemma_find(rest@, ',');
        }
        match find_char(rest, ',') {
            None => {
                let piece = String::from_str(rest);
                let ghost before = parts@;
                parts.push(piece);
                assert(strs_view(parts@) =~= strs_view(before) + seq![rest@]);
                assert(strs_view(parts@) =~= split_commas(s@));
                return parts;
            },
            Some(i) => {
                let n = rest.unicode_len();
                let piece = String::from_str(rest.substring_char(0, i));
                let next = rest.substring_char(i + 1, n);
                let ghost before = parts@;
                parts.push(piece);
                assert(strs_view(parts@) =~= strs_view(before) + seq![rest@.subrange(0, i as int)]);
                assert(strs_view(parts@) + split_commas(next@) =~= strs_view(before) + split_commas(
                    rest@,
                ));
                rest = next;
            },
        }
    }
}

/// The parameter for one entry; `n` is its running number.
pub fn parse_entry(e: &str, n: usize, required: bool) -> (r: ScarParameter)
    ensures
        r@ == entry_param(e@, n as nat, required),
{
    let t = trim_str(e);
    proof {
        lemma_find(t@, ' ');
    }
    match find_char(t, ' ') {
        Some(i) => {
            let len = t.unicode_len();
            ScarParameter {
                arg_name: String::from_str(t.substring_char(i + 1, len)),
                arg_type: String::from_str(t.substring_char(0, i)),
                arg_description: None,
                arg_required: required,
            }
        },
        None => {
            if same_text(t, "...") {
                ScarParameter {
                    arg_name: String::from_str("..."),
                    arg_type: String::from_str("Any"),
                    arg_description: None,
                    arg_required: required,
                }
            } else {
                let digits = usize_to_decimal(n);
                let name = String::from_str("arg").concat(digits.as_str());
                ScarParameter {
                    arg_name: name,
                    arg_type: String::from_str(t),
                    arg_description: None,
                    arg_required: required,
                }
            }
        },
    }
}

/// The parameters of one section, numbered from `first_index` on.
pub fn get_parameters(args: &str, mandatory: bool, first_index: usize) -> (r: Vec<ScarParameter>)
    requires
        first_index + split_commas(args@).len() <= usize::MAX,
    ensures
        params_view(r@) == section_params(split_commas(args@), first_index as nat, mandatory),
{
    let parts = split_on_commas(args);
    let mut parameters: Vec<ScarParameter> = Vec::new();
    let mut k: usize = 0;
    while k < parts.len()
        invariant
            0 <= k <= parts@.len(),
            strs_view(parts@) == split_commas(args@),
            first_index + parts@.len() <= usize::MAX,
            parameters@.len() == k,
            forall|j: int|
                0 <= j < k ==> #[trigger] parameters@[j]@ == entry_param(
                    split_commas(args@)[j],
                    (first_index + j) as nat,
                    mandatory,
                ),
        decreases parts@.len() - k,
    {
        assert(strs_view(parts@)[k as int] == parts@[k as int]@);
        let p = parse_entry(parts[k].as_str(), first_index + k, mandatory);
        parameters.push(p);
        k = k + 1;
    }
    assert(params_view(parameters@) =~= section_params(
        split_commas(args@),
        first_index as nat,
        mandatory,
    ));
    parameters
}

/// Parses a declaration's argument list; `None` when its entries cannot all be numbered in a
/// `usize`.
pub fn get_scar_function_args(ln: String) -> (r: Option<Vec<ScarParameter>>)
    ensures
        r is Some <==> arg_entry_count(ln@) < usize::MAX,
        r matches Some(v) ==> params_view(v@) == args_spec(ln@),
{
    let s = ln.as_str();
    proof {
        lemma_find(s@, '[');
    }
    match find_char(s, '[') {
        None => {
            let count = split_on_commas(s).len();
            if count == usize::MAX {
                return None;
            }
            Some(get_parameters(s, true, 1))
        },
        Some(idx) => {
            let n = s.unicode_len();
            let head = trim_end_str(s.substring_char(0, idx));
            let hl = head.unicode_len();
            let mand: &str = if hl > 0 && head.get_char(hl - 1) == ',' {
                head.substring_char(0, hl - 1)
            } else {
                head
            };
            assert(mand@ == mandatory_section(s@)) by {
                if hl > 0 {
                    assert(head@.drop_last() =~= head@.subrange(0, hl - 1));
                }
            }
            let rest = s.substring_char(idx + 1, n);
            let rl = rest.unicode_len();
            let mut end: usize = rl;
            while end > 0 && rest.get_char(end - 1) == ']'
                invariant
                    end <= rl,
                    rl == rest@.len(),
                    strip_closing_len(rest@, rl as int) == strip_closing_len(rest@, end as int),
                decreases end,
            {
                end = end - 1;
            }
            assert(strip_closing_len(rest@, end as int) == end as int);
            let closed = rest.substring_char(0, end);
            let cl = closed.unicode_len();
            let opt: &str = if cl > 0 && closed.get_char(0) == ',' {
                closed.substring_char(1, cl)
            } else {
                closed
            };
            assert(opt@ == optional_section(s@)->0) by {
                if cl > 0 {
                    assert(closed@.drop_first() =~= closed@.subrange(1, cl as int));
                }
            }
            let mc = split_on_commas(mand).len();
            let oc = split_on_commas(opt).len();
            if oc >= usize::MAX - mc {
                return None;
            }
            let mut params = get_parameters(mand, true, 1);
            let mut optionals = get_parameters(opt, false, 1 + mc);
            params.append(&mut optionals);
            Some(params)
        },
    }
}

/// The name that a declaration line declares: what stands between its first space and its
/// first `(`, trimmed.
pub open spec fn function_name_spec(l: Seq<char>) -> Option<Seq<char>> {
    match (find_spec(l, ' '), find_spec(l, '(')) {
        (Some(a), Some(b)) => if a + 1 < b {
            Some(trim_spec(l.subrange(a + 1, b)))
        } else {
            None
        },
        _ => None,
    }
}

pub fn get_scar_function_name(ln: String) -> (r: Option<String>)
    ensures
        opt_view(r) == function_name_spec(ln@),
{
    let s = ln.as_str();
    let _len = s.unicode_len();
    proof {
        lemma_find(s@, ' ');
        lemma_find(s@, '(');
    }
    let start = match find_char(s, ' ') {
        Some(i) => i + 1,
        None => {
            return None;
        },
    };
    let end = match find_char(s, '(') {
        Some(j) => j,
        None => {
            return None;
        },
    };
    if start >= end {
        return None;
    }
    Some(String::from_str(trim_str(s.substring_char(start, end))))
}

// ---------------------------------------------------------------------------
// Directives of a doc block
// ---------------------------------------------------------------------------

/// What the directives of a doc block have set so far.
pub struct DocState {
    pub short: Option<Seq<char>>,
    pub extended: Seq<Seq<char>>,
    pub return_type: Option<Seq<char>>,
    pub params: Seq<ParamView>,
    pub in_extended: bool,
    pub failed: bool,
}

/// The text after a directive's tag.
pub open spec fn after_tag(l: Seq<char>, tag: Seq<char>) -> Seq<char> {
    trim_spec(l.subrange(tag.len() as int, l.len() as int))
}

/// The effect of one doc line.
pub open spec fn directive_step(st: DocState, l: Seq<char>) -> DocState {
    if st.failed {
        st
    } else if starts_with_spec(l, "@shortdesc"@) {
        DocState { short: Some(after_tag(l, "@shortdesc"@)), in_extended: false, ..st }
    } else if starts_with_spec(l, "@extdesc"@) {
        let c = after_tag(l, "@extdesc"@);
        DocState {
            extended: if c.len() > 0 {
                st.extended.push(c)
            } else {
                st.extended
            },
            in_extended: true,
            ..st
        }
    } else if starts_with_spec(l, "@result"@) {
        DocState { return_type: Some(after_tag(l, "@result"@)), in_extended: false, ..st }
    } else if starts_with_spec(l, "@args"@) {
        let c = after_tag(l, "@args"@);
        if arg_entry_count(c) < usize::MAX {
            DocState { params: st.params + args_spec(c), in_extended: false, ..st }
        } else {
            DocState { failed: true, ..st }
        }
    } else if st.in_extended {
        DocState { extended: st.extended.push(l), ..st }
    } else {
        st
    }
}

pub open spec fn initial_doc_state() -> DocState {
    DocState {
        short: None,
        extended: Seq::empty(),
        return_type: None,
        params: Seq::empty(),
        in_extended: false,
        failed: false,
    }
}

/// The directives of `ls`, applied in order.
pub open spec fn directives(ls: Seq<Seq<char>>) -> DocState
    decreases ls.len(),
{
    if ls.len() == 0 {
        initial_doc_state()
    } else {
        directive_step(directives(ls.drop_last()), ls.last())
    }
}

pub proof fn lemma_directives_failed(ls: Seq<Seq<char>>, k: int)
    requires
        0 <= k <= ls.len(),
        directives(ls.subrange(0, k)).failed,
    ensures
        directives(ls).failed,
    decreases ls.len() - k,
{
    if k < ls.len() {
        assert(ls.subrange(0, k + 1).drop_last() =~= ls.subrange(0, k));
        lemma_directives_failed(ls, k + 1);
    } else {
        assert(ls.subrange(0, k) =~= ls);
    }
}

/// The function that a declaration line and its doc block document, if any.
pub open spec fn function_spec(decl: Seq<char>, docs: Seq<Seq<char>>) -> Option<FunctionView> {
    match function_name_spec(decl) {
        None => None,
        Some(n) => {
            let st = directives(docs);
            if st.failed {
                None
            } else {
                Some(
                    FunctionView {
                        name: n,
                        description_short: st.short,
                        description_extended: st.extended,
                        example: None,
                        return_description: None,
                        return_type: st.return_type,
                        parameters: st.params,
                        source_file: None,
                        groups: Seq::empty(),
                    },
                )
            }
        },
    }
}

/// The text after a tag that `l` starts with, trimmed.
fn text_after(l: &str, tag: &str) -> (r: String)
    requires
        starts_with_spec(l@, tag@),
    ensures
        r@ == after_tag(l@, tag@),
{
    let k = tag.unicode_len();
    let rest = suffix_from(l, k);
    String::from_str(trim_str(rest.as_str()))
}

/// Builds the function that a declaration line and its doc lines document.
pub fn get_scar_function(func_name: String, func_data: Vec<String>) -> (r: Result<
    ScarFunction,
    String,
>)
    ensures
        match function_spec(func_name@, strs_view(func_data@)) {
            Some(f) => r matches Ok(g) && g@ == f,
            None => r is Err,
        },
{
    let name = match get_scar_function_name(func_name) {
        Some(n) => n,
        None => {
            return Err(String::from_str("expected scar function name but found none"));
        },
    };
    let ghost docs = strs_view(func_data@);
    let mut description_short: Option<String> = None;
    let mut description_extended: Vec<String> = Vec::new();
    let mut return_type: Option<String> = None;
    let mut parameters: Vec<ScarParameter> = Vec::new();
    let mut is_extended_desc = false;
    let mut i: usize = 0;
    assert(docs.subrange(0, 0) =~= Seq::<Seq<char>>::empty());
    assert(strs_view(description_extended@) =~= Seq::<Seq<char>>::empty());
    assert(params_view(parameters@) =~= Seq::<ParamView>::empty());
    while i < func_data.len()
        invariant
            0 <= i <= func_data@.len(),
            docs == strs_view(func_data@),
            directives(docs.subrange(0, i as int)) == (DocState {
                short: opt_view(description_short),
                extended: strs_view(description_extended@),
                return_type: opt_view(return_type),
                params: params_view(parameters@),
                in_extended: is_extended_desc,
                failed: false,
            }),
        decreases func_data@.len() - i,
    {
        let line = func_data[i].as_str();
        assert(docs.subrange(0, i + 1).drop_last() =~= docs.subrange(0, i as int));
        assert(docs[i as int] == line@);
        let ghost before_ext = description_extended@;
        let ghost before_params = parameters@;
        if starts_with(line, "@shortdesc") {
            description_short = Some(text_after(line, "@shortdesc"));
            is_extended_desc = false;
        } else if starts_with(line, "@extdesc") {
            let content = text_after(line, "@extdesc");
            if content.unicode_len() > 0 {
                description_extended.push(content);
                assert(strs_view(description_extended@) =~= strs_view(before_ext).push(content@));
            }
            is_extended_desc = true;
        } else if starts_with(line, "@result") {
            return_type = Some(text_after(line, "@result"));
            is_extended_desc = false;
        } else if starts_with(line, "@args") {
            let content = text_after(line, "@args");
            let quoted = String::from_str("failed to parse arguments directive '").concat(
                content.as_str(),
            ).concat("'");
            match get_scar_function_args(content) {
                Some(mut args) => {
                    let ghost added = args@;
                    parameters.append(&mut args);
                    assert(params_view(parameters@) =~= params_view(before_params) + params_view(added));
                },
                None => {
                    proof {
                        lemma_directives_failed(docs, i + 1);
                    }
                    return Err(quoted);
                },
            }
            is_extended_desc = false;
        } else if is_extended_desc {
            description_extended.push(func_data[i].clone());
            assert(strs_view(description_extended@) =~= strs_view(before_ext).push(line@));
        }
        i = i + 1;
    }
    assert(docs.subrange(0, i as int) =~= docs);
    Ok(
        ScarFunction {
            name,
            description_short,
            description_extended,
            example: None,
            return_description: None,
            return_type,
            parameters,
            source_file: None,
            groups: Vec::new(),
        },
    )
}

// ---------------------------------------------------------------------------
// Doc blocks of a source unit
// ---------------------------------------------------------------------------

/// The pending doc lines and the functions found so far.
pub struct ScanState {
    pub pending: Seq<Seq<char>>,
    pub functions: Seq<FunctionView>,
}

/// A doc-comment line.
pub open spec fn is_doc_line(l: Seq<char>) -> bool {
    starts_with_spec(l, "--? "@)
}

/// A function-declaration line.
pub open spec fn is_decl_line(l: Seq<char>) -> bool {
    starts_with_spec(trim_spec(l), "function"@)
}

pub open spec fn with_source(f: FunctionView, src: Seq<char>) -> FunctionView {
    FunctionView { source_file: Some(src), ..f }
}

/// The effect of one line of a source unit.
pub open spec fn scan_step(st: ScanState, l: Seq<char>, src: Seq<char>) -> ScanState {
    if is_doc_line(l) {
        ScanState { pending: st.pending.push(trim_spec(l.subrange(3, l.len() as int))), ..st }
    } else if is_decl_line(l) {
        if st.pending.len() == 0 {
            st
        } else {
            ScanState {
                pending: Seq::empty(),
                functions: match function_spec(l, st.pending) {
                    Some(f) => st.functions.push(with_source(f, src)),
                    None => st.functions,
                },
            }
        }
    } else {
        ScanState { pending: Seq::empty(), ..st }
    }
}

/// The state after the lines of `lines`, read in order.
pub open spec fn scan(lines: Seq<Seq<char>>, src: Seq<char>) -> ScanState
    decreases lines.len(),
{
    if lines.len() == 0 {
        ScanState { pending: Seq::empty(), functions: Seq::empty() }
    } else {
        scan_step(scan(lines.drop_last(), src), lines.last(), src)
    }
}

/// The functions that the doc blocks of a source unit document.
pub open spec fn documented_functions(lines: Seq<Seq<char>>, src: Seq<char>) -> Seq<FunctionView> {
    scan(lines, src).functions
}

/// A doc block that a line of any other kind (a blank line, say) separates from a
/// declaration documents nothing: the declaration adds no function.
pub proof fn lemma_separated_block_documents_nothing(
    lines: Seq<Seq<char>>,
    gap: Seq<char>,
    decl: Seq<char>,
    src: Seq<char>,
)
    requires
        !is_doc_line(gap),
        !is_decl_line(gap),
    ensures
        documented_functions(lines + seq![gap, decl], src) == documented_functions(lines, src),
{
    let all = lines + seq![gap, decl];
    let mid = lines + seq![gap];
    assert(all.drop_last() =~= mid);
    assert(mid.drop_last() =~= lines);
    assert(all.last() == decl);
    assert(mid.last() == gap);
    assert(scan(mid, src) == scan_step(scan(lines, src), gap, src));
    assert(scan(mid, src).pending.len() == 0);
    assert(scan(mid, src).functions == scan(lines, src).functions);
    assert(scan(all, src) == scan_step(scan(mid, src), decl, src));
}

/// The functions documented in the lines of a source unit named `scar_source`.
pub fn get_scar_functions(lines: &Vec<String>, scar_source: &String) -> (r: Vec<ScarFunction>)
    ensures
        functions_view(r@) == documented_functions(strs_view(lines@), scar_source@),
{
    let ghost ls = strs_view(lines@);
    let mut funcs: Vec<ScarFunction> = Vec::new();
    let mut doc_data: Vec<String> = Vec::new();
    let mut i: usize = 0;
    proof {
        reveal_strlit("--? ");
    }
    assert(ls.subrange(0, 0) =~= Seq::<Seq<char>>::empty());
    assert(strs_view(doc_data@) =~= Seq::<Seq<char>>::empty());
    assert(functions_view(funcs@) =~= Seq::<FunctionView>::empty());
    while i < lines.len()
        invariant
            0 <= i <= lines@.len(),
            ls == strs_view(lines@),
            scan(ls.subrange(0, i as int), scar_source@) == (ScanState {
                pending: strs_view(doc_data@),
                functions: functions_view(funcs@),
            }),
        decreases lines@.len() - i,
    {
        let ln = lines[i].as_str();
        assert(ls.subrange(0, i + 1).drop_last() =~= ls.subrange(0, i as int));
        assert(ls[i as int] == ln@);
        let ghost before_docs = doc_data@;
        let ghost before_funcs = funcs@;
        if starts_with(ln, "--? ") {
            proof {
                reveal_strlit("--? ");
            }
            assert("--? "@.len() == 4);
            let rest = suffix_from(ln, 3);
            let content = String::from_str(trim_str(rest.as_str()));
            doc_data.push(content);
            assert(strs_view(doc_data@) =~= strs_view(before_docs).push(content@));
        } else if starts_with(trim_str(ln), "function") {
            if doc_data.len() > 0 {
                let data = clone_strings(&doc_data);
                match get_scar_function(lines[i].clone(), data) {
                    Ok(mut f) => {
                        f.source_file = Some(scar_source.clone());
                        funcs.push(f);
                        assert(functions_view(funcs@) =~= functions_view(before_funcs).push(
                            f@,
                        ));
                    },
                    Err(_) => {},
                }
                doc_data.clear();
                assert(strs_view(doc_data@) =~= Seq::<Seq<char>>::empty());
            }
        } else {
            doc_data.clear();
            assert(strs_view(doc_data@) =~= Seq::<Seq<char>>::empty());
        }
        i = i + 1;
    }
    assert(ls.subrange(0, i as int) =~= ls);
    funcs
}

} // verus!
