use vstd::prelude::*;
use crate::scardoc::{
    categories_view, globals_view, group_functions, group_spec, CategoryView, GlobalView, ScarDoc,
    ScarDocCategory, ScarGlobal,
};
use crate::scarenum::{enum_values_view, enums_view, EnumView, ScarEnum, ScarEnumValue};
use crate::scarfile::{
    clone_params, eq_params, functions_view, params_view, FunctionView, ScarFunction,
};
use crate::table::{
    index_by_key, index_by_key_from, keys_unique, lemma_index_by_key, lemma_reconcile_distinct,
    lemma_reconcile_itself, reconcile, reconcile_all, take_later,
};
use crate::text::{clone_opt, clone_strings, eq_opt, eq_strings, opt_view, strs_view};

verus! {

// ---------------------------------------------------------------------------
// Field rules
// ---------------------------------------------------------------------------

/// The incoming value where it is present, else the base value.
pub open spec fn coalesce_spec(base: Option<Seq<char>>, incoming: Option<Seq<char>>) -> Option<
    Seq<char>,
> {
    if incoming is Some {
        incoming
    } else {
        base
    }
}

/// The incoming sequence where it is non-empty, else the base sequence.
pub open spec fn prefer_nonempty<T>(base: Seq<T>, incoming: Seq<T>) -> Seq<T> {
    if incoming.len() > 0 {
        incoming
    } else {
        base
    }
}

/// A function merged with an incoming record of the same name.
pub open spec fn merge_function_spec(a: FunctionView, b: FunctionView) -> FunctionView {
    if a == b {
        a
    } else {
        FunctionView {
            description_short: coalesce_spec(a.description_short, b.description_short),
            example: coalesce_spec(a.example, b.example),
            return_description: coalesce_spec(a.return_description, b.return_description),
            return_type: coalesce_spec(a.return_type, b.return_type),
            source_file: coalesce_spec(a.source_file, b.source_file),
            description_extended: prefer_nonempty(a.description_extended, b.description_extended),
            parameters: prefer_nonempty(a.parameters, b.parameters),
            ..a
        }
    }
}

/// Same name, and the same values when taken as sets.
pub open spec fn enum_eq_spec(a: EnumView, b: EnumView) -> bool {
    &&& a.name == b.name
    &&& forall|i: int| 0 <= i < a.values.len() ==> b.values.contains(#[trigger] a.values[i])
    &&& forall|i: int| 0 <= i < b.values.len() ==> a.values.contains(#[trigger] b.values[i])
}

/// An enumeration merged with an incoming one of the same name: unequal values are replaced
/// wholesale by non-empty incoming ones.
pub open spec fn merge_enum_spec(a: EnumView, b: EnumView) -> EnumView {
    if enum_eq_spec(a, b) {
        a
    } else {
        EnumView { values: prefer_nonempty(a.values, b.values), ..a }
    }
}

/// A global merged with an incoming one of the same name.
pub open spec fn merge_global_spec(a: GlobalView, b: GlobalView) -> GlobalView {
    if a == b {
        a
    } else {
        GlobalView {
            description: coalesce_spec(a.description, b.description),
            global_type: coalesce_spec(a.global_type, b.global_type),
            value: coalesce_spec(a.value, b.value),
            ..a
        }
    }
}

/// The incoming value where it is present, else the base value.
pub fn coalesce(base: &Option<String>, incoming: &Option<String>) -> (r: Option<String>)
    ensures
        opt_view(r) == coalesce_spec(opt_view(*base), opt_view(*incoming)),
{
    match incoming {
        Some(_) => clone_opt(incoming),
        None => clone_opt(base),
    }
}

impl ScarFunction {
    /// Equality of every field.
    pub fn eq(&mut self, other: &Self) -> (r: bool)
        ensures
            *final(self) == *old(self),
            r == (old(self)@ == other@),
    {
        self.name == other.name && eq_strings(&self.description_extended, &other.description_extended)
            && eq_opt(&self.description_short, &other.description_short) && eq_opt(
            &self.example,
            &other.example,
        ) && eq_strings(&self.groups, &other.groups) && eq_opt(
            &self.return_description,
            &other.return_description,
        ) && eq_opt(&self.return_type, &other.return_type) && eq_opt(
            &self.source_file,
            &other.source_file,
        ) && eq_params(&self.parameters, &other.parameters)
    }

    /// Reconciles this function with an incoming record of it.
    pub fn merge_with(&mut self, other: &Self)
        ensures
            final(self)@ == merge_function_spec(old(self)@, other@),
    {
        if self.eq(other) {
            return ;
        }
        self.description_short = coalesce(&self.description_short, &other.description_short);
        self.example = coalesce(&self.example, &other.example);
        self.return_description = coalesce(&self.return_description, &other.return_description);
        self.return_type = coalesce(&self.return_type, &other.return_type);
        self.source_file = coalesce(&self.source_file, &other.source_file);
        if other.description_extended.len() > 0 {
            self.description_extended = clone_strings(&other.description_extended);
        }
        if other.parameters.len() > 0 {
            self.parameters = clone_params(&other.parameters);
        }
        proof {
            if other.description_extended@.len() > 0 {
                assert(strs_view(other.description_extended@).len() > 0);
            }
            if other.parameters@.len() > 0 {
                assert(params_view(other.parameters@).len() > 0);
            }
        }
    }
}

impl ScarEnumValue {
    pub fn duplicate(&self) -> (r: ScarEnumValue)
        ensures
            r@ == self@,
    {
        ScarEnumValue { name: self.name.clone(), value: clone_opt(&self.value) }
    }

    pub fn same_as(&self, other: &ScarEnumValue) -> (r: bool)
        ensures
            r == (self@ == other@),
    {
        self.name == other.name && eq_opt(&self.value, &other.value)
    }
}

pub fn clone_enum_values(v: &Vec<ScarEnumValue>) -> (r: Vec<ScarEnumValue>)
    ensures
        enum_values_view(r@) == enum_values_view(v@),
{
    let mut r: Vec<ScarEnumValue> = Vec::new();
    let mut i: usize = 0;
    while i < v.len()
        invariant
            0 <= i <= v@.len(),
            r@.len() == i,
            forall|k: int| 0 <= k < i ==> r@[k]@ == v@[k]@,
        decreases v@.len() - i,
    {
        r.push(v[i].duplicate());
        i = i + 1;
    }
    assert(enum_values_view(r@) =~= enum_values_view(v@));
    r
}

impl ScarEnum {
    pub fn duplicate(&self) -> (r: ScarEnum)
        ensures
            r@ == self@,
    {
        ScarEnum { name: self.name.clone(), values: clone_enum_values(&self.values) }
    }

    /// Whether one of the values has the name and value of `other`.
    pub fn has_value(&self, other: &ScarEnumValue) -> (r: bool)
        ensures
            r == self@.values.contains(other@),
    {
        let ghost vs = self@.values;
        let mut i: usize = 0;
        while i < self.values.len()
            invariant
                0 <= i <= self.values@.len(),
                vs == enum_values_view(self.values@),
                forall|k: int| 0 <= k < i ==> vs[k] != other@,
            decreases self.values@.len() - i,
        {
            if self.values[i].same_as(other) {
                assert(vs[i as int] == other@);
                return true;
            }
            i = i + 1;
        }
        false
    }

    /// Same name and the same set of values.
    pub fn eq(&mut self, other: &Self) -> (r: bool)
        ensures
            *final(self) == *old(self),
            r == enum_eq_spec(old(self)@, other@),
    {
        if self.name != other.name {
            return false;
        }
        let ghost a = self@.values;
        let ghost b = other@.values;
        let mut i: usize = 0;
        while i < self.values.len()
            invariant
                0 <= i <= self.values@.len(),
                a == enum_values_view(self.values@),
                b == other@.values,
                forall|k: int| 0 <= k < i ==> b.contains(#[trigger] a[k]),
            decreases self.values@.len() - i,
        {
            assert(a[i as int] == self.values@[i as int]@);
            if !other.has_value(&self.values[i]) {
                assert(!b.contains(a[i as int]));
                assert(self@.values == a);
                assert(other@.values == b);
                assert(!enum_eq_spec(self@, other@));
                return false;
            }
            i = i + 1;
        }
        let mut j: usize = 0;
        while j < other.values.len()
            invariant
                0 <= j <= other.values@.len(),
                a == self@.values,
                b == enum_values_view(other.values@),
                forall|k: int| 0 <= k < a.len() ==> b.contains(#[trigger] a[k]),
                forall|k: int| 0 <= k < j ==> a.contains(#[trigger] b[k]),
            decreases other.values@.len() - j,
        {
            assert(b[j as int] == other.values@[j as int]@);
            if !self.has_value(&other.values[j]) {
                assert(!a.contains(b[j as int]));
                assert(self@.values == a);
                assert(other@.values == b);
                assert(!enum_eq_spec(self@, other@));
                return false;
            }
            j = j + 1;
        }
        true
    }

    /// Reconciles this enumeration with an incoming one of the same name.
    pub fn merge_with(&mut self, other: &Self)
        ensures
            final(self)@ == merge_enum_spec(old(self)@, other@),
    {
        if self.eq(other) {
            return ;
        }
        if other.values.len() > 0 {
            self.values = clone_enum_values(&other.values);
        }
        proof {
            if other.values@.len() > 0 {
                assert(enum_values_view(other.values@).len() > 0);
            }
        }
    }
}

impl ScarGlobal {
    pub fn duplicate(&self) -> (r: ScarGlobal)
        ensures
            r@ == self@,
    {
        ScarGlobal {
            name: self.name.clone(),
            value: clone_opt(&self.value),
            description: clone_opt(&self.description),
            global_type: clone_opt(&self.global_type),
        }
    }

    /// Equality of every field.
    pub fn eq(&mut self, other: &Self) -> (r: bool)
        ensures
            *final(self) == *old(self),
            r == (old(self)@ == other@),
    {
        self.name == other.name && eq_opt(&self.description, &other.description) && eq_opt(
            &self.global_type,
            &other.global_type,
        ) && eq_opt(&self.value, &other.value)
    }

    /// Reconciles this global with an incoming one of the same name.
    pub fn merge_with(&mut self, other: &Self)
        ensures
            final(self)@ == merge_global_spec(old(self)@, other@),
    {
        if self.eq(other) {
            return ;
        }
        self.description = coalesce(&self.description, &other.description);
        self.global_type = coalesce(&self.global_type, &other.global_type);
        self.value = coalesce(&self.value, &other.value);
    }
}

// ---------------------------------------------------------------------------
// Documents
// ---------------------------------------------------------------------------

pub open spec fn function_key() -> spec_fn(FunctionView) -> Seq<char> {
    |f: FunctionView| f.name
}

pub open spec fn function_merge() -> spec_fn(FunctionView, FunctionView) -> FunctionView {
    |a: FunctionView, b: FunctionView| merge_function_spec(a, b)
}

pub open spec fn enum_key() -> spec_fn(EnumView) -> Seq<char> {
    |e: EnumView| e.name
}

pub open spec fn enum_merge() -> spec_fn(EnumView, EnumView) -> EnumView {
    |a: EnumView, b: EnumView| merge_enum_spec(a, b)
}

pub open spec fn global_key() -> spec_fn(GlobalView) -> Seq<char> {
    |g: GlobalView| g.name
}

pub open spec fn global_merge() -> spec_fn(GlobalView, GlobalView) -> GlobalView {
    |a: GlobalView, b: GlobalView| merge_global_spec(a, b)
}

/// The functions of all categories, in order.
pub open spec fn doc_functions(cs: Seq<CategoryView>) -> Seq<FunctionView>
    decreases cs.len(),
{
    if cs.len() == 0 {
        Seq::empty()
    } else {
        doc_functions(cs.drop_last()) + cs.last().functions
    }
}

/// The functions of `main` keyed by name (a later one of a name replacing an earlier one), with
/// those of `second` merged in.
pub open spec fn merged_functions(main: Seq<CategoryView>, second: Seq<CategoryView>) -> Seq<
    FunctionView,
> {
    reconcile_all(
        reconcile_all(Seq::empty(), doc_functions(main), function_key(), take_later()),
        doc_functions(second),
        function_key(),
        function_merge(),
    )
}

/// The enumerations of `main` keyed by name, with those of `second` merged in.
pub open spec fn merged_enums(main: Seq<EnumView>, second: Seq<EnumView>) -> Seq<EnumView> {
    reconcile_all(
        reconcile_all(Seq::empty(), main, enum_key(), take_later()),
        second,
        enum_key(),
        enum_merge(),
    )
}

/// The globals of `main` keyed by name, with those of `second` merged in.
pub open spec fn merged_globals(main: Seq<GlobalView>, second: Seq<GlobalView>) -> Seq<GlobalView> {
    reconcile_all(
        reconcile_all(Seq::empty(), main, global_key(), take_later()),
        second,
        global_key(),
        global_merge(),
    )
}

/// Position of the function named `name`.
fn find_function(t: &Vec<ScarFunction>, name: &String) -> (r: Option<usize>)
    ensures
        match r {
            Some(j) => index_by_key(functions_view(t@), function_key(), name@) == Some(j as int),
            None => index_by_key(functions_view(t@), function_key(), name@) is None,
        },
{
    let ghost v = functions_view(t@);
    let mut i: usize = 0;
    while i < t.len()
        invariant
            0 <= i <= t@.len(),
            v == functions_view(t@),
            index_by_key(v, function_key(), name@) == index_by_key_from(v, function_key(), name@, i as int),
        decreases t@.len() - i,
    {
        assert(function_key()(v[i as int]) == t@[i as int].name@);
        if t[i].name == *name {
            return Some(i);
        }
        i = i + 1;
    }
    None
}

/// Folds the functions of `xs` into the table: one of a new name is appended; one of a known
/// name replaces the entry (`overwrite`) or is merged into it.
fn reconcile_functions(table: &mut Vec<ScarFunction>, xs: &Vec<ScarFunction>, overwrite: bool)
    ensures
        functions_view(final(table)@) == reconcile_all(
            functions_view(old(table)@),
            functions_view(xs@),
            function_key(),
            if overwrite {
                take_later()
            } else {
                function_merge()
            },
        ),
{
    let ghost combine = if overwrite {
        take_later()
    } else {
        function_merge()
    };
    let ghost t0 = functions_view(table@);
    let ghost xv = functions_view(xs@);
    let mut i: usize = 0;
    assert(xv.subrange(0, 0) =~= Seq::<FunctionView>::empty());
    while i < xs.len()
        invariant
            0 <= i <= xs@.len(),
            xv == functions_view(xs@),
            combine == (if overwrite {
                take_later()
            } else {
                function_merge()
            }),
            functions_view(table@) == reconcile_all(t0, xv.subrange(0, i as int), function_key(), combine),
        decreases xs@.len() - i,
    {
        let x = &xs[i];
        assert(xv[i as int] == x@);
        let ghost tv = functions_view(table@);
        let ghost tt = table@;
        proof {
            lemma_index_by_key(tv, function_key(), x@.name);
        }
        match find_function(table, &x.name) {
            Some(j) => {
                let mut e = table.remove(j);
                assert(e == tt[j as int]);
                if overwrite {
                    e = x.duplicate();
                } else {
                    e.merge_with(x);
                }
                let ghost ev = e;
                table.insert(j, e);
                assert(table@ =~= tt.update(j as int, ev));
                assert(tv[j as int] == tt[j as int]@);
                proof {
                    if overwrite {
                        assert(combine(tv[j as int], x@) == x@);
                    } else {
                        assert(combine(tv[j as int], x@) == merge_function_spec(tv[j as int], x@));
                    }
                }
                assert(ev@ == combine(tv[j as int], x@));
                assert(functions_view(table@) =~= tv.update(j as int, combine(tv[j as int], x@)));
            },
            None => {
                table.push(x.duplicate());
                assert(functions_view(table@) =~= tv.push(x@));
            },
        }
        assert(xv.subrange(0, i + 1).drop_last() =~= xv.subrange(0, i as int));
        assert(xv.subrange(0, i + 1).last() == x@);
        assert(functions_view(table@) == reconcile(tv, x@, function_key(), combine));
        i = i + 1;
    }
    assert(xv.subrange(0, i as int) =~= xv);
}

/// The functions of all categories, in order.
fn doc_function_list(cats: &Vec<ScarDocCategory>) -> (r: Vec<ScarFunction>)
    ensures
        functions_view(r@) == doc_functions(categories_view(cats@)),
{
    let ghost cv = categories_view(cats@);
    let mut out: Vec<ScarFunction> = Vec::new();
    let mut s: usize = 0;
    assert(cv.subrange(0, 0) =~= Seq::<CategoryView>::empty());
    assert(functions_view(out@) =~= Seq::<FunctionView>::empty());
    while s < cats.len()
        invariant
            0 <= s <= cats@.len(),
            cv == categories_view(cats@),
            functions_view(out@) == doc_functions(cv.subrange(0, s as int)),
        decreases cats@.len() - s,
    {
        assert(cv.subrange(0, s + 1).drop_last() =~= cv.subrange(0, s as int));
        assert(cv.subrange(0, s + 1).last() == cats@[s as int]@);
        let fs = &cats[s].category_functions;
        let ghost base = functions_view(out@);
        let mut k: usize = 0;
        while k < fs.len()
            invariant
                0 <= k <= fs@.len(),
                s < cats@.len(),
                fs@ == cats@[s as int].category_functions@,
                functions_view(out@) == base + functions_view(fs@).subrange(0, k as int),
            decreases fs@.len() - k,
        {
            let ghost prev = out@;
            let d = fs[k].duplicate();
            out.push(d);
            assert(functions_view(out@) =~= functions_view(prev).push(fs@[k as int]@));
            assert(functions_view(fs@).subrange(0, k + 1) =~= functions_view(fs@).subrange(
                0,
                k as int,
            ).push(fs@[k as int]@));
            k = k + 1;
            assert(functions_view(out@) =~= base + functions_view(fs@).subrange(0, k as int));
        }
        assert(functions_view(fs@).subrange(0, k as int) =~= functions_view(fs@));
        s = s + 1;
    }
    assert(cv.subrange(0, s as int) =~= cv);
    out
}

/// The categories of the functions of `main` with those of `second` merged in.
fn merge_scardoc_functions(main: &ScarDoc, second: &ScarDoc) -> (r: Vec<ScarDocCategory>)
    ensures
        categories_view(r@) == group_spec(
            merged_functions(categories_view(main.categories@), categories_view(second.categories@)),
        ),
{
    let mut funcs: Vec<ScarFunction> = Vec::new();
    assert(functions_view(funcs@) =~= Seq::<FunctionView>::empty());
    let base = doc_function_list(&main.categories);
    reconcile_functions(&mut funcs, &base, true);
    let incoming = doc_function_list(&second.categories);
    reconcile_functions(&mut funcs, &incoming, false);
    group_functions(&funcs)
}

/// Position of the enumeration named `name`.
pub(crate) fn find_enum(t: &Vec<ScarEnum>, name: &String) -> (r: Option<usize>)
    ensures
        match r {
            Some(j) => index_by_key(enums_view(t@), enum_key(), name@) == Some(j as int),
            None => index_by_key(enums_view(t@), enum_key(), name@) is None,
        },
{
    let ghost v = enums_view(t@);
    let mut i: usize = 0;
    while i < t.len()
        invariant
            0 <= i <= t@.len(),
            v == enums_view(t@),
            index_by_key(v, enum_key(), name@) == index_by_key_from(v, enum_key(), name@, i as int),
        decreases t@.len() - i,
    {
        assert(enum_key()(v[i as int]) == t@[i as int].name@);
        if t[i].name == *name {
            return Some(i);
        }
        i = i + 1;
    }
    None
}

/// Folds the enumerations of `xs` into the table: one of a new name is appended; one of a known
/// name replaces the entry (`overwrite`) or is merged into it.
fn reconcile_enums(table: &mut Vec<ScarEnum>, xs: &Vec<ScarEnum>, overwrite: bool)
    ensures
        enums_view(final(table)@) == reconcile_all(
            enums_view(old(table)@),
            enums_view(xs@),
            enum_key(),
            if overwrite {
                take_later()
            } else {
                enum_merge()
            },
        ),
{
    let ghost combine = if overwrite {
        take_later()
    } else {
        enum_merge()
    };
    let ghost t0 = enums_view(table@);
    let ghost xv = enums_view(xs@);
    let mut i: usize = 0;
    assert(xv.subrange(0, 0) =~= Seq::<EnumView>::empty());
    while i < xs.len()
        invariant
            0 <= i <= xs@.len(),
            xv == enums_view(xs@),
            combine == (if overwrite {
                take_later()
            } else {
                enum_merge()
            }),
            enums_view(table@) == reconcile_all(t0, xv.subrange(0, i as int), enum_key(), combine),
        decreases xs@.len() - i,
    {
        let x = &xs[i];
        assert(xv[i as int] == x@);
        let ghost tv = enums_view(table@);
        let ghost tt = table@;
        proof {
            lemma_index_by_key(tv, enum_key(), x@.name);
        }
        match find_enum(table, &x.name) {
            Some(j) => {
                let mut e = table.remove(j);
                assert(e == tt[j as int]);
                if overwrite {
                    e = x.duplicate();
                } else {
                    e.merge_with(x);
                }
                let ghost ev = e;
                table.insert(j, e);
                assert(table@ =~= tt.update(j as int, ev));
                assert(tv[j as int] == tt[j as int]@);
                proof {
                    if overwrite {
                        assert(combine(tv[j as int], x@) == x@);
                    } else {
                        assert(combine(tv[j as int], x@) == merge_enum_spec(tv[j as int], x@));
                    }
                }
                assert(ev@ == combine(tv[j as int], x@));
                assert(enums_view(table@) =~= tv.update(j as int, combine(tv[j as int], x@)));
            },
            None => {
                table.push(x.duplicate());
                assert(enums_view(table@) =~= tv.push(x@));
            },
        }
        assert(xv.subrange(0, i + 1).drop_last() =~= xv.subrange(0, i as int));
        assert(xv.subrange(0, i + 1).last() == x@);
        assert(enums_view(table@) == reconcile(tv, x@, enum_key(), combine));
        i = i + 1;
    }
    assert(xv.subrange(0, i as int) =~= xv);
}

/// Position of the global named `name`.
fn find_global(t: &Vec<ScarGlobal>, name: &String) -> (r: Option<usize>)
    ensures
        match r {
            Some(j) => index_by_key(globals_view(t@), global_key(), name@) == Some(j as int),
            None => index_by_key(globals_view(t@), global_key(), name@) is None,
        },
{
    let ghost v = globals_view(t@);
    let mut i: usize = 0;
    while i < t.len()
        invariant
            0 <= i <= t@.len(),
            v == globals_view(t@),
            index_by_key(v, global_key(), name@) == index_by_key_from(v, global_key(), name@, i as int),
        decreases t@.len() - i,
    {
        assert(global_key()(v[i as int]) == t@[i as int].name@);
        if t[i].name == *name {
            return Some(i);
        }
        i = i + 1;
    }
    None
}

/// Folds the globals of `xs` into the table: one of a new name is appended; one of a known
/// name replaces the entry (`overwrite`) or is merged into it.
fn reconcile_globals(table: &mut Vec<ScarGlobal>, xs: &Vec<ScarGlobal>, overwrite: bool)
    ensures
        globals_view(final(table)@) == reconcile_all(
            globals_view(old(table)@),
            globals_view(xs@),
            global_key(),
            if overwrite {
                take_later()
            } else {
                global_merge()
            },
        ),
{
    let ghost combine = if overwrite {
        take_later()
    } else {
        global_merge()
    };
    let ghost t0 = globals_view(table@);
    let ghost xv = globals_view(xs@);
    let mut i: usize = 0;
    assert(xv.subrange(0, 0) =~= Seq::<GlobalView>::empty());
    while i < xs.len()
        invariant
            0 <= i <= xs@.len(),
            xv == globals_view(xs@),
            combine == (if overwrite {
                take_later()
            } else {
                global_merge()
            }),
            globals_view(table@) == reconcile_all(t0, xv.subrange(0, i as int), global_key(), combine),
        decreases xs@.len() - i,
    {
        let x = &xs[i];
        assert(xv[i as int] == x@);
        let ghost tv = globals_view(table@);
        let ghost tt = table@;
        proof {
            lemma_index_by_key(tv, global_key(), x@.name);
        }
        match find_global(table, &x.name) {
            Some(j) => {
                let mut e = table.remove(j);
                assert(e == tt[j as int]);
                if overwrite {
                    e = x.duplicate();
                } else {
                    e.merge_with(x);
                }
                let ghost ev = e;
                table.insert(j, e);
                assert(table@ =~= tt.update(j as int, ev));
                assert(tv[j as int] == tt[j as int]@);
                proof {
                    if overwrite {
                        assert(combine(tv[j as int], x@) == x@);
                    } else {
                        assert(combine(tv[j as int], x@) == merge_global_spec(tv[j as int], x@));
                    }
                }
                assert(ev@ == combine(tv[j as int], x@));
                assert(globals_view(table@) =~= tv.update(j as int, combine(tv[j as int], x@)));
            },
            None => {
                table.push(x.duplicate());
                assert(globals_view(table@) =~= tv.push(x@));
            },
        }
        assert(xv.subrange(0, i + 1).drop_last() =~= xv.subrange(0, i as int));
        assert(xv.subrange(0, i + 1).last() == x@);
        assert(globals_view(table@) == reconcile(tv, x@, global_key(), combine));
        i = i + 1;
    }
    assert(xv.subrange(0, i as int) =~= xv);
}

/// `r` is the merge of `main` with `second`.
pub open spec fn is_merge_of(r: ScarDoc, main: ScarDoc, second: ScarDoc) -> bool {
    &&& categories_view(r.categories@) == group_spec(
        merged_functions(categories_view(main.categories@), categories_view(second.categories@)),
    )
    &&& enums_view(r.enums@) == merged_enums(enums_view(main.enums@), enums_view(second.enums@))
    &&& globals_view(r.globals@) == merged_globals(
        globals_view(main.globals@),
        globals_view(second.globals@),
    )
}

/// Merges each document with the one after it, each time from the documents as given; the
/// result is the merge of the last two, or `None` for fewer than two documents.
pub fn merge_scardocs(docs: &Vec<ScarDoc>) -> (r: Option<ScarDoc>)
    ensures
        docs@.len() < 2 ==> r is None,
        docs@.len() >= 2 ==> (r matches Some(d) && is_merge_of(
            d,
            docs@[docs@.len() - 2],
            docs@[docs@.len() - 1],
        )),
{
    let mut result: Option<ScarDoc> = None;
    let mut i: usize = 1;
    while i < docs.len()
        invariant
            1 <= i,
            i <= docs@.len() || docs@.len() == 0,
            docs@.len() < 2 ==> i == 1,
            i < 2 ==> result is None,
            i >= 2 ==> (result matches Some(d) && is_merge_of(d, docs@[i - 2], docs@[i - 1])),
        decreases docs@.len() - i,
    {
        let merged = merge_scardoc(&docs[i - 1], &docs[i]);
        result = Some(merged);
        i = i + 1;
    }
    result
}

/// Merges two documents: functions, enumerations and globals of `second` are folded into those
/// of `main`, and the functions are grouped by category anew.
pub fn merge_scardoc(main: &ScarDoc, second: &ScarDoc) -> (r: ScarDoc)
    ensures
        is_merge_of(r, *main, *second),
{
    let categories = merge_scardoc_functions(main, second);
    let mut enums: Vec<ScarEnum> = Vec::new();
    assert(enums_view(enums@) =~= Seq::<EnumView>::empty());
    reconcile_enums(&mut enums, &main.enums, true);
    reconcile_enums(&mut enums, &second.enums, false);
    let mut globals: Vec<ScarGlobal> = Vec::new();
    assert(globals_view(globals@) =~= Seq::<GlobalView>::empty());
    reconcile_globals(&mut globals, &main.globals, true);
    reconcile_globals(&mut globals, &second.globals, false);
    ScarDoc { categories, enums, globals }
}

/// Merging a document with an identical copy of itself changes nothing: its functions come out
/// as they were, grouped by category anew, and its enumerations and globals come out as they
/// were.
pub proof fn lemma_merge_with_itself(
    cats: Seq<CategoryView>,
    enums: Seq<EnumView>,
    globals: Seq<GlobalView>,
)
    requires
        keys_unique(doc_functions(cats), function_key()),
        keys_unique(enums, enum_key()),
        keys_unique(globals, global_key()),
    ensures
        merged_functions(cats, cats) == doc_functions(cats),
        group_spec(merged_functions(cats, cats)) == group_spec(doc_functions(cats)),
        merged_enums(enums, enums) == enums,
        merged_globals(globals, globals) == globals,
{
    let fs = doc_functions(cats);
    assert forall|x: FunctionView| #[trigger] function_merge()(x, x) == x by {}
    assert forall|x: EnumView| #[trigger] enum_merge()(x, x) == x by {
        assert(enum_eq_spec(x, x)) by {
            assert forall|i: int| 0 <= i < x.values.len() implies x.values.contains(
                #[trigger] x.values[i],
            ) by {}
        }
    }
    assert forall|x: GlobalView| #[trigger] global_merge()(x, x) == x by {}
    lemma_reconcile_distinct(fs, function_key(), take_later());
    lemma_reconcile_itself(fs, function_key(), function_merge(), fs.len() as int);
    assert(fs.subrange(0, fs.len() as int) =~= fs);
    lemma_reconcile_distinct(enums, enum_key(), take_later());
    lemma_reconcile_itself(enums, enum_key(), enum_merge(), enums.len() as int);
    assert(enums.subrange(0, enums.len() as int) =~= enums);
    lemma_reconcile_distinct(globals, global_key(), take_later());
    lemma_reconcile_itself(globals, global_key(), global_merge(), globals.len() as int);
    assert(globals.subrange(0, globals.len() as int) =~= globals);
}

} // verus!
