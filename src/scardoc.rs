use vstd::prelude::*;
use vstd::string::*;
use crate::scarenum::ScarEnum;
use crate::scarfile::{functions_view, FunctionView, ScarFunction, ScarSourceFile};
use crate::table::{index_by_key, index_by_key_from, keys_unique, lemma_index_by_key};
use crate::text::{find_char, find_spec, lemma_find, opt_view};

verus! {

/// A documentation set: functions by category, enumerations and globals.
pub struct ScarDoc {
    pub categories: Vec<ScarDocCategory>,
    pub enums: Vec<ScarEnum>,
    pub globals: Vec<ScarGlobal>,
}

/// The functions that share a category.
pub struct ScarDocCategory {
    pub category_name: String,
    pub category_functions: Vec<ScarFunction>,
}

/// A global value.
#[derive(Clone)]
pub struct ScarGlobal {
    pub name: String,
    pub value: Option<String>,
    pub description: Option<String>,
    pub global_type: Option<String>,
}

pub struct CategoryView {
    pub name: Seq<char>,
    pub functions: Seq<FunctionView>,
}

pub struct GlobalView {
    pub name: Seq<char>,
    pub value: Option<Seq<char>>,
    pub description: Option<Seq<char>>,
    pub global_type: Option<Seq<char>>,
}

impl View for ScarDocCategory {
    type V = CategoryView;

    open spec fn view(&self) -> CategoryView {
        CategoryView { name: self.category_name@, functions: functions_view(self.category_functions@) }
    }
}

impl View for ScarGlobal {
    type V = GlobalView;

    open spec fn view(&self) -> GlobalView {
        GlobalView {
            name: self.name@,
            value: opt_view(self.value),
            description: opt_view(self.description),
            global_type: opt_view(self.global_type),
        }
    }
}

pub open spec fn categories_view(v: Seq<ScarDocCategory>) -> Seq<CategoryView> {
    v.map_values(|c: ScarDocCategory| c@)
}

pub open spec fn globals_view(v: Seq<ScarGlobal>) -> Seq<GlobalView> {
    v.map_values(|g: ScarGlobal| g@)
}

pub open spec fn category_key() -> spec_fn(CategoryView) -> Seq<char> {
    |c: CategoryView| c.name
}

/// The category of a function: its name up to the first `_`, else up to the first `:`, else its
/// first group, else `Other`.
pub open spec fn category_spec(f: FunctionView) -> Seq<char> {
    match find_spec(f.name, '_') {
        Some(i) => f.name.subrange(0, i),
        None => match find_spec(f.name, ':') {
            Some(i) => f.name.subrange(0, i),
            None => if f.groups.len() > 0 {
                f.groups[0]
            } else {
                "Other"@
            },
        },
    }
}

/// `cs` with `f` added to the category it belongs to.
pub open spec fn add_to_categories(cs: Seq<CategoryView>, f: FunctionView) -> Seq<CategoryView> {
    let n = category_spec(f);
    match index_by_key(cs, category_key(), n) {
        Some(j) => cs.update(j, CategoryView { name: n, functions: cs[j].functions.push(f) }),
        None => cs.push(CategoryView { name: n, functions: seq![f] }),
    }
}

/// The categories of `fs`, in order of first appearance, each with its functions in order.
pub open spec fn group_spec(fs: Seq<FunctionView>) -> Seq<CategoryView>
    decreases fs.len(),
{
    if fs.len() == 0 {
        Seq::empty()
    } else {
        add_to_categories(group_spec(fs.drop_last()), fs.last())
    }
}

/// Categories built from any functions are well formed: none is empty, each function sits in
/// the category its name gives it, and no two categories share a name.
pub proof fn lemma_group_well_formed(fs: Seq<FunctionView>)
    ensures
        keys_unique(group_spec(fs), category_key()),
        forall|j: int|
            0 <= j < group_spec(fs).len() ==> (#[trigger] group_spec(fs)[j]).functions.len() > 0,
        forall|j: int, k: int|
            0 <= j < group_spec(fs).len() && 0 <= k < group_spec(fs)[j].functions.len()
                ==> category_spec(#[trigger] group_spec(fs)[j].functions[k]) == group_spec(
                fs,
            )[j].name,
    decreases fs.len(),
{
    if fs.len() > 0 {
        let prev = group_spec(fs.drop_last());
        let f = fs.last();
        let n = category_spec(f);
        lemma_group_well_formed(fs.drop_last());
        lemma_index_by_key(prev, category_key(), n);
        let cs = group_spec(fs);
        assert(cs == add_to_categories(prev, f));
        match index_by_key(prev, category_key(), n) {
            Some(i) => {
                assert(forall|j: int| 0 <= j < cs.len() && j != i ==> cs[j] == prev[j]);
                assert forall|j: int, k: int|
                    0 <= j < cs.len() && 0 <= k < cs[j].functions.len() implies category_spec(
                    #[trigger] cs[j].functions[k],
                ) == cs[j].name by {
                    if j == i {
                        if k < prev[i].functions.len() {
                            assert(cs[j].functions[k] == prev[i].functions[k]);
                        }
                    }
                }
            },
            None => {
                assert(forall|j: int| 0 <= j < prev.len() ==> cs[j] == prev[j]);
            },
        }
    }
}

/// The functions of the source units of `ss`, in order.
pub open spec fn sources_functions(ss: Seq<ScarSourceFile>) -> Seq<FunctionView>
    decreases ss.len(),
{
    if ss.len() == 0 {
        Seq::empty()
    } else {
        sources_functions(ss.drop_last()) + functions_view(ss.last().functions@)
    }
}

/// How a function's category follows from its name: a name holding `_` is categorised by what
/// precedes its first `_`; one with no `_` but a `:` by what precedes its first `:`; one with
/// neither by its first group, and with no groups as `Other`.
pub proof fn lemma_category_rules(f: FunctionView)
    ensures
        f.name.contains('_') ==> exists|i: int|
            0 <= i < f.name.len() && f.name[i] == '_' && (forall|k: int|
                0 <= k < i ==> f.name[k] != '_') && category_spec(f) == f.name.subrange(0, i),
        !f.name.contains('_') && f.name.contains(':') ==> exists|i: int|
            0 <= i < f.name.len() && f.name[i] == ':' && (forall|k: int|
                0 <= k < i ==> f.name[k] != ':') && category_spec(f) == f.name.subrange(0, i),
        !f.name.contains('_') && !f.name.contains(':') && f.groups.len() > 0 ==> category_spec(f)
            == f.groups[0],
        !f.name.contains('_') && !f.name.contains(':') && f.groups.len() == 0 ==> category_spec(f)
            == "Other"@,
{
    lemma_find(f.name, '_');
    lemma_find(f.name, ':');
    match find_spec(f.name, '_') {
        Some(i) => {
            assert(f.name.contains('_'));
        },
        None => {
            if f.name.contains('_') {
                let j = choose|j: int| 0 <= j < f.name.len() && f.name[j] == '_';
                assert(f.name[j] != '_');
            }
            match find_spec(f.name, ':') {
                Some(i) => {
                    assert(f.name.contains(':'));
                },
                None => {
                    if f.name.contains(':') {
                        let j = choose|j: int| 0 <= j < f.name.len() && f.name[j] == ':';
                        assert(f.name[j] != ':');
                    }
                },
            }
        },
    }
}

pub fn categorise_function(func: &ScarFunction) -> (r: String)
    ensures
        r@ == category_spec(func@),
{
    let name = func.name.as_str();
    let _len = name.unicode_len();
    proof {
        lemma_find(name@, '_');
        lemma_find(name@, ':');
    }
    match find_char(name, '_') {
        Some(idx) => String::from_str(name.substring_char(0, idx)),
        None => match find_char(name, ':') {
            Some(idx) => String::from_str(name.substring_char(0, idx)),
            None => if func.groups.len() > 0 {
                func.groups[0].clone()
            } else {
                String::from_str("Other")
            },
        },
    }
}

/// Position of the category named `n`.
fn find_category(cats: &Vec<ScarDocCategory>, n: &String) -> (r: Option<usize>)
    ensures
        match r {
            Some(j) => index_by_key(categories_view(cats@), category_key(), n@) == Some(j as int),
            None => index_by_key(categories_view(cats@), category_key(), n@) is None,
        },
{
    let ghost v = categories_view(cats@);
    let mut i: usize = 0;
    while i < cats.len()
        invariant
            0 <= i <= cats@.len(),
            v == categories_view(cats@),
            index_by_key(v, category_key(), n@) == index_by_key_from(v, category_key(), n@, i as int),
        decreases cats@.len() - i,
    {
        assert(category_key()(v[i as int]) == cats@[i as int].category_name@);
        if cats[i].category_name == *n {
            return Some(i);
        }
        i = i + 1;
    }
    None
}

/// Groups functions by category.
pub fn group_functions(funcs: &Vec<ScarFunction>) -> (r: Vec<ScarDocCategory>)
    ensures
        categories_view(r@) == group_spec(functions_view(funcs@)),
{
    let ghost fs = functions_view(funcs@);
    let mut cats: Vec<ScarDocCategory> = Vec::new();
    let mut i: usize = 0;
    assert(fs.subrange(0, 0) =~= Seq::<FunctionView>::empty());
    assert(categories_view(cats@) =~= Seq::<CategoryView>::empty());
    while i < funcs.len()
        invariant
            0 <= i <= funcs@.len(),
            fs == functions_view(funcs@),
            categories_view(cats@) == group_spec(fs.subrange(0, i as int)),
        decreases funcs@.len() - i,
    {
        assert(fs.subrange(0, i + 1).drop_last() =~= fs.subrange(0, i as int));
        assert(fs[i as int] == funcs@[i as int]@);
        let n = categorise_function(&funcs[i]);
        let f = funcs[i].duplicate();
        let ghost old_view = categories_view(cats@);
        let ghost old_cats = cats@;
        proof {
            lemma_index_by_key(old_view, category_key(), n@);
        }
        match find_category(&cats, &n) {
            Some(j) => {
                let mut c = cats.remove(j);
                let ghost cf = c.category_functions@;
                assert(c == old_cats[j as int]);
                assert(index_by_key(old_view, category_key(), n@) == Some(j as int));
                assert(category_key()(old_view[j as int]) == n@);
                c.category_functions.push(f);
                assert(functions_view(c.category_functions@) =~= functions_view(cf).push(f@));
                let ghost cv = c;
                assert(c@.name == old_view[j as int].name);
                cats.insert(j, c);
                assert(cats@ =~= old_cats.update(j as int, cv));
                assert(cv@ == CategoryView {
                    name: n@,
                    functions: old_view[j as int].functions.push(f@),
                });
                assert(categories_view(cats@) =~= old_view.update(
                    j as int,
                    CategoryView { name: n@, functions: old_view[j as int].functions.push(f@) },
                ));
                assert(categories_view(cats@) == add_to_categories(old_view, fs[i as int]));
            },
            None => {
                let mut fns: Vec<ScarFunction> = Vec::new();
                fns.push(f);
                assert(functions_view(fns@) =~= seq![f@]);
                cats.push(ScarDocCategory { category_name: n, category_functions: fns });
                assert(categories_view(cats@) =~= old_view.push(
                    CategoryView { name: n@, functions: seq![f@] },
                ));
                assert(categories_view(cats@) == add_to_categories(old_view, fs[i as int]));
            },
        }
        assert(fs.subrange(0, i + 1).last() == fs[i as int]);
        assert(group_spec(fs.subrange(0, i + 1)) == add_to_categories(
            group_spec(fs.subrange(0, i as int)),
            fs[i as int],
        ));
        i = i + 1;
    }
    assert(fs.subrange(0, i as int) =~= fs);
    cats
}

/// Flattens the functions of the source units into one list.
fn collect_functions(sources: &Vec<ScarSourceFile>) -> (r: Vec<ScarFunction>)
    ensures
        functions_view(r@) == sources_functions(sources@),
{
    let mut out: Vec<ScarFunction> = Vec::new();
    let mut s: usize = 0;
    assert(sources@.subrange(0, 0) =~= Seq::<ScarSourceFile>::empty());
    assert(functions_view(out@) =~= Seq::<FunctionView>::empty());
    while s < sources.len()
        invariant
            0 <= s <= sources@.len(),
            functions_view(out@) == sources_functions(sources@.subrange(0, s as int)),
        decreases sources@.len() - s,
    {
        assert(sources@.subrange(0, s + 1).drop_last() =~= sources@.subrange(0, s as int));
        let fs = &sources[s].functions;
        let ghost base = functions_view(out@);
        let mut k: usize = 0;
        while k < fs.len()
            invariant
                0 <= k <= fs@.len(),
                s < sources@.len(),
                fs@ == sources@[s as int].functions@,
                functions_view(out@) == base + functions_view(fs@).subrange(0, k as int),
            decreases fs@.len() - k,
        {
            let ghost prev = out@;
            let d = fs[k].duplicate();
            out.push(d);
            assert(functions_view(out@) =~= functions_view(prev).push(fs@[k as int]@));
            assert(functions_view(fs@).subrange(0, k + 1) =~= functions_view(fs@).subrange(
                0,
                k as int,
            ).push(fs@[k as int]@));
            k = k + 1;
            assert(functions_view(out@) =~= base + functions_view(fs@).subrange(0, k as int));
        }
        assert(functions_view(fs@).subrange(0, k as int) =~= functions_view(fs@));
        s = s + 1;
    }
    assert(sources@.subrange(0, s as int) =~= sources@);
    out
}

/// Groups the functions of all source units by category.
pub fn categorise_functions(sources: Vec<ScarSourceFile>) -> (r: Vec<ScarDocCategory>)
    ensures
        categories_view(r@) == group_spec(sources_functions(sources@)),
{
    let funcs = collect_functions(&sources);
    group_functions(&funcs)
}

} // verus!
