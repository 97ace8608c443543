use vstd::prelude::*;
use crate::textutil::str_eq;
use crate::variables::ValS;
use crate::variables::Variable;
use crate::variables::VariableS;
use crate::variables::VariableType;

verus! {

/// One lexical frame of named variables, opened by `{` and closed by `}`.
/// The first frame of a run is the permanent root scope.
#[derive(Debug)]
pub struct Scope {
    pub stack: Vec<Variable>,
}

impl View for Scope {
    type V = Seq<VariableS>;

    open spec fn view(&self) -> Seq<VariableS> {
        self.stack.deep_view()
    }
}

impl DeepView for Scope {
    type V = Seq<VariableS>;

    open spec fn deep_view(&self) -> Seq<VariableS> {
        self.view()
    }
}

impl Default for Scope {
    /// An empty frame.
    fn default() -> (s: Scope)
        ensures
            s@ =~= Seq::<VariableS>::empty(),
    {
        Scope { stack: Vec::new() }
    }
}

/// The index of the first variable named `n` in one frame, or `-1`.
pub open spec fn var_idx_in(sc: Seq<VariableS>, n: Seq<char>) -> int
    decreases sc.len(),
{
    if sc.len() == 0 {
        -1
    } else if sc.first().name == n {
        0
    } else {
        let r = var_idx_in(sc.drop_first(), n);
        if r < 0 {
            -1
        } else {
            1 + r
        }
    }
}

pub proof fn lemma_var_idx_at(sc: Seq<VariableS>, n: Seq<char>, j: int)
    requires
        0 <= j <= sc.len(),
        forall|t: int| 0 <= t < j ==> sc[t].name != n,
        j == sc.len() || sc[j].name == n,
    ensures
        var_idx_in(sc, n) == if j == sc.len() {
            -1
        } else {
            j
        },
    decreases j,
{
    if j > 0 {
        let d = sc.drop_first();
        assert forall|t: int| 0 <= t < j - 1 implies d[t].name != n by {
            assert(d[t] == sc[t + 1]);
        }
        if j - 1 < d.len() {
            assert(d[j - 1] == sc[j]);
        }
        lemma_var_idx_at(d, n, j - 1);
    }
}

/// The first frame holding a variable named `n`, scanned in stored order:
/// the root scope first, the most recently pushed frame last, so an outer
/// variable takes priority over a same-named one declared more deeply.
pub open spec fn find_var_spec(n: Seq<char>, ss: Seq<Seq<VariableS>>) -> Option<(int, int)>
    decreases ss.len(),
{
    if ss.len() == 0 {
        None
    } else if var_idx_in(ss.first(), n) >= 0 {
        Some((0, var_idx_in(ss.first(), n)))
    } else {
        match find_var_spec(n, ss.drop_first()) {
            None => None,
            Some((i, j)) => Some((i + 1, j)),
        }
    }
}

pub proof fn lemma_find_var_at(ss: Seq<Seq<VariableS>>, n: Seq<char>, i: int)
    requires
        0 <= i <= ss.len(),
        forall|t: int| 0 <= t < i ==> var_idx_in(ss[t], n) < 0,
        i == ss.len() || var_idx_in(ss[i], n) >= 0,
    ensures
        find_var_spec(n, ss) == if i == ss.len() {
            None::<(int, int)>
        } else {
            Some((i, var_idx_in(ss[i], n)))
        },
    decreases i,
{
    if i > 0 {
        let d = ss.drop_first();
        assert forall|t: int| 0 <= t < i - 1 implies var_idx_in(d[t], n) < 0 by {
            assert(d[t] == ss[t + 1]);
        }
        if i - 1 < d.len() {
            assert(d[i - 1] == ss[i]);
        }
        lemma_find_var_at(d, n, i - 1);
    }
}

/// The value of the first variable named `n`, under the same outer-first
/// policy.
pub open spec fn get_var_value_spec(n: Seq<char>, ss: Seq<Seq<VariableS>>) -> Option<ValS> {
    match find_var_spec(n, ss) {
        None => None,
        Some((i, j)) => Some(ss[i][j].val),
    }
}

/// The index of the first variable named `name` in one frame.
pub fn var_idx(sc: &Scope, name: &String) -> (r: Option<usize>)
    ensures
        match r {
            Some(j) => var_idx_in(sc@, name@) == j as int,
            None => var_idx_in(sc@, name@) < 0,
        },
{
    let mut j: usize = 0;
    while j < sc.stack.len() && !str_eq(sc.stack[j].name.as_str(), name.as_str())
        invariant
            j <= sc.stack.len(),
            forall|t: int| 0 <= t < j ==> sc@[t].name != name@,
        decreases sc.stack.len() - j,
    {
        j += 1;
    }
    proof {
        lemma_var_idx_at(
            sc@,
            name@,
            if j < sc.stack.len() {
                j as int
            } else {
                sc@.len() as int
            },
        );
    }
    if j < sc.stack.len() {
        Some(j)
    } else {
        None
    }
}

/// Locate `name` across the scope stack, outer frames first.
pub fn find_var(name: &String, scopes: &Vec<Scope>) -> (r: Option<(usize, usize)>)
    ensures
        match r {
            Some(p) => find_var_spec(name@, scopes.deep_view()) == Some(
                (p.0 as int, p.1 as int),
            ),
            None => find_var_spec(name@, scopes.deep_view()) is None,
        },
{
    let mut i: usize = 0;
    while i < scopes.len()
        invariant
            i <= scopes.len(),
            forall|t: int| 0 <= t < i ==> var_idx_in(scopes.deep_view()[t], name@) < 0,
        decreases scopes.len() - i,
    {
        match var_idx(&scopes[i], name) {
            Some(j) => {
                proof {
                    lemma_find_var_at(scopes.deep_view(), name@, i as int);
                }
                return Some((i, j));
            },
            None => {
                i += 1;
            },
        }
    }
    proof {
        lemma_find_var_at(scopes.deep_view(), name@, scopes.deep_view().len() as int);
    }
    None
}

/// The value of the first variable named `name`, outer frames first.
pub fn get_var_value(name: &String, scopes: &Vec<Scope>) -> (r: Option<VariableType>)
    ensures
        match r {
            Some(v) => get_var_value_spec(name@, scopes.deep_view()) == Some(v@),
            None => get_var_value_spec(name@, scopes.deep_view()) is None,
        },
{
    match find_var(name, scopes) {
        None => None,
        Some((i, j)) => {
            proof {
                lemma_find_in_range(name@, scopes.deep_view());
            }
            Some(scopes[i].stack[j].variable_type.clone())
        },
    }
}

/// A located variable lies within bounds and bears the sought name.
pub proof fn lemma_find_in_range(n: Seq<char>, ss: Seq<Seq<VariableS>>)
    ensures
        match find_var_spec(n, ss) {
            Some((i, j)) => 0 <= i < ss.len() && 0 <= j < ss[i].len() && ss[i][j].name == n,
            None => true,
        },
    decreases ss.len(),
{
    if ss.len() > 0 {
        lemma_var_idx_range(ss.first(), n);
        if var_idx_in(ss.first(), n) >= 0 {
        } else {
            lemma_find_in_range(n, ss.drop_first());
            if find_var_spec(n, ss.drop_first()) is Some {
                let (i, j) = find_var_spec(n, ss.drop_first())->0;
                assert(ss.drop_first()[i] == ss[i + 1]);
            }
        }
    }
}

/// A found per-frame index lies within bounds and bears the sought name.
pub proof fn lemma_var_idx_range(sc: Seq<VariableS>, n: Seq<char>)
    ensures
        var_idx_in(sc, n) >= 0 ==> var_idx_in(sc, n) < sc.len() && sc[var_idx_in(sc, n)].name
            == n,
    decreases sc.len(),
{
    if sc.len() > 0 && sc.first().name != n {
        lemma_var_idx_range(sc.drop_first(), n);
        if var_idx_in(sc, n) >= 0 {
            assert(sc.drop_first()[var_idx_in(sc, n) - 1] == sc[var_idx_in(sc, n)]);
        }
    }
}

} // verus!
