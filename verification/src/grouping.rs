use vstd::prelude::*;
use crate::position::Position;
use crate::textutil::str_eq;
use crate::token::TokS;
use crate::token::Token;
use crate::token::TokenS;
use crate::token::TokenType;

verus! {

/// One listener body: the ordered tokens of exactly one brace-delimited
/// block bound to one event name.
#[derive(Debug)]
pub struct EventListener {
    pub tokens: Vec<Token>,
}

impl View for EventListener {
    type V = Seq<TokenS>;

    open spec fn view(&self) -> Seq<TokenS> {
        self.tokens.deep_view()
    }
}

impl DeepView for EventListener {
    type V = Seq<TokenS>;

    open spec fn deep_view(&self) -> Seq<TokenS> {
        self.view()
    }
}

/// The pipeline: event names mapped to their ordered listener bodies, in
/// first-appearance order, each name held once.
#[derive(Debug)]
pub struct EventPipeline {
    pub listeners: Vec<(String, Vec<EventListener>)>,
}

/// The mathematical shape of a pipeline: an association sequence from event
/// name to the ordered bodies registered under it.
pub type PipelineS = Seq<(Seq<char>, Seq<Seq<TokenS>>)>;

impl View for EventPipeline {
    type V = PipelineS;

    open spec fn view(&self) -> PipelineS {
        self.listeners.deep_view()
    }
}

/// The index of `name` in the association sequence `m`, or `-1` if absent.
pub open spec fn key_idx(m: PipelineS, name: Seq<char>) -> int
    decreases m.len(),
{
    if m.len() == 0 {
        -1
    } else if m.first().0 == name {
        0
    } else {
        let r = key_idx(m.drop_first(), name);
        if r < 0 {
            -1
        } else {
            1 + r
        }
    }
}

pub proof fn lemma_key_idx_in_range(m: PipelineS, name: Seq<char>)
    ensures
        -1 <= key_idx(m, name) < m.len(),
        key_idx(m, name) >= 0 ==> m[key_idx(m, name)].0 == name,
    decreases m.len(),
{
    if m.len() > 0 && m.first().0 != name {
        lemma_key_idx_in_range(m.drop_first(), name);
        if key_idx(m, name) >= 0 {
            assert(m.drop_first()[key_idx(m, name) - 1] == m[key_idx(m, name)]);
        }
    }
}

/// `key_idx` is pinned by a witness index `j`: no key before `j` matches,
/// and `j` is either the end or a match.
pub proof fn lemma_key_idx_at(m: PipelineS, name: Seq<char>, j: int)
    requires
        0 <= j <= m.len(),
        forall|t: int| 0 <= t < j ==> m[t].0 != name,
        j == m.len() || m[j].0 == name,
    ensures
        key_idx(m, name) == if j == m.len() {
            -1
        } else {
            j
        },
    decreases j,
{
    if j > 0 {
        let d = m.drop_first();
        assert forall|t: int| 0 <= t < j - 1 implies d[t].0 != name by {
            assert(d[t] == m[t + 1]);
        }
        if j - 1 < d.len() {
            assert(d[j - 1] == m[j]);
        }
        lemma_key_idx_at(d, name, j - 1);
    }
}

/// Append `body` to the list registered under `name`, creating the entry at
/// the end if the name is new.
pub open spec fn map_add(m: PipelineS, name: Seq<char>, body: Seq<TokenS>) -> PipelineS {
    let j = key_idx(m, name);
    if j >= 0 {
        m.update(j, (name, m[j].1.push(body)))
    } else {
        m.push((name, seq![body]))
    }
}

/// The grouping state: the brace depth inside the currently open listener,
/// its name, the body gathered so far, and the finished pipeline entries.
pub struct GroupS {
    pub depth: int,
    pub open_name: Option<Seq<char>>,
    pub body: Seq<TokenS>,
    pub map: PipelineS,
}

pub open spec fn init_group() -> GroupS {
    GroupS { depth: 0, open_name: None, body: Seq::empty(), map: Seq::empty() }
}

/// One token of the grouping pass.  While no listener is open, only a
/// `Listener` token has any effect: it opens one; every other token is
/// dropped.  While one is open, tokens accumulate into its body, and the
/// body closes when the brace nesting returns to zero.
pub open spec fn group_step(st: GroupS, t: TokenS) -> GroupS {
    match st.open_name {
        Some(name) => {
            let depth2 = if t.tok is ScopeStart {
                st.depth + 1
            } else if t.tok is ScopeEnd {
                st.depth - 1
            } else {
                st.depth
            };
            let body2 = st.body.push(t);
            if depth2 == 0 {
                GroupS {
                    depth: 0,
                    open_name: None,
                    body: Seq::empty(),
                    map: map_add(st.map, name, body2),
                }
            } else {
                GroupS { depth: depth2, open_name: Some(name), body: body2, map: st.map }
            }
        },
        None => if t.tok is Listener {
            GroupS { open_name: Some(t.tok->Listener_0), ..st }
        } else {
            st
        },
    }
}

/// The grouping pass folded over a token stream.
pub open spec fn group_run(st: GroupS, toks: Seq<TokenS>) -> GroupS
    decreases toks.len(),
{
    if toks.len() == 0 {
        st
    } else {
        group_step(group_run(st, toks.drop_last()), toks.last())
    }
}

/// The pipeline grouped out of a token stream.  A listener still open at
/// the end of the stream is dropped, as the tokens outside any listener
/// are.
pub open spec fn split_spec(toks: Seq<TokenS>) -> PipelineS {
    group_run(init_group(), toks).map
}

/// The ordered listener bodies a pipeline holds for `name`; none for an
/// absent name.
pub open spec fn bodies_of(m: PipelineS, name: Seq<char>) -> Seq<Seq<TokenS>> {
    let j = key_idx(m, name);
    if j >= 0 {
        m[j].1
    } else {
        Seq::empty()
    }
}

/// The bodies concatenated into one token sequence, in order.
pub open spec fn concat_bodies(bs: Seq<Seq<TokenS>>) -> Seq<TokenS>
    decreases bs.len(),
{
    if bs.len() == 0 {
        Seq::empty()
    } else {
        concat_bodies(bs.drop_last()) + bs.last()
    }
}

/// `key_idx` looks only at the keys.
proof fn lemma_key_idx_same_keys(m: PipelineS, m2: PipelineS, name: Seq<char>)
    requires
        m.len() == m2.len(),
        forall|j: int| 0 <= j < m.len() ==> m[j].0 == m2[j].0,
    ensures
        key_idx(m, name) == key_idx(m2, name),
    decreases m.len(),
{
    if m.len() > 0 {
        let d = m.drop_first();
        let d2 = m2.drop_first();
        assert forall|j: int| 0 <= j < d.len() implies d[j].0 == d2[j].0 by {
            assert(d[j] == m[j + 1]);
            assert(d2[j] == m2[j + 1]);
        }
        lemma_key_idx_same_keys(d, d2, name);
    }
}

/// `key_idx` after appending one entry.
proof fn lemma_key_idx_push(m: PipelineS, p: (Seq<char>, Seq<Seq<TokenS>>), name: Seq<char>)
    ensures
        key_idx(m.push(p), name) == if key_idx(m, name) >= 0 {
            key_idx(m, name)
        } else if p.0 == name {
            m.len() as int
        } else {
            -1
        },
    decreases m.len(),
{
    if m.len() == 0 {
        assert(m.push(p).first() == p);
        assert(m.push(p).drop_first() =~= Seq::<(Seq<char>, Seq<Seq<TokenS>>)>::empty());
        assert(key_idx(m, name) == -1);
        reveal_with_fuel(key_idx, 2);
        assert(key_idx(m.push(p), name) == if p.0 == name {
            0int
        } else {
            -1
        });
    } else {
        assert(m.push(p).first() == m.first());
        assert(m.push(p).drop_first() =~~= m.drop_first().push(p));
        lemma_key_idx_push(m.drop_first(), p, name);
        if m.first().0 == name {
            assert(key_idx(m, name) == 0);
            assert(key_idx(m.push(p), name) == 0);
        }
        if m.first().0 != name {
            let r = key_idx(m.drop_first().push(p), name);
            assert(key_idx(m.push(p), name) == if r < 0 {
                -1
            } else {
                1 + r
            });
            let rm = key_idx(m.drop_first(), name);
            assert(key_idx(m, name) == if rm < 0 {
                -1
            } else {
                1 + rm
            });
        }
    }
}

/// What `map_add` does to one name's bodies: appends the new body under
/// its own name and leaves every other name's bodies untouched.
pub proof fn lemma_map_add_bodies(m: PipelineS, n: Seq<char>, b: Seq<TokenS>, name: Seq<char>)
    ensures
        bodies_of(map_add(m, n, b), name) == if n == name {
            bodies_of(m, name).push(b)
        } else {
            bodies_of(m, name)
        },
{
    lemma_key_idx_in_range(m, n);
    lemma_key_idx_in_range(m, name);
    let j = key_idx(m, n);
    if j >= 0 {
        let m2 = m.update(j, (n, m[j].1.push(b)));
        assert forall|t: int| 0 <= t < m.len() implies m[t].0 == m2[t].0 by {
            assert(m[j].0 == n);
        }
        lemma_key_idx_same_keys(m, m2, name);
        if n == name {
        } else {
            let j2 = key_idx(m, name);
            if j2 >= 0 {
                assert(m[j2].0 == name);
                assert(j2 != j);
                assert(m2[j2] == m[j2]);
            }
        }
    } else {
        let m2 = m.push((n, seq![b]));
        lemma_key_idx_push(m, (n, seq![b]), name);
        if n == name {
            assert(m2[m.len() as int].1 =~~= Seq::<Seq<TokenS>>::empty().push(b));
        } else {
            let j2 = key_idx(m, name);
            if j2 >= 0 {
                assert(m2[j2] == m[j2]);
            }
        }
    }
}

/// The grouping walk projected onto one event name: the same brace
/// tracking, but keeping only the block following a `Listener(name)`
/// header, and concatenating those blocks in source order.
pub struct PickS {
    pub depth: int,
    pub open_name: Option<Seq<char>>,
    pub cur: Seq<TokenS>,
    pub done: Seq<TokenS>,
}

pub open spec fn init_pick() -> PickS {
    PickS { depth: 0, open_name: None, cur: Seq::empty(), done: Seq::empty() }
}

pub open spec fn pick_step(st: PickS, t: TokenS, name: Seq<char>) -> PickS {
    match st.open_name {
        Some(n) => {
            let depth2 = if t.tok is ScopeStart {
                st.depth + 1
            } else if t.tok is ScopeEnd {
                st.depth - 1
            } else {
                st.depth
            };
            let cur2 = if n == name {
                st.cur.push(t)
            } else {
                st.cur
            };
            if depth2 == 0 {
                PickS {
                    depth: 0,
                    open_name: None,
                    cur: Seq::empty(),
                    done: if n == name {
                        st.done + cur2
                    } else {
                        st.done
                    },
                }
            } else {
                PickS { depth: depth2, open_name: Some(n), cur: cur2, done: st.done }
            }
        },
        None => if t.tok is Listener {
            PickS { open_name: Some(t.tok->Listener_0), ..st }
        } else {
            st
        },
    }
}

pub open spec fn pick_run(st: PickS, toks: Seq<TokenS>, name: Seq<char>) -> PickS
    decreases toks.len(),
{
    if toks.len() == 0 {
        st
    } else {
        pick_step(pick_run(st, toks.drop_last(), name), toks.last(), name)
    }
}

/// The brace-delimited contents following each `Listener(name)` header of
/// the stream, concatenated in source order; every other token is dropped.
pub open spec fn blocks_for(toks: Seq<TokenS>, name: Seq<char>) -> Seq<TokenS> {
    pick_run(init_pick(), toks, name).done
}

/// The projection walk tracks the grouping walk exactly: same depth and
/// open listener, the in-progress body when the open listener is the
/// sought name, and the finished bodies' concatenation.
proof fn lemma_pick_projects(toks: Seq<TokenS>, name: Seq<char>)
    ensures
        ({
            let g = group_run(init_group(), toks);
            let p = pick_run(init_pick(), toks, name);
            p.depth == g.depth && p.open_name == g.open_name && p.cur == (
            if g.open_name == Some(name) {
                g.body
            } else {
                Seq::<TokenS>::empty()
            }) && p.done == concat_bodies(bodies_of(g.map, name)) && (g.open_name is None
                ==> g.body == Seq::<TokenS>::empty())
        }),
    decreases toks.len(),
{
    if toks.len() == 0 {
        assert(concat_bodies(bodies_of(Seq::empty(), name)) =~= Seq::<TokenS>::empty());
    } else {
        lemma_pick_projects(toks.drop_last(), name);
        let g1 = group_run(init_group(), toks.drop_last());
        let t = toks.last();
        match g1.open_name {
            Some(n) => {
                let depth2 = if t.tok is ScopeStart {
                    g1.depth + 1
                } else if t.tok is ScopeEnd {
                    g1.depth - 1
                } else {
                    g1.depth
                };
                if depth2 == 0 {
                    let b2 = g1.body.push(t);
                    lemma_map_add_bodies(g1.map, n, b2, name);
                    if n == name {
                        assert(bodies_of(g1.map, name).push(b2).drop_last() =~= bodies_of(
                            g1.map,
                            name,
                        ));
                        assert(bodies_of(g1.map, name).push(b2).last() == b2);
                    }
                }
            },
            None => {},
        }
    }
}

/// Listener grouping completeness: for every event name, the tokens across
/// all grouped listener bodies for that name are exactly the brace-delimited
/// contents following that name's headers, in source order, none reordered,
/// altered, duplicated or lost; tokens outside any open listener appear in
/// no body.
pub proof fn lemma_grouping_completeness(toks: Seq<TokenS>, name: Seq<char>)
    ensures
        concat_bodies(bodies_of(split_spec(toks), name)) == blocks_for(toks, name),
{
    lemma_pick_projects(toks, name);
}

/// Group a flat token stream into per-event listener bodies.
pub fn split(tokens: Vec<Token>) -> (r: Vec<(String, Vec<EventListener>)>)
    ensures
        r.deep_view() == split_spec(tokens.deep_view()),
{
    let ghost stream = tokens.deep_view();
    let mut rest = tokens;
    let mut depth: i128 = 0;
    let mut open: Option<String> = None;
    let mut body: Vec<Token> = Vec::new();
    let mut out: Vec<(String, Vec<EventListener>)> = Vec::new();
    let mut i: usize = 0;
    proof {
        assert(stream.take(0) =~= Seq::<TokenS>::empty());
        assert(body.deep_view() =~= Seq::<TokenS>::empty());
        assert(out.deep_view() =~= Seq::<(Seq<char>, Seq<Seq<TokenS>>)>::empty());
        assert(rest.deep_view() =~= stream.skip(0));
    }
    let n = rest.len();
    proof {
        assert(stream.len() == n);
    }
    while rest.len() > 0
        invariant
            stream.len() <= usize::MAX,
            i + rest.len() == stream.len(),
            rest.deep_view() == stream.skip(i as int),
            -(i as int) <= depth <= i as int,
            group_run(init_group(), stream.take(i as int)) == (GroupS {
                depth: depth as int,
                open_name: open.deep_view(),
                body: body.deep_view(),
                map: out.deep_view(),
            }),
        decreases rest.len(),
    {
        let ghost pre = GroupS {
            depth: depth as int,
            open_name: open.deep_view(),
            body: body.deep_view(),
            map: out.deep_view(),
        };
        proof {
            assert(stream.take(i + 1 as int).drop_last() =~= stream.take(i as int));
            assert(stream.take(i + 1 as int).last() == stream[i as int]);
            assert(rest.deep_view()[0] == stream[i as int]);
        }
        let ghost prev_sh = rest@;
        let ghost prev_rest = rest.deep_view();
        let t = rest.remove(0);
        proof {
            assert forall|j: int| 0 <= j < rest.deep_view().len() implies rest.deep_view()[j]
                == stream.skip(i + 1 as int)[j] by {
                assert(rest@[j] == prev_sh[j + 1]);
                assert(rest.deep_view()[j] == prev_rest[j + 1]);
                assert(prev_rest[j + 1] == stream.skip(i as int)[j + 1]);
            }
            assert(rest.deep_view() =~= stream.skip(i + 1 as int));
        }
        let is_open = open.is_some();
        if is_open {
            match &t.token {
                TokenType::ScopeStart => {
                    depth += 1;
                },
                TokenType::ScopeEnd => {
                    depth -= 1;
                },
                _ => {},
            }
            body.push(t);
            if depth == 0 {
                let name = open.unwrap();
                open = None;
                let finished = EventListener { tokens: body };
                body = Vec::new();
                let mut k: usize = 0;
                while k < out.len() && !str_eq(out[k].0.as_str(), name.as_str())
                    invariant
                        k <= out.len(),
                        forall|t2: int| 0 <= t2 < k ==> out.deep_view()[t2].0 != name@,
                    decreases out.len() - k,
                {
                    k += 1;
                }
                let found = k < out.len();
                proof {
                    lemma_key_idx_at(
                        out.deep_view(),
                        name@,
                        if found {
                            k as int
                        } else {
                            out.deep_view().len() as int
                        },
                    );
                }
                if found {
                    let mut pair = out.remove(k);
                    pair.1.push(finished);
                    out.insert(k, pair);
                } else {
                    let mut group: Vec<EventListener> = Vec::new();
                    group.push(finished);
                    out.push((name, group));
                }
                proof {
                    assert(body.deep_view() =~= Seq::<TokenS>::empty());
                    assert(out.deep_view() =~~= map_add(pre.map, pre.open_name->0, pre.body.push(
                        stream[i as int],
                    )));
                }
            }
        } else {
            match t.token {
                TokenType::Listener(name) => {
                    open = Some(name);
                },
                _ => {},
            }
        }
        proof {
            let post = group_step(pre, stream[i as int]);
            assert(open.deep_view() == post.open_name);
            assert(body.deep_view() =~~= post.body);
            assert(out.deep_view() =~~= post.map);
        }
        i += 1;
    }
    proof {
        assert(stream.take(i as int) =~= stream);
    }
    out
}

} // verus!
