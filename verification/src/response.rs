//! The response layer: wraps an evaluation result as a serializable tree,
//! optionally collapses satisfied low-severity subtrees, and projects the
//! default view. Collapsing never changes a verdict, only removes
//! explanatory detail below the chosen severity threshold.

use vstd::prelude::*;
use crate::rationale::{sat, EvaluationResult, Rationale, Severity};
use crate::report::{opt_name_view, opt_value_view, reason, reason_spec};
use crate::value::{Value, ValueV};

verus! {

/// Ghost form of one [`Response`] node.
pub ghost struct ResponseV {
    pub name: Option<Seq<char>>,
    pub input: Option<ValueV>,
    pub satisfied: bool,
    pub severity: Severity,
    pub reason: Seq<char>,
    pub rationale: Seq<ResponseV>,
}

/// One node of the serializable response tree.
#[derive(Debug)]
pub struct Response {
    pub name: Option<String>,
    pub input: Option<Value>,
    pub satisfied: bool,
    pub severity: Severity,
    pub reason: String,
    pub rationale: Vec<Response>,
}

/// The model of one response node.
pub open spec fn response_view(r: Response) -> ResponseV
    decreases r, 0int,
    via response_view_dec
{
    ResponseV {
        name: opt_name_view(r.name),
        input: opt_value_view(r.input),
        satisfied: r.satisfied,
        severity: r.severity,
        reason: r.reason@,
        rationale: response_list_view(r.rationale@, 0),
    }
}

/// The models of the children from position `i` on.
pub open spec fn response_list_view(s: Seq<Response>, i: int) -> Seq<ResponseV>
    decreases s, s.len() - i + 1,
{
    if 0 <= i < s.len() {
        seq![response_view(s[i])] + response_list_view(s, i + 1)
    } else {
        Seq::empty()
    }
}

#[via_fn]
proof fn response_view_dec(r: Response) {
    assert(decreases_to!(r => r.rationale));
    assert(decreases_to!(r.rationale => r.rationale@));
}

impl View for Response {
    type V = ResponseV;

    open spec fn view(&self) -> ResponseV {
        response_view(*self)
    }
}

/// The pointwise form of the children's models.
pub proof fn lemma_response_list_view(s: Seq<Response>, i: int)
    requires
        0 <= i <= s.len(),
    ensures
        response_list_view(s, i).len() == s.len() - i,
        forall|k: int| 0 <= k < s.len() - i ==> response_list_view(s, i)[k] == response_view(
            s[i + k],
        ),
    decreases s.len() - i,
{
    if i < s.len() {
        lemma_response_list_view(s, i + 1);
    }
}

/// The response tree of one evaluation result: its name, input, verdict,
/// severity and sentence, and one child per explained sub-result: the field
/// results of an `Object`, the items of a `List`, `Chain` or `Function`, and
/// the primary and optional secondary of a `Refinement`.
pub open spec fn resp_of(er: EvaluationResult) -> ResponseV
    decreases er, 1int, 0int,
    via resp_of_dec
{
    ResponseV {
        name: opt_name_view(er.name),
        input: opt_value_view(er.input),
        satisfied: sat(er.rationale),
        severity: er.severity,
        reason: reason_spec(er.rationale),
        rationale: match er.rationale {
            Rationale::Object(fields) => resp_of_fields(fields@, 0),
            Rationale::List(items) => resp_of_list(items@, 0),
            Rationale::Chain(terms) => resp_of_list(terms@, 0),
            Rationale::Function(_, _, terms) => resp_of_list(terms@, 0),
            Rationale::Refinement(primary, refinement) => seq![resp_of(*primary)] + match refinement {
                Option::Some(secondary) => seq![resp_of(*secondary)],
                Option::None => Seq::empty(),
            },
            _ => Seq::empty(),
        },
    }
}

/// The response trees of the sub-results from position `i` on.
pub open spec fn resp_of_list(s: Seq<EvaluationResult>, i: int) -> Seq<ResponseV>
    decreases s, 0int, s.len() - i + 1,
{
    if 0 <= i < s.len() {
        seq![resp_of(s[i])] + resp_of_list(s, i + 1)
    } else {
        Seq::empty()
    }
}

/// The response trees of the field sub-results from position `i` on.
pub open spec fn resp_of_fields(s: Seq<(String, EvaluationResult)>, i: int) -> Seq<ResponseV>
    decreases s, 0int, s.len() - i + 1,
{
    if 0 <= i < s.len() {
        seq![resp_of(s[i].1)] + resp_of_fields(s, i + 1)
    } else {
        Seq::empty()
    }
}

#[via_fn]
proof fn resp_of_dec(er: EvaluationResult) {
    let r = er.rationale;
    assert(decreases_to!(er => r));
    match r {
        Rationale::Object(fields) => {
            assert(decreases_to!(r => fields));
            assert(decreases_to!(fields => fields@));
        },
        Rationale::List(items) => {
            assert(decreases_to!(r => items));
            assert(decreases_to!(items => items@));
        },
        Rationale::Chain(terms) => {
            assert(decreases_to!(r => terms));
            assert(decreases_to!(terms => terms@));
        },
        Rationale::Function(b, nested, terms) => {
            assert(decreases_to!(r => terms));
            assert(decreases_to!(terms => terms@));
        },
        Rationale::Refinement(primary, refinement) => {
            assert(decreases_to!(r => primary));
            match refinement {
                Option::Some(secondary) => {
                    assert(decreases_to!(r => refinement));
                    assert(decreases_to!(refinement => secondary));
                },
                Option::None => {},
            }
        },
        _ => {},
    }
}

/// The pointwise form of the sub-results' response trees.
pub proof fn lemma_resp_of_list(s: Seq<EvaluationResult>, i: int)
    requires
        0 <= i <= s.len(),
    ensures
        resp_of_list(s, i).len() == s.len() - i,
        forall|k: int| 0 <= k < s.len() - i ==> resp_of_list(s, i)[k] == resp_of(s[i + k]),
    decreases s.len() - i,
{
    if i < s.len() {
        lemma_resp_of_list(s, i + 1);
    }
}

/// The pointwise form of the field sub-results' response trees.
pub proof fn lemma_resp_of_fields(s: Seq<(String, EvaluationResult)>, i: int)
    requires
        0 <= i <= s.len(),
    ensures
        resp_of_fields(s, i).len() == s.len() - i,
        forall|k: int| 0 <= k < s.len() - i ==> resp_of_fields(s, i)[k] == resp_of(s[i + k].1),
    decreases s.len() - i,
{
    if i < s.len() {
        lemma_resp_of_fields(s, i + 1);
    }
}

impl Response {
    /// Wrap an evaluation result as a response tree, exactly as [`resp_of`]
    /// states.
    pub fn new(result: &EvaluationResult) -> (r: Response)
        ensures
            r@ == resp_of(*result),
        decreases *result, 2int, 0int,
    {
        let name = match &result.name {
            Option::Some(s) => Option::Some(s.clone()),
            Option::None => Option::None,
        };
        let input = match &result.input {
            Option::Some(v) => Option::Some(v.clone()),
            Option::None => Option::None,
        };
        let children = match &result.rationale {
            Rationale::Object(fields) => {
                let mut out: Vec<Response> = Vec::new();
                let mut i: usize = 0;
                while i < fields.len()
                    invariant
                        i <= fields@.len(),
                        out@.len() == i as int,
                        forall|k: int| 0 <= k < i as int ==> response_view(out@[k]) == resp_of(
                            fields@[k].1,
                        ),
                    decreases fields@.len() - i,
                {
                    proof {
                        let r = result.rationale;
                        assert(decreases_to!(*result => r));
                        assert(decreases_to!(r => *fields));
                        assert(decreases_to!(*fields => fields@));
                        assert(decreases_to!(fields@ => fields@[i as int]));
                        assert(decreases_to!(fields@[i as int] => fields@[i as int].1));
                    }
                    let child = Response::new(&fields[i].1);
                    out.push(child);
                    i = i + 1;
                }
                proof {
                    lemma_response_list_view(out@, 0);
                    lemma_resp_of_fields(fields@, 0);
                    assert(response_list_view(out@, 0) =~= resp_of(*result).rationale);
                }
                out
            },
            Rationale::List(items) => Self::new_list(items),
            Rationale::Chain(terms) => Self::new_list(terms),
            Rationale::Function(_, _, terms) => Self::new_list(terms),
            Rationale::Refinement(primary, refinement) => {
                let mut out: Vec<Response> = Vec::new();
                proof {
                    let r = result.rationale;
                    assert(decreases_to!(*result => r));
                    assert(decreases_to!(r => *primary));
                }
                out.push(Response::new(primary));
                match refinement {
                    Option::Some(secondary) => {
                        proof {
                            let r = result.rationale;
                            assert(decreases_to!(*result => r));
                            assert(decreases_to!(r => *refinement));
                            assert(decreases_to!(*refinement => **secondary));
                        }
                        out.push(Response::new(secondary));
                    },
                    Option::None => {},
                }
                proof {
                    lemma_response_list_view(out@, 0);
                    assert(response_list_view(out@, 0) =~= resp_of(*result).rationale);
                }
                out
            },
            _ => Vec::new(),
        };
        let r = Response {
            name,
            input,
            satisfied: result.satisfied(),
            severity: result.severity,
            reason: reason(&result.rationale),
            rationale: children,
        };
        proof {
            match &result.rationale {
                Rationale::Object(_) => {},
                Rationale::List(items) => {
                    lemma_response_list_view(r.rationale@, 0);
                    lemma_resp_of_list(items@, 0);
                    assert(response_list_view(r.rationale@, 0) =~= resp_of(*result).rationale);
                },
                Rationale::Chain(terms) => {
                    lemma_response_list_view(r.rationale@, 0);
                    lemma_resp_of_list(terms@, 0);
                    assert(response_list_view(r.rationale@, 0) =~= resp_of(*result).rationale);
                },
                Rationale::Function(_, _, terms) => {
                    lemma_response_list_view(r.rationale@, 0);
                    lemma_resp_of_list(terms@, 0);
                    assert(response_list_view(r.rationale@, 0) =~= resp_of(*result).rationale);
                },
                _ => {
                    assert(response_list_view(r.rationale@, 0) =~= resp_of(*result).rationale);
                },
            }
            assert(r@ == resp_of(*result));
        }
        r
    }

    /// Prune, bottom-up, every subtree whose own severity ranks below
    /// `threshold` and whose verdict is satisfied, replacing it with just its
    /// verdict; exactly as [`collapse_v`] states. Collapsing never changes a
    /// verdict, only removes explanatory detail.
    pub fn collapse(&self, threshold: Severity) -> (r: Response)
        ensures
            r@ == collapse_v(self@, threshold),
        decreases *self, 1int,
    {
        let mut kids: Vec<Response> = Vec::new();
        let mut i: usize = 0;
        proof {
            lemma_response_list_view(self.rationale@, 0);
        }
        while i < self.rationale.len()
            invariant
                i <= self.rationale@.len(),
                kids@.len() == i as int,
                forall|k: int| 0 <= k < i as int ==> response_view(kids@[k]) == collapse_child(
                    response_view(self.rationale@[k]),
                    threshold,
                ),
            decreases self.rationale@.len() - i,
        {
            proof {
                assert(decreases_to!(*self => self.rationale));
                assert(decreases_to!(self.rationale => self.rationale@));
                assert(decreases_to!(self.rationale@ => self.rationale@[i as int]));
            }
            let child = &self.rationale[i];
            let next = if child.satisfied && child.severity.ranks_below(&threshold) {
                child.stub()
            } else {
                child.collapse(threshold)
            };
            kids.push(next);
            i = i + 1;
        }
        let r = Response {
            name: match &self.name {
                Option::Some(s) => Option::Some(s.clone()),
                Option::None => Option::None,
            },
            input: match &self.input {
                Option::Some(v) => Option::Some(v.clone()),
                Option::None => Option::None,
            },
            satisfied: self.satisfied,
            severity: self.severity,
            reason: self.reason.clone(),
            rationale: kids,
        };
        proof {
            lemma_response_list_view(r.rationale@, 0);
            lemma_collapse_kids(self@.rationale, 0, threshold);
            assert(response_list_view(r.rationale@, 0) =~= collapse_kids(
                self@.rationale,
                0,
                threshold,
            ));
        }
        r
    }

    /// The default serialized projection of this response:
    /// `{name, input, satisfied, reason, rationale}`, where `rationale` is
    /// the flattened pre-order narrative of the (possibly collapsed) tree.
    pub fn as_view(&self) -> (r: crate::report::Report)
        ensures
            opt_name_view(r.name) == self@.name,
            opt_value_view(r.input) == self@.input,
            r.satisfied == self@.satisfied,
            r.reason@ == self@.reason,
            r.rationale.deep_view() == resp_support(self@),
    {
        crate::report::Report {
            name: match &self.name {
                Option::Some(s) => Option::Some(s.clone()),
                Option::None => Option::None,
            },
            input: match &self.input {
                Option::Some(v) => Option::Some(v.clone()),
                Option::None => Option::None,
            },
            satisfied: self.satisfied,
            reason: self.reason.clone(),
            rationale: self.support_strings(),
        }
    }

    /// The flattened pre-order narrative of this response: its own sentence,
    /// then each child's narrative, in order.
    pub fn support_strings(&self) -> (r: Vec<String>)
        ensures
            r.deep_view() == resp_support(self@),
        decreases *self, 1int,
    {
        let mut out: Vec<String> = Vec::new();
        out.push(self.reason.clone());
        let mut rest = Self::support_kids(&self.rationale, 0);
        out.append(&mut rest);
        proof {
            lemma_response_list_view(self.rationale@, 0);
            assert(out.deep_view() =~= resp_support(self@));
        }
        out
    }

    /// The concatenated narratives of the children from position `i` on.
    fn support_kids(items: &Vec<Response>, i: usize) -> (r: Vec<String>)
        requires
            i <= items@.len(),
        ensures
            r.deep_view() == resp_support_kids(response_list_view(items@, 0), i as int),
        decreases items@, 2int, items@.len() - i,
    {
        proof {
            lemma_response_list_view(items@, 0);
        }
        if i < items.len() {
            proof {
                assert(decreases_to!(items@ => items@[i as int]));
            }
            let mut out = items[i].support_strings();
            let mut rest = Self::support_kids(items, i + 1);
            out.append(&mut rest);
            proof {
                assert(out.deep_view() =~= resp_support_kids(
                    response_list_view(items@, 0),
                    i as int,
                ));
            }
            out
        } else {
            Vec::new()
        }
    }

    /// Just the verdict of this node, stripped of all detail.
    fn stub(&self) -> (r: Response)
        ensures
            r@ == stub_v(self@),
    {
        let r = Response {
            name: match &self.name {
                Option::Some(s) => Option::Some(s.clone()),
                Option::None => Option::None,
            },
            input: Option::None,
            satisfied: self.satisfied,
            severity: self.severity,
            reason: String::new(),
            rationale: Vec::new(),
        };
        proof {
            assert(response_list_view(r.rationale@, 0) =~= Seq::<ResponseV>::empty());
        }
        r
    }

    /// The response trees of a list of sub-results, in order.
    fn new_list(items: &Vec<EvaluationResult>) -> (r: Vec<Response>)
        ensures
            r@.len() == items@.len(),
            forall|k: int| 0 <= k < items@.len() ==> response_view(r@[k]) == resp_of(items@[k]),
        decreases items@, 1int, 0int,
    {
        let mut out: Vec<Response> = Vec::new();
        let mut i: usize = 0;
        while i < items.len()
            invariant
                i <= items@.len(),
                out@.len() == i as int,
                forall|k: int| 0 <= k < i as int ==> response_view(out@[k]) == resp_of(items@[k]),
            decreases items@.len() - i,
        {
            proof {
                assert(decreases_to!(items@ => items@[i as int]));
            }
            let child = Response::new(&items[i]);
            out.push(child);
            i = i + 1;
        }
        out
    }
}

/// The flattened pre-order narrative of a response tree: the node's own
/// sentence, then each child's narrative, in order.
pub open spec fn resp_support(t: ResponseV) -> Seq<Seq<char>>
    decreases t, 1int,
{
    seq![t.reason] + resp_support_kids(t.rationale, 0)
}

/// The concatenated narratives of the children from position `i` on.
pub open spec fn resp_support_kids(s: Seq<ResponseV>, i: int) -> Seq<Seq<char>>
    decreases s, 2int, s.len() - i + 1,
{
    if 0 <= i < s.len() {
        resp_support(s[i]) + resp_support_kids(s, i + 1)
    } else {
        Seq::empty()
    }
}

/// Skipping the first child shifts the narrative index by one.
proof fn lemma_kids_skip(cs: Seq<ResponseV>, j: int)
    requires
        1 <= j <= cs.len(),
    ensures
        resp_support_kids(cs, j) == resp_support_kids(cs.skip(1), j - 1),
    decreases cs.len() - j,
{
    if j < cs.len() {
        assert(cs.skip(1)[j - 1] == cs[j]);
        lemma_kids_skip(cs, j + 1);
    }
}

/// The narrative of an uncollapsed response tree is exactly the flattened
/// narrative of the underlying rationale: the wrapped view and the direct
/// projection tell the same story.
pub proof fn lemma_narratives_agree(er: EvaluationResult)
    ensures
        resp_support(resp_of(er)) == crate::report::support_spec(er.rationale),
    decreases er, 2int, 0int,
{
    let t = resp_of(er);
    match er.rationale {
        Rationale::Object(fields) => {
            lemma_narratives_fields(fields@, 0);
            assert(resp_support(t) =~= crate::report::support_spec(er.rationale));
        },
        Rationale::List(items) => {
            lemma_narratives_list(items@, 0);
            assert(resp_support(t) =~= crate::report::support_spec(er.rationale));
        },
        Rationale::Chain(terms) => {
            lemma_narratives_list(terms@, 0);
            assert(resp_support(t) =~= crate::report::support_spec(er.rationale));
        },
        Rationale::Function(b, nested, terms) => {
            lemma_narratives_list(terms@, 0);
            assert(resp_support(t) =~= crate::report::support_spec(er.rationale));
        },
        Rationale::Refinement(primary, refinement) => {
            let r = er.rationale;
            assert(decreases_to!(er => r));
            assert(decreases_to!(r => primary));
            lemma_narratives_agree(*primary);
            match refinement {
                Option::Some(secondary) => {
                    assert(decreases_to!(r => refinement));
                    assert(decreases_to!(refinement => secondary));
                    lemma_narratives_agree(*secondary);
                    let cs = t.rationale;
                    assert(cs =~= seq![resp_of(*primary), resp_of(*secondary)]);
                    assert(resp_support_kids(cs, 0) == resp_support(cs[0]) + resp_support_kids(
                        cs,
                        1,
                    ));
                    assert(resp_support_kids(cs, 1) == resp_support(cs[1]) + resp_support_kids(
                        cs,
                        2,
                    ));
                    assert(resp_support_kids(cs, 2) =~= Seq::<Seq<char>>::empty());
                    assert(resp_support(t) =~= crate::report::support_spec(er.rationale));
                },
                Option::None => {
                    let cs = t.rationale;
                    assert(cs =~= seq![resp_of(*primary)]);
                    assert(resp_support_kids(cs, 0) == resp_support(cs[0]) + resp_support_kids(
                        cs,
                        1,
                    ));
                    assert(resp_support_kids(cs, 1) =~= Seq::<Seq<char>>::empty());
                    assert(resp_support(t) =~= crate::report::support_spec(er.rationale));
                },
            }
        },
        _ => {
            assert(t.rationale =~= Seq::<ResponseV>::empty());
            assert(resp_support(t) =~= crate::report::support_spec(er.rationale));
        },
    }
}

/// The narratives of the sub-results from `i` on agree with the flattened
/// rationale narratives.
proof fn lemma_narratives_list(s: Seq<EvaluationResult>, i: int)
    requires
        0 <= i <= s.len(),
    ensures
        resp_support_kids(resp_of_list(s, i), 0) == crate::report::support_all_spec(s, i),
    decreases s, 1int, s.len() - i,
{
    if i < s.len() {
        let cs = resp_of_list(s, i);
        let tail = resp_of_list(s, i + 1);
        assert(cs == seq![resp_of(s[i])] + tail);
        lemma_narratives_agree(s[i]);
        lemma_narratives_list(s, i + 1);
        assert(cs.skip(1) =~= tail);
        if cs.len() > 1 {
            lemma_kids_skip(cs, 1);
        } else {
            assert(resp_support_kids(cs, 1) =~= Seq::<Seq<char>>::empty());
            assert(resp_support_kids(tail, 0) =~= Seq::<Seq<char>>::empty());
        }
        assert(resp_support_kids(cs, 0) =~= crate::report::support_all_spec(s, i));
    } else {
        assert(resp_of_list(s, i) =~= Seq::<ResponseV>::empty());
    }
}

/// The narratives of the field sub-results from `i` on agree with the
/// flattened rationale narratives.
proof fn lemma_narratives_fields(s: Seq<(String, EvaluationResult)>, i: int)
    requires
        0 <= i <= s.len(),
    ensures
        resp_support_kids(resp_of_fields(s, i), 0) == crate::report::support_fields_spec(s, i),
    decreases s, 1int, s.len() - i,
{
    if i < s.len() {
        let cs = resp_of_fields(s, i);
        let tail = resp_of_fields(s, i + 1);
        assert(cs == seq![resp_of(s[i].1)] + tail);
        lemma_narratives_agree(s[i].1);
        lemma_narratives_fields(s, i + 1);
        assert(cs.skip(1) =~= tail);
        if cs.len() > 1 {
            lemma_kids_skip(cs, 1);
        } else {
            assert(resp_support_kids(cs, 1) =~= Seq::<Seq<char>>::empty());
            assert(resp_support_kids(tail, 0) =~= Seq::<Seq<char>>::empty());
        }
        assert(resp_support_kids(cs, 0) =~= crate::report::support_fields_spec(s, i));
    } else {
        assert(resp_of_fields(s, i) =~= Seq::<ResponseV>::empty());
    }
}

/// Just the verdict of a node: name and verdict kept, detail stripped.
pub open spec fn stub_v(t: ResponseV) -> ResponseV {
    ResponseV {
        name: t.name,
        input: Option::None,
        satisfied: t.satisfied,
        severity: t.severity,
        reason: Seq::empty(),
        rationale: Seq::empty(),
    }
}

/// The collapsed form of a node: its own fields kept, each child pruned to a
/// stub where it is satisfied and ranks below the threshold, collapsed
/// recursively otherwise.
pub open spec fn collapse_v(t: ResponseV, threshold: Severity) -> ResponseV
    decreases t, 1int,
{
    ResponseV {
        name: t.name,
        input: t.input,
        satisfied: t.satisfied,
        severity: t.severity,
        reason: t.reason,
        rationale: collapse_kids(t.rationale, 0, threshold),
    }
}

/// The collapsed form of one child.
pub open spec fn collapse_child(c: ResponseV, threshold: Severity) -> ResponseV
    decreases c, 2int,
{
    if c.satisfied && c.severity.spec_level() < threshold.spec_level() {
        stub_v(c)
    } else {
        collapse_v(c, threshold)
    }
}

/// The collapsed forms of the children from position `i` on.
pub open spec fn collapse_kids(s: Seq<ResponseV>, i: int, threshold: Severity) -> Seq<ResponseV>
    decreases s, 3int, s.len() - i + 1,
{
    if 0 <= i < s.len() {
        seq![collapse_child(s[i], threshold)] + collapse_kids(s, i + 1, threshold)
    } else {
        Seq::empty()
    }
}

/// The pointwise form of the collapsed children.
pub proof fn lemma_collapse_kids(s: Seq<ResponseV>, i: int, threshold: Severity)
    requires
        0 <= i <= s.len(),
    ensures
        collapse_kids(s, i, threshold).len() == s.len() - i,
        forall|k: int| 0 <= k < s.len() - i ==> collapse_kids(s, i, threshold)[k]
            == collapse_child(s[i + k], threshold),
    decreases s.len() - i,
{
    if i < s.len() {
        lemma_collapse_kids(s, i + 1, threshold);
    }
}

/// Collapsing is idempotent: collapsing an already collapsed tree changes
/// nothing, so applying the collapse twice yields the same serialized tree
/// as applying it once.
pub proof fn lemma_collapse_idempotent(t: ResponseV, threshold: Severity)
    ensures
        collapse_v(collapse_v(t, threshold), threshold) == collapse_v(t, threshold),
    decreases t, 1int,
{
    let once = collapse_v(t, threshold);
    lemma_collapse_kids(t.rationale, 0, threshold);
    lemma_collapse_kids(once.rationale, 0, threshold);
    assert forall|k: int| 0 <= k < t.rationale.len() implies collapse_child(
        once.rationale[k],
        threshold,
    ) == once.rationale[k] by {
        assert(decreases_to!(t, 1int => t.rationale, 2int));
        lemma_collapse_child_idempotent(t.rationale[k], threshold);
    }
    assert(collapse_kids(once.rationale, 0, threshold) =~= once.rationale);
}

/// Collapsing one already collapsed child changes nothing.
pub proof fn lemma_collapse_child_idempotent(c: ResponseV, threshold: Severity)
    ensures
        collapse_child(collapse_child(c, threshold), threshold) == collapse_child(c, threshold),
    decreases c, 2int,
{
    if c.satisfied && c.severity.spec_level() < threshold.spec_level() {
        let s = stub_v(c);
        assert(collapse_kids(s.rationale, 0, threshold) =~= Seq::<ResponseV>::empty());
        assert(collapse_child(s, threshold) == stub_v(s));
    } else {
        lemma_collapse_idempotent(c, threshold);
    }
}

} // verus!
