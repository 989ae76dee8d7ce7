use vstd::prelude::*;

use crate::lookup::{list_ast_indices, max_of};
use crate::script::{
    indices_of, lemma_no_error, no_error, node_ok, lemma_nodes_of, node_of, nodes_of, position_of, script_view, seq_max,
    top_positions, Instruction, Node,
};

verus! {

/// The smallest value of `q`, or 0 for an empty sequence.
pub open spec fn seq_min(q: Seq<usize>) -> usize
    decreases q.len(),
{
    if q.len() == 0 {
        0
    } else if q.len() == 1 || q.last() <= seq_min(q.drop_last()) {
        q.last()
    } else {
        seq_min(q.drop_last())
    }
}

/// Where an instruction at position `p` goes in `s`: before the first
/// instruction whose position is greater, or at the end.
pub open spec fn insertion_point(s: Seq<Node>, p: usize) -> int
    decreases s.len(),
{
    if s.len() == 0 {
        0
    } else if position_of(s[0]) matches Some(q) && q > p {
        0
    } else {
        1 + insertion_point(s.subrange(1, s.len() as int), p)
    }
}

/// `s` with `n`, at position `p`, inserted in position order.
pub open spec fn insert_by_position(s: Seq<Node>, n: Node, p: usize) -> Seq<Node> {
    s.insert(insertion_point(s, p), n)
}

/// The smallest and the largest position of `body`'s own instructions
/// bracket `p`.
pub open spec fn brackets(body: Seq<Node>, p: usize) -> bool {
    let t = top_positions(body);
    t.len() > 0 && seq_min(t) <= p <= seq_max(t)
}

/// A top-level label whose body brackets `p` gets `n` in its body, in
/// position order; any other instruction stays as it is.
pub open spec fn label_injected(x: Node, n: Node, p: usize) -> Node {
    match x {
        Node::Label { position, name, body, options } => if brackets(body, p) {
            Node::Label { position, name, body: insert_by_position(body, n, p), options }
        } else {
            x
        },
        _ => x,
    }
}

/// The script after injecting `n` at position `p`: inserted at top level in
/// position order, and also into the body of each top-level label whose
/// positions bracket `p`.
pub open spec fn injected(s: Seq<Node>, n: Node, p: usize) -> Seq<Node> {
    insert_by_position(Seq::new(s.len(), |k: int| label_injected(s[k], n, p)), n, p)
}

/// Some position of `n`, its own or one in its body, is already used in `s`.
pub open spec fn collides(s: Seq<Node>, n: Node) -> bool {
    exists|k: int| 0 <= k < indices_of(seq![n]).len() && indices_of(s).contains(#[trigger] indices_of(seq![n])[k])
}

/// The smallest value in `v`, or 0 when it is empty.
pub fn min_of(v: &Vec<usize>) -> (r: usize)
    ensures
        r == seq_min(v@),
{
    let mut best: usize = 0;
    let mut i: usize = 0;
    while i < v.len()
        invariant
            i <= v.len(),
            best == seq_min(v@.subrange(0, i as int)),
        decreases v.len() - i,
    {
        assert(v@.subrange(0, i + 1).drop_last() =~= v@.subrange(0, i as int));
        if i == 0 || v[i] <= best {
            best = v[i];
        }
        i = i + 1;
    }
    assert(v@.subrange(0, v.len() as int) =~= v@);
    best
}

/// The positions of the instructions of `ast` itself, in order.
pub fn top_level_positions(ast: &Vec<Instruction>) -> (r: Vec<usize>)
    ensures
        r@ == top_positions(script_view(*ast)),
{
    let ghost m = nodes_of(ast@);
    proof {
        lemma_nodes_of(ast@);
    }
    let mut positions: Vec<usize> = Vec::new();
    let mut i: usize = 0;
    while i < ast.len()
        invariant
            i <= ast.len(),
            m == nodes_of(ast@),
            m.len() == ast@.len(),
            forall|k: int| 0 <= k < ast@.len() ==> #[trigger] m[k] == node_of(ast@[k]),
            positions@ == top_positions(m.subrange(0, i as int)),
        decreases ast.len() - i,
    {
        assert(m.subrange(0, i + 1).drop_last() =~= m.subrange(0, i as int));
        match ast[i].position() {
            Some(p) => positions.push(p),
            None => {},
        }
        i = i + 1;
    }
    assert(m.subrange(0, ast.len() as int) =~= m);
    positions
}

/// Whether the positions of `body`'s own instructions bracket `p`.
pub fn body_brackets(body: &Vec<Instruction>, p: usize) -> (r: bool)
    ensures
        r == brackets(script_view(*body), p),
{
    let positions = top_level_positions(body);
    positions.len() > 0 && min_of(&positions) <= p && p <= max_of(&positions)
}

/// Inserts `node`, at position `p`, into `v` in position order.
pub fn insert_in_order(v: &mut Vec<Instruction>, node: Instruction, p: usize)
    ensures
        script_view(*final(v)) == insert_by_position(script_view(*old(v)), node@, p),
{
    let ghost m = nodes_of(v@);
    proof {
        lemma_nodes_of(v@);
        assert(m.subrange(0, m.len() as int) =~= m);
    }
    let mut k: usize = 0;
    while k < v.len()
        invariant_except_break
            insertion_point(m, p) == k + insertion_point(m.subrange(k as int, m.len() as int), p),
        invariant
            k <= v.len(),
            m == nodes_of(v@),
            m.len() == v@.len(),
            forall|j: int| 0 <= j < v@.len() ==> #[trigger] m[j] == node_of(v@[j]),
        ensures
            k <= v.len(),
            insertion_point(m, p) == k,
        decreases v.len() - k,
    {
        let ghost rest = m.subrange(k as int, m.len() as int);
        assert(rest[0] == m[k as int]);
        assert(rest.subrange(1, rest.len() as int) =~= m.subrange(k + 1, m.len() as int));
        match v[k].position() {
            Some(q) => {
                if q > p {
                    assert(insertion_point(rest, p) == 0);
                    break;
                }
            },
            None => {},
        }
        k = k + 1;
        if k == v.len() {
            assert(m.subrange(k as int, m.len() as int).len() == 0);
        }
    }
    let ghost old_v = v@;
    v.insert(k, node);
    proof {
        lemma_nodes_of(v@);
        assert(v@ =~= old_v.insert(k as int, node));
        assert(nodes_of(v@) =~= m.insert(k as int, node@));
    }
}

/// Copies `ast`, adding `node` to the body of each of its labels whose
/// positions bracket `p`.
pub fn inject_into_labels(ast: &Vec<Instruction>, node: &Instruction, p: usize) -> (r: Vec<Instruction>)
    ensures
        script_view(r) == Seq::new(
            script_view(*ast).len(),
            |k: int| label_injected(script_view(*ast)[k], node@, p),
        ),
{
    let ghost m = nodes_of(ast@);
    proof {
        lemma_nodes_of(ast@);
    }
    let mut out: Vec<Instruction> = Vec::new();
    let mut i: usize = 0;
    while i < ast.len()
        invariant
            i <= ast.len(),
            m == nodes_of(ast@),
            m.len() == ast@.len(),
            forall|j: int| 0 <= j < ast@.len() ==> #[trigger] m[j] == node_of(ast@[j]),
            out@.len() == i,
            forall|j: int| 0 <= j < i ==> (#[trigger] out@[j])@ == label_injected(m[j], node@, p),
        decreases ast.len() - i,
    {
        let x = match &ast[i] {
            Instruction::Label { position, name, body, options } => {
                if body_brackets(body, p) {
                    let mut new_body = crate::script::duplicate_all(body);
                    insert_in_order(&mut new_body, node.duplicate(), p);
                    Instruction::Label {
                        position: *position,
                        name: name.clone(),
                        body: new_body,
                        options: crate::script::copy_opt(options),
                    }
                } else {
                    ast[i].duplicate()
                }
            },
            _ => ast[i].duplicate(),
        };
        out.push(x);
        i = i + 1;
    }
    proof {
        lemma_nodes_of(out@);
        assert(nodes_of(out@) =~= Seq::new(m.len(), |k: int| label_injected(m[k], node@, p)));
    }
    out
}

/// The positions of one instruction: its own, then those in its body.
pub fn node_positions(node: &Instruction) -> (r: Vec<usize>)
    requires
        node_ok(node@),
    ensures
        r@ == indices_of(seq![node@]),
{
    let mut single: Vec<Instruction> = Vec::new();
    single.push(node.duplicate());
    proof {
        lemma_nodes_of(single@);
        assert(script_view(single) =~= seq![node@]);
        lemma_no_error(seq![node@]);
    }
    list_ast_indices(&single)
}

/// Whether `v` holds `p`.
pub fn holds_position(v: &Vec<usize>, p: usize) -> (r: bool)
    ensures
        r == v@.contains(p),
{
    let mut i: usize = 0;
    while i < v.len()
        invariant
            i <= v.len(),
            forall|k: int| 0 <= k < i ==> v@[k] != p,
        decreases v.len() - i,
    {
        if v[i] == p {
            return true;
        }
        i = i + 1;
    }
    false
}

/// Whether some position of `node` is already used in `ast`.
pub fn collides_with(ast: &Vec<Instruction>, node: &Instruction) -> (r: bool)
    requires
        no_error(script_view(*ast)),
        node_ok(node@),
    ensures
        r == collides(script_view(*ast), node@),
{
    let universe = list_ast_indices(ast);
    let mine = node_positions(node);
    let mut i: usize = 0;
    while i < mine.len()
        invariant
            i <= mine.len(),
            universe@ == indices_of(script_view(*ast)),
            mine@ == indices_of(seq![node@]),
            forall|k: int| 0 <= k < i ==> !universe@.contains(#[trigger] mine@[k]),
        decreases mine.len() - i,
    {
        if holds_position(&universe, mine[i]) {
            return true;
        }
        i = i + 1;
    }
    false
}

/// Injecting a well-formed instruction keeps a script free of malformed
/// instructions.
pub proof fn lemma_injected_no_error(s: Seq<Node>, n: Node, p: usize)
    requires
        no_error(s),
        node_ok(n),
    ensures
        no_error(injected(s, n, p)),
{
    lemma_no_error(s);
    let mapped = Seq::new(s.len(), |k: int| label_injected(s[k], n, p));
    assert forall|k: int| 0 <= k < mapped.len() implies #[trigger] node_ok(mapped[k]) by {
        if let Node::Label { body, .. } = s[k] {
            if brackets(body, p) {
                assert(node_ok(s[k]));
                lemma_insert_no_error(body, n, p);
            }
        }
    }
    lemma_no_error(mapped);
    lemma_insert_no_error(mapped, n, p);
}

proof fn lemma_insert_no_error(s: Seq<Node>, n: Node, p: usize)
    requires
        no_error(s),
        node_ok(n),
    ensures
        no_error(insert_by_position(s, n, p)),
{
    lemma_no_error(s);
    lemma_insertion_point_bounds(s, p);
    let t = insert_by_position(s, n, p);
    let at = insertion_point(s, p);
    assert forall|k: int| 0 <= k < t.len() implies #[trigger] node_ok(t[k]) by {
        if k < at {
            assert(t[k] == s[k]);
        } else if k > at {
            assert(t[k] == s[k - 1]);
        }
    }
    lemma_no_error(t);
}

proof fn lemma_insertion_point_bounds(s: Seq<Node>, p: usize)
    ensures
        0 <= insertion_point(s, p) <= s.len(),
    decreases s.len(),
{
    if s.len() > 0 {
        lemma_insertion_point_bounds(s.subrange(1, s.len() as int), p);
    }
}

} // verus!
