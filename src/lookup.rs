use vstd::prelude::*;

use crate::script::{
    find_at, find_in_labels, indices_of, label_indices, lemma_no_error, lemma_nodes_of, lookup,
    max_index, no_error, node_of, node_ok, nodes_of, script_view, seq_max, top_positions,
    Instruction, Node,
};

verus! {

/// The model of an optional instruction.
pub open spec fn opt_node(r: Option<Instruction>) -> Option<Node> {
    match r {
        Some(i) => Some(i@),
        None => None,
    }
}

/// Lists every position of a script, descending into label bodies at any
/// depth: the script's own positions first, then those of each label in turn.
/// The script holds no malformed instruction.
pub fn list_ast_indices(ast: &Vec<Instruction>) -> (r: Vec<usize>)
    requires
        no_error(script_view(*ast)),
    ensures
        r@ == indices_of(script_view(*ast)),
    decreases ast@,
{
    let ghost m = nodes_of(ast@);
    proof {
        lemma_nodes_of(ast@);
        lemma_no_error(m);
    }
    let mut indices: Vec<usize> = Vec::new();
    let mut i: usize = 0;
    while i < ast.len()
        invariant
            i <= ast.len(),
            m == nodes_of(ast@),
            m.len() == ast@.len(),
            forall|k: int| 0 <= k < ast@.len() ==> #[trigger] m[k] == node_of(ast@[k]),
            indices@ == top_positions(m.subrange(0, i as int)),
        decreases ast.len() - i,
    {
        assert(m.subrange(0, i + 1).drop_last() =~= m.subrange(0, i as int));
        match ast[i].position() {
            Some(p) => indices.push(p),
            None => {},
        }
        i = i + 1;
    }
    assert(m.subrange(0, ast.len() as int) =~= m);
    let mut j: usize = 0;
    while j < ast.len()
        invariant
            j <= ast.len(),
            m == nodes_of(ast@),
            m.len() == ast@.len(),
            forall|k: int| 0 <= k < ast@.len() ==> #[trigger] m[k] == node_of(ast@[k]),
            indices@ == top_positions(m) + label_indices(m.subrange(0, j as int)),
            forall|k: int| 0 <= k < m.len() ==> #[trigger] node_ok(m[k]),
        decreases ast.len() - j,
    {
        assert(m.subrange(0, j + 1).drop_last() =~= m.subrange(0, j as int));
        match &ast[j] {
            Instruction::Label { body, .. } => {
                proof {
                    assert(decreases_to!(ast@ => ast@[j as int]));
                }
                assert(node_ok(m[j as int]));
                let mut nested = list_ast_indices(body);
                let ghost before = indices@;
                indices.append(&mut nested);
                assert(indices@ =~= before + indices_of(nodes_of(body@)));
            },
            _ => {},
        }
        j = j + 1;
    }
    assert(m.subrange(0, ast.len() as int) =~= m);
    indices
}

/// The largest value in `v`, or 0 when it is empty.
pub fn max_of(v: &Vec<usize>) -> (r: usize)
    ensures
        r == seq_max(v@),
{
    let mut best: usize = 0;
    let mut i: usize = 0;
    while i < v.len()
        invariant
            i <= v.len(),
            best == seq_max(v@.subrange(0, i as int)),
        decreases v.len() - i,
    {
        assert(v@.subrange(0, i + 1).drop_last() =~= v@.subrange(0, i as int));
        if v[i] > best {
            best = v[i];
        }
        i = i + 1;
    }
    assert(v@.subrange(0, v.len() as int) =~= v@);
    best
}

/// The end-of-script sentinel of `ast`: its largest position, 0 when it has none.
pub fn max_position(ast: &Vec<Instruction>) -> (r: usize)
    requires
        no_error(script_view(*ast)),
    ensures
        r == max_index(script_view(*ast)),
{
    let indices = list_ast_indices(ast);
    max_of(&indices)
}

/// The first instruction of `ast` itself (not of label bodies) at position
/// `index`. The script holds no malformed instruction.
pub fn find_element_with_index(ast: &Vec<Instruction>, index: usize) -> (r: Option<Instruction>)
    requires
        no_error(script_view(*ast)),
    ensures
        opt_node(r) == find_at(script_view(*ast), index),
{
    let ghost m = nodes_of(ast@);
    proof {
        lemma_nodes_of(ast@);
        assert(m.subrange(0, m.len() as int) =~= m);
    }
    let mut i: usize = 0;
    while i < ast.len()
        invariant
            i <= ast.len(),
            m == nodes_of(ast@),
            m.len() == ast@.len(),
            forall|k: int| 0 <= k < ast@.len() ==> #[trigger] m[k] == node_of(ast@[k]),
            find_at(m, index) == find_at(m.subrange(i as int, m.len() as int), index),
        decreases ast.len() - i,
    {
        let ghost rest = m.subrange(i as int, m.len() as int);
        assert(rest[0] == m[i as int]);
        assert(rest.subrange(1, rest.len() as int) =~= m.subrange(i + 1, m.len() as int));
        if ast[i].position() == Some(index) {
            return Some(ast[i].duplicate());
        }
        i = i + 1;
    }
    None
}

/// The first instruction at position `index` inside the body of a label of
/// `ast`, labels taken in document order; only one level down is searched.
pub fn find_in_label_bodies(ast: &Vec<Instruction>, index: usize) -> (r: Option<Instruction>)
    requires
        no_error(script_view(*ast)),
    ensures
        opt_node(r) == find_in_labels(script_view(*ast), index),
{
    let ghost m = nodes_of(ast@);
    proof {
        lemma_nodes_of(ast@);
        lemma_no_error(nodes_of(ast@));
        assert(m.subrange(0, m.len() as int) =~= m);
    }
    let mut i: usize = 0;
    while i < ast.len()
        invariant
            i <= ast.len(),
            m == nodes_of(ast@),
            m.len() == ast@.len(),
            forall|k: int| 0 <= k < ast@.len() ==> #[trigger] m[k] == node_of(ast@[k]),
            find_in_labels(m, index) == find_in_labels(m.subrange(i as int, m.len() as int), index),
            forall|k: int| 0 <= k < m.len() ==> #[trigger] node_ok(m[k]),
        decreases ast.len() - i,
    {
        let ghost rest = m.subrange(i as int, m.len() as int);
        assert(rest[0] == m[i as int]);
        assert(rest.subrange(1, rest.len() as int) =~= m.subrange(i + 1, m.len() as int));
        match &ast[i] {
            Instruction::Label { body, .. } => {
                assert(node_ok(m[i as int]));
                let found = find_element_with_index(body, index);
                if found.is_some() {
                    return found;
                }
            },
            _ => {},
        }
        i = i + 1;
    }
    None
}

/// The instruction at position `index` as the traversal sees it: at top level
/// first, then inside the bodies of top-level labels.
pub fn find_next_element(ast: &Vec<Instruction>, index: usize) -> (r: Option<Instruction>)
    requires
        no_error(script_view(*ast)),
    ensures
        opt_node(r) == lookup(script_view(*ast), index),
{
    let top = find_element_with_index(ast, index);
    if top.is_some() {
        top
    } else {
        find_in_label_bodies(ast, index)
    }
}

/// Whether no instruction of `ast`, at any depth, is malformed.
pub fn holds_no_error(ast: &Vec<Instruction>) -> (r: bool)
    ensures
        r == no_error(script_view(*ast)),
    decreases ast@,
{
    let ghost m = nodes_of(ast@);
    proof {
        lemma_nodes_of(ast@);
        lemma_no_error(m);
    }
    let mut i: usize = 0;
    while i < ast.len()
        invariant
            i <= ast.len(),
            m == nodes_of(ast@),
            m.len() == ast@.len(),
            forall|k: int| 0 <= k < ast@.len() ==> #[trigger] m[k] == node_of(ast@[k]),
            no_error(m) == forall|k: int| 0 <= k < m.len() ==> #[trigger] node_ok(m[k]),
            forall|k: int| 0 <= k < i ==> #[trigger] node_ok(m[k]),
        decreases ast.len() - i,
    {
        if !instruction_is_well_formed(&ast[i]) {
            assert(!node_ok(m[i as int]));
            return false;
        }
        i = i + 1;
    }
    true
}

/// Whether `node` is not malformed, and neither is anything in its body.
pub fn instruction_is_well_formed(node: &Instruction) -> (r: bool)
    ensures
        r == node_ok(node@),
    decreases node,
{
    match node {
        Instruction::Error => false,
        Instruction::Label { body, .. } => {
            proof {
                assert(decreases_to!(node => body@));
            }
            holds_no_error(body)
        },
        _ => true,
    }
}

} // verus!
