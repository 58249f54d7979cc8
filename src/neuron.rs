use vstd::prelude::*;

use crate::gene::{
    head_node_index, is_inner_index, is_input_index, is_output_index, node_index, raw_weight_of,
    tail_node_index, Gene, NodeID, INNER_NODE_COUNT, INPUT_NODE_COUNT, OUTPUT_NODE_COUNT,
    TOTAL_NODE_COUNT,
};

verus! {

/// Where the weight of the edge from node `head` to node `tail` is kept. The
/// slots are laid out block by block: input to inner, input to output, inner to
/// inner, inner to output.
pub open spec fn connection_slot(head: nat, tail: nat) -> nat {
    if is_input_index(head) {
        if is_inner_index(tail) {
            ((tail - 4) + head * 3) as nat
        } else {
            (12 + (tail - 7) + head * 10) as nat
        }
    } else {
        if is_inner_index(tail) {
            (52 + (tail - 4) + (head - 4) * 3) as nat
        } else {
            (61 + (tail - 7) + (head - 4) * 10) as nat
        }
    }
}

/// An edge may start at an input or an inner node and end at an inner or an output node.
pub open spec fn is_legal_edge(head: nat, tail: nat) -> bool {
    (is_input_index(head) || is_inner_index(head)) && (is_inner_index(tail) || is_output_index(
        tail,
    ))
}

/// Every 32-bit value decodes to a legal edge: its head is an input or an inner
/// node, its tail an inner or an output node.
pub proof fn lemma_gene_edges_legal(g: u32)
    ensures
        is_legal_edge(head_node_index(g), tail_node_index(g)),
        connection_slot(head_node_index(g), tail_node_index(g)) < 91,
{
}

/// Each legal edge has a slot of its own, and the slots are exactly `0..91`.
pub proof fn lemma_connection_slots_distinct(h1: nat, t1: nat, h2: nat, t2: nat)
    requires
        is_legal_edge(h1, t1),
        is_legal_edge(h2, t2),
    ensures
        connection_slot(h1, t1) < 91,
        connection_slot(h1, t1) == connection_slot(h2, t2) ==> h1 == h2 && t1 == t2,
{
}

/// The sum of the raw weights of the genes among `genes` whose edge has slot `slot`.
pub open spec fn slot_sum(genes: Seq<Gene>, slot: nat) -> int
    decreases genes.len(),
{
    if genes.len() == 0 {
        0
    } else {
        let g = genes.last();
        slot_sum(genes.drop_last(), slot) + if connection_slot(
            head_node_index(g.gene),
            tail_node_index(g.gene),
        ) == slot {
            raw_weight_of(g.gene)
        } else {
            0
        }
    }
}

/// The connection weights that a genome wires: slot by slot, the sum of the
/// raw weights of the genes that target it.
pub open spec fn net_weights(genes: Seq<Gene>) -> Seq<int> {
    Seq::new(91, |s: int| slot_sum(genes, s as nat))
}

proof fn lemma_slot_sum_bound(genes: Seq<Gene>, slot: nat)
    ensures
        -0x8000 * genes.len() <= slot_sum(genes, slot) <= 0x8000 * genes.len(),
    decreases genes.len(),
{
    if genes.len() > 0 {
        lemma_slot_sum_bound(genes.drop_last(), slot);
    }
}

/// The wiring of an agent's network: one accumulated raw weight per
/// connection slot. The neuron values live with whoever evaluates it.
#[derive(Debug)]
pub struct NeuralNet {
    connections: Vec<i128>,
}

impl NeuralNet {
    pub closed spec fn weights(&self) -> Seq<int> {
        self.connections@.map_values(|w: i128| w as int)
    }

    /// One weight per connection slot.
    #[verifier::type_invariant]
    spec fn one_weight_per_slot(&self) -> bool {
        self.connections@.len() == 91
    }

    /// Builds the wiring of a genome; genes that target the same slot add up.
    pub fn new(genome: &[Gene]) -> (r: NeuralNet)
        ensures
            r.weights() == net_weights(genome@),
            r.weights().len() == 91,
    {
        let mut connections: Vec<i128> = Vec::new();
        let mut s: usize = 0;
        while s < 91
            invariant
                s <= 91,
                connections@.len() == s,
                forall|j: int| 0 <= j < s ==> connections@[j] == 0,
            decreases 91 - s,
        {
            connections.push(0);
            s = s + 1;
        }
        let mut k: usize = 0;
        while k < genome.len()
            invariant
                k <= genome@.len(),
                connections@.len() == 91,
                forall|j: int|
                    0 <= j < 91 ==> connections@[j] as int == slot_sum(
                        genome@.subrange(0, k as int),
                        j as nat,
                    ),
            decreases genome@.len() - k,
        {
            let gene = genome[k];
            let slot = gene.get_connection_index();
            let w = gene.get_raw_weight();
            proof {
                let pre = genome@.subrange(0, k as int);
                let post = genome@.subrange(0, k + 1);
                assert(post.drop_last() == pre);
                lemma_slot_sum_bound(pre, slot as nat);
                assert(pre.len() == k);
            }
            let old = connections[slot];
            connections.set(slot, old + w as i128);
            k = k + 1;
        }
        proof {
            assert(genome@.subrange(0, genome@.len() as int) == genome@);
        }
        let r = NeuralNet { connections };
        assert(r.weights() =~= net_weights(genome@));
        r
    }

    /// The accumulated raw weight of a slot.
    pub fn get_weight(&self, slot: usize) -> (r: i128)
        requires
            slot < 91,
        ensures
            r as int == self.weights()[slot as int],
    {
        proof {
            use_type_invariant(self);
        }
        self.connections[slot]
    }

    /// The slot of the edge from `head` to `tail`.
    pub fn get_connection_index(head: NodeID, tail: NodeID) -> (r: usize)
        requires
            is_legal_edge(node_index(head), node_index(tail)),
        ensures
            r == connection_slot(node_index(head), node_index(tail)),
            r < 91,
    {
        if head.is_input() {
            if tail.is_inner() {
                tail.get_inner_index() + head.get_input_index() * INNER_NODE_COUNT
            } else {
                tail.get_output_index() + head.get_input_index() * OUTPUT_NODE_COUNT + (
                INPUT_NODE_COUNT * INNER_NODE_COUNT)
            }
        } else {
            if tail.is_inner() {
                tail.get_inner_index() + head.get_inner_index() * INNER_NODE_COUNT + (
                INPUT_NODE_COUNT * INNER_NODE_COUNT + INPUT_NODE_COUNT * OUTPUT_NODE_COUNT)
            } else {
                tail.get_output_index() + head.get_inner_index() * OUTPUT_NODE_COUNT + (
                INPUT_NODE_COUNT * INNER_NODE_COUNT + INPUT_NODE_COUNT * OUTPUT_NODE_COUNT
                    + INNER_NODE_COUNT * INNER_NODE_COUNT)
            }
        }
    }
}

/// One operation of the network's evaluation: add the weighted value of `head`
/// to `tail`, or clamp a node's value below at zero.
#[derive(Clone, Copy, Debug, PartialEq, Eq, Structural)]
pub enum EvalStep {
    Accumulate { head: usize, tail: usize },
    Activate { node: usize },
}

/// For each of `tails` nodes from `first_tail`, in order: one accumulation from
/// each of `heads` nodes from `first_head`, then, with `activate`, the
/// activation of the tail.
pub open spec fn layer_pass(
    first_tail: nat,
    tails: nat,
    first_head: nat,
    heads: nat,
    activate: bool,
) -> Seq<EvalStep> {
    let per = if activate {
        heads + 1
    } else {
        heads
    };
    Seq::new(
        tails * per,
        |k: int|
            if k % per as int >= heads {
                EvalStep::Activate { node: (first_tail + k / per as int) as usize }
            } else {
                EvalStep::Accumulate {
                    head: (first_head + k % per as int) as usize,
                    tail: (first_tail + k / per as int) as usize,
                }
            },
    )
}

/// The single pass that evaluates a network: input to inner with activation,
/// input to output, inner to inner with activation again, inner to output.
pub open spec fn evaluation_order_spec() -> Seq<EvalStep> {
    layer_pass(4, 3, 0, 4, true) + layer_pass(7, 10, 0, 4, false) + layer_pass(4, 3, 4, 3, true)
        + layer_pass(7, 10, 4, 3, false)
}

/// A step of a pass reads a head among its heads and writes a tail among its tails.
proof fn lemma_layer_pass_nodes(
    first_tail: nat,
    tails: nat,
    first_head: nat,
    heads: nat,
    activate: bool,
    k: int,
)
    requires
        heads > 0,
        first_tail + tails <= TOTAL_NODE_COUNT,
        first_head + heads <= TOTAL_NODE_COUNT,
        0 <= k < layer_pass(first_tail, tails, first_head, heads, activate).len(),
    ensures
        ({
            let step = layer_pass(first_tail, tails, first_head, heads, activate)[k];
            &&& step matches EvalStep::Accumulate { head, tail } ==> first_head <= head < first_head
                + heads && first_tail <= tail < first_tail + tails
            &&& step matches EvalStep::Activate { node } ==> activate && first_tail <= node
                < first_tail + tails
        }),
{
    let per: int = if activate {
        heads + 1 as int
    } else {
        heads as int
    };
    assert(0 <= k / per < tails && 0 <= k % per < per) by (nonlinear_arith)
        requires 0 <= k < tails * per, per > 0;
}

/// Every accumulation of the evaluation order follows a legal edge, and every
/// activation is of an inner node.
pub proof fn lemma_evaluation_order_legal(k: int)
    requires
        0 <= k < evaluation_order_spec().len(),
    ensures
        evaluation_order_spec()[k] matches EvalStep::Accumulate { head, tail } ==> is_legal_edge(
            head as nat,
            tail as nat,
        ),
        evaluation_order_spec()[k] matches EvalStep::Activate { node } ==> is_inner_index(
            node as nat,
        ),
{
    let a = layer_pass(4, 3, 0, 4, true);
    let b = layer_pass(7, 10, 0, 4, false);
    let c = layer_pass(4, 3, 4, 3, true);
    let d = layer_pass(7, 10, 4, 3, false);
    assert(evaluation_order_spec() == a + b + c + d);
    if k < a.len() {
        lemma_layer_pass_nodes(4, 3, 0, 4, true, k);
    } else if k < a.len() + b.len() {
        lemma_layer_pass_nodes(7, 10, 0, 4, false, k - a.len());
    } else if k < a.len() + b.len() + c.len() {
        lemma_layer_pass_nodes(4, 3, 4, 3, true, k - a.len() - b.len());
    } else {
        lemma_layer_pass_nodes(7, 10, 4, 3, false, k - a.len() - b.len() - c.len());
    }
}

fn push_pass(
    steps: &mut Vec<EvalStep>,
    first_tail: usize,
    tails: usize,
    first_head: usize,
    heads: usize,
    activate: bool,
)
    requires
        first_tail + tails <= TOTAL_NODE_COUNT,
        first_head + heads <= TOTAL_NODE_COUNT,
        heads > 0,
        old(steps)@.len() + tails * (heads + 1) <= 1000,
    ensures
        final(steps)@ == old(steps)@ + layer_pass(
            first_tail as nat,
            tails as nat,
            first_head as nat,
            heads as nat,
            activate,
        ),
{
    let ghost pass = layer_pass(
        first_tail as nat,
        tails as nat,
        first_head as nat,
        heads as nat,
        activate,
    );
    let per: usize = if activate {
        heads + 1
    } else {
        heads
    };
    let ghost base = old(steps)@.len() as int;
    assert(tails * per <= tails * (heads + 1)) by (nonlinear_arith)
        requires per <= heads + 1, tails >= 0;
    let mut t: usize = 0;
    while t < tails
        invariant
            t <= tails,
            per == if activate {
                heads + 1
            } else {
                heads as int
            },
            heads > 0,
            first_tail + tails <= TOTAL_NODE_COUNT,
            first_head + heads <= TOTAL_NODE_COUNT,
            base == old(steps)@.len(),
            pass == layer_pass(first_tail as nat, tails as nat, first_head as nat, heads as nat, activate),
            tails * per <= tails * (heads + 1),
            base + tails * (heads + 1) <= 1000,
            steps@.len() == base + t * per,
            steps@.subrange(0, base) == old(steps)@,
            forall|k: int| 0 <= k < t * per ==> #[trigger] steps@[base + k] == pass[k],
        decreases tails - t,
    {
        assert(t * per + per <= tails * per) by (nonlinear_arith)
            requires t < tails, per >= 0;
        let mut h: usize = 0;
        while h < per
            invariant
                t < tails,
                h <= per,
                per == if activate {
                    heads + 1
                } else {
                    heads as int
                },
                heads > 0,
                first_tail + tails <= TOTAL_NODE_COUNT,
                first_head + heads <= TOTAL_NODE_COUNT,
                base == old(steps)@.len(),
                pass == layer_pass(first_tail as nat, tails as nat, first_head as nat, heads as nat, activate),
                t * per + per <= tails * per,
                tails * per <= tails * (heads + 1),
                base + tails * (heads + 1) <= 1000,
                steps@.len() == base + t * per + h,
                steps@.subrange(0, base) == old(steps)@,
                forall|k: int| 0 <= k < t * per + h ==> #[trigger] steps@[base + k] == pass[k],
            decreases per - h,
        {
            let step = if h < heads {
                EvalStep::Accumulate { head: first_head + h, tail: first_tail + t }
            } else {
                EvalStep::Activate { node: first_tail + t }
            };
            proof {
                let k = t * per + h;
                assert(k / per as int == t && k % per as int == h) by (nonlinear_arith)
                    requires k == t * per + h, h < per, 0 <= h, 0 <= t;
                assert(pass[k as int] == step);
            }
            let ghost prev = steps@;
            steps.push(step);
            proof {
                assert(steps@.subrange(0, base) =~= prev.subrange(0, base));
                assert forall|k: int| 0 <= k < t * per + h + 1 implies #[trigger] steps@[base + k]
                    == pass[k] by {
                    if k < t * per + h {
                        assert(prev[base + k] == pass[k]);
                    }
                }
            }
            h = h + 1;
        }
        proof {
            assert((t + 1) * per == t * per + per) by (nonlinear_arith);
        }
        t = t + 1;
    }
    proof {
        assert(steps@ =~= old(steps)@ + pass) by {
            assert(steps@.len() == base + pass.len());
            assert forall|i: int| 0 <= i < steps@.len() implies steps@[i] == (old(steps)@ + pass)[i] by {
                if i >= base {
                    assert(steps@[base + (i - base)] == pass[i - base]);
                } else {
                    assert(steps@.subrange(0, base)[i] == old(steps)@[i]);
                }
            }
        }
    }
}

/// The order in which a network is evaluated, operation by operation.
pub fn evaluation_order() -> (r: Vec<EvalStep>)
    ensures
        r@ == evaluation_order_spec(),
{
    let mut steps: Vec<EvalStep> = Vec::new();
    push_pass(&mut steps, INPUT_NODE_COUNT, INNER_NODE_COUNT, 0, INPUT_NODE_COUNT, true);
    push_pass(
        &mut steps,
        INPUT_NODE_COUNT + INNER_NODE_COUNT,
        OUTPUT_NODE_COUNT,
        0,
        INPUT_NODE_COUNT,
        false,
    );
    push_pass(
        &mut steps,
        INPUT_NODE_COUNT,
        INNER_NODE_COUNT,
        INPUT_NODE_COUNT,
        INNER_NODE_COUNT,
        true,
    );
    push_pass(
        &mut steps,
        INPUT_NODE_COUNT + INNER_NODE_COUNT,
        OUTPUT_NODE_COUNT,
        INPUT_NODE_COUNT,
        INNER_NODE_COUNT,
        false,
    );
    steps
}

} // verus!
