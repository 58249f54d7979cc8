use rand::rngs::StdRng;
use vstd::prelude::*;

use crate::random::draw_u32;

use crate::neuron::{connection_slot, NeuralNet};

verus! {

pub const INPUT_NODE_COUNT: usize = 4;

pub const INNER_NODE_COUNT: usize = 3;

pub const OUTPUT_NODE_COUNT: usize = 10;

pub const TOTAL_NODE_COUNT: usize = 17;

/// The role of a neuron in the fixed network layout.
#[derive(Clone, Copy, Debug, PartialEq, Eq, Structural)]
pub enum NodeType {
    INPUT,
    INNER,
    OUTPUT,
}

/// Every neuron of the network: four inputs, three inner neurons and ten outputs,
/// numbered in declaration order.
#[derive(Clone, Copy, Debug, PartialEq, Eq, Structural)]
pub enum NodeID {
    DistX,
    DistY,
    Age,
    Oscillator,
    Inner1,
    Inner2,
    Inner3,
    MoveNorth,
    MoveEast,
    MoveSouth,
    MoveWest,
    MoveRandom,
    MoveForward,
    MoveRight,
    MoveLeft,
    MoveReverse,
    KillForward,
}

/// The position of a node in the numbering `0..TOTAL_NODE_COUNT`.
pub open spec fn node_index(n: NodeID) -> nat {
    match n {
        NodeID::DistX => 0,
        NodeID::DistY => 1,
        NodeID::Age => 2,
        NodeID::Oscillator => 3,
        NodeID::Inner1 => 4,
        NodeID::Inner2 => 5,
        NodeID::Inner3 => 6,
        NodeID::MoveNorth => 7,
        NodeID::MoveEast => 8,
        NodeID::MoveSouth => 9,
        NodeID::MoveWest => 10,
        NodeID::MoveRandom => 11,
        NodeID::MoveForward => 12,
        NodeID::MoveRight => 13,
        NodeID::MoveLeft => 14,
        NodeID::MoveReverse => 15,
        NodeID::KillForward => 16,
    }
}

pub open spec fn is_input_index(i: nat) -> bool {
    i < INPUT_NODE_COUNT
}

pub open spec fn is_inner_index(i: nat) -> bool {
    INPUT_NODE_COUNT <= i < INPUT_NODE_COUNT + INNER_NODE_COUNT
}

pub open spec fn is_output_index(i: nat) -> bool {
    INPUT_NODE_COUNT + INNER_NODE_COUNT <= i < TOTAL_NODE_COUNT
}

impl NodeID {
    pub fn to_int(self) -> (r: usize)
        ensures
            r == node_index(self),
    {
        match self {
            NodeID::DistX => 0,
            NodeID::DistY => 1,
            NodeID::Age => 2,
            NodeID::Oscillator => 3,
            NodeID::Inner1 => 4,
            NodeID::Inner2 => 5,
            NodeID::Inner3 => 6,
            NodeID::MoveNorth => 7,
            NodeID::MoveEast => 8,
            NodeID::MoveSouth => 9,
            NodeID::MoveWest => 10,
            NodeID::MoveRandom => 11,
            NodeID::MoveForward => 12,
            NodeID::MoveRight => 13,
            NodeID::MoveLeft => 14,
            NodeID::MoveReverse => 15,
            NodeID::KillForward => 16,
        }
    }

    /// The number of connection slots: one per legal (head, tail) pair.
    pub fn get_max_connections() -> (r: usize)
        ensures
            r == INPUT_NODE_COUNT * INNER_NODE_COUNT + INPUT_NODE_COUNT * OUTPUT_NODE_COUNT
                + INNER_NODE_COUNT * INNER_NODE_COUNT + INNER_NODE_COUNT * OUTPUT_NODE_COUNT,
            r == 91,
    {
        INPUT_NODE_COUNT * INNER_NODE_COUNT + INPUT_NODE_COUNT * OUTPUT_NODE_COUNT
            + INNER_NODE_COUNT * INNER_NODE_COUNT + INNER_NODE_COUNT * OUTPUT_NODE_COUNT
    }

    pub fn get_index(&self) -> (r: usize)
        ensures
            r == node_index(*self),
            r < TOTAL_NODE_COUNT,
    {
        self.to_int()
    }

    pub fn from_index(index: usize) -> (r: NodeID)
        requires
            index < TOTAL_NODE_COUNT,
        ensures
            node_index(r) == index,
    {
        match index {
            0 => NodeID::DistX,
            1 => NodeID::DistY,
            2 => NodeID::Age,
            3 => NodeID::Oscillator,
            4 => NodeID::Inner1,
            5 => NodeID::Inner2,
            6 => NodeID::Inner3,
            7 => NodeID::MoveNorth,
            8 => NodeID::MoveEast,
            9 => NodeID::MoveSouth,
            10 => NodeID::MoveWest,
            11 => NodeID::MoveRandom,
            12 => NodeID::MoveForward,
            13 => NodeID::MoveRight,
            14 => NodeID::MoveLeft,
            15 => NodeID::MoveReverse,
            _ => NodeID::KillForward,
        }
    }

    /// The position of an output node among the outputs.
    pub fn get_output_index(&self) -> (r: usize)
        requires
            node_index(*self) >= INPUT_NODE_COUNT + INNER_NODE_COUNT,
        ensures
            r == node_index(*self) - (INPUT_NODE_COUNT + INNER_NODE_COUNT),
            r < OUTPUT_NODE_COUNT,
    {
        self.get_index() - (INNER_NODE_COUNT + INPUT_NODE_COUNT)
    }

    /// The output node at a position among the outputs.
    pub fn from_output_index(index: usize) -> (r: NodeID)
        requires
            index < OUTPUT_NODE_COUNT,
        ensures
            node_index(r) == index + INPUT_NODE_COUNT + INNER_NODE_COUNT,
            is_output_index(node_index(r)),
    {
        NodeID::from_index(index + INPUT_NODE_COUNT + INNER_NODE_COUNT)
    }

    pub fn get_input_index(&self) -> (r: usize)
        ensures
            r == node_index(*self),
    {
        self.get_index()
    }

    pub fn get_inner_index(&self) -> (r: usize)
        requires
            node_index(*self) >= INPUT_NODE_COUNT,
        ensures
            r == node_index(*self) - INPUT_NODE_COUNT,
    {
        self.get_index() - INPUT_NODE_COUNT
    }

    pub fn as_input(value: usize) -> (r: NodeID)
        requires
            value < INPUT_NODE_COUNT,
        ensures
            node_index(r) == value,
            is_input_index(node_index(r)),
    {
        NodeID::from_index(value)
    }

    pub fn as_inner(value: usize) -> (r: NodeID)
        requires
            value < INNER_NODE_COUNT,
        ensures
            node_index(r) == value + INPUT_NODE_COUNT,
            is_inner_index(node_index(r)),
    {
        NodeID::from_index(value + INPUT_NODE_COUNT)
    }

    pub fn as_output(value: usize) -> (r: NodeID)
        requires
            value < OUTPUT_NODE_COUNT,
        ensures
            node_index(r) == value + INPUT_NODE_COUNT + INNER_NODE_COUNT,
            is_output_index(node_index(r)),
    {
        NodeID::from_index(value + INPUT_NODE_COUNT + INNER_NODE_COUNT)
    }

    pub fn is_input(&self) -> (r: bool)
        ensures
            r == is_input_index(node_index(*self)),
    {
        self.to_int() < INPUT_NODE_COUNT
    }

    pub fn is_inner(&self) -> (r: bool)
        ensures
            r == is_inner_index(node_index(*self)),
    {
        let i = self.to_int();
        INPUT_NODE_COUNT <= i && i < INPUT_NODE_COUNT + INNER_NODE_COUNT
    }

    pub fn is_output(&self) -> (r: bool)
        ensures
            r == is_output_index(node_index(*self)),
    {
        let i = self.to_int();
        INPUT_NODE_COUNT + INNER_NODE_COUNT <= i && i < TOTAL_NODE_COUNT
    }

    pub fn get_type(&self) -> (r: NodeType)
        ensures
            r == NodeType::INPUT <==> is_input_index(node_index(*self)),
            r == NodeType::INNER <==> is_inner_index(node_index(*self)),
            r == NodeType::OUTPUT <==> is_output_index(node_index(*self)),
    {
        if self.is_input() {
            NodeType::INPUT
        } else if self.is_inner() {
            NodeType::INNER
        } else {
            NodeType::OUTPUT
        }
    }
}


/// The weight field: bits 0 to 15.
pub open spec fn weight_bits(g: u32) -> nat {
    (g as nat) % 0x10000
}

/// The tail field: bits 16 to 23.
pub open spec fn tail_bits(g: u32) -> nat {
    ((g as nat) / 0x10000) % 0x100
}

/// The head field: bits 24 to 31.
pub open spec fn head_bits(g: u32) -> nat {
    (g as nat) / 0x1000000
}

/// The node that a gene's edge starts at: an input or an inner node.
pub open spec fn head_node_index(g: u32) -> nat {
    head_bits(g) % (INPUT_NODE_COUNT + INNER_NODE_COUNT) as nat
}

/// The node that a gene's edge ends at: an inner or an output node.
pub open spec fn tail_node_index(g: u32) -> nat {
    (tail_bits(g) % (INNER_NODE_COUNT + OUTPUT_NODE_COUNT) as nat + INPUT_NODE_COUNT) as nat
}

/// The weight field read as a signed 16-bit integer.
pub open spec fn raw_weight_of(g: u32) -> int {
    if weight_bits(g) >= 0x8000 {
        weight_bits(g) - 0x10000
    } else {
        weight_bits(g) as int
    }
}

/// A gene with its head and tail fields brought into their legal ranges.
pub open spec fn normalized(g: u32) -> u32 {
    ((head_bits(g) % 7) * 0x1000000 + (tail_bits(g) % 13) * 0x10000 + weight_bits(g)) as u32
}

/// A directed, weighted edge of the network packed in 32 bits: the weight in
/// bits 0 to 15, the tail node in bits 16 to 23 and the head node in bits 24 to 31.
#[derive(Clone, Copy, Debug, PartialEq, Eq, Structural)]
pub struct Gene {
    pub gene: u32,
}

impl Gene {
    pub open spec fn is_normalized(self) -> bool {
        normalized(self.gene) == self.gene
    }

    pub fn new(gene: u32) -> (r: Gene)
        ensures
            r.gene == normalized(gene),
            r.is_normalized(),
            head_node_index(r.gene) == head_node_index(gene),
            tail_node_index(r.gene) == tail_node_index(gene),
            raw_weight_of(r.gene) == raw_weight_of(gene),
    {
        Gene { gene }.normalize()
    }

    /// A gene made from 32 random bits.
    pub fn new_random(rng: &mut StdRng) -> (r: Gene)
        ensures
            r.is_normalized(),
    {
        Gene::new(draw_u32(rng))
    }

    fn normalize(self) -> (r: Gene)
        ensures
            r.gene == normalized(self.gene),
            r.is_normalized(),
            head_node_index(r.gene) == head_node_index(self.gene),
            tail_node_index(r.gene) == tail_node_index(self.gene),
            raw_weight_of(r.gene) == raw_weight_of(self.gene),
    {
        let g = self.gene;
        let weight = g & 0xFFFF;
        let tail = ((g >> 16) & 0xFF) % (INNER_NODE_COUNT + OUTPUT_NODE_COUNT) as u32;
        let head = ((g >> 24) & 0xFF) % (INPUT_NODE_COUNT + INNER_NODE_COUNT) as u32;
        proof {
            assert(weight == g % 0x10000) by (bit_vector)
                requires weight == g & 0xFFFF;
            assert((g >> 16) & 0xFF == (g / 0x10000) % 0x100) by (bit_vector);
            assert((g >> 24) & 0xFF == g / 0x1000000) by (bit_vector);
        }
        let r = (head << 24) | (tail << 16) | weight;
        proof {
            assert(r == head * 0x1000000 + tail * 0x10000 + weight) by (bit_vector)
                requires
                    head < 7,
                    tail < 13,
                    weight < 0x10000,
                    r == (head << 24) | (tail << 16) | weight,
            ;
            lemma_fields_of(head as nat, tail as nat, weight as nat, r);
        }
        Gene { gene: r }
    }

    /// The connection slot that this gene's weight is added to.
    pub fn get_connection_index(&self) -> (r: usize)
        ensures
            r == connection_slot(head_node_index(self.gene), tail_node_index(self.gene)),
            r < 91,
    {
        NeuralNet::get_connection_index(self.get_head_node_id(), self.get_tail_node_id())
    }

    /// Exclusive-or of the raw bits with a mask; no normalization.
    pub fn flip_bits(self, mask: u32) -> (r: Gene)
        ensures
            r.gene == self.gene ^ mask,
    {
        Gene { gene: self.gene ^ mask }
    }

    pub fn get_head_node_id(&self) -> (r: NodeID)
        ensures
            node_index(r) == head_node_index(self.gene),
            is_input_index(node_index(r)) || is_inner_index(node_index(r)),
    {
        let g = self.gene;
        let head = ((g >> 24) as usize) % (INPUT_NODE_COUNT + INNER_NODE_COUNT);
        proof {
            assert(g >> 24 == g / 0x1000000) by (bit_vector);
        }
        NodeID::from_index(head)
    }

    pub fn get_tail_node_id(&self) -> (r: NodeID)
        ensures
            node_index(r) == tail_node_index(self.gene),
            is_inner_index(node_index(r)) || is_output_index(node_index(r)),
    {
        let g = self.gene;
        let tail = (((g >> 16) & 0xFF) as usize) % (INNER_NODE_COUNT + OUTPUT_NODE_COUNT);
        proof {
            assert((g >> 16) & 0xFF == (g / 0x10000) % 0x100) by (bit_vector);
        }
        NodeID::from_index(tail + INPUT_NODE_COUNT)
    }

    pub fn get_head_type(&self) -> (r: NodeType)
        ensures
            r == NodeType::INPUT <==> is_input_index(head_node_index(self.gene)),
            r == NodeType::INNER <==> is_inner_index(head_node_index(self.gene)),
    {
        self.get_head_node_id().get_type()
    }

    pub fn get_tail_type(&self) -> (r: NodeType)
        ensures
            r == NodeType::INNER <==> is_inner_index(tail_node_index(self.gene)),
            r == NodeType::OUTPUT <==> is_output_index(tail_node_index(self.gene)),
    {
        self.get_tail_node_id().get_type()
    }

    /// The weight as the signed 16-bit integer stored in the low bits; the
    /// network scales it by `1 / WEIGHT_DIVISOR`.
    pub fn get_raw_weight(&self) -> (r: i16)
        ensures
            r as int == raw_weight_of(self.gene),
    {
        let w = self.gene & 0xFFFF;
        proof {
            let g = self.gene;
            assert(w == g % 0x10000) by (bit_vector)
                requires w == g & 0xFFFF;
        }
        if w >= 0x8000 {
            (w as i32 - 0x10000) as i16
        } else {
            w as i16
        }
    }
}

/// What a weight of one means: the raw weight divided by this many.
pub const WEIGHT_DIVISOR: u32 = 8191;

proof fn lemma_fields_of(head: nat, tail: nat, weight: nat, r: u32)
    requires
        head < 7,
        tail < 13,
        weight < 0x10000,
        r as nat == head * 0x1000000 + tail * 0x10000 + weight,
    ensures
        weight_bits(r) == weight,
        tail_bits(r) == tail,
        head_bits(r) == head,
{
    let x = r as nat;
    assert(x % 0x10000 == weight) by (nonlinear_arith)
        requires x == head * 0x1000000 + tail * 0x10000 + weight, weight < 0x10000;
    assert(x / 0x10000 == head * 0x100 + tail) by (nonlinear_arith)
        requires x == head * 0x1000000 + tail * 0x10000 + weight, weight < 0x10000;
    assert((head * 0x100 + tail) % 0x100 == tail) by (nonlinear_arith)
        requires tail < 13;
    assert(x / 0x1000000 == head) by (nonlinear_arith)
        requires x == head * 0x1000000 + tail * 0x10000 + weight, weight < 0x10000, tail < 13;
}

} // verus!
