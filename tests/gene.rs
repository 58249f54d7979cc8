use evolution_sim::cell::{createColor, Direction};
use evolution_sim::gene::{Gene, NodeID, NodeType};
use evolution_sim::neuron::{evaluation_order, EvalStep, NeuralNet};
use rand::rngs::StdRng;
use rand::{RngCore, SeedableRng};

#[test]
fn compare_const_and_runtime() {
    assert!(NodeID::DistX.to_int() == NodeID::DistX.get_index());
    assert!(NodeID::DistY.to_int() == NodeID::DistY.get_index());
    assert!(NodeID::Age.to_int() == NodeID::Age.get_index());
    assert!(NodeID::Oscillator.to_int() == NodeID::Oscillator.get_index());
    assert!(NodeID::Inner1.to_int() == NodeID::Inner1.get_index());
    assert!(NodeID::Inner2.to_int() == NodeID::Inner2.get_index());
    assert!(NodeID::Inner3.to_int() == NodeID::Inner3.get_index());
    assert!(NodeID::MoveNorth.to_int() == NodeID::MoveNorth.get_index());
    assert!(NodeID::MoveEast.to_int() == NodeID::MoveEast.get_index());
    assert!(NodeID::MoveSouth.to_int() == NodeID::MoveSouth.get_index());
    assert!(NodeID::MoveWest.to_int() == NodeID::MoveWest.get_index());
    assert!(NodeID::MoveRandom.to_int() == NodeID::MoveRandom.get_index());
    assert!(NodeID::MoveForward.to_int() == NodeID::MoveForward.get_index());
    assert!(NodeID::MoveRight.to_int() == NodeID::MoveRight.get_index());
    assert!(NodeID::MoveLeft.to_int() == NodeID::MoveLeft.get_index());
    assert!(NodeID::MoveReverse.to_int() == NodeID::MoveReverse.get_index());
    assert!(NodeID::KillForward.to_int() == NodeID::KillForward.get_index());
}

#[test]
fn node_numbering_round_trips() {
    for i in 0..17 {
        assert_eq!(NodeID::from_index(i).get_index(), i);
    }
    for i in 0..10 {
        assert_eq!(NodeID::as_output(i).get_output_index(), i);
        assert_eq!(NodeID::from_output_index(i), NodeID::as_output(i));
    }
    for i in 0..3 {
        assert_eq!(NodeID::as_inner(i).get_inner_index(), i);
        assert!(NodeID::as_inner(i).is_inner());
    }
    for i in 0..4 {
        assert_eq!(NodeID::as_input(i).get_input_index(), i);
        assert!(NodeID::as_input(i).is_input());
    }
    assert_eq!(NodeID::MoveEast.get_output_index(), 1);
    assert_eq!(NodeID::Inner3.get_inner_index(), 2);
    assert!(NodeID::KillForward.is_output());
    assert!(!NodeID::Inner1.is_output());
    assert_eq!(NodeID::Age.get_type(), NodeType::INPUT);
    assert_eq!(NodeID::Inner2.get_type(), NodeType::INNER);
    assert_eq!(NodeID::MoveLeft.get_type(), NodeType::OUTPUT);
}

#[test]
fn known_gene_decodes_to_its_fields() {
    let g = Gene::new(0x0509_1234);
    assert_eq!(g.gene, 0x0509_1234);
    assert_eq!(g.get_head_node_id(), NodeID::Inner2);
    assert_eq!(g.get_tail_node_id(), NodeID::MoveRight);
    assert_eq!(g.get_raw_weight(), 0x1234);
    assert_eq!(g.get_head_type(), NodeType::INNER);
    assert_eq!(g.get_tail_type(), NodeType::OUTPUT);

    let g = Gene::new(0x0203_FFFF);
    assert_eq!(g.get_head_node_id(), NodeID::Age);
    assert_eq!(g.get_tail_node_id(), NodeID::MoveNorth);
    assert_eq!(g.get_raw_weight(), -1);
    assert_eq!(g.get_head_type(), NodeType::INPUT);
}

#[test]
fn normalization_brings_fields_into_range() {
    let g = Gene::new(0xFFFF_FFFF);
    assert_eq!(g.gene, 0x0308_FFFF);
    assert_eq!(g.get_head_node_id(), NodeID::Oscillator);
    assert_eq!(g.get_tail_node_id(), NodeID::MoveForward);
    assert_eq!(g.get_raw_weight(), -1);
    assert_eq!(Gene::new(0x0000_8000).get_raw_weight(), -32768);
    assert_eq!(Gene::new(0x0000_7FFF).get_raw_weight(), 32767);
    assert_eq!(Gene::new(0x070D_0000).gene, 0);
}

#[test]
fn every_random_gene_is_a_legal_edge() {
    let mut rng = StdRng::seed_from_u64(11);
    for _ in 0..100_000 {
        let raw = rng.next_u32();
        for g in [Gene { gene: raw }, Gene::new(raw), Gene::new_random(&mut rng)] {
            let head = g.get_head_node_id();
            let tail = g.get_tail_node_id();
            assert!(head.is_input() || head.is_inner());
            assert!(tail.is_inner() || tail.is_output());
            assert!(g.get_connection_index() < NodeID::get_max_connections());
        }
    }
}

#[test]
fn connection_slots_are_distinct() {
    let mut seen = vec![false; NodeID::get_max_connections()];
    for h in 0..7 {
        for t in 4..17 {
            let slot = NeuralNet::get_connection_index(NodeID::from_index(h), NodeID::from_index(t));
            assert!(!seen[slot]);
            seen[slot] = true;
        }
    }
    assert!(seen.iter().all(|s| *s));
    assert_eq!(NodeID::get_max_connections(), 91);
    assert_eq!(NeuralNet::get_connection_index(NodeID::Age, NodeID::Inner2), 7);
    assert_eq!(NeuralNet::get_connection_index(NodeID::DistY, NodeID::MoveEast), 23);
    assert_eq!(NeuralNet::get_connection_index(NodeID::Inner3, NodeID::Inner1), 58);
    assert_eq!(NeuralNet::get_connection_index(NodeID::Inner2, NodeID::KillForward), 80);
}

#[test]
fn weights_of_one_edge_add_up() {
    let a = Gene::new(0x0509_0010);
    let b = Gene::new(0x0509_FFFE);
    let c = Gene::new(0x0000_0005);
    let net = NeuralNet::new(&[a, b, c, a]);
    let slot = a.get_connection_index();
    assert_eq!(net.get_weight(slot), 16 - 2 + 16);
    assert_eq!(net.get_weight(c.get_connection_index()), 5);
    let mut nonzero = 0;
    for s in 0..91 {
        if net.get_weight(s) != 0 {
            nonzero += 1;
        }
    }
    assert_eq!(nonzero, 2);
    let empty = NeuralNet::new(&[]);
    assert_eq!(empty.get_weight(0), 0);
}

#[test]
fn color_of_known_genomes() {
    assert_eq!(createColor(&[Gene::new(0)]), (15, 120, 224));
    assert_eq!(createColor(&[Gene::new(0x0101_0000)]), (79, 72, 48));
    assert_eq!(createColor(&[Gene::new(0x0101_0000), Gene::new(0x0509_1234)]), (69, 168, 160));
}

#[test]
fn rotations_of_headings() {
    let all = [
        Direction::North,
        Direction::NorthEast,
        Direction::East,
        Direction::SouthEast,
        Direction::South,
        Direction::SouthWest,
        Direction::West,
        Direction::NorthWest,
    ];
    for d in all {
        let (dx, dy) = d.get_move_offset();
        assert_eq!(d.rotateCCW90().get_move_offset(), (-dy, dx));
        assert_eq!(d.rotateCW90().get_move_offset(), (dy, -dx));
        assert_eq!(d.rotate180().get_move_offset(), (-dx, -dy));
        assert_eq!(Direction::get_dir_from_offset((dx, dy)), d);
    }
    assert_eq!(Direction::North.rotateCCW90(), Direction::West);
    assert_eq!(Direction::NorthEast.rotateCW90(), Direction::SouthEast);
    assert_eq!(Direction::SouthWest.rotate180(), Direction::NorthEast);
    assert_eq!(Direction::get_dir_from_offset((1, -1)), Direction::SouthEast);
}

#[test]
fn evaluation_runs_layer_by_layer() {
    let order = evaluation_order();
    assert_eq!(order.len(), 15 + 40 + 12 + 30);
    assert_eq!(order[0], EvalStep::Accumulate { head: 0, tail: 4 });
    assert_eq!(order[3], EvalStep::Accumulate { head: 3, tail: 4 });
    assert_eq!(order[4], EvalStep::Activate { node: 4 });
    assert_eq!(order[14], EvalStep::Activate { node: 6 });
    assert_eq!(order[15], EvalStep::Accumulate { head: 0, tail: 7 });
    assert_eq!(order[54], EvalStep::Accumulate { head: 3, tail: 16 });
    assert_eq!(order[55], EvalStep::Accumulate { head: 4, tail: 4 });
    assert_eq!(order[58], EvalStep::Activate { node: 4 });
    assert_eq!(order[66], EvalStep::Activate { node: 6 });
    assert_eq!(order[67], EvalStep::Accumulate { head: 4, tail: 7 });
    assert_eq!(order[96], EvalStep::Accumulate { head: 6, tail: 16 });
}
