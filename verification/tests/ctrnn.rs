use ctrnn::fixed::Fixed;
use ctrnn::node::Node;
use ctrnn::CTRNN;

fn fx(raw: i64) -> Fixed {
    Fixed { raw }
}

fn column(raws: &[i64]) -> Vec<Fixed> {
    raws.iter().map(|raw| fx(*raw)).collect()
}

#[test]
fn node_new_keeps_its_arguments() {
    let node = Node::new(fx(1_100_000_000_000_000), fx(250_000_000_000_000));
    assert_eq!(node.bias, fx(1_100_000_000_000_000));
    assert_eq!(node.time_constant, fx(250_000_000_000_000));
}

#[test]
fn node_default() {
    let node = Node::default();
    assert_eq!(node.bias, fx(0));
    assert_eq!(node.time_constant, fx(1_000_000_000_000_000));
}

#[test]
fn new_ctrnn_has_default_content() {
    let net = CTRNN::new(3);
    assert_eq!(net.count(), 3);
    assert_eq!(net.states(), &column(&[500_000_000_000_000, 500_000_000_000_000, 500_000_000_000_000]));
    for i in 0..3 {
        assert_eq!(net.nodes()[i], Node::default());
        assert_eq!(net.weights()[i], column(&[0, 0, 0]));
    }
}

#[test]
fn empty_ctrnn() {
    let mut net = CTRNN::new(0);
    assert!(net.tick(column(&[1, 2]), fx(100_000_000_000_000)).is_some());
    assert_eq!(net.count(), 0);
    assert!(net.states().is_empty());
    assert!(net.nodes().is_empty());
    assert!(net.weights().is_empty());
}

#[test]
fn ctrnn_setters_write_one_entry() {
    let mut net = CTRNN::new(3);
    net.set_weight(0, 2, fx(1_000_000_000_000_000)).set_weight(1, 2, fx(-1_000_000_000_000_000));
    net.set_bias(0, fx(1_100_000_000_000_000)).set_time_constant(1, fx(700_000_000_000_000));
    assert_eq!(net.weights()[2], column(&[1_000_000_000_000_000, -1_000_000_000_000_000, 0]));
    assert_eq!(net.weights()[0], column(&[0, 0, 0]));
    assert_eq!(net.weights()[1], column(&[0, 0, 0]));
    assert_eq!(net.nodes()[0], Node::new(fx(1_100_000_000_000_000), fx(1_000_000_000_000_000)));
    assert_eq!(net.nodes()[1], Node::new(fx(0), fx(700_000_000_000_000)));
    assert_eq!(net.nodes()[2], Node::default());
    assert_eq!(net.states(), &column(&[500_000_000_000_000, 500_000_000_000_000, 500_000_000_000_000]));
}

#[test]
fn a_new_ctrnn_drifts_toward_its_outputs() {
    let mut net = CTRNN::new(3);
    assert!(net.tick(vec![], fx(0)).is_some());
    assert_eq!(net.states(), &column(&[500_000_000_000_000, 500_000_000_000_000, 500_000_000_000_000]));
    assert!(net.tick(vec![], fx(1_000_000_000_000_000)).is_some());
    assert_eq!(net.states(), &column(&[500_000_000_000_000, 500_000_000_000_000, 500_000_000_000_000]));
}

#[test]
fn tick_takes_inputs_and_integrates_the_rest() {
    let mut net = CTRNN::new(3);
    assert!(net.tick(column(&[1_000_000_000_000_000]), fx(16_666_666_666_666)).is_some());
    assert_eq!(net.states(), &column(&[1_000_000_000_000_000, 500_000_000_000_000, 500_000_000_000_000]));

    net.set_weight(0, 2, fx(1_000_000_000_000_000));
    net.set_weight(1, 2, fx(1_000_000_000_000_000));
    net.set_weight(2, 1, fx(-3_000_000_000_000_000));
    net.set_bias(1, fx(1_100_000_000_000_000));
    net.set_time_constant(2, fx(500_000_000_000_000));
    assert!(net.tick(column(&[1_000_000_000_000_000]), fx(100_000_000_000_000)).is_some());
    assert_eq!(net.states(), &column(&[1_000_000_000_000_000, 456_913_842_034_335, 563_514_895_238_728]));

    assert!(net.tick(vec![], fx(100_000_000_000_000)).is_some());
    assert_eq!(net.states(), &column(&[950_000_000_000_000, 417_006_184_535_791, 613_023_956_409_523]));

    assert!(net.tick(column(&[1, 2, 3, 4, 5]), fx(100_000_000_000_000)).is_some());
    assert_eq!(net.states(), &column(&[1, 2, 3]));
}

#[test]
fn tick_reads_the_states_from_before_the_cycle() {
    let mut net = CTRNN::new(2);
    net.set_weight(0, 1, fx(1_000_000_000_000_000));
    assert!(net.tick(column(&[1_000_000_000_000_000]), fx(1_000_000_000_000_000)).is_some());
    assert_eq!(net.states(), &column(&[1_000_000_000_000_000, 622_459_331_201_854]));
    assert_eq!(net.states()[0].raw as f64 / 1e15, 1.0);
    assert!((net.states()[1].raw as f64 / 1e15 - 0.6224593312018546).abs() < 1e-12);
}

#[test]
fn tick_matches_the_real_valued_equation() {
    let mut net = CTRNN::new(3);
    net.set_weight(0, 2, fx(1_000_000_000_000_000));
    net.set_weight(1, 2, fx(1_000_000_000_000_000));
    net.set_weight(2, 1, fx(-3_000_000_000_000_000));
    net.set_bias(1, fx(1_100_000_000_000_000));
    net.set_time_constant(2, fx(500_000_000_000_000));
    let w = [[0.0f64, 0.0, 0.0], [0.0, 0.0, -3.0], [1.0, 1.0, 0.0]];
    let bias = [0.0f64, 1.1, 0.0];
    let tau = [1.0f64, 1.0, 0.5];
    let mut states = [0.5f64, 0.5, 0.5];
    for _ in 0..40 {
        assert!(net.tick(vec![], fx(125_000_000_000_000)).is_some());
        let mut next = states;
        for i in 0..3 {
            let mut sum = 0.0;
            for j in 0..3 {
                sum += w[i][j] * states[j];
            }
            let delta = (1.0 / (1.0 + (-(sum - bias[i])).exp()) - states[i]) / tau[i];
            next[i] = states[i] + delta * 0.125;
        }
        states = next;
        for i in 0..3 {
            assert!((net.states()[i].raw as f64 / 1e15 - states[i]).abs() < 1e-12);
        }
    }
}

#[test]
fn a_zero_time_constant_makes_the_cycle_singular() {
    let mut net = CTRNN::new(3);
    net.set_time_constant(1, fx(0));
    let before = net.states().clone();
    assert!(net.tick(vec![], fx(100_000_000_000_000)).is_none());
    assert_eq!(net.states(), &before);
    assert!(net.tick(column(&[1_000_000_000_000_000]), fx(100_000_000_000_000)).is_none());
    assert_eq!(net.states(), &before);
}

#[test]
fn an_input_spares_a_neuron_its_time_constant() {
    let mut net = CTRNN::new(3);
    net.set_time_constant(1, fx(0));
    assert!(net.tick(column(&[1_000_000_000_000_000, 2_000_000_000_000_000]), fx(0)).is_some());
    assert_eq!(net.states(), &column(&[1_000_000_000_000_000, 2_000_000_000_000_000, 500_000_000_000_000]));
}

#[test]
fn tick_chains() {
    let mut net = CTRNN::new(2);
    let fed = column(&[1_000_000_000_000_000]);
    let cleared = column(&[0]);
    let step = fx(100_000_000_000_000);
    assert!(net.tick(fed, step).and_then(|net| net.tick(cleared, step)).is_some());
    assert_eq!(net.states()[0], fx(0));
}
