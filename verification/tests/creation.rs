use ctrnn::rlctrnn::RLCTRNN;
use ctrnn::CTRNN;

#[test]
fn lib_creation() {
    let ctrnn = CTRNN::new(6);
    assert_eq!(ctrnn.count(), 6);
    assert_eq!(ctrnn.nodes().len(), 6);
    assert_eq!(ctrnn.weights().len(), 6);
    assert_eq!(ctrnn.states().len(), 6);
}

#[test]
fn rlctrnn_creation() {
    let ctrnn = RLCTRNN::new(6);
    assert_eq!(ctrnn.count(), 6);
    assert_eq!(ctrnn.biases().len(), 6);
    assert_eq!(ctrnn.time_constants().len(), 6);
    assert_eq!(ctrnn.weights().len(), 6);
}
