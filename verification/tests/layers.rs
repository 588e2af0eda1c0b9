use cadsd::diff_tlm::DenseCLayer;
use cadsd::sim::SimulationStrategy;

#[test]
fn dense_layer_has_the_requested_shape_filled_with_defaults() {
    let layer: DenseCLayer<i32> = DenseCLayer::new(3, 2);
    assert_eq!(layer.in_features, 3);
    assert_eq!(layer.out_features, 2);
    assert_eq!(layer.weight, vec![vec![0, 0, 0], vec![0, 0, 0]]);
    assert_eq!(layer.bias, vec![0, 0]);
}

#[test]
fn dense_layer_of_zero_width() {
    let layer: DenseCLayer<u8> = DenseCLayer::new(0, 3);
    assert_eq!(layer.weight.len(), 3);
    assert!(layer.weight.iter().all(|row| row.is_empty()));
    let layer: DenseCLayer<(f32, f32)> = DenseCLayer::new(4, 0);
    assert!(layer.weight.is_empty());
    assert!(layer.bias.is_empty());
}

#[test]
fn strategy_names() {
    assert_eq!(SimulationStrategy::from_cli_name("tlm"), SimulationStrategy::Tlm);
    assert_eq!(SimulationStrategy::from_cli_name("waveguide"), SimulationStrategy::Waveguide);
    assert_eq!(SimulationStrategy::from_cli_name("complex"), SimulationStrategy::ComplexImpedance);
    assert_eq!(SimulationStrategy::from_cli_name("fdtd"), SimulationStrategy::Tlm);
    assert_eq!(SimulationStrategy::from_cli_name("Waveguide"), SimulationStrategy::Tlm);
    assert_eq!(SimulationStrategy::from_cli_name(""), SimulationStrategy::Tlm);
}
