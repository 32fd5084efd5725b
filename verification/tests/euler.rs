use dzahui::euler::EulerSolver;

fn decay(x: &[f64; 2]) -> f64 {
    -x[0]
}

#[test]
fn solver_keeps_its_function() {
    let solver: EulerSolver<[f64; 2], fn(&[f64; 2]) -> f64> = EulerSolver::new(decay);
    let f = solver.derivative_function();
    assert_eq!(f(&[1.5, 0.0]), -1.5);
}
