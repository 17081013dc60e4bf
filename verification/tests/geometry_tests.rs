const AXIS: [f64; 3] = [0.8095934154839622, 0.5869910575170738, -0.0];

#[test]
fn r0050_cap_plane_is_parallel_to_both_axes_so_its_section_is_a_ruling() {
    let n = [-0.46508183200096265, 0.6414530239044496, -0.6101122090783514];
    let a = AXIS;
    let dot = n[0] * a[0] + n[1] * a[1] + n[2] * a[2];
    assert!(dot.abs() <= 1e-12, "cap normal · axis = {dot:.3e}");
}
