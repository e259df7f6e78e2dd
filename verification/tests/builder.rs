//! The schema-directed walk into the design model.

use pcb_parsing::dsn_struct::{DsnStruct, Shape};
use pcb_parsing::parse_to_s_expr::parse_dsn_to_s_expr;
use pcb_parsing::parse_to_struct::parse_s_expr_to_struct;

fn build(text: &str) -> Result<DsnStruct, String> {
    let (tree, _) = parse_dsn_to_s_expr(text).map_err(|e| e)?;
    parse_s_expr_to_struct(&tree)
}

fn sample() -> String {
    "(pcb\n  (parser anything)\n  (resolution um 10)\n  (structure\n    (layer F.Cu)\n    (layer B.Cu)\n    (boundary (path pcb 0 0 0 10 0 10 20 0 20))\n    (via anything)\n  )\n  (placement\n    (component conn (place J1 10 0 front 90)))\n  (library\n    (image conn\n      (outline ignored)\n      (pin round 1 1 0)\n      (pin round 2 2 0))\n    (padstack round (shape (circle F.Cu 0.8)))\n    (padstack via0 (shape (circle F.Cu 0.4))))\n  (network\n    (net sig (pins J1-1 J1-2))\n    (class default sig (circuit (use_via via0)) (rule (width 0.25) (clearance 0.2))))\n)"
    .to_string()
}

#[test]
fn builds_the_full_design_model() {
    let dsn = build(&sample()).unwrap();
    assert_eq!(dsn.resolution.unit, "um");
    assert_eq!(dsn.resolution.value, 10_000_000);
    assert_eq!(dsn.structure.layers.len(), 2);
    assert_eq!(dsn.structure.layers[0].name, "F.Cu");
    assert_eq!(dsn.placement.components.len(), 1);
    let inst = &dsn.placement.components[0].instances[0];
    assert_eq!(inst.reference, "J1");
    assert_eq!(inst.position, (10_000_000, 0));
    assert_eq!(inst.rotation, 90_000_000);
    assert_eq!(dsn.library.images.len(), 1);
    assert_eq!(dsn.library.images[0].pins.len(), 2);
    assert_eq!(dsn.library.pad_stacks.len(), 2);
    let net = &dsn.network.nets[0];
    assert_eq!(net.name, "sig");
    assert_eq!(net.pins.len(), 2);
    assert_eq!(net.pins[0].component_name, "J1");
    assert_eq!(net.pins[0].pin_number, 1);
    let class = &dsn.network.netclasses[0];
    assert_eq!(class.net_class_name, "default");
    assert_eq!(class.net_names, vec!["sig".to_string()]);
    assert_eq!(class.via_name, "via0");
    assert_eq!(class.width, 250_000);
    assert_eq!(class.clearance, 200_000);
}

#[test]
fn boundary_pairs_are_half_the_numeric_run() {
    // Six numbers after the three headers: three coordinate pairs.
    let dsn = build(&sample()).unwrap();
    let pts = &dsn.structure.boundary.0;
    assert_eq!(pts.len(), 4);
    assert_eq!(pts[0], (0, 0));
    assert_eq!(pts[1], (10_000_000, 0));
    assert_eq!(pts[2], (10_000_000, 20_000_000));
    assert_eq!(pts[3], (0, 20_000_000));
}

#[test]
fn odd_boundary_run_is_an_error() {
    let text = sample().replace("0 0 0 10 0 10 20 0 20", "0 0 0 10 0 10 20 0");
    assert!(build(&text).is_err());
}

#[test]
fn unknown_top_level_keyword_fails_naming_it() {
    let text = sample().replace("(parser anything)", "(bogus 1 2)");
    let err = build(&text).unwrap_err();
    assert!(err.contains("bogus"), "error was: {}", err);
}

#[test]
fn unknown_structure_item_is_an_error() {
    let text = sample().replace("(layer F.Cu)", "(mystery F.Cu)");
    assert!(build(&text).is_err());
}

#[test]
fn missing_section_is_an_error() {
    let text = sample().replace("(resolution um 10)", "");
    let err = build(&text).unwrap_err();
    assert!(err.contains("resolution"), "error was: {}", err);
}

#[test]
fn duplicate_pin_number_keeps_the_later_pin() {
    let text = sample().replace("(pin round 2 2 0)", "(pin round 1 5 7)");
    let dsn = build(&text).unwrap();
    let pins = &dsn.library.images[0].pins;
    assert_eq!(pins.len(), 1);
    assert_eq!(pins[0].pin_number, 1);
    assert_eq!(pins[0].position, (5_000_000, 7_000_000));
}

#[test]
fn second_shape_marks_the_padstack_through_hole() {
    let text = sample().replace(
        "(padstack round (shape (circle F.Cu 0.8)))",
        "(padstack round (shape (circle F.Cu 0.8)) (shape (circle B.Cu 0.8)))",
    );
    let dsn = build(&text).unwrap();
    let ps = dsn
        .library
        .pad_stacks
        .iter()
        .find(|p| p.name == "round")
        .unwrap();
    assert!(ps.through_hole);
    match ps.shape {
        Shape::Circle { diameter } => assert_eq!(diameter, 800_000),
        _ => panic!("expected the first, circular shape to be kept"),
    }
}

#[test]
fn pin_reference_with_two_dashes_is_an_error() {
    let text = sample().replace("J1-1", "J1-1-2");
    assert!(build(&text).is_err());
}

#[test]
fn malformed_rotation_is_an_error() {
    let text = sample().replace("front 90)", "front ninety)");
    assert!(build(&text).is_err());
}

#[test]
fn rect_shape_reads_its_four_coordinates() {
    let text = sample().replace(
        "(padstack round (shape (circle F.Cu 0.8)))",
        "(padstack round (shape (rect F.Cu -0.5 -0.25 0.5 0.25)))",
    );
    let dsn = build(&text).unwrap();
    let ps = dsn
        .library
        .pad_stacks
        .iter()
        .find(|p| p.name == "round")
        .unwrap();
    match ps.shape {
        Shape::Rect {
            x_min,
            y_min,
            x_max,
            y_max,
        } => {
            assert_eq!(x_min, -500_000);
            assert_eq!(y_min, -250_000);
            assert_eq!(x_max, 500_000);
            assert_eq!(y_max, 250_000);
        }
        _ => panic!("expected a rectangle"),
    }
}

#[test]
fn netclass_without_circuit_or_rule_keeps_defaults() {
    let text = sample().replace(
        "(class default sig (circuit (use_via via0)) (rule (width 0.25) (clearance 0.2)))",
        "(class default sig)",
    );
    let dsn = build(&text).unwrap();
    let class = &dsn.network.netclasses[0];
    assert_eq!(class.via_name, "");
    assert_eq!(class.width, 0);
    assert_eq!(class.clearance, 0);
}

#[test]
fn later_section_of_the_same_kind_wins() {
    let text = sample().replace(
        "(resolution um 10)",
        "(resolution um 10) (resolution mm 2)",
    );
    let dsn = build(&text).unwrap();
    assert_eq!(dsn.resolution.unit, "mm");
    assert_eq!(dsn.resolution.value, 2_000_000);
}

#[test]
fn bare_atoms_at_top_level_are_skipped() {
    let text = sample().replace("(parser anything)", "stray atoms here");
    assert!(build(&text).is_ok());
}

#[test]
fn later_image_with_the_same_name_replaces_the_earlier() {
    let text = sample().replace(
        "(padstack round (shape (circle F.Cu 0.8)))",
        "(image conn (pin round 7 0 0))\n    (padstack round (shape (circle F.Cu 0.8)))",
    );
    let dsn = build(&text).unwrap();
    assert_eq!(dsn.library.images.len(), 1);
    assert_eq!(dsn.library.images[0].pins.len(), 1);
    assert_eq!(dsn.library.images[0].pins[0].pin_number, 7);
}

#[test]
fn polygon_with_three_vertex_pairs_is_read() {
    let text = sample().replace(
        "(padstack round (shape (circle F.Cu 0.8)))",
        "(padstack round (shape (polygon F.Cu 0.3 0 0 1 0 0 1)))",
    );
    let dsn = build(&text).unwrap();
    let ps = dsn
        .library
        .pad_stacks
        .iter()
        .find(|p| p.name == "round")
        .unwrap();
    match &ps.shape {
        Shape::Polygon {
            aperture_width,
            vertices,
        } => {
            assert_eq!(*aperture_width, 300_000);
            assert_eq!(
                vertices,
                &vec![(0, 0), (1_000_000, 0), (0, 1_000_000)]
            );
        }
        _ => panic!("expected a polygon"),
    }
}

#[test]
fn polygon_with_fewer_than_three_vertex_pairs_is_an_error() {
    let text = sample().replace(
        "(padstack round (shape (circle F.Cu 0.8)))",
        "(padstack round (shape (polygon F.Cu 0.3 0 0 1 0)))",
    );
    assert!(build(&text).is_err());
}

#[test]
fn polygon_with_an_unpaired_coordinate_is_an_error() {
    let text = sample().replace(
        "(padstack round (shape (circle F.Cu 0.8)))",
        "(padstack round (shape (polygon F.Cu 0.3 0 0 1 0 0 1 2)))",
    );
    assert!(build(&text).is_err());
}
