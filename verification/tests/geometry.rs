//! The geometric pad resolver and the display lowering.

use pcb_parsing::dsn_struct::Shape;
use pcb_parsing::pad::PadShape;
use pcb_parsing::parse_to_display::{
    build_pad_map, calculate_boundary, convert_shape, dsn_to_display, transform_point,
};
use pcb_parsing::parse_to_s_expr::parse_dsn_to_s_expr;
use pcb_parsing::parse_to_struct::parse_s_expr_to_struct;
use pcb_parsing::shapes::RectangleShape;
use pcb_parsing::trig::{cos_micro_deg, rotate_point, sin_micro_deg};

fn sample_text() -> String {
    "(pcb\n  (resolution um 10)\n  (structure\n    (layer F.Cu)\n    (boundary (path pcb 0 0 0 10 0 10 20 0 20)))\n  (placement\n    (component conn (place J1 10 0 front 90)))\n  (library\n    (image conn (pin round 1 1 0))\n    (padstack round (shape (circle F.Cu 0.8)))\n    (padstack via0 (shape (circle F.Cu 0.4))))\n  (network\n    (net sig (pins J1-1))\n    (class default sig (circuit (use_via via0)) (rule (width 0.25) (clearance 0.2))))\n)"
    .to_string()
}

fn sample_dsn() -> pcb_parsing::dsn_struct::DsnStruct {
    let (tree, _) = parse_dsn_to_s_expr(&sample_text()).unwrap();
    parse_s_expr_to_struct(&tree).unwrap()
}

#[test]
fn quadrant_sines_and_cosines_are_exact() {
    assert_eq!(sin_micro_deg(0), 0);
    assert_eq!(sin_micro_deg(90_000_000), 1_000_000);
    assert_eq!(sin_micro_deg(180_000_000), 0);
    assert_eq!(sin_micro_deg(270_000_000), -1_000_000);
    assert_eq!(sin_micro_deg(-90_000_000), -1_000_000);
    assert_eq!(cos_micro_deg(0), 1_000_000);
    assert_eq!(cos_micro_deg(90_000_000), 0);
    assert_eq!(cos_micro_deg(180_000_000), -1_000_000);
}

#[test]
fn rotation_by_45_degrees_matches_the_table() {
    let (x, y) = rotate_point(1_000_000, 0, 45_000_000);
    assert_eq!(x, 707_107);
    assert_eq!(y, 707_107);
}

#[test]
fn pin_at_local_one_zero_rotated_90_lands_at_ten_one() {
    // A component at (10, 0) rotated 90 degrees counter-clockwise, with
    // a pin at local (1, 0): the pad lands at (10, 1), exactly.
    let p = transform_point((1_000_000, 0), 90_000_000, (10_000_000, 0));
    let x = p.0 as f64 / 1e6;
    let y = p.1 as f64 / 1e6;
    assert!((x - 10.0).abs() < 1e-6, "x was {}", x);
    assert!((y - 1.0).abs() < 1e-6, "y was {}", y);
}

#[test]
fn pad_map_places_the_rotated_pin() {
    let dsn = sample_dsn();
    let map = build_pad_map(&dsn).unwrap();
    assert_eq!(map.len(), 1);
    let pad = &map[0];
    assert_eq!(pad.component_name, "J1");
    assert_eq!(pad.pin_number, 1);
    assert_eq!(pad.position, (10_000_000, 1_000_000));
    assert_eq!(pad.rotation, 90_000_000);
    match pad.shape {
        PadShape::Circle { diameter } => assert_eq!(diameter, 800_000),
        _ => panic!("expected a circle"),
    }
}

#[test]
fn missing_image_or_padstack_fails_naming_it() {
    let mut dsn = sample_dsn();
    dsn.library.images.clear();
    let err = build_pad_map(&dsn).unwrap_err();
    assert!(err.contains("conn"), "error was: {}", err);
    let mut dsn2 = sample_dsn();
    dsn2.library.pad_stacks.clear();
    assert!(build_pad_map(&dsn2).is_err());
}

#[test]
fn board_extent_comes_from_the_boundary_box() {
    let dsn = sample_dsn();
    let (width, height, center) = calculate_boundary(&dsn.structure.boundary).unwrap();
    assert_eq!(width, 10_000_000);
    assert_eq!(height, 20_000_000);
    assert_eq!(center, (5_000_000, 10_000_000));
}

#[test]
fn empty_boundary_is_an_error() {
    let empty = pcb_parsing::dsn_struct::Boundary(Vec::new());
    assert!(calculate_boundary(&empty).is_err());
}

#[test]
fn shapes_lower_to_pad_footprints() {
    match convert_shape(&Shape::Circle { diameter: 5 }).unwrap() {
        PadShape::Circle { diameter } => assert_eq!(diameter, 5),
        _ => panic!("expected a circle"),
    }
    match convert_shape(&Shape::Rect {
        x_min: -500_000,
        y_min: -250_000,
        x_max: 500_000,
        y_max: 250_000,
    })
    .unwrap()
    {
        PadShape::Rectangle { width, height } => {
            assert_eq!(width, 1_000_000);
            assert_eq!(height, 500_000);
        }
        _ => panic!("expected a rectangle"),
    }
    let polygon = Shape::Polygon {
        aperture_width: 300_000,
        vertices: vec![(0, 0), (1, 0), (0, 1)],
    };
    match convert_shape(&polygon).unwrap() {
        PadShape::RoundRect {
            width,
            height,
            corner_radius,
        } => {
            assert_eq!(width, 300_000);
            assert_eq!(height, 300_000);
            assert_eq!(corner_radius, 0);
        }
        _ => panic!("expected the square approximation"),
    }
    let thin = Shape::Polygon {
        aperture_width: 300_000,
        vertices: vec![(0, 0), (1, 0)],
    };
    assert!(convert_shape(&thin).is_err());
}

#[test]
fn display_lowering_bundles_net_and_netclass() {
    let dsn = sample_dsn();
    let (display, extra) = dsn_to_display(dsn).unwrap();
    assert_eq!(display.width, 10_000_000);
    assert_eq!(display.nets.len(), 1);
    let net = &display.nets[0];
    assert_eq!(net.net_name.0, "sig");
    assert_eq!(net.pads.len(), 1);
    assert_eq!(net.pads[0].name.0, "J1-1");
    assert_eq!(net.pads[0].position, (10_000_000, 1_000_000));
    assert_eq!(net.pads[0].clearance, 200_000);
    assert_eq!(net.net_class_name.0, "default");
    assert_eq!(net.default_trace_width, 250_000);
    assert_eq!(net.default_trace_clearance, 200_000);
    assert_eq!(net.via_diameter, 400_000);
    assert!(extra.net_name_to_source_pad.is_empty());
}

#[test]
fn net_without_a_class_fails_display_lowering() {
    let mut dsn = sample_dsn();
    dsn.network.netclasses[0].net_names.clear();
    assert!(dsn_to_display(dsn).is_err());
}

#[test]
fn noncircular_via_fails_display_lowering() {
    let mut dsn = sample_dsn();
    for ps in dsn.library.pad_stacks.iter_mut() {
        if ps.name == "via0" {
            ps.shape = Shape::Rect {
                x_min: 0,
                y_min: 0,
                x_max: 1,
                y_max: 1,
            };
        }
    }
    assert!(dsn_to_display(dsn).is_err());
}

#[test]
fn rectangle_corners_rotate_about_the_center() {
    let rect = RectangleShape {
        position: (10_000_000, 0),
        width: 2_000_000,
        height: 1_000_000,
        rotation: 0,
    };
    let poly = rect.to_polygon();
    assert_eq!(poly.0.len(), 4);
    assert_eq!(poly.0[0], (9_000_000, -500_000));
    assert_eq!(poly.0[1], (11_000_000, -500_000));
    assert_eq!(poly.0[2], (11_000_000, 500_000));
    assert_eq!(poly.0[3], (9_000_000, 500_000));
    let turned = RectangleShape {
        rotation: 90_000_000,
        ..rect
    };
    let poly90 = turned.to_polygon();
    assert_eq!(poly90.0[0], (10_500_000, -1_000_000));
}

#[test]
fn missing_via_padstack_fails_display_lowering() {
    let mut dsn = sample_dsn();
    dsn.library.pad_stacks.retain(|p| p.name != "via0");
    assert!(dsn_to_display(dsn).is_err());
}

#[test]
fn via_error_names_the_via_and_the_net() {
    let mut dsn = sample_dsn();
    dsn.library.pad_stacks.retain(|p| p.name != "via0");
    let err = match dsn_to_display(dsn) {
        Ok(_) => panic!("expected an error"),
        Err(e) => e,
    };
    assert!(err.contains("via0"), "error was: {}", err);
    assert!(err.contains("sig"), "error was: {}", err);
}
